use gossip_node::message::{MaelstromMessage, MaelstromMessageBody, MessageType};
use gossip_node::state::{millis_or_epoch, PostAck, State};

fn to(text: &str) -> String {
    String::from(text)
}

fn forward(dest: &str, value: usize, seq: usize) -> MaelstromMessage {
    let mut body = MaelstromMessageBody::broadcast(value);
    body.msg_id = Some(seq);
    MaelstromMessage { src: to("n1"), dest: to(dest), body }
}

fn ack_from(src: &str, in_reply_to: Option<usize>) -> MaelstromMessage {
    let mut body = MaelstromMessageBody::broadcast(0);
    body.msg_type = MessageType::BroadcastOk;
    body.message = None;
    body.msg_id = Some(1);
    body.in_reply_to = in_reply_to;
    MaelstromMessage { src: to(src), dest: to("n1"), body }
}

fn pending(state: &State) -> Vec<(String, Option<usize>, u128)> {
    let mut out = Vec::new();
    for entry in state.awaiting_ack.iter() {
        out.push((entry.msg.dest.clone(), entry.msg.body.msg_id, entry.timestamp));
    }
    out
}

#[test]
fn registering_appends_with_the_given_time() {
    let mut state = State::new();
    state.add_to_ack_at(forward("n2", 5, 20_005), 100);
    state.add_to_ack_at(forward("n3", 5, 30_005), 200);
    assert_eq!(
        pending(&state),
        vec![(to("n2"), Some(20_005), 100), (to("n3"), Some(30_005), 200)]
    );
    assert_eq!(state.awaiting_ack[1].msg.body.message, Some(5));
    assert_eq!(state.awaiting_ack[1].msg.src, "n1");
}

#[test]
fn registering_reads_the_clock() {
    let mut state = State::new();
    state.add_to_ack(forward("n2", 5, 20_005));
    assert_eq!(state.awaiting_ack.len(), 1);
    assert_eq!(state.awaiting_ack[0].msg.dest, "n2");
    assert_eq!(state.awaiting_ack[0].msg.body.msg_id, Some(20_005));
    assert!(state.awaiting_ack[0].timestamp > 1_500_000_000_000);
}

#[test]
fn post_ack_registers_and_hands_the_message_back() {
    let mut state = State::new();
    let sent = state.post_ack(forward("n3", 5, 30_005));
    assert_eq!(sent.dest, "n3");
    assert_eq!(sent.src, "n1");
    assert_eq!(sent.body.msg_id, Some(30_005));
    assert_eq!(sent.body.message, Some(5));
    assert_eq!(sent.body.msg_type, MessageType::Broadcast);
    assert_eq!(state.awaiting_ack.len(), 1);
    assert_eq!(state.awaiting_ack[0].msg.dest, "n3");
    assert_eq!(state.awaiting_ack[0].msg.body.msg_id, Some(30_005));
    assert_eq!(state.awaiting_ack[0].msg.body.message, Some(5));
}

#[test]
fn matching_acknowledgment_removes_that_entry_only() {
    let mut state = State::new();
    state.add_to_ack_at(forward("n2", 5, 20_005), 1);
    state.add_to_ack_at(forward("n3", 5, 30_005), 2);
    state.add_to_ack_at(forward("n3", 6, 30_006), 3);
    state.try_remove_ack(&ack_from("n3", Some(30_005)));
    assert_eq!(
        pending(&state),
        vec![(to("n2"), Some(20_005), 1), (to("n3"), Some(30_006), 3)]
    );
}

#[test]
fn acknowledgment_needs_both_sender_and_number() {
    let mut state = State::new();
    state.add_to_ack_at(forward("n3", 5, 30_005), 1);
    state.try_remove_ack(&ack_from("n2", Some(30_005)));
    assert_eq!(state.awaiting_ack.len(), 1);
    state.try_remove_ack(&ack_from("n3", Some(30_006)));
    assert_eq!(state.awaiting_ack.len(), 1);
    state.try_remove_ack(&ack_from("n3", None));
    assert_eq!(state.awaiting_ack.len(), 1);
    state.try_remove_ack(&ack_from("n3", Some(30_005)));
    assert!(state.awaiting_ack.is_empty());
}

#[test]
fn acknowledgment_goes_by_what_it_replies_to() {
    let mut state = State::new();
    state.add_to_ack_at(forward("n3", 5, 30_005), 1);
    let mut ack = ack_from("n3", Some(30_005));
    ack.body.msg_id = Some(12);
    state.try_remove_ack(&ack);
    assert!(state.awaiting_ack.is_empty());

    state.add_to_ack_at(forward("n3", 5, 30_005), 1);
    let mut ack = ack_from("n3", Some(12));
    ack.body.msg_id = Some(30_005);
    state.try_remove_ack(&ack);
    assert_eq!(state.awaiting_ack.len(), 1);
}

#[test]
fn stale_acknowledgment_is_ignored() {
    let mut state = State::new();
    state.try_remove_ack(&ack_from("n3", Some(30_005)));
    assert!(state.awaiting_ack.is_empty());
    state.add_to_ack_at(forward("n3", 5, 30_005), 1);
    state.try_remove_ack(&ack_from("n3", Some(30_005)));
    state.try_remove_ack(&ack_from("n3", Some(30_005)));
    assert!(state.awaiting_ack.is_empty());
}

#[test]
fn acknowledgment_clears_the_earliest_of_equal_entries() {
    let mut state = State::new();
    state.add_to_ack_at(forward("n3", 5, 30_005), 1);
    state.add_to_ack_at(forward("n2", 5, 20_005), 2);
    state.add_to_ack_at(forward("n3", 5, 30_005), 3);
    state.acknowledge(&to("n3"), 30_005);
    assert_eq!(
        pending(&state),
        vec![(to("n2"), Some(20_005), 2), (to("n3"), Some(30_005), 3)]
    );
}

#[test]
fn entry_without_a_number_is_never_cleared() {
    let mut state = State::new();
    let mut unnumbered = forward("gateway", 5, 0);
    unnumbered.body.msg_id = None;
    state.add_to_ack_at(unnumbered, 1);
    state.try_remove_ack(&ack_from("gateway", None));
    state.try_remove_ack(&ack_from("gateway", Some(0)));
    assert_eq!(state.awaiting_ack.len(), 1);
}

#[test]
fn sweep_resends_what_is_overdue() {
    let mut state = State::new();
    state.add_to_ack_at(forward("n2", 5, 20_005), 100);
    state.add_to_ack_at(forward("n3", 5, 30_005), 180);
    let out = state.sweep(200, 30);
    assert_eq!(out.len(), 1);
    assert_eq!(out[0].dest, "n2");
    assert_eq!(out[0].src, "n1");
    assert_eq!(out[0].body.message, Some(5));
    assert_eq!(out[0].body.msg_id, Some(20_005));
    assert_eq!(out[0].body.msg_type, MessageType::Broadcast);
    assert_eq!(
        pending(&state),
        vec![(to("n3"), Some(30_005), 180), (to("n2"), Some(20_005), 200)]
    );
    assert_eq!(state.awaiting_ack[1].msg.body.message, Some(5));
}

#[test]
fn sweep_counts_the_threshold_itself_as_overdue() {
    let mut state = State::new();
    state.add_to_ack_at(forward("n2", 1, 20_001), 171);
    state.add_to_ack_at(forward("n3", 1, 30_001), 170);
    state.add_to_ack_at(forward("n4", 1, 40_001), 169);
    let out = state.sweep(200, 30);
    assert_eq!(out.len(), 2);
    assert_eq!(out[0].dest, "n3");
    assert_eq!(out[1].dest, "n4");
    assert_eq!(
        pending(&state),
        vec![
            (to("n2"), Some(20_001), 171),
            (to("n3"), Some(30_001), 200),
            (to("n4"), Some(40_001), 200)
        ]
    );
}

#[test]
fn sweep_leaves_fresh_entries_untouched() {
    let mut state = State::new();
    state.add_to_ack_at(forward("n2", 5, 20_005), 190);
    state.add_to_ack_at(forward("n3", 5, 30_005), 199);
    let out = state.sweep(200, 30);
    assert!(out.is_empty());
    assert_eq!(
        pending(&state),
        vec![(to("n2"), Some(20_005), 190), (to("n3"), Some(30_005), 199)]
    );
}

#[test]
fn sweep_treats_a_later_stamp_as_fresh() {
    let mut state = State::new();
    state.add_to_ack_at(forward("n2", 5, 20_005), 500);
    let out = state.sweep(200, 30);
    assert!(out.is_empty());
    assert_eq!(pending(&state), vec![(to("n2"), Some(20_005), 500)]);
    let out = state.sweep(200, 0);
    assert!(out.is_empty());
    assert_eq!(pending(&state), vec![(to("n2"), Some(20_005), 500)]);
}

#[test]
fn sweep_with_no_threshold_resends_everything_due() {
    let mut state = State::new();
    state.add_to_ack_at(forward("n2", 5, 20_005), 200);
    state.add_to_ack_at(forward("n3", 5, 30_005), 10);
    let out = state.sweep(200, 0);
    assert_eq!(out.len(), 2);
    assert_eq!(out[0].dest, "n2");
    assert_eq!(out[1].dest, "n3");
    assert_eq!(
        pending(&state),
        vec![(to("n2"), Some(20_005), 200), (to("n3"), Some(30_005), 200)]
    );
}

#[test]
fn sweep_keeps_retrying_until_acknowledged() {
    let mut state = State::new();
    state.add_to_ack_at(forward("n3", 5, 30_005), 0);
    for round in 1..=5u128 {
        let out = state.sweep(round * 30, 30);
        assert_eq!(out.len(), 1);
        assert_eq!(out[0].body.msg_id, Some(30_005));
        assert_eq!(pending(&state), vec![(to("n3"), Some(30_005), round * 30)]);
    }
    state.try_remove_ack(&ack_from("n3", Some(30_005)));
    assert!(state.sweep(1_000, 30).is_empty());
    assert!(state.awaiting_ack.is_empty());
}

#[test]
fn sweep_of_nothing_sends_nothing() {
    let mut state = State::new();
    assert!(state.sweep(5, 30).is_empty());
    assert!(state.repost_on_late().is_empty());
    assert!(state.awaiting_ack.is_empty());
}

#[test]
fn repost_on_late_resends_by_the_clock() {
    let mut state = State::new();
    state.add_to_ack_at(forward("n2", 5, 20_005), 0);
    state.add_to_ack_at(forward("n3", 5, 30_005), u128::MAX);
    let out = state.repost_on_late();
    assert_eq!(out.len(), 1);
    assert_eq!(out[0].dest, "n2");
    assert_eq!(out[0].body.msg_id, Some(20_005));
    assert_eq!(out[0].body.message, Some(5));
    assert_eq!(state.awaiting_ack.len(), 2);
    assert_eq!(state.awaiting_ack[0].msg.dest, "n3");
    assert_eq!(state.awaiting_ack[0].timestamp, u128::MAX);
    assert_eq!(state.awaiting_ack[1].msg.dest, "n2");
    assert!(state.awaiting_ack[1].timestamp > 1_500_000_000_000);
}

#[test]
fn pending_entry_clone_copies_stamp_and_envelope() {
    let entry = PostAck { timestamp: 42, msg: forward("n3", 5, 30_005) };
    let copy = entry.clone();
    assert_eq!(copy.timestamp, 42);
    assert_eq!(copy.msg.src, "n1");
    assert_eq!(copy.msg.dest, "n3");
    assert_eq!(copy.msg.body.msg_id, Some(30_005));
    assert_eq!(copy.msg.body.message, Some(5));
    assert_eq!(copy.msg.body.msg_type, MessageType::Broadcast);
}

#[test]
fn clock_without_a_reading_counts_as_the_epoch() {
    assert_eq!(millis_or_epoch(None), 0);
    assert_eq!(millis_or_epoch(Some(0)), 0);
    assert_eq!(millis_or_epoch(Some(1_700_000_000_123)), 1_700_000_000_123);
    assert_eq!(millis_or_epoch(Some(u128::MAX)), u128::MAX);
}
