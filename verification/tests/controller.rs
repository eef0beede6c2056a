use gossip_node::message::{MaelstromMessage, MaelstromMessageBody, MessageType};
use gossip_node::state::State;
use gossip_node::topology::Topology;

fn peer(text: &str) -> String {
    String::from(text)
}

fn peers(texts: &[&str]) -> Vec<String> {
    let mut out = Vec::new();
    for text in texts {
        out.push(String::from(*text));
    }
    out
}

fn request(msg_type: MessageType, msg_id: usize) -> MaelstromMessageBody {
    MaelstromMessageBody {
        msg_type,
        msg_id: Some(msg_id),
        in_reply_to: None,
        echo: None,
        node_id: None,
        id: None,
        node_ids: None,
        message: None,
        messages: None,
        topology: None,
    }
}

fn wire(src: &str, dest: &str, body: MaelstromMessageBody) -> MaelstromMessage {
    MaelstromMessage { src: peer(src), dest: peer(dest), body }
}

fn value_from(src: &str, value: usize, msg_id: usize) -> MaelstromMessage {
    let mut body = MaelstromMessageBody::broadcast(value);
    body.msg_id = Some(msg_id);
    wire(src, "n1", body)
}

fn star_table() -> Topology {
    let mut table = Topology::new();
    table.insert(peer("n1"), peers(&["n2", "n3"]));
    table.insert(peer("n2"), peers(&["n1"]));
    table.insert(peer("n3"), peers(&["n1"]));
    table
}

fn star_node() -> State {
    let mut state = State::new();
    state.node_id = peer("n1");
    state.node_ids = peers(&["n1", "n2", "n3"]);
    state.topology = star_table();
    state
}

#[test]
fn new_state_is_empty() {
    let state = State::new();
    assert_eq!(state.node_id, "");
    assert!(state.node_ids.is_empty());
    assert!(state.seen_messages.is_empty());
    assert!(state.awaiting_ack.is_empty());
    assert!(state.topology.nodes().is_empty());
    assert_eq!(State::LOOP_DELAY_MS, 10);
}

#[test]
fn init_records_the_identity_and_is_acknowledged() {
    let mut state = State::new();
    let mut body = request(MessageType::Init, 1);
    body.node_id = Some(peer("n1"));
    body.node_ids = Some(peers(&["n1", "n2", "n3"]));
    let out = state.handle(wire("c0", "n1", body));
    assert_eq!(state.node_id, "n1");
    assert_eq!(state.node_ids, peers(&["n1", "n2", "n3"]));
    assert_eq!(out.len(), 1);
    assert_eq!(out[0].src, "n1");
    assert_eq!(out[0].dest, "c0");
    assert_eq!(out[0].body.msg_type, MessageType::InitOk);
    assert_eq!(out[0].body.in_reply_to, Some(1));
    assert!(state.awaiting_ack.is_empty());
}

#[test]
fn echo_is_answered_with_its_text() {
    let mut state = star_node();
    let mut body = request(MessageType::Echo, 2);
    body.echo = Some(peer("Please echo 35"));
    let out = state.handle(wire("c1", "n1", body));
    assert_eq!(out.len(), 1);
    assert_eq!(out[0].body.msg_type, MessageType::EchoOk);
    assert_eq!(out[0].body.echo, Some(peer("Please echo 35")));
    assert_eq!(out[0].body.in_reply_to, Some(2));
    assert_eq!(out[0].dest, "c1");
    assert!(state.seen_messages.is_empty());
}

#[test]
fn generate_is_answered_with_a_fresh_identifier() {
    let mut state = star_node();
    let first = state.handle(wire("c1", "n1", request(MessageType::Generate, 3)));
    let second = state.handle(wire("c1", "n1", request(MessageType::Generate, 4)));
    assert_eq!(first.len(), 1);
    assert_eq!(first[0].body.msg_type, MessageType::GenerateOk);
    assert_eq!(first[0].body.in_reply_to, Some(3));
    let a = first[0].body.id.clone().unwrap();
    let b = second[0].body.id.clone().unwrap();
    assert_eq!(a.len(), 36);
    assert_eq!(b.len(), 36);
    assert_ne!(a, b);
    assert!(state.seen_messages.is_empty());
    assert!(state.awaiting_ack.is_empty());
}

#[test]
fn generate_hands_out_the_given_identifier() {
    let mut state = star_node();
    let out = state.handle_at(
        wire("c1", "n1", request(MessageType::Generate, 3)),
        50,
        peer("given"),
    );
    assert_eq!(out.len(), 1);
    assert_eq!(out[0].body.id, Some(peer("given")));
}

#[test]
fn same_value_twice_is_recorded_once() {
    let mut state = star_node();
    state.handle(value_from("c1", 5, 1));
    state.handle(value_from("c1", 5, 2));
    assert_eq!(state.seen_messages, vec![5]);
    let out = state.handle(wire("c1", "n1", request(MessageType::Read, 3)));
    assert_eq!(out.len(), 1);
    assert_eq!(out[0].body.msg_type, MessageType::ReadOk);
    assert_eq!(out[0].body.messages, Some(vec![5]));
}

#[test]
fn same_value_from_two_senders_is_recorded_once() {
    let mut state = star_node();
    let first = state.handle_at(value_from("n2", 5, 1), 10, String::new());
    let second = state.handle_at(value_from("n3", 5, 2), 20, String::new());
    assert_eq!(state.seen_messages, vec![5]);
    assert_eq!(first.len(), 2);
    assert_eq!(second.len(), 1);
    assert_eq!(second[0].body.msg_type, MessageType::BroadcastOk);
    assert_eq!(second[0].dest, "n3");
    assert_eq!(state.awaiting_ack.len(), 1);
    assert_eq!(state.awaiting_ack[0].timestamp, 10);
}

#[test]
fn duplicate_delivery_is_still_acknowledged() {
    let mut state = star_node();
    state.handle(value_from("c1", 5, 1));
    let out = state.handle(value_from("c1", 5, 2));
    assert_eq!(out.len(), 1);
    assert_eq!(out[0].body.msg_type, MessageType::BroadcastOk);
    assert_eq!(out[0].body.in_reply_to, Some(2));
}

#[test]
fn value_from_a_neighbour_goes_on_to_the_other_only() {
    let mut state = star_node();
    let out = state.handle_at(value_from("n2", 5, 77), 1_000, String::new());
    assert_eq!(out.len(), 2);
    assert_eq!(out[0].src, "n1");
    assert_eq!(out[0].dest, "n3");
    assert_eq!(out[0].body.msg_type, MessageType::Broadcast);
    assert_eq!(out[0].body.message, Some(5));
    assert_eq!(out[0].body.msg_id, Some(30_005));
    assert_eq!(out[1].src, "n1");
    assert_eq!(out[1].dest, "n2");
    assert_eq!(out[1].body.msg_type, MessageType::BroadcastOk);
    assert_eq!(out[1].body.in_reply_to, Some(77));
    for sent in out.iter() {
        assert!(!(sent.body.msg_type == MessageType::Broadcast && sent.dest == "n2"));
    }
    assert_eq!(state.awaiting_ack.len(), 1);
    assert_eq!(state.awaiting_ack[0].timestamp, 1_000);
    assert_eq!(state.awaiting_ack[0].msg.dest, "n3");
    assert_eq!(state.awaiting_ack[0].msg.body.msg_id, Some(30_005));
    assert_eq!(state.awaiting_ack[0].msg.body.message, Some(5));
}

#[test]
fn value_from_a_client_goes_on_to_every_neighbour() {
    let mut state = star_node();
    let out = state.handle_at(value_from("c9", 8, 1), 7, String::new());
    assert_eq!(out.len(), 3);
    assert_eq!(out[0].dest, "n2");
    assert_eq!(out[0].body.msg_id, Some(20_008));
    assert_eq!(out[1].dest, "n3");
    assert_eq!(out[1].body.msg_id, Some(30_008));
    assert_eq!(out[2].dest, "c9");
    assert_eq!(out[2].body.msg_type, MessageType::BroadcastOk);
    assert_eq!(state.awaiting_ack.len(), 2);
    assert_eq!(state.awaiting_ack[0].msg.dest, "n2");
    assert_eq!(state.awaiting_ack[1].msg.dest, "n3");
    assert_eq!(state.awaiting_ack[0].timestamp, 7);
    assert_eq!(state.awaiting_ack[1].timestamp, 7);
}

#[test]
fn value_goes_nowhere_before_a_topology_arrives() {
    let mut state = State::new();
    state.node_id = peer("n1");
    let out = state.handle(value_from("c1", 5, 1));
    assert_eq!(out.len(), 1);
    assert_eq!(out[0].body.msg_type, MessageType::BroadcastOk);
    assert_eq!(state.seen_messages, vec![5]);
    assert!(state.awaiting_ack.is_empty());
}

#[test]
fn values_are_read_back_in_order_of_first_arrival() {
    let mut state = State::new();
    state.node_id = peer("n1");
    state.handle(value_from("c1", 7, 1));
    state.handle(value_from("c1", 3, 2));
    state.handle(value_from("c1", 7, 3));
    let out = state.handle(wire("c1", "n1", request(MessageType::Read, 4)));
    assert_eq!(out.len(), 1);
    assert_eq!(out[0].body.msg_type, MessageType::ReadOk);
    assert_eq!(out[0].body.messages, Some(vec![7, 3]));
    assert_eq!(out[0].body.in_reply_to, Some(4));
    assert_eq!(state.seen_messages, vec![7, 3]);
}

#[test]
fn read_of_a_new_node_is_empty() {
    let mut state = State::new();
    let out = state.handle(wire("c1", "n1", request(MessageType::Read, 4)));
    assert_eq!(out[0].body.messages, Some(Vec::new()));
}

#[test]
fn later_topology_replaces_the_earlier() {
    let mut state = State::new();
    state.node_id = peer("n1");
    let mut first = request(MessageType::Topology, 1);
    first.topology = Some(star_table());
    let out = state.handle(wire("c1", "n1", first));
    assert_eq!(out.len(), 1);
    assert_eq!(out[0].body.msg_type, MessageType::TopologyOk);
    assert_eq!(out[0].body.in_reply_to, Some(1));
    assert!(state.awaiting_ack.is_empty());

    let mut chain = Topology::new();
    chain.insert(peer("n1"), peers(&["n4"]));
    chain.insert(peer("n4"), peers(&["n1", "n5"]));
    let mut second = request(MessageType::Topology, 2);
    second.topology = Some(chain);
    state.handle(wire("c1", "n1", second));

    assert_eq!(state.topology.get(&peer("n1")), Some(&peers(&["n4"])));
    assert_eq!(state.topology.get(&peer("n4")), Some(&peers(&["n1", "n5"])));
    assert_eq!(state.topology.get(&peer("n2")), None);
    assert_eq!(state.topology.get(&peer("n3")), None);

    let out = state.handle_at(value_from("c1", 6, 3), 0, String::new());
    assert_eq!(out.len(), 2);
    assert_eq!(out[0].dest, "n4");
    assert_eq!(out[0].body.msg_id, Some(40_006));
}

#[test]
fn topology_alone_sends_nothing_onward() {
    let mut state = star_node();
    state.seen_messages = vec![1, 2];
    let mut body = request(MessageType::Topology, 1);
    body.topology = Some(star_table());
    let out = state.handle(wire("c1", "n1", body));
    assert_eq!(out.len(), 1);
    assert_eq!(out[0].body.msg_type, MessageType::TopologyOk);
    assert!(state.awaiting_ack.is_empty());
    assert_eq!(state.seen_messages, vec![1, 2]);
}

#[test]
fn reply_kinds_get_no_reply() {
    let kinds = [
        MessageType::InitOk,
        MessageType::EchoOk,
        MessageType::GenerateOk,
        MessageType::BroadcastOk,
        MessageType::ReadOk,
        MessageType::TopologyOk,
    ];
    for kind in kinds {
        let mut state = star_node();
        state.seen_messages = vec![4];
        let mut body = request(kind, 9);
        body.in_reply_to = Some(9);
        let out = state.handle(wire("n3", "n1", body));
        assert!(out.is_empty());
        assert_eq!(state.seen_messages, vec![4]);
        assert_eq!(state.node_id, "n1");
    }
}

#[test]
fn broadcast_ok_clears_the_forward_it_answers() {
    let mut state = star_node();
    state.handle_at(value_from("c1", 5, 1), 100, String::new());
    assert_eq!(state.awaiting_ack.len(), 2);
    let mut ack = request(MessageType::BroadcastOk, 30_005);
    ack.in_reply_to = Some(30_005);
    let out = state.handle_at(wire("n3", "n1", ack), 101, String::new());
    assert!(out.is_empty());
    assert_eq!(state.awaiting_ack.len(), 1);
    assert_eq!(state.awaiting_ack[0].msg.dest, "n2");
    assert_eq!(state.awaiting_ack[0].msg.body.msg_id, Some(20_005));
    assert_eq!(state.awaiting_ack[0].timestamp, 100);
}

#[test]
fn has_seen_and_record_keep_the_record() {
    let mut state = State::new();
    assert!(!state.has_seen(7));
    state.record(7);
    state.record(3);
    state.record(7);
    assert!(state.has_seen(7));
    assert!(state.has_seen(3));
    assert!(!state.has_seen(4));
    assert_eq!(state.seen_messages, vec![7, 3]);
}
