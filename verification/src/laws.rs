//! What holds of the node whatever it is sent: the laws of its stores,
//! its fan-out and its acknowledgment tracker, each proved of the model
//! that the executable functions are specified by.

use crate::message::MessageView;
use crate::state::{
    acknowledged, first_answered, is_fresh, is_overdue, reply_to, resent, stamped, swept,
    PostAckView, StateView,
};
use vstd::prelude::*;
use vstd::seq_lib::to_multiset_contains;

verus! {

/// Every step keeps the state well formed.
pub proof fn law_step_keeps_well_formed(s: StateView, msg: MessageView, now: u128)
    requires
        s.wf(),
    ensures
        s.step(msg, now).wf(),
{
    if msg.body.msg_type is Broadcast {
        crate::state::lemma_with_value_keeps_distinct(s.seen_messages, msg.body.message->0);
    }
}

/// A value delivered a second time, by the same sender or another,
/// changes nothing: the record holds it exactly once, no pending message
/// is added, and nothing is sent but the reply.
pub proof fn law_second_delivery_changes_nothing(
    s: StateView,
    first: MessageView,
    second: MessageView,
    first_time: u128,
    second_time: u128,
    id: Seq<char>,
)
    requires
        s.wf(),
        first.body.msg_type is Broadcast,
        second.body.msg_type is Broadcast,
        first.body.message is Some,
        second.body.message == first.body.message,
    ensures
        ({
            let once = s.step(first, first_time);
            let twice = once.step(second, second_time);
            &&& twice == once
            &&& twice.seen_messages.no_duplicates()
            &&& twice.seen_messages.to_multiset().count(first.body.message->0) == 1
            &&& once.outbound(second, id) == seq![reply_to(second, once.seen_messages, id)]
        }),
{
    let value = first.body.message->0;
    let once = s.step(first, first_time);
    let twice = once.step(second, second_time);
    crate::state::lemma_with_value_keeps_distinct(s.seen_messages, value);
    assert(once.seen_messages.contains(value));
    assert(once.relayed(second) =~= Seq::<MessageView>::empty());
    assert(twice.awaiting_ack =~= once.awaiting_ack);
    once.seen_messages.lemma_multiset_has_no_duplicates();
    to_multiset_contains(once.seen_messages, value);
    assert(once.outbound(second, id) =~= seq![reply_to(second, once.seen_messages, id)]);
}

/// A `read` changes nothing and is answered with the record as it
/// stands: every value seen, in the order of first arrival, none twice.
pub proof fn law_read_reports_the_record(s: StateView, read: MessageView, now: u128, id: Seq<char>)
    requires
        s.wf(),
        read.body.msg_type is Read,
    ensures
        s.step(read, now) == s,
        s.outbound(read, id) == seq![reply_to(read, s.seen_messages, id)],
        reply_to(read, s.seen_messages, id).body.messages == Some(s.seen_messages),
        s.seen_messages.no_duplicates(),
{
    assert(s.relayed(read) =~= Seq::<MessageView>::empty());
    assert(s.step(read, now).awaiting_ack =~= s.awaiting_ack);
    assert(s.outbound(read, id) =~= seq![reply_to(read, s.seen_messages, id)]);
}

/// A value goes on from this node to each of its neighbours but the one
/// it came from, and to no one else.
pub proof fn law_forwards_spare_the_sender(s: StateView, msg: MessageView)
    ensures
        forall|i: int|
            0 <= i < s.forwards_of(msg).len() ==> {
                let sent = #[trigger] s.forwards_of(msg)[i];
                &&& sent.src == s.node_id
                &&& sent.dest != msg.src
                &&& s.neighbours().contains(sent.dest)
                &&& sent.body.msg_type is Broadcast
                &&& sent.body.message == msg.body.message
            },
        forall|node: Seq<char>|
            s.neighbours().contains(node) && node != msg.src ==> exists|i: int|
                0 <= i < s.forwards_of(msg).len() && (#[trigger] s.forwards_of(msg)[i]).dest
                    == node,
{
    let keep = crate::state::other_than(msg.src);
    let all = s.neighbours();
    let kept = s.receivers(msg.src);
    assert forall|i: int| 0 <= i < s.forwards_of(msg).len() implies {
        let sent = #[trigger] s.forwards_of(msg)[i];
        &&& sent.src == s.node_id
        &&& sent.dest != msg.src
        &&& s.neighbours().contains(sent.dest)
        &&& sent.body.msg_type is Broadcast
        &&& sent.body.message == msg.body.message
    } by {
        all.lemma_filter_pred(keep, i);
        assert(kept.contains(kept[i]));
        all.lemma_filter_contains_rev(keep, kept[i]);
    }
    assert forall|node: Seq<char>| all.contains(node) && node != msg.src implies exists|i: int|
        0 <= i < s.forwards_of(msg).len() && (#[trigger] s.forwards_of(msg)[i]).dest == node by {
        let j = choose|j: int| 0 <= j < all.len() && all[j] == node;
        all.lemma_filter_contains(keep, j);
        let i = choose|i: int| 0 <= i < kept.len() && kept[i] == node;
        assert(s.forwards_of(msg)[i].dest == node);
    }
}

/// A message that is registered and then acknowledged leaves the pending
/// messages as they were, where none of them was waiting for the same
/// acknowledgment.
pub proof fn law_acknowledgment_undoes_registration(
    pending: Seq<PostAckView>,
    entry: PostAckView,
    source: Seq<char>,
    seq: usize,
)
    requires
        entry.answered_by(source, seq),
        forall|j: int| 0 <= j < pending.len() ==> !(#[trigger] pending[j]).answered_by(source, seq),
    ensures
        acknowledged(pending.push(entry), source, seq) == pending,
{
    let grown = pending.push(entry);
    let last = pending.len() as int;
    assert(forall|j: int| 0 <= j < last ==> grown[j] == pending[j]);
    assert(first_answered(grown, last, source, seq));
    let at = choose|at: int| first_answered(grown, at, source, seq);
    assert(at == last) by {
        if at < last {
            assert(grown[at] == pending[at]);
        }
    }
    assert(grown.remove(last) =~= pending);
}

/// An acknowledgment clears one pending message, the earliest that it
/// answers, and no other; one that answers none clears none.
pub proof fn law_acknowledgment_clears_one(
    pending: Seq<PostAckView>,
    source: Seq<char>,
    seq: usize,
)
    ensures
        (forall|j: int| 0 <= j < pending.len() ==> !(#[trigger] pending[j]).answered_by(source, seq))
            ==> acknowledged(pending, source, seq) == pending,
        forall|at: int|
            first_answered(pending, at, source, seq) ==> #[trigger] pending.remove(at)
                == acknowledged(pending, source, seq),
        forall|j: int|
            0 <= j < pending.len() && !(#[trigger] pending[j]).answered_by(source, seq)
                ==> acknowledged(pending, source, seq).contains(pending[j]),
{
    let after = acknowledged(pending, source, seq);
    assert forall|at: int| first_answered(pending, at, source, seq) implies #[trigger]
        pending.remove(at) == after by {
        let chosen = choose|at: int| first_answered(pending, at, source, seq);
        assert(chosen == at) by {
            if chosen < at {
                assert(pending[chosen].answered_by(source, seq));
            } else if at < chosen {
                assert(pending[at].answered_by(source, seq));
            }
        }
    }
    assert forall|j: int|
        0 <= j < pending.len() && !(#[trigger] pending[j]).answered_by(
            source,
            seq,
        ) implies after.contains(pending[j]) by {
        if exists|at: int| first_answered(pending, at, source, seq) {
            let at = choose|at: int| first_answered(pending, at, source, seq);
            if j < at {
                assert(after[j] == pending[j]);
            } else {
                assert(after[j - 1] == pending[j]);
            }
        } else {
            assert(after[j] == pending[j]);
        }
    }
}

/// Two tests that split every element one way or the other split the
/// length of a sequence between them.
proof fn lemma_split_lengths<A>(s: Seq<A>, yes: spec_fn(A) -> bool, no: spec_fn(A) -> bool)
    requires
        forall|a: A| #[trigger] yes(a) != no(a),
    ensures
        s.filter(yes).len() + s.filter(no).len() == s.len(),
    decreases s.len(),
{
    if s.len() == 0 {
        s.lemma_filter_len(yes);
        s.lemma_filter_len(no);
    } else {
        let front = s.drop_last();
        lemma_split_lengths(front, yes, no);
        front.lemma_filter_push(s.last(), yes);
        front.lemma_filter_push(s.last(), no);
        assert(front.push(s.last()) =~= s);
    }
}

/// A sweep sends again every pending message that is overdue, with the
/// same envelope and the time of the sweep for its stamp, and sends
/// nothing else. A message that is not overdue stays as it was, and those
/// that stay keep their order at the front.
pub proof fn law_sweep_resends_the_overdue(pending: Seq<PostAckView>, now: u128, threshold: u128)
    ensures
        swept(pending, now, threshold).len() == pending.len(),
        resent(pending, now, threshold).len() == pending.filter(is_overdue(now, threshold)).len(),
        forall|i: int|
            0 <= i < pending.len() && !(#[trigger] pending[i]).overdue(now, threshold) ==> swept(
                pending,
                now,
                threshold,
            ).contains(pending[i]),
        forall|i: int|
            0 <= i < pending.len() && (#[trigger] pending[i]).overdue(now, threshold) ==> resent(
                pending,
                now,
                threshold,
            ).contains(pending[i].msg) && swept(pending, now, threshold).contains(
                PostAckView { timestamp: now, msg: pending[i].msg },
            ),
        forall|k: int|
            0 <= k < resent(pending, now, threshold).len() ==> {
                let sent = #[trigger] resent(pending, now, threshold)[k];
                exists|i: int|
                    0 <= i < pending.len() && (#[trigger] pending[i]).overdue(now, threshold)
                        && pending[i].msg == sent
            },
        swept(pending, now, threshold).take(
            pending.filter(is_fresh(now, threshold)).len() as int,
        ) == pending.filter(is_fresh(now, threshold)),
{
    let fresh = is_fresh(now, threshold);
    let overdue = is_overdue(now, threshold);
    let stay = pending.filter(fresh);
    let late = pending.filter(overdue);
    let again = resent(pending, now, threshold);
    let after = swept(pending, now, threshold);
    lemma_split_lengths(pending, fresh, overdue);
    assert(after.take(stay.len() as int) =~= stay);
    assert forall|i: int| 0 <= i < pending.len() && !(#[trigger] pending[i]).overdue(
        now,
        threshold,
    ) implies after.contains(pending[i]) by {
        pending.lemma_filter_contains(fresh, i);
        let k = choose|k: int| 0 <= k < stay.len() && stay[k] == pending[i];
        assert(after[k] == pending[i]);
    }
    assert forall|i: int| 0 <= i < pending.len() && (#[trigger] pending[i]).overdue(
        now,
        threshold,
    ) implies again.contains(pending[i].msg) && after.contains(
        PostAckView { timestamp: now, msg: pending[i].msg },
    ) by {
        pending.lemma_filter_contains(overdue, i);
        let k = choose|k: int| 0 <= k < late.len() && late[k] == pending[i];
        assert(again[k] == pending[i].msg);
        assert(stamped(again, now)[k] == PostAckView { timestamp: now, msg: pending[i].msg });
        assert(after[stay.len() + k] == PostAckView { timestamp: now, msg: pending[i].msg });
    }
    assert forall|k: int| 0 <= k < again.len() implies {
        let sent = #[trigger] again[k];
        exists|i: int|
            0 <= i < pending.len() && (#[trigger] pending[i]).overdue(now, threshold)
                && pending[i].msg == sent
    } by {
        pending.lemma_filter_pred(overdue, k);
        assert(late.contains(late[k]));
        pending.lemma_filter_contains_rev(overdue, late[k]);
        let i = choose|i: int| 0 <= i < pending.len() && pending[i] == late[k];
        assert(pending[i].overdue(now, threshold));
    }
}

/// Of two topologies that arrive one after the other only the later
/// stands: nothing of the earlier is merged into it.
pub proof fn law_latest_topology_stands(
    s: StateView,
    earlier: MessageView,
    later: MessageView,
    earlier_time: u128,
    later_time: u128,
)
    requires
        earlier.body.msg_type is Topology,
        later.body.msg_type is Topology,
        later.body.topology is Some,
    ensures
        s.step(earlier, earlier_time).step(later, later_time).topology == later.body.topology->0,
        s.step(earlier, earlier_time).step(later, later_time).topology == s.step(
            later,
            later_time,
        ).topology,
{
}

/// A reply is owed no reply and leaves the stores alone: the node sends
/// nothing, and its identity, its record and its topology stay as they
/// were.
pub proof fn law_reply_gets_no_reply(s: StateView, msg: MessageView, now: u128, id: Seq<char>)
    requires
        msg.body.msg_type.is_response(),
    ensures
        s.outbound(msg, id) == Seq::<MessageView>::empty(),
        s.absorb(msg.body) == s,
        s.step(msg, now) == (StateView { awaiting_ack: s.step(msg, now).awaiting_ack, ..s }),
{
}

} // verus!
