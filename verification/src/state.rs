//! The node's state and the controller that applies each envelope to it.

use crate::host::{fresh_id, is_hyphenated_id, unix_millis};
use crate::message::{BodyView, MaelstromMessage, MessageType, MessageView};
use crate::sequence::sequence_number;
use crate::topology::Topology;
use vstd::prelude::*;

verus! {

/// A message that was sent and not yet acknowledged, with the time of its
/// latest sending in milliseconds.
#[derive(Debug)]
pub struct PostAck {
    pub timestamp: u128,
    pub msg: MaelstromMessage,
}

/// A pending message by its content.
pub struct PostAckView {
    pub timestamp: u128,
    pub msg: MessageView,
}

impl View for PostAck {
    type V = PostAckView;

    open spec fn view(&self) -> PostAckView {
        PostAckView { timestamp: self.timestamp, msg: self.msg@ }
    }
}

impl DeepView for PostAck {
    type V = PostAckView;

    open spec fn deep_view(&self) -> PostAckView {
        self@
    }
}

impl Clone for PostAck {
    fn clone(&self) -> (copy: PostAck)
        ensures
            copy@ == self@,
    {
        PostAck { timestamp: self.timestamp, msg: self.msg.clone() }
    }
}

/// Everything the node remembers: who it is, which values it has seen, who
/// its neighbours are, and which of its messages await an acknowledgment.
#[derive(Debug)]
pub struct State {
    pub node_id: String,
    pub node_ids: Vec<String>,
    pub seen_messages: Vec<usize>,
    pub topology: Topology,
    pub awaiting_ack: Vec<PostAck>,
}

/// The node's state by its content.
pub struct StateView {
    pub node_id: Seq<char>,
    pub node_ids: Seq<Seq<char>>,
    pub seen_messages: Seq<usize>,
    pub topology: Map<Seq<char>, Seq<Seq<char>>>,
    pub awaiting_ack: Seq<PostAckView>,
}

impl View for State {
    type V = StateView;

    open spec fn view(&self) -> StateView {
        StateView {
            node_id: self.node_id@,
            node_ids: self.node_ids.deep_view(),
            seen_messages: self.seen_messages@,
            topology: self.topology@,
            awaiting_ack: self.awaiting_ack.deep_view(),
        }
    }
}

/// The test that keeps every node but `sender`.
pub open spec fn other_than(sender: Seq<char>) -> spec_fn(Seq<char>) -> bool {
    |node: Seq<char>| node != sender
}

/// The body that carries `value` onward to `dest`: a `broadcast` with the
/// sequence number derived from the two.
pub open spec fn forward_body(dest: Seq<char>, value: Option<usize>) -> BodyView {
    BodyView {
        message: value,
        ..BodyView::bare(
            MessageType::Broadcast,
            match value {
                Some(v) => sequence_number(dest, v),
                None => None,
            },
            None,
        )
    }
}

/// The envelope that carries `value` from `own` onward to `dest`.
pub open spec fn forward(own: Seq<char>, dest: Seq<char>, value: Option<usize>) -> MessageView {
    MessageView { src: own, dest, body: forward_body(dest, value) }
}

/// The envelopes that carry `value` from `own` to each of `targets`, in
/// their order.
pub open spec fn forwards(own: Seq<char>, targets: Seq<Seq<char>>, value: Option<usize>) -> Seq<
    MessageView,
> {
    Seq::new(targets.len(), |i: int| forward(own, targets[i], value))
}

/// The reply envelope: the reply body, sent back the way the request came.
pub open spec fn reply_to(request: MessageView, seen: Seq<usize>, fresh_id: Seq<char>)
    -> MessageView {
    MessageView {
        src: request.dest,
        dest: request.src,
        body: request.body.reply(seen, fresh_id),
    }
}

/// `seen` with `value` at its end, unless it holds `value` already.
pub open spec fn with_value(seen: Seq<usize>, value: usize) -> Seq<usize> {
    if seen.contains(value) {
        seen
    } else {
        seen.push(value)
    }
}

impl PostAckView {
    /// Whether an acknowledgment from `source` for sequence number `seq`
    /// answers this pending message.
    pub open spec fn answered_by(self, source: Seq<char>, seq: usize) -> bool {
        self.msg.dest == source && self.msg.body.msg_id == Some(seq)
    }

    /// Whether the message went unanswered for `threshold` milliseconds or
    /// more, as of `now`.
    pub open spec fn overdue(self, now: u128, threshold: u128) -> bool {
        now - self.timestamp >= threshold
    }
}

/// The pending messages stamped `now`, one for each of `msgs`.
pub open spec fn stamped(msgs: Seq<MessageView>, now: u128) -> Seq<PostAckView> {
    Seq::new(msgs.len(), |i: int| PostAckView { timestamp: now, msg: msgs[i] })
}

/// The envelopes of the pending messages, in their order.
pub open spec fn envelopes(pending: Seq<PostAckView>) -> Seq<MessageView> {
    Seq::new(pending.len(), |i: int| pending[i].msg)
}

/// The test that keeps the pending messages overdue as of `now`.
pub open spec fn is_overdue(now: u128, threshold: u128) -> spec_fn(PostAckView) -> bool {
    |p: PostAckView| p.overdue(now, threshold)
}

/// The test that keeps the pending messages not yet overdue as of `now`.
pub open spec fn is_fresh(now: u128, threshold: u128) -> spec_fn(PostAckView) -> bool {
    |p: PostAckView| !p.overdue(now, threshold)
}

/// Whether `at` is the place of the earliest pending message that an
/// acknowledgment from `source` for `seq` answers.
pub open spec fn first_answered(pending: Seq<PostAckView>, at: int, source: Seq<char>, seq: usize)
    -> bool {
    &&& 0 <= at < pending.len()
    &&& pending[at].answered_by(source, seq)
    &&& forall|j: int| 0 <= j < at ==> !(#[trigger] pending[j]).answered_by(source, seq)
}

/// The pending messages after an acknowledgment from `source` for `seq`:
/// the earliest one it answers is gone; where it answers none, nothing
/// changes.
pub open spec fn acknowledged(pending: Seq<PostAckView>, source: Seq<char>, seq: usize) -> Seq<
    PostAckView,
> {
    if exists|at: int| first_answered(pending, at, source, seq) {
        pending.remove(choose|at: int| first_answered(pending, at, source, seq))
    } else {
        pending
    }
}

/// The pending messages after a sweep at `now`: those not yet overdue, as
/// they were and in their order, then the overdue ones in their order,
/// stamped `now`.
pub open spec fn swept(pending: Seq<PostAckView>, now: u128, threshold: u128) -> Seq<PostAckView> {
    pending.filter(is_fresh(now, threshold)) + stamped(resent(pending, now, threshold), now)
}

/// The envelopes that a sweep at `now` sends again: those of the overdue
/// messages, in their order.
pub open spec fn resent(pending: Seq<PostAckView>, now: u128, threshold: u128) -> Seq<MessageView> {
    envelopes(pending.filter(is_overdue(now, threshold)))
}

impl StateView {
    /// What a well-formed state maintains: no value is recorded twice.
    pub open spec fn wf(self) -> bool {
        self.seen_messages.no_duplicates()
    }

    /// This node's neighbours as the topology assigns them; none while the
    /// topology does not name this node.
    pub open spec fn neighbours(self) -> Seq<Seq<char>> {
        if self.topology.contains_key(self.node_id) {
            self.topology[self.node_id]
        } else {
            Seq::empty()
        }
    }

    /// The nodes to which a value that came from `sender` goes on: this
    /// node's neighbours but for `sender`, in the topology's order.
    pub open spec fn receivers(self, sender: Seq<char>) -> Seq<Seq<char>> {
        self.neighbours().filter(other_than(sender))
    }

    /// The envelopes that carry the value of `msg` onward.
    pub open spec fn forwards_of(self, msg: MessageView) -> Seq<MessageView> {
        forwards(self.node_id, self.receivers(msg.src), msg.body.message)
    }

    /// What the stores keep of a request: an `init` sets the identity, a
    /// `broadcast` records its value, a `topology` replaces the table. No
    /// other kind changes them.
    pub open spec fn absorb(self, body: BodyView) -> StateView {
        match body.msg_type {
            MessageType::Init => StateView {
                node_id: body.node_id->0,
                node_ids: body.node_ids->0,
                ..self
            },
            MessageType::Broadcast => StateView {
                seen_messages: with_value(self.seen_messages, body.message->0),
                ..self
            },
            MessageType::Topology => StateView { topology: body.topology->0, ..self },
            _ => self,
        }
    }

    /// Whether `msg` brings a value that this node has not seen.
    pub open spec fn brings_news(self, msg: MessageView) -> bool {
        msg.body.msg_type is Broadcast && !self.seen_messages.contains(msg.body.message->0)
    }

    /// The envelopes that the node sends onward because of `msg`: the
    /// forwards of a value not seen before, and nothing otherwise.
    pub open spec fn relayed(self, msg: MessageView) -> Seq<MessageView> {
        if self.brings_news(msg) {
            self.forwards_of(msg)
        } else {
            Seq::empty()
        }
    }

    /// The pending messages after `msg` arrived at `now`: a
    /// `broadcast_ok` clears the message it answers, a new value adds its
    /// forwards.
    pub open spec fn pending_after(self, msg: MessageView, now: u128) -> Seq<PostAckView> {
        if msg.body.msg_type is BroadcastOk {
            match msg.body.in_reply_to {
                Some(seq) => acknowledged(self.awaiting_ack, msg.src, seq),
                None => self.awaiting_ack,
            }
        } else {
            self.awaiting_ack + stamped(self.relayed(msg), now)
        }
    }

    /// The state after `msg` arrived at `now`.
    pub open spec fn step(self, msg: MessageView, now: u128) -> StateView {
        StateView { awaiting_ack: self.pending_after(msg, now), ..self.absorb(msg.body) }
    }

    /// What the node sends because `msg` arrived: the forwards, then the
    /// reply. A reply gets no reply.
    pub open spec fn outbound(self, msg: MessageView, fresh_id: Seq<char>) -> Seq<MessageView> {
        if msg.body.msg_type.is_response() {
            Seq::empty()
        } else {
            self.relayed(msg).push(
                reply_to(msg, self.absorb(msg.body).seen_messages, fresh_id),
            )
        }
    }
}

impl State {
    /// How long the node waits between two sweeps of its pending
    /// messages, in milliseconds.
    pub const LOOP_DELAY_MS: u64 = 10;

    /// The state of a node that has not been told who it is.
    pub fn new() -> (state: State)
        ensures
            state@.node_id.len() == 0,
            state@.node_ids.len() == 0,
            state@.seen_messages.len() == 0,
            state@.topology == Map::<Seq<char>, Seq<Seq<char>>>::empty(),
            state@.awaiting_ack.len() == 0,
            state@.wf(),
    {
        State {
            node_id: String::new(),
            node_ids: Vec::new(),
            seen_messages: Vec::new(),
            topology: Topology::new(),
            awaiting_ack: Vec::new(),
        }
    }

    /// Whether the node has seen `value`.
    pub fn has_seen(&self, value: usize) -> (seen: bool)
        ensures
            seen == self@.seen_messages.contains(value),
    {
        let mut i: usize = 0;
        while i < self.seen_messages.len()
            invariant
                i <= self.seen_messages.len(),
                forall|j: int| 0 <= j < i ==> self.seen_messages@[j] != value,
            decreases self.seen_messages.len() - i,
        {
            if self.seen_messages[i] == value {
                return true;
            }
            i += 1;
        }
        false
    }

    /// Records `value` as seen: it goes to the end of the record, unless
    /// the record holds it already.
    pub fn record(&mut self, value: usize)
        ensures
            final(self)@ == (StateView {
                seen_messages: with_value(old(self)@.seen_messages, value),
                ..old(self)@
            }),
            old(self)@.wf() ==> final(self)@.wf(),
    {
        if !self.has_seen(value) {
            self.seen_messages.push(value);
        }
        proof {
            if old(self)@.wf() {
                lemma_with_value_keeps_distinct(old(self)@.seen_messages, value);
            }
        }
    }

    /// Registers `msg` as sent at `now` and awaiting its acknowledgment.
    pub fn add_to_ack_at(&mut self, msg: MaelstromMessage, now: u128)
        ensures
            final(self)@ == (StateView {
                awaiting_ack: old(self)@.awaiting_ack.push(
                    PostAckView { timestamp: now, msg: msg@ },
                ),
                ..old(self)@
            }),
    {
        self.awaiting_ack.push(PostAck { timestamp: now, msg });
        assert(self.awaiting_ack.deep_view() =~= old(self).awaiting_ack.deep_view().push(
            PostAckView { timestamp: now, msg: msg@ },
        ));
    }

    /// Registers `msg` as sent now and awaiting its acknowledgment. The
    /// time is read from the system clock; whatever it reads, the new entry
    /// stands last and holds `msg`.
    pub fn add_to_ack(&mut self, msg: MaelstromMessage)
        ensures
            final(self)@.awaiting_ack.len() == old(self)@.awaiting_ack.len() + 1,
            final(self)@ == (StateView {
                awaiting_ack: old(self)@.awaiting_ack.push(
                    PostAckView {
                        timestamp: final(self)@.awaiting_ack.last().timestamp,
                        msg: msg@,
                    },
                ),
                ..old(self)@
            }),
    {
        let now = read_clock();
        self.add_to_ack_at(msg, now);
    }

    /// Takes note of an acknowledgment from `source` for the sequence
    /// number `seq`: the earliest pending message to `source` under that
    /// number is cleared. An acknowledgment that answers no pending message
    /// changes nothing.
    pub fn acknowledge(&mut self, source: &String, seq: usize)
        ensures
            final(self)@ == (StateView {
                awaiting_ack: acknowledged(old(self)@.awaiting_ack, source@, seq),
                ..old(self)@
            }),
    {
        let ghost pending = self.awaiting_ack.deep_view();
        let mut i: usize = 0;
        while i < self.awaiting_ack.len()
            invariant
                i <= self.awaiting_ack.len(),
                *self == *old(self),
                pending == self.awaiting_ack.deep_view(),
                forall|j: int| 0 <= j < i ==> !(#[trigger] pending[j]).answered_by(source@, seq),
            decreases self.awaiting_ack.len() - i,
        {
            let answered = match self.awaiting_ack[i].msg.body.msg_id {
                Some(id) => id == seq && self.awaiting_ack[i].msg.dest == *source,
                None => false,
            };
            if answered {
                assert(first_answered(pending, i as int, source@, seq));
                self.awaiting_ack.remove(i);
                assert(self.awaiting_ack.deep_view() =~= pending.remove(i as int));
                return ;
            }
            i += 1;
        }
    }

    /// Takes note of the acknowledgment `msg`: the earliest pending
    /// message that went to the sender of `msg` under the sequence number
    /// that `msg` replies to is cleared. An acknowledgment that names no
    /// sequence number, or answers no pending message, changes nothing.
    pub fn try_remove_ack(&mut self, msg: &MaelstromMessage)
        ensures
            final(self)@ == (StateView {
                awaiting_ack: match msg@.body.in_reply_to {
                    Some(seq) => acknowledged(old(self)@.awaiting_ack, msg@.src, seq),
                    None => old(self)@.awaiting_ack,
                },
                ..old(self)@
            }),
    {
        match msg.body.in_reply_to {
            Some(seq) => self.acknowledge(&msg.src, seq),
            None => {},
        }
    }

    /// Registers `msg` as sent now and hands it back for transmission. The
    /// time is read from the system clock, as in [`State::add_to_ack`].
    pub fn post_ack(&mut self, msg: MaelstromMessage) -> (sent: MaelstromMessage)
        ensures
            sent@ == msg@,
            final(self)@.awaiting_ack.len() == old(self)@.awaiting_ack.len() + 1,
            final(self)@ == (StateView {
                awaiting_ack: old(self)@.awaiting_ack.push(
                    PostAckView {
                        timestamp: final(self)@.awaiting_ack.last().timestamp,
                        msg: msg@,
                    },
                ),
                ..old(self)@
            }),
    {
        self.add_to_ack(msg.clone());
        msg
    }

    /// Sends again what has waited too long. Every pending message that
    /// has gone unacknowledged for `threshold` milliseconds or more, as of
    /// `now`, is stamped `now`, moved behind those that stay, and handed
    /// back for transmission. The others stay as they are.
    pub fn sweep(&mut self, now: u128, threshold: u128) -> (out: Vec<MaelstromMessage>)
        ensures
            final(self)@ == (StateView {
                awaiting_ack: swept(old(self)@.awaiting_ack, now, threshold),
                ..old(self)@
            }),
            out.deep_view() == resent(old(self)@.awaiting_ack, now, threshold),
    {
        let ghost pending = self.awaiting_ack.deep_view();
        let ghost fresh = is_fresh(now, threshold);
        let ghost overdue = is_overdue(now, threshold);
        let mut kept: Vec<PostAck> = Vec::new();
        let mut late: Vec<PostAck> = Vec::new();
        let mut out: Vec<MaelstromMessage> = Vec::new();
        let mut i: usize = 0;
        while i < self.awaiting_ack.len()
            invariant
                i <= self.awaiting_ack.len(),
                *self == *old(self),
                pending == self.awaiting_ack.deep_view(),
                fresh == is_fresh(now, threshold),
                overdue == is_overdue(now, threshold),
                kept.deep_view() == pending.take(i as int).filter(fresh),
                out.deep_view() == envelopes(pending.take(i as int).filter(overdue)),
                late.deep_view() == stamped(out.deep_view(), now),
            decreases self.awaiting_ack.len() - i,
        {
            let entry = &self.awaiting_ack[i];
            let ghost kept_before = kept.deep_view();
            let ghost late_before = late.deep_view();
            let ghost out_before = out.deep_view();
            proof {
                pending.take(i as int).lemma_filter_push(pending[i as int], fresh);
                pending.take(i as int).lemma_filter_push(pending[i as int], overdue);
                assert(pending.take(i as int + 1) =~= pending.take(i as int).push(
                    pending[i as int],
                ));
            }
            if now >= entry.timestamp && now - entry.timestamp >= threshold {
                out.push(entry.msg.clone());
                late.push(PostAck { timestamp: now, msg: entry.msg.clone() });
                assert(out.deep_view() =~= out_before.push(pending[i as int].msg));
                assert(late.deep_view() =~= late_before.push(
                    PostAckView { timestamp: now, msg: pending[i as int].msg },
                ));
                assert(out.deep_view() =~= envelopes(
                    pending.take(i as int + 1).filter(overdue),
                ));
                assert(late.deep_view() =~= stamped(out.deep_view(), now));
            } else {
                kept.push(entry.clone());
                assert(kept.deep_view() =~= kept_before.push(pending[i as int]));
            }
            i += 1;
        }
        assert(pending.take(i as int) =~= pending);
        let ghost kept_view = kept.deep_view();
        let ghost late_view = late.deep_view();
        kept.append(&mut late);
        assert(kept.deep_view() =~= kept_view + late_view);
        self.awaiting_ack = kept;
        out
    }

    /// Sends again what has waited [`MaelstromMessage::REPOST_DELAY_MS`] or
    /// longer, as [`State::sweep`] does at the time that the system clock
    /// reads. Whatever it reads, state and result are those of a sweep at
    /// some time.
    pub fn repost_on_late(&mut self) -> (out: Vec<MaelstromMessage>)
        ensures
            exists|now: u128|
                final(self)@ == (StateView {
                    awaiting_ack: #[trigger] swept(
                        old(self)@.awaiting_ack,
                        now,
                        MaelstromMessage::REPOST_DELAY_MS,
                    ),
                    ..old(self)@
                }) && out.deep_view() == resent(
                    old(self)@.awaiting_ack,
                    now,
                    MaelstromMessage::REPOST_DELAY_MS,
                ),
    {
        let now = read_clock();
        self.sweep(now, MaelstromMessage::REPOST_DELAY_MS)
    }

    /// Applies the envelope `msg`, arriving at `now`, and gives what the
    /// node sends because of it, where `fresh_id` is the identifier to hand
    /// out for a `generate`.
    ///
    /// A `broadcast_ok` clears the pending message it answers. A
    /// `broadcast` with a value not seen before is forwarded to every
    /// neighbour but its sender, and each forward is registered as pending
    /// at `now`. The stores then keep what the request brings, and the
    /// reply follows the forwards. A reply gets no reply.
    pub fn handle_at(&mut self, msg: MaelstromMessage, now: u128, fresh_id: String) -> (out: Vec<
        MaelstromMessage,
    >)
        requires
            msg@.body.has_payload(),
        ensures
            final(self)@ == old(self)@.step(msg@, now),
            out.deep_view() == old(self)@.outbound(msg@, fresh_id@),
            old(self)@.wf() ==> final(self)@.wf(),
    {
        let ghost before = self@;
        let mut out: Vec<MaelstromMessage> = Vec::new();
        match msg.body.msg_type {
            MessageType::BroadcastOk => {
                self.try_remove_ack(&msg);
            },
            MessageType::Broadcast => {
                if !self.has_seen(msg.body.message.unwrap()) {
                    out = MaelstromMessage::get_broadcast_msgs(self, &msg);
                    let ghost relayed = out.deep_view();
                    let mut i: usize = 0;
                    while i < out.len()
                        invariant
                            i <= out.len(),
                            relayed == out.deep_view(),
                            self@ == (StateView {
                                awaiting_ack: before.awaiting_ack + stamped(
                                    relayed.take(i as int),
                                    now,
                                ),
                                ..before
                            }),
                        decreases out.len() - i,
                    {
                        self.add_to_ack_at(out[i].clone(), now);
                        assert(self@.awaiting_ack =~= before.awaiting_ack + stamped(
                            relayed.take(i as int + 1),
                            now,
                        ));
                        i += 1;
                    }
                    assert(relayed.take(i as int) =~= relayed);
                } else {
                    assert(self@.awaiting_ack =~= before.awaiting_ack + stamped(
                        Seq::<MessageView>::empty(),
                        now,
                    ));
                }
            },
            _ => {
                assert(self@.awaiting_ack =~= before.awaiting_ack + stamped(
                    Seq::<MessageView>::empty(),
                    now,
                ));
            },
        }
        assert(self@ == (StateView {
            awaiting_ack: before.pending_after(msg@, now),
            ..before
        }));
        assert(out.deep_view() =~= before.relayed(msg@));
        let ghost relayed = out.deep_view();
        let MaelstromMessage { src, dest, body } = msg;
        match body.handle_with_id(self, fresh_id) {
            Ok(reply) => {
                out.push(MaelstromMessage { src: dest, dest: src, body: reply });
                assert(out.deep_view() =~= relayed.push(
                    reply_to(msg@, self@.seen_messages, fresh_id@),
                ));
            },
            Err(_) => {
                assert(relayed =~= Seq::<MessageView>::empty());
            },
        }
        proof {
            if before.wf() && msg@.body.msg_type is Broadcast {
                lemma_with_value_keeps_distinct(before.seen_messages, msg@.body.message->0);
            }
        }
        out
    }

    /// Applies the envelope `msg` and gives what the node sends because of
    /// it, as [`State::handle_at`] does at the time that the system clock
    /// reads and with an identifier drawn at random for a `generate`.
    /// Whatever the clock reads and whichever identifier is drawn, state
    /// and result are those of `handle_at` for some time and some
    /// identifier, and an identifier handed out has the hyphenated shape.
    pub fn handle(&mut self, msg: MaelstromMessage) -> (out: Vec<MaelstromMessage>)
        requires
            msg@.body.has_payload(),
        ensures
            exists|now: u128, fresh: Seq<char>|
                #![trigger old(self)@.step(msg@, now), old(self)@.outbound(msg@, fresh)]
                final(self)@ == old(self)@.step(msg@, now) && out.deep_view() == old(
                    self,
                )@.outbound(msg@, fresh) && (msg@.body.msg_type is Generate
                    ==> is_hyphenated_id(fresh)),
            old(self)@.wf() ==> final(self)@.wf(),
    {
        let now = read_clock();
        let id = match msg.body.msg_type {
            MessageType::Generate => fresh_id(),
            _ => String::new(),
        };
        let ghost fresh = id@;
        let out = self.handle_at(msg, now, id);
        assert(self@ == old(self)@.step(msg@, now) && out.deep_view() == old(self)@.outbound(
            msg@,
            fresh,
        ));
        out
    }
}

/// Recording a value keeps the record free of repetitions.
pub proof fn lemma_with_value_keeps_distinct(seen: Seq<usize>, value: usize)
    requires
        seen.no_duplicates(),
    ensures
        with_value(seen, value).no_duplicates(),
        with_value(seen, value).contains(value),
        with_value(with_value(seen, value), value) == with_value(seen, value),
{
    if !seen.contains(value) {
        assert(seen.push(value).last() == value);
    }
}

/// The time of day in milliseconds since the Unix epoch, zero for a clock
/// that stands before it. Nothing is known of the time that comes back.
fn read_clock() -> u128 {
    millis_or_epoch(unix_millis())
}

/// The time that a clock reading stands for: the reading itself, and the
/// epoch, zero, where the clock gave none.
pub fn millis_or_epoch(reading: Option<u128>) -> (now: u128)
    ensures
        now == match reading {
            Some(millis) => millis,
            None => 0,
        },
{
    match reading {
        Some(millis) => millis,
        None => 0,
    }
}

} // verus!
