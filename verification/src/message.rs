//! Wire envelopes and the kinds of message they carry.

use crate::host::{fresh_id, is_hyphenated_id};
use crate::sequence::derive_sequence_number;
use crate::state::{forward, forward_body, forwards, other_than, reply_to, State};
use crate::topology::Topology;
use vstd::prelude::*;

verus! {

/// The kind of an envelope's body. Every request kind has a reply kind
/// whose name ends in `Ok`.
#[derive(Clone, Copy, Debug, PartialEq, Eq, Structural)]
pub enum MessageType {
    Init,
    InitOk,
    Echo,
    EchoOk,
    Generate,
    GenerateOk,
    Broadcast,
    BroadcastOk,
    Read,
    ReadOk,
    Topology,
    TopologyOk,
}

impl MessageType {
    /// Whether this kind is a reply, to which no further reply is owed.
    pub open spec fn is_response(self) -> bool {
        self is InitOk || self is EchoOk || self is GenerateOk || self is BroadcastOk
            || self is ReadOk || self is TopologyOk
    }

    /// The kind that answers this one. A reply kind answers nothing and
    /// stands for itself.
    pub open spec fn reply_kind(self) -> MessageType {
        match self {
            MessageType::Init => MessageType::InitOk,
            MessageType::Echo => MessageType::EchoOk,
            MessageType::Generate => MessageType::GenerateOk,
            MessageType::Broadcast => MessageType::BroadcastOk,
            MessageType::Read => MessageType::ReadOk,
            MessageType::Topology => MessageType::TopologyOk,
            other => other,
        }
    }
}

/// The body of an envelope. Which of the optional fields are present
/// depends on the kind.
#[derive(Debug)]
pub struct MaelstromMessageBody {
    pub msg_type: MessageType,
    pub msg_id: Option<usize>,
    pub in_reply_to: Option<usize>,
    pub echo: Option<String>,
    pub node_id: Option<String>,
    pub id: Option<String>,
    pub node_ids: Option<Vec<String>>,
    pub message: Option<usize>,
    pub messages: Option<Vec<usize>>,
    pub topology: Option<Topology>,
}

/// A body by its content.
pub struct BodyView {
    pub msg_type: MessageType,
    pub msg_id: Option<usize>,
    pub in_reply_to: Option<usize>,
    pub echo: Option<Seq<char>>,
    pub node_id: Option<Seq<char>>,
    pub id: Option<Seq<char>>,
    pub node_ids: Option<Seq<Seq<char>>>,
    pub message: Option<usize>,
    pub messages: Option<Seq<usize>>,
    pub topology: Option<Map<Seq<char>, Seq<Seq<char>>>>,
}

impl View for MaelstromMessageBody {
    type V = BodyView;

    open spec fn view(&self) -> BodyView {
        BodyView {
            msg_type: self.msg_type,
            msg_id: self.msg_id,
            in_reply_to: self.in_reply_to,
            echo: self.echo.deep_view(),
            node_id: self.node_id.deep_view(),
            id: self.id.deep_view(),
            node_ids: self.node_ids.deep_view(),
            message: self.message,
            messages: match self.messages {
                Some(values) => Some(values@),
                None => None,
            },
            topology: match self.topology {
                Some(table) => Some(table@),
                None => None,
            },
        }
    }
}

impl DeepView for MaelstromMessageBody {
    type V = BodyView;

    open spec fn deep_view(&self) -> BodyView {
        self@
    }
}

/// An envelope: who sent it, whom it is for, and what it carries.
#[derive(Debug)]
pub struct MaelstromMessage {
    pub src: String,
    pub dest: String,
    pub body: MaelstromMessageBody,
}

/// An envelope by its content.
pub struct MessageView {
    pub src: Seq<char>,
    pub dest: Seq<char>,
    pub body: BodyView,
}

impl View for MaelstromMessage {
    type V = MessageView;

    open spec fn view(&self) -> MessageView {
        MessageView { src: self.src@, dest: self.dest@, body: self.body@ }
    }
}

impl DeepView for MaelstromMessage {
    type V = MessageView;

    open spec fn deep_view(&self) -> MessageView {
        self@
    }
}

impl BodyView {
    /// A body of the given kind that carries the two sequence numbers and
    /// nothing else.
    pub open spec fn bare(
        msg_type: MessageType,
        msg_id: Option<usize>,
        in_reply_to: Option<usize>,
    ) -> BodyView {
        BodyView {
            msg_type,
            msg_id,
            in_reply_to,
            echo: None,
            node_id: None,
            id: None,
            node_ids: None,
            message: None,
            messages: None,
            topology: None,
        }
    }

    /// Whether the body carries what a request of its kind must carry: an
    /// `init` its identifier and peer list, a `broadcast` its value, a
    /// `topology` its table.
    pub open spec fn has_payload(self) -> bool {
        match self.msg_type {
            MessageType::Init => self.node_id is Some && self.node_ids is Some,
            MessageType::Broadcast => self.message is Some,
            MessageType::Topology => self.topology is Some,
            _ => true,
        }
    }

    /// The identifier that the body hands out; the empty text where it
    /// hands out none.
    pub open spec fn issued_id(self) -> Seq<char> {
        match self.id {
            Some(text) => text,
            None => Seq::empty(),
        }
    }

    /// The body that answers this request at a node that has seen `seen`,
    /// where `fresh_id` is the identifier drawn for a `generate`. The reply
    /// repeats the request's sequence number in both of its own; an `echo`
    /// gets its text back, a `generate` the fresh identifier, a `read` the
    /// values seen.
    pub open spec fn reply(self, seen: Seq<usize>, fresh_id: Seq<char>) -> BodyView {
        BodyView {
            echo: if self.msg_type is Echo {
                self.echo
            } else {
                None
            },
            id: if self.msg_type is Generate {
                Some(fresh_id)
            } else {
                None
            },
            messages: if self.msg_type is Read {
                Some(seen)
            } else {
                None
            },
            ..BodyView::bare(self.msg_type.reply_kind(), self.msg_id, self.msg_id)
        }
    }
}

/// A copy of an optional text.
fn copy_text(text: &Option<String>) -> (copy: Option<String>)
    ensures
        copy.deep_view() == text.deep_view(),
{
    match text {
        Some(s) => Some(s.clone()),
        None => None,
    }
}

/// A copy of a list of texts.
fn copy_names(names: &Vec<String>) -> (copy: Vec<String>)
    ensures
        copy.deep_view() == names.deep_view(),
{
    let copy = names.clone();
    assert(copy.deep_view() =~= names.deep_view());
    copy
}

impl Clone for MaelstromMessageBody {
    fn clone(&self) -> (copy: MaelstromMessageBody)
        ensures
            copy@ == self@,
    {
        MaelstromMessageBody {
            msg_type: self.msg_type,
            msg_id: self.msg_id,
            in_reply_to: self.in_reply_to,
            echo: copy_text(&self.echo),
            node_id: copy_text(&self.node_id),
            id: copy_text(&self.id),
            node_ids: match &self.node_ids {
                Some(names) => Some(copy_names(names)),
                None => None,
            },
            message: self.message,
            messages: match &self.messages {
                Some(values) => Some(values.clone()),
                None => None,
            },
            topology: match &self.topology {
                Some(table) => Some(table.clone()),
                None => None,
            },
        }
    }
}

impl Clone for MaelstromMessage {
    fn clone(&self) -> (copy: MaelstromMessage)
        ensures
            copy@ == self@,
    {
        MaelstromMessage {
            src: self.src.clone(),
            dest: self.dest.clone(),
            body: self.body.clone(),
        }
    }
}

/// The text of the error that answers an attempt to reply to a reply.
pub const CANNOT_RESPOND: &'static str = "can't handle response";

impl MaelstromMessageBody {
    /// A body of the given kind that carries the two sequence numbers and
    /// nothing else.
    fn plain(msg_type: MessageType, msg_id: Option<usize>, in_reply_to: Option<usize>) -> (body:
        MaelstromMessageBody)
        ensures
            body@ == BodyView::bare(msg_type, msg_id, in_reply_to),
    {
        MaelstromMessageBody {
            msg_type,
            msg_id,
            in_reply_to,
            echo: None,
            node_id: None,
            id: None,
            node_ids: None,
            message: None,
            messages: None,
            topology: None,
        }
    }

    /// Whether the body carries what a request of its kind must carry.
    pub fn has_payload(&self) -> (complete: bool)
        ensures
            complete == self@.has_payload(),
    {
        match self.msg_type {
            MessageType::Init => self.node_id.is_some() && self.node_ids.is_some(),
            MessageType::Broadcast => self.message.is_some(),
            MessageType::Topology => self.topology.is_some(),
            _ => true,
        }
    }

    /// A `broadcast` body that carries `message` and no sequence number.
    pub fn broadcast(message: usize) -> (body: MaelstromMessageBody)
        ensures
            body@ == (BodyView {
                message: Some(message),
                ..BodyView::bare(MessageType::Broadcast, None, None)
            }),
    {
        let mut body = MaelstromMessageBody::plain(MessageType::Broadcast, None, None);
        body.message = Some(message);
        body
    }

    /// The body under which `msg`, a value on its way to `msg.dest`, is
    /// sent: a `broadcast` of that value with the sequence number derived
    /// from destination and value. The number is absent where `msg` carries
    /// no value or none can be derived.
    pub fn get_broadcast_body(msg: &MaelstromMessage) -> (body: MaelstromMessageBody)
        ensures
            body@ == forward_body(msg@.dest, msg@.body.message),
    {
        let msg_id = match msg.body.message {
            Some(value) => derive_sequence_number(&msg.dest, value),
            None => None,
        };
        let mut body = MaelstromMessageBody::plain(MessageType::Broadcast, msg_id, None);
        body.message = msg.body.message;
        body
    }

    /// The reply to a request of kind `msg_type` with sequence number
    /// `msg_id` and text `echo`.
    fn reply_from(
        msg_type: MessageType,
        msg_id: Option<usize>,
        echo: Option<String>,
        state: &State,
        fresh_id: String,
    ) -> (res: Result<MaelstromMessageBody, String>)
        ensures
            res is Err <==> msg_type.is_response(),
            res matches Err(error) ==> error@ == CANNOT_RESPOND@,
            res matches Ok(body) ==> body@ == (BodyView {
                echo: if msg_type is Echo {
                    echo.deep_view()
                } else {
                    None
                },
                id: if msg_type is Generate {
                    Some(fresh_id@)
                } else {
                    None
                },
                messages: if msg_type is Read {
                    Some(state@.seen_messages)
                } else {
                    None
                },
                ..BodyView::bare(msg_type.reply_kind(), msg_id, msg_id)
            }),
    {
        let mut body = match msg_type {
            MessageType::Init => MaelstromMessageBody::plain(MessageType::InitOk, msg_id, msg_id),
            MessageType::Echo => MaelstromMessageBody::plain(MessageType::EchoOk, msg_id, msg_id),
            MessageType::Generate => MaelstromMessageBody::plain(
                MessageType::GenerateOk,
                msg_id,
                msg_id,
            ),
            MessageType::Broadcast => MaelstromMessageBody::plain(
                MessageType::BroadcastOk,
                msg_id,
                msg_id,
            ),
            MessageType::Read => MaelstromMessageBody::plain(MessageType::ReadOk, msg_id, msg_id),
            MessageType::Topology => MaelstromMessageBody::plain(
                MessageType::TopologyOk,
                msg_id,
                msg_id,
            ),
            MessageType::InitOk
            | MessageType::EchoOk
            | MessageType::GenerateOk
            | MessageType::BroadcastOk
            | MessageType::ReadOk
            | MessageType::TopologyOk => {
                return Err(CANNOT_RESPOND.to_owned());
            },
        };
        match msg_type {
            MessageType::Echo => {
                body.echo = echo;
            },
            MessageType::Generate => {
                body.id = Some(fresh_id);
            },
            MessageType::Read => {
                body.messages = Some(state.seen_messages.clone());
            },
            _ => {},
        }
        Ok(body)
    }

    /// The reply that this request is owed by a node in `state`, where
    /// `fresh_id` is the identifier to hand out for a `generate`. A reply
    /// is owed none: it gets the error [`CANNOT_RESPOND`].
    pub fn reply_with_id(self, state: &State, fresh_id: String) -> (res: Result<
        MaelstromMessageBody,
        String,
    >)
        ensures
            res is Err <==> self.msg_type.is_response(),
            res matches Err(error) ==> error@ == CANNOT_RESPOND@,
            res matches Ok(body) ==> body@ == self@.reply(state@.seen_messages, fresh_id@),
    {
        MaelstromMessageBody::reply_from(self.msg_type, self.msg_id, self.echo, state, fresh_id)
    }

    /// Records in `state` what this request brings and gives the reply it
    /// is owed, where `fresh_id` is the identifier to hand out for a
    /// `generate`. A reply changes nothing and gets [`CANNOT_RESPOND`].
    pub fn handle_with_id(self, state: &mut State, fresh_id: String) -> (res: Result<
        MaelstromMessageBody,
        String,
    >)
        requires
            self@.has_payload(),
        ensures
            final(state)@ == old(state)@.absorb(self@),
            old(state)@.wf() ==> final(state)@.wf(),
            res is Err <==> self.msg_type.is_response(),
            res matches Err(error) ==> error@ == CANNOT_RESPOND@,
            res matches Ok(body) ==> body@ == self@.reply(
                final(state)@.seen_messages,
                fresh_id@,
            ),
    {
        let MaelstromMessageBody {
            msg_type,
            msg_id,
            in_reply_to: _,
            echo,
            node_id,
            id: _,
            node_ids,
            message,
            messages: _,
            topology,
        } = self;
        match msg_type {
            MessageType::Init => {
                state.node_ids = node_ids.unwrap();
                state.node_id = node_id.unwrap();
            },
            MessageType::Broadcast => {
                state.record(message.unwrap());
            },
            MessageType::Topology => {
                state.topology = topology.unwrap();
            },
            _ => {},
        }
        MaelstromMessageBody::reply_from(msg_type, msg_id, echo, state, fresh_id)
    }

    /// The reply that this request is owed by a node in `state`. For a
    /// `generate` the reply hands out an identifier drawn at random, of
    /// which only the shape is known; all else is as in
    /// [`MaelstromMessageBody::reply_with_id`].
    pub fn get_response(self, state: &State) -> (res: Result<MaelstromMessageBody, String>)
        ensures
            res is Err <==> self.msg_type.is_response(),
            res matches Err(error) ==> error@ == CANNOT_RESPOND@,
            res matches Ok(body) ==> body@ == self@.reply(
                state@.seen_messages,
                body@.issued_id(),
            ),
            res matches Ok(body) ==> (self.msg_type is Generate ==> is_hyphenated_id(
                body@.issued_id(),
            )),
    {
        let id = match self.msg_type {
            MessageType::Generate => fresh_id(),
            _ => String::new(),
        };
        self.reply_with_id(state, id)
    }

    /// Records in `state` what this request brings and gives the reply it
    /// is owed. For a `generate` the reply hands out an identifier drawn at
    /// random, of which only the shape is known; all else is as in
    /// [`MaelstromMessageBody::handle_with_id`].
    pub fn handle(self, state: &mut State) -> (res: Result<MaelstromMessageBody, String>)
        requires
            self@.has_payload(),
        ensures
            final(state)@ == old(state)@.absorb(self@),
            old(state)@.wf() ==> final(state)@.wf(),
            res is Err <==> self.msg_type.is_response(),
            res matches Err(error) ==> error@ == CANNOT_RESPOND@,
            res matches Ok(body) ==> body@ == self@.reply(
                final(state)@.seen_messages,
                body@.issued_id(),
            ),
            res matches Ok(body) ==> (self.msg_type is Generate ==> is_hyphenated_id(
                body@.issued_id(),
            )),
    {
        let id = match self.msg_type {
            MessageType::Generate => fresh_id(),
            _ => String::new(),
        };
        self.handle_with_id(state, id)
    }
}

impl MaelstromMessage {
    /// How long a message may go unacknowledged before it is sent again,
    /// in milliseconds.
    pub const REPOST_DELAY_MS: u128 = 30;

    /// The nodes to which a value that came from `src` goes on: the
    /// neighbours that the topology assigns to this node, but for `src`.
    /// None while the topology does not name this node.
    pub fn get_broadcast_receivers(state: &State, src: &String) -> (targets: Vec<String>)
        ensures
            targets.deep_view() == state@.receivers(src@),
            forall|i: int| 0 <= i < targets.len() ==> (#[trigger] targets.deep_view()[i]) != src@,
            forall|i: int|
                0 <= i < targets.len() ==> state@.neighbours().contains(
                    #[trigger] targets.deep_view()[i],
                ),
    {
        let mut targets: Vec<String> = Vec::new();
        match state.topology.get(&state.node_id) {
            Some(neighbours) => {
                let ghost all = neighbours.deep_view();
                let ghost keep = other_than(src@);
                let mut i: usize = 0;
                while i < neighbours.len()
                    invariant
                        i <= neighbours.len(),
                        all == neighbours.deep_view(),
                        keep == other_than(src@),
                        targets.deep_view() == all.take(i as int).filter(keep),
                    decreases neighbours.len() - i,
                {
                    proof {
                        all.take(i as int).lemma_filter_push(all[i as int], keep);
                        assert(all.take(i as int + 1) =~= all.take(i as int).push(all[i as int]));
                    }
                    if neighbours[i] != *src {
                        let ghost before = targets.deep_view();
                        targets.push(neighbours[i].clone());
                        assert(targets.deep_view() =~= before.push(all[i as int]));
                    }
                    i += 1;
                }
                assert(all.take(i as int) =~= all);
            },
            None => {
                assert(targets.deep_view() =~= Seq::<Seq<char>>::empty());
                assert(Seq::<Seq<char>>::empty().filter(other_than(src@))
                    =~= Seq::<Seq<char>>::empty());
            },
        }
        proof {
            let kept = state@.receivers(src@);
            assert forall|i: int| 0 <= i < kept.len() implies (#[trigger] kept[i]) != src@
                && state@.neighbours().contains(kept[i]) by {
                state@.neighbours().lemma_filter_pred(other_than(src@), i);
                assert(kept.contains(kept[i]));
                state@.neighbours().lemma_filter_contains_rev(
                    other_than(src@),
                    kept[i],
                );
            }
        }
        targets
    }

    /// The envelopes that carry `value` from `own` to each of `targets`.
    fn envelopes_for(own: &String, targets: &Vec<String>, value: Option<usize>) -> (out: Vec<
        MaelstromMessage,
    >)
        ensures
            out.deep_view() == forwards(own@, targets.deep_view(), value),
    {
        let mut out: Vec<MaelstromMessage> = Vec::new();
        let mut i: usize = 0;
        while i < targets.len()
            invariant
                i <= targets.len(),
                out.len() == i,
                forall|j: int|
                    0 <= j < i ==> (#[trigger] out@[j])@ == forward(
                        own@,
                        targets@[j]@,
                        value,
                    ),
            decreases targets.len() - i,
        {
            let mut unsent = MaelstromMessageBody::plain(MessageType::Broadcast, None, None);
            unsent.message = value;
            let draft = MaelstromMessage {
                src: own.clone(),
                dest: targets[i].clone(),
                body: unsent,
            };
            let body = MaelstromMessageBody::get_broadcast_body(&draft);
            out.push(MaelstromMessage { src: draft.src, dest: draft.dest, body });
            i += 1;
        }
        assert(out.deep_view() =~= forwards(own@, targets.deep_view(), value));
        out
    }

    /// The envelopes that carry the value of `msg` onward: one for each
    /// neighbour of this node but the sender of `msg`, in the topology's
    /// order, each under its derived sequence number.
    pub fn get_broadcast_msgs(state: &State, msg: &MaelstromMessage) -> (out: Vec<
        MaelstromMessage,
    >)
        ensures
            out.deep_view() == state@.forwards_of(msg@),
            forall|i: int|
                0 <= i < out.len() ==> (#[trigger] out.deep_view()[i]).dest != msg@.src
                    && state@.neighbours().contains(out.deep_view()[i].dest),
    {
        let targets = MaelstromMessage::get_broadcast_receivers(state, &msg.src);
        let out = MaelstromMessage::envelopes_for(&state.node_id, &targets, msg.body.message);
        assert forall|i: int| 0 <= i < out.len() implies (#[trigger] out.deep_view()[i]).dest
            != msg@.src && state@.neighbours().contains(out.deep_view()[i].dest) by {
            assert(out.deep_view().len() == out.len());
            assert(targets.deep_view().len() == out.deep_view().len());
            assert(out.deep_view()[i].dest == targets.deep_view()[i]);
        }
        out
    }

    /// As [`MaelstromMessage::get_broadcast_msgs`], for a message that the
    /// caller gives up.
    pub fn get_broadcast_msg(state: &State, msg: MaelstromMessage) -> (out: Vec<
        MaelstromMessage,
    >)
        ensures
            out.deep_view() == state@.forwards_of(msg@),
            forall|i: int|
                0 <= i < out.len() ==> (#[trigger] out.deep_view()[i]).dest != msg@.src
                    && state@.neighbours().contains(out.deep_view()[i].dest),
    {
        MaelstromMessage::get_broadcast_msgs(state, &msg)
    }

    /// The envelopes that carry a value of this node's own to every one of
    /// its neighbours, in the topology's order, each under its derived
    /// sequence number.
    pub fn broadcast(state: &State, message: usize) -> (out: Vec<MaelstromMessage>)
        ensures
            out.deep_view() == forwards(state@.node_id, state@.neighbours(), Some(message)),
    {
        match state.topology.get(&state.node_id) {
            Some(neighbours) => MaelstromMessage::envelopes_for(
                &state.node_id,
                neighbours,
                Some(message),
            ),
            None => {
                let out: Vec<MaelstromMessage> = Vec::new();
                assert(out.deep_view() =~= forwards(
                    state@.node_id,
                    state@.neighbours(),
                    Some(message),
                ));
                out
            },
        }
    }

    /// The reply envelope that this request is owed by a node in `state`:
    /// the reply body, addressed back to the sender. For a `generate` the
    /// reply hands out an identifier drawn at random, of which only the
    /// shape is known. A reply is owed none: it gets [`CANNOT_RESPOND`].
    pub fn get_response(self, state: &State) -> (res: Result<MaelstromMessage, String>)
        ensures
            res is Err <==> self.body.msg_type.is_response(),
            res matches Err(error) ==> error@ == CANNOT_RESPOND@,
            res matches Ok(reply) ==> reply@ == reply_to(
                self@,
                state@.seen_messages,
                reply@.body.issued_id(),
            ),
            res matches Ok(reply) ==> (self.body.msg_type is Generate ==> is_hyphenated_id(
                reply@.body.issued_id(),
            )),
    {
        match self.body.get_response(state) {
            Ok(body) => Ok(MaelstromMessage { src: self.dest, dest: self.src, body }),
            Err(error) => Err(error),
        }
    }

    /// Records in `state` what this request brings and gives the reply
    /// envelope it is owed, addressed back to the sender. For a `generate`
    /// the reply hands out an identifier drawn at random, of which only the
    /// shape is known. A reply changes nothing and gets [`CANNOT_RESPOND`].
    pub fn handle(self, state: &mut State) -> (res: Result<MaelstromMessage, String>)
        requires
            self@.body.has_payload(),
        ensures
            final(state)@ == old(state)@.absorb(self@.body),
            old(state)@.wf() ==> final(state)@.wf(),
            res is Err <==> self.body.msg_type.is_response(),
            res matches Err(error) ==> error@ == CANNOT_RESPOND@,
            res matches Ok(reply) ==> reply@ == reply_to(
                self@,
                final(state)@.seen_messages,
                reply@.body.issued_id(),
            ),
            res matches Ok(reply) ==> (self.body.msg_type is Generate ==> is_hyphenated_id(
                reply@.body.issued_id(),
            )),
    {
        match self.body.handle(state) {
            Ok(body) => Ok(MaelstromMessage { src: self.dest, dest: self.src, body }),
            Err(error) => Err(error),
        }
    }
}

} // verus!
