use vstd::prelude::*;
use vstd::pervasive::VecAdditionalExecFns;
use vstd::slice::slice_subrange;
use crate::dtchat::{first_message_with, Peer, Room};
use crate::message::{ChatMessage, ChatMessageV, MessageStatus};
use crate::time::DTChatTime;

verus! {

/// A status transition the store is asked to apply to one message.
#[derive(Clone, Copy, Debug, PartialEq)]
pub enum MarkIntent {
    Acked(DTChatTime),
    Sent(DTChatTime),
    Failed,
}

/// Mathematical image of a `MarkIntent`; instants are milliseconds.
pub enum MarkIntentV {
    Acked(int),
    Sent(int),
    Failed,
}

impl View for MarkIntent {
    type V = MarkIntentV;

    open spec fn view(&self) -> MarkIntentV {
        match self {
            MarkIntent::Acked(t) => MarkIntentV::Acked(t@),
            MarkIntent::Sent(t) => MarkIntentV::Sent(t@),
            MarkIntent::Failed => MarkIntentV::Failed,
        }
    }
}

/// What a mark does to a message: an acknowledgement records the peer's
/// receive instant, a completion records the transmission instant, a failure
/// only moves the status.
pub open spec fn apply_mark(m: ChatMessageV, intent: MarkIntentV) -> ChatMessageV {
    match intent {
        MarkIntentV::Acked(t) => ChatMessageV {
            receive_time: Some(t),
            status: MessageStatus::ReceivedByPeer,
            ..m
        },
        MarkIntentV::Sent(t) => ChatMessageV {
            send_completed: Some(t),
            status: MessageStatus::Sent,
            ..m
        },
        MarkIntentV::Failed => ChatMessageV { status: MessageStatus::Failed, ..m },
    }
}

/// The persistent peer/room/message store, kept as plain vectors: messages in
/// insertion order, the local peer, the other peers, and the rooms.
pub struct SimpleVecDB {
    pub messages: Vec<ChatMessage>,
    pub localpeer: Peer,
    pub peers: Vec<Peer>,
    pub rooms: Vec<Room>,
}

/// Index of the first stored message with the given identity, found by scan.
fn find_message_from(msgs: &Vec<ChatMessage>, i: usize, uuid: &String) -> (r: Option<usize>)
    requires
        i <= msgs@.len(),
    ensures
        match r {
            Some(j) => i <= j < msgs@.len() && first_message_with(
                msgs.deep_view().skip(i as int),
                uuid@,
            ) == Some(j - i as int),
            None => first_message_with(msgs.deep_view().skip(i as int), uuid@) is None,
        },
    decreases msgs@.len() - i,
{
    let ghost s = msgs.deep_view().skip(i as int);
    if i == msgs.len() {
        return None;
    }
    assert(s[0] == msgs.deep_view()[i as int]);
    if crate::text::str_eq(msgs[i].uuid.as_str(), uuid.as_str()) {
        Some(i)
    } else {
        assert(s.drop_first() =~= msgs.deep_view().skip(i as int + 1));
        match find_message_from(msgs, i + 1, uuid) {
            Some(j) => Some(j),
            None => None,
        }
    }
}

impl SimpleVecDB {
    /// A store over the given contents.
    pub fn new(messages: Vec<ChatMessage>, localpeer: Peer, peers: Vec<Peer>, rooms: Vec<Room>) -> (r:
        Self)
        ensures
            r.messages == messages,
            r.localpeer == localpeer,
            r.peers == peers,
            r.rooms == rooms,
    {
        SimpleVecDB { messages, localpeer, peers, rooms }
    }

    pub fn get_rooms(&self) -> (r: &Vec<Room>)
        ensures
            *r == self.rooms,
    {
        &self.rooms
    }

    pub fn get_other_peers(&self) -> (r: &Vec<Peer>)
        ensures
            *r == self.peers,
    {
        &self.peers
    }

    pub fn get_localpeer(&self) -> (r: &Peer)
        ensures
            *r == self.localpeer,
    {
        &self.localpeer
    }

    /// The most recent `count` messages, in insertion order; all of them when
    /// fewer are stored.
    pub fn get_last_messages(&self, count: usize) -> (r: &[ChatMessage])
        ensures
            ({
                let len = self.messages@.len() as int;
                let start = if count as int > len {
                    0
                } else {
                    len - count
                };
                r@ == self.messages@.subrange(start, len)
            }),
    {
        let len = self.messages.len();
        let start = if count > len {
            0
        } else {
            len - count
        };
        slice_subrange(self.messages.as_slice(), start, len)
    }

    pub fn get_all_messages(&self) -> (r: &Vec<ChatMessage>)
        ensures
            *r == self.messages,
    {
        &self.messages
    }

    /// Appends a message; the store accepts every message.
    pub fn add_message(&mut self, msg: ChatMessage) -> (r: bool)
        ensures
            r,
            final(self).messages@ == old(self).messages@.push(msg),
            final(self).localpeer == old(self).localpeer,
            final(self).peers == old(self).peers,
            final(self).rooms == old(self).rooms,
    {
        self.messages.push(msg);
        true
    }

    /// Applies a status transition to the first message with the given
    /// identity and returns the updated message; an unknown identity changes
    /// nothing and returns nothing.
    pub fn mark_as(&mut self, uuid: &String, intent: MarkIntent) -> (r: Option<ChatMessage>)
        ensures
            match first_message_with(old(self).messages.deep_view(), uuid@) {
                Some(i) => {
                    &&& r matches Some(m) && m@ == apply_mark(
                        old(self).messages.deep_view()[i],
                        intent@,
                    )
                    &&& final(self).messages.deep_view() == old(self).messages.deep_view().update(
                        i,
                        apply_mark(old(self).messages.deep_view()[i], intent@),
                    )
                },
                None => r is None && final(self).messages == old(self).messages,
            },
            final(self).localpeer == old(self).localpeer,
            final(self).peers == old(self).peers,
            final(self).rooms == old(self).rooms,
    {
        proof {
            assert(self.messages.deep_view().skip(0) =~= self.messages.deep_view());
        }
        match find_message_from(&self.messages, 0, uuid) {
            None => None,
            Some(i) => {
                let mut m = self.messages[i].duplicate();
                match intent {
                    MarkIntent::Acked(date_time) => {
                        m.receive_time = Some(date_time);
                        m.status = MessageStatus::ReceivedByPeer;
                    },
                    MarkIntent::Sent(date_time) => {
                        m.send_completed = Some(date_time);
                        m.status = MessageStatus::Sent;
                    },
                    MarkIntent::Failed => {
                        m.status = MessageStatus::Failed;
                    },
                }
                let ret = m.duplicate();
                self.messages.set(i, m);
                proof {
                    assert(final(self).messages.deep_view() =~= old(self).messages.deep_view().update(
                        i as int,
                        apply_mark(old(self).messages.deep_view()[i as int], intent@),
                    ));
                }
                Some(ret)
            },
        }
    }

    /// Records a predicted arrival instant on the first message with the
    /// given identity; an unknown identity changes nothing.
    pub fn set_predicted_arrival(&mut self, uuid: &String, arrival: DTChatTime) -> (r: bool)
        ensures
            match first_message_with(old(self).messages.deep_view(), uuid@) {
                Some(i) => {
                    &&& r
                    &&& final(self).messages.deep_view() == old(self).messages.deep_view().update(
                        i,
                        ChatMessageV {
                            predicted_arrival_time: Some(arrival@),
                            ..old(self).messages.deep_view()[i]
                        },
                    )
                },
                None => !r && final(self).messages == old(self).messages,
            },
            final(self).localpeer == old(self).localpeer,
            final(self).peers == old(self).peers,
            final(self).rooms == old(self).rooms,
    {
        proof {
            assert(self.messages.deep_view().skip(0) =~= self.messages.deep_view());
        }
        match find_message_from(&self.messages, 0, uuid) {
            None => false,
            Some(i) => {
                let mut m = self.messages[i].duplicate();
                m.predicted_arrival_time = Some(arrival);
                self.messages.set(i, m);
                proof {
                    assert(final(self).messages.deep_view() =~= old(self).messages.deep_view().update(
                        i as int,
                        ChatMessageV {
                            predicted_arrival_time: Some(arrival@),
                            ..old(self).messages.deep_view()[i as int]
                        },
                    ));
                }
                true
            },
        }
    }
}

} // verus!
