use vstd::prelude::*;
use crate::db::{apply_mark, MarkIntent, MarkIntentV, SimpleVecDB};
use crate::endpoint::{endpoint_text, parse_endpoint, Endpoint, EndpointProto, EndpointV};
use crate::event::{
    ChatAppErrorEvent, ChatAppErrorEventV, ChatAppEvent, ChatAppEventV, ChatAppInfoEvent,
    ChatAppInfoEventV, ConnectionEvent, DataEvent, DataEventV, ErrorEvent, ErrorEventV,
    NetworkErrorEvent, NetworkErrorEventV, NetworkEvent, NetworkEventV, SocketEngineEvent,
    SocketEngineEventV,
};
use crate::message::{
    ChatMessage, ChatMessageV, Content, ContentV, MessageStatus, RoomMessage, SortStrategy,
};
use crate::proto_message::{
    payload_of_content, spec_decode, spec_encode, MsgType, MsgTypeV, ProtoMessage, ProtoMessageV,
};
use crate::text::str_eq;
use crate::time::{timestamp_millis_in_range, DTChatTime};

verus! {

/// Relies on uuid::Uuid::new_v4 and its hyphenated text form: 36 ASCII
/// characters (32 hexadecimal digits and 4 hyphens). Nothing is assumed
/// about which identifier comes out.
#[verifier::external_body]
pub fn generate_uuid() -> (r: String)
    ensures
        r@.len() == 36,
{
    uuid::Uuid::new_v4().to_string()
}

/// A participant: identity, presentation hints, and the transport addresses
/// it can be reached over. Immutable after construction.
#[derive(Clone, Debug, PartialEq)]
pub struct Peer {
    pub uuid: String,
    pub name: String,
    pub endpoints: Vec<Endpoint>,
    pub color: String,
}

/// Mathematical image of a `Peer`.
#[verifier::ext_equal]
pub struct PeerV {
    pub uuid: Seq<char>,
    pub name: Seq<char>,
    pub endpoints: Seq<EndpointV>,
    pub color: Seq<char>,
}

impl View for Peer {
    type V = PeerV;

    open spec fn view(&self) -> PeerV {
        PeerV {
            uuid: self.uuid@,
            name: self.name@,
            endpoints: self.endpoints.deep_view(),
            color: self.color@,
        }
    }
}

impl DeepView for Peer {
    type V = PeerV;

    open spec fn deep_view(&self) -> PeerV {
        self.view()
    }
}

impl Peer {
    /// A copy whose view equals this peer's view.
    pub fn duplicate(&self) -> (r: Self)
        ensures
            r@ == self@,
    {
        let mut endpoints: Vec<Endpoint> = Vec::new();
        let n = self.endpoints.len();
        let mut i: usize = 0;
        while i < n
            invariant
                n == self.endpoints@.len(),
                i <= n,
                endpoints.deep_view() =~= self.endpoints.deep_view().subrange(0, i as int),
            decreases n - i,
        {
            let ghost pre = endpoints.deep_view();
            let e = self.endpoints[i].duplicate();
            endpoints.push(e);
            proof {
                let dv = self.endpoints.deep_view();
                assert(endpoints.deep_view() =~= pre.push(e@));
                assert(e@ == dv[i as int]);
                assert(endpoints.deep_view() =~= dv.subrange(0, i + 1));
            }
            i += 1;
        }
        proof {
            assert(endpoints.deep_view() =~= self.endpoints.deep_view());
        }
        Peer {
            uuid: self.uuid.clone(),
            name: self.name.clone(),
            endpoints,
            color: self.color.clone(),
        }
    }
}

/// A named multicast group: each member is registered together with the
/// endpoint that messages addressed to the room should use for it.
#[derive(Clone, Debug, PartialEq)]
pub struct Room {
    pub uuid: String,
    pub name: String,
    pub participants: Vec<(String, Endpoint)>,
}

/// Mathematical image of a `Room`.
#[verifier::ext_equal]
pub struct RoomV {
    pub uuid: Seq<char>,
    pub name: Seq<char>,
    pub participants: Seq<(Seq<char>, EndpointV)>,
}

pub open spec fn participants_view(ps: Seq<(String, Endpoint)>) -> Seq<(Seq<char>, EndpointV)> {
    Seq::new(ps.len(), |i: int| (ps[i].0@, ps[i].1@))
}

impl View for Room {
    type V = RoomV;

    open spec fn view(&self) -> RoomV {
        RoomV {
            uuid: self.uuid@,
            name: self.name@,
            participants: participants_view(self.participants@),
        }
    }
}

impl DeepView for Room {
    type V = RoomV;

    open spec fn deep_view(&self) -> RoomV {
        self.view()
    }
}

impl Room {
    /// A copy whose view equals this room's view.
    pub fn duplicate(&self) -> (r: Self)
        ensures
            r@ == self@,
    {
        let mut participants: Vec<(String, Endpoint)> = Vec::new();
        let n = self.participants.len();
        let mut i: usize = 0;
        while i < n
            invariant
                n == self.participants@.len(),
                i <= n,
                participants_view(participants@) =~= participants_view(
                    self.participants@.subrange(0, i as int),
                ),
            decreases n - i,
        {
            let p0 = self.participants[i].0.clone();
            let p1 = self.participants[i].1.duplicate();
            let ghost pre = participants_view(participants@);
            let ghost ev = (p0@, p1@);
            participants.push((p0, p1));
            proof {
                assert(participants_view(participants@) =~= pre.push(ev));
                assert(participants_view(participants@) =~= participants_view(
                    self.participants@.subrange(0, i + 1),
                ));
            }
            i += 1;
        }
        proof {
            assert(self.participants@.subrange(0, n as int) =~= self.participants@);
            assert(participants_view(participants@) =~= participants_view(self.participants@));
        }
        Room { uuid: self.uuid.clone(), name: self.name.clone(), participants }
    }
}

/// Whether an in-flight send carries a chat message or an acknowledgement.
#[derive(Clone, Copy, Debug, PartialEq, Eq, Structural)]
pub enum MessageType {
    Ack,
    Text,
}

/// Process-wide state of the delivery-time oracle, set once at startup.
#[derive(Clone, Debug, PartialEq)]
pub enum ASabrInitState {
    Enabled,
    Error(String),
    Disabled,
}

/// Mathematical image of an `ASabrInitState`.
#[verifier::ext_equal]
pub enum ASabrInitStateV {
    Enabled,
    Error(Seq<char>),
    Disabled,
}

impl View for ASabrInitState {
    type V = ASabrInitStateV;

    open spec fn view(&self) -> ASabrInitStateV {
        match self {
            ASabrInitState::Enabled => ASabrInitStateV::Enabled,
            ASabrInitState::Error(e) => ASabrInitStateV::Error(e@),
            ASabrInitState::Disabled => ASabrInitStateV::Disabled,
        }
    }
}

/// Outside work the engine asks its host to perform: transport calls, the
/// oracle call, and storing a received file. The host performs them in order.
#[derive(Clone, Debug, PartialEq)]
pub enum EngineAction {
    StartListener(Endpoint),
    SendData {
        local_endpoint: Option<Endpoint>,
        remote_endpoint: Endpoint,
        data: Vec<u8>,
        token: String,
    },
    RequestPrediction {
        source_eid: String,
        dest_eid: String,
        size_bytes: usize,
        message_uuid: String,
    },
    StoreFile { name: String, data: Vec<u8> },
}

/// Mathematical image of an `EngineAction`.
#[verifier::ext_equal]
pub enum EngineActionV {
    StartListener(EndpointV),
    SendData {
        local_endpoint: Option<EndpointV>,
        remote_endpoint: EndpointV,
        data: Seq<u8>,
        token: Seq<char>,
    },
    RequestPrediction {
        source_eid: Seq<char>,
        dest_eid: Seq<char>,
        size_bytes: nat,
        message_uuid: Seq<char>,
    },
    StoreFile { name: Seq<char>, data: Seq<u8> },
}

impl View for EngineAction {
    type V = EngineActionV;

    open spec fn view(&self) -> EngineActionV {
        match self {
            EngineAction::StartListener(e) => EngineActionV::StartListener(e@),
            EngineAction::SendData { local_endpoint, remote_endpoint, data, token } => EngineActionV::SendData {
                local_endpoint: match local_endpoint {
                    Some(e) => Some(e@),
                    None => None,
                },
                remote_endpoint: remote_endpoint@,
                data: data@,
                token: token@,
            },
            EngineAction::RequestPrediction {
                source_eid,
                dest_eid,
                size_bytes,
                message_uuid,
            } => EngineActionV::RequestPrediction {
                source_eid: source_eid@,
                dest_eid: dest_eid@,
                size_bytes: *size_bytes as nat,
                message_uuid: message_uuid@,
            },
            EngineAction::StoreFile { name, data } => EngineActionV::StoreFile {
                name: name@,
                data: data@,
            },
        }
    }
}

impl DeepView for EngineAction {
    type V = EngineActionV;

    open spec fn deep_view(&self) -> EngineActionV {
        self.view()
    }
}

// ---------------------------------------------------------------------------
// First-match lookups shared by the engine's contracts.
// ---------------------------------------------------------------------------

/// The first endpoint of a given transport kind, if any.
pub open spec fn find_endpoint_for_proto(eps: Seq<EndpointV>, proto: EndpointProto) -> Option<
    EndpointV,
>
    decreases eps.len(),
{
    if eps.len() == 0 {
        None
    } else if eps[0].proto == proto {
        Some(eps[0])
    } else {
        find_endpoint_for_proto(eps.drop_first(), proto)
    }
}

/// The first peer with a given identity, if any.
pub open spec fn find_peer(peers: Seq<PeerV>, uuid: Seq<char>) -> Option<PeerV>
    decreases peers.len(),
{
    if peers.len() == 0 {
        None
    } else if peers[0].uuid == uuid {
        Some(peers[0])
    } else {
        find_peer(peers.drop_first(), uuid)
    }
}

/// The first room with a given identity, if any.
pub open spec fn find_room(rooms: Seq<RoomV>, uuid: Seq<char>) -> Option<RoomV>
    decreases rooms.len(),
{
    if rooms.len() == 0 {
        None
    } else if rooms[0].uuid == uuid {
        Some(rooms[0])
    } else {
        find_room(rooms.drop_first(), uuid)
    }
}

/// Index of the first pending send with a given correlation token, if any.
pub open spec fn first_pending_with(
    pend: Seq<(MessageType, Seq<char>, Option<Seq<char>>)>,
    token: Seq<char>,
) -> Option<int>
    decreases pend.len(),
{
    if pend.len() == 0 {
        None
    } else if pend[0].1 == token {
        Some(0)
    } else {
        match first_pending_with(pend.drop_first(), token) {
            Some(k) => Some(k + 1),
            None => None,
        }
    }
}

/// Index of the first stored message with a given identity, if any.
pub open spec fn first_message_with(msgs: Seq<crate::message::ChatMessageV>, uuid: Seq<char>) -> Option<
    int,
>
    decreases msgs.len(),
{
    if msgs.len() == 0 {
        None
    } else if msgs[0].uuid == uuid {
        Some(0)
    } else {
        match first_message_with(msgs.drop_first(), uuid) {
            Some(k) => Some(k + 1),
            None => None,
        }
    }
}

/// A room's registrations without the local peer's own, in room order.
pub open spec fn room_others(parts: Seq<(Seq<char>, EndpointV)>, local: Seq<char>) -> Seq<
    (Seq<char>, EndpointV),
>
    decreases parts.len(),
{
    if parts.len() == 0 {
        Seq::empty()
    } else {
        let rest = room_others(parts.drop_first(), local);
        if parts[0].0 == local {
            rest
        } else {
            seq![parts[0]] + rest
        }
    }
}

/// Whether a peer is registered in a room.
pub open spec fn room_has_local(parts: Seq<(Seq<char>, EndpointV)>, local: Seq<char>) -> bool {
    exists|i: int| 0 <= i < parts.len() && parts[i].0 == local
}

proof fn lemma_room_others_push(
    s: Seq<(Seq<char>, EndpointV)>,
    x: (Seq<char>, EndpointV),
    local: Seq<char>,
)
    ensures
        room_others(s.push(x), local) == room_others(s, local) + (if x.0 == local {
            Seq::<(Seq<char>, EndpointV)>::empty()
        } else {
            seq![x]
        }),
    decreases s.len(),
{
    if s.len() == 0 {
        assert(s.push(x).drop_first() =~= s);
        assert(s.push(x)[0] == x);
        if x.0 == local {
            assert(room_others(s.push(x), local) =~= room_others(s, local)
                + Seq::<(Seq<char>, EndpointV)>::empty());
        } else {
            assert(room_others(s.push(x), local) =~= room_others(s, local) + seq![x]);
        }
    } else {
        assert(s.push(x).drop_first() =~= s.drop_first().push(x));
        assert(s.push(x)[0] == s[0]);
        lemma_room_others_push(s.drop_first(), x, local);
        if s[0].0 == local {
        } else {
            assert(seq![s[0]] + (room_others(s.drop_first(), local) + (if x.0 == local {
                Seq::<(Seq<char>, EndpointV)>::empty()
            } else {
                seq![x]
            })) =~= (seq![s[0]] + room_others(s.drop_first(), local)) + (if x.0 == local {
                Seq::<(Seq<char>, EndpointV)>::empty()
            } else {
                seq![x]
            }));
        }
    }
}

pub open spec fn opt_str_view(o: Option<String>) -> Option<Seq<char>> {
    match o {
        Some(s) => Some(s@),
        None => None,
    }
}

pub open spec fn opt_endpoint_view(o: Option<Endpoint>) -> Option<EndpointV> {
    match o {
        Some(e) => Some(e@),
        None => None,
    }
}

// ---------------------------------------------------------------------------
// The protocol engine. It owns the store, the pending-send table and the
// oracle state; everything asynchronous stays outside: the engine queues
// events for observers and actions for the host, which drains both after
// every operation and performs them in order.
// ---------------------------------------------------------------------------

/// The message-lifecycle and acknowledgement protocol engine.
pub struct ChatModel {
    pub sort_strategy: SortStrategy,
    pub started: bool,
    pub pending_send_list: Vec<(MessageType, String, Option<String>)>,
    pub db: SimpleVecDB,
    pub a_sabr: ASabrInitState,
    pub out_events: Vec<ChatAppEvent>,
    pub out_actions: Vec<EngineAction>,
}

impl ChatModel {
    /// The pending-send table: kind, correlation token, and for
    /// acknowledgements the identity of the message being acknowledged.
    pub open spec fn pending_view(&self) -> Seq<(MessageType, Seq<char>, Option<Seq<char>>)> {
        Seq::new(
            self.pending_send_list@.len(),
            |i: int|
                (
                    self.pending_send_list@[i].0,
                    self.pending_send_list@[i].1@,
                    opt_str_view(self.pending_send_list@[i].2),
                ),
        )
    }

    pub open spec fn messages_view(&self) -> Seq<ChatMessageV> {
        self.db.messages.deep_view()
    }

    pub open spec fn events_view(&self) -> Seq<ChatAppEventV> {
        self.out_events.deep_view()
    }

    pub open spec fn actions_view(&self) -> Seq<EngineActionV> {
        self.out_actions.deep_view()
    }

    /// What no engine operation after construction ever changes.
    pub open spec fn same_config(pre: ChatModel, post: ChatModel) -> bool {
        &&& post.sort_strategy == pre.sort_strategy
        &&& post.started == pre.started
        &&& post.a_sabr == pre.a_sabr
        &&& post.db.localpeer == pre.db.localpeer
        &&& post.db.peers == pre.db.peers
        &&& post.db.rooms == pre.db.rooms
    }
}

/// Duplicates a byte vector.
fn dup_bytes(src: &Vec<u8>) -> (r: Vec<u8>)
    ensures
        r@ == src@,
{
    let mut out: Vec<u8> = Vec::new();
    let n = src.len();
    let mut i: usize = 0;
    while i < n
        invariant
            n == src@.len(),
            i <= n,
            out@ == src@.subrange(0, i as int),
        decreases n - i,
    {
        out.push(src[i]);
        proof {
            assert(src@.subrange(0, i + 1) =~= src@.subrange(0, i as int).push(src@[i as int]));
        }
        i += 1;
    }
    proof {
        assert(src@.subrange(0, n as int) =~= src@);
    }
    out
}

fn dup_opt_endpoint(o: &Option<Endpoint>) -> (r: Option<Endpoint>)
    ensures
        opt_endpoint_view(r) == opt_endpoint_view(*o),
{
    match o {
        Some(e) => Some(e.duplicate()),
        None => None,
    }
}

/// First endpoint of the wanted transport kind at or after `i`.
fn find_ep_from(eps: &Vec<Endpoint>, i: usize, proto: EndpointProto) -> (r: Option<Endpoint>)
    requires
        i <= eps@.len(),
    ensures
        match r {
            Some(e) => find_endpoint_for_proto(eps.deep_view().skip(i as int), proto) == Some(e@),
            None => find_endpoint_for_proto(eps.deep_view().skip(i as int), proto) is None,
        },
    decreases eps@.len() - i,
{
    let ghost s = eps.deep_view().skip(i as int);
    if i == eps.len() {
        return None;
    }
    assert(s[0] == eps.deep_view()[i as int]);
    if eps[i].proto == proto {
        Some(eps[i].duplicate())
    } else {
        assert(s.drop_first() =~= eps.deep_view().skip(i as int + 1));
        find_ep_from(eps, i + 1, proto)
    }
}

/// First peer with the wanted identity at or after `i`.
fn find_peer_from(peers: &Vec<Peer>, i: usize, uuid: &String) -> (r: Option<usize>)
    requires
        i <= peers@.len(),
    ensures
        match r {
            Some(j) => i <= j < peers@.len() && find_peer(peers.deep_view().skip(i as int), uuid@)
                == Some(peers.deep_view()[j as int]),
            None => find_peer(peers.deep_view().skip(i as int), uuid@) is None,
        },
    decreases peers@.len() - i,
{
    let ghost s = peers.deep_view().skip(i as int);
    if i == peers.len() {
        return None;
    }
    assert(s[0] == peers.deep_view()[i as int]);
    if str_eq(peers[i].uuid.as_str(), uuid.as_str()) {
        Some(i)
    } else {
        assert(s.drop_first() =~= peers.deep_view().skip(i as int + 1));
        find_peer_from(peers, i + 1, uuid)
    }
}

/// First room with the wanted identity at or after `i`.
fn find_room_from(rooms: &Vec<Room>, i: usize, uuid: &String) -> (r: Option<usize>)
    requires
        i <= rooms@.len(),
    ensures
        match r {
            Some(j) => i <= j < rooms@.len() && find_room(rooms.deep_view().skip(i as int), uuid@)
                == Some(rooms.deep_view()[j as int]),
            None => find_room(rooms.deep_view().skip(i as int), uuid@) is None,
        },
    decreases rooms@.len() - i,
{
    let ghost s = rooms.deep_view().skip(i as int);
    if i == rooms.len() {
        return None;
    }
    assert(s[0] == rooms.deep_view()[i as int]);
    if str_eq(rooms[i].uuid.as_str(), uuid.as_str()) {
        Some(i)
    } else {
        assert(s.drop_first() =~= rooms.deep_view().skip(i as int + 1));
        find_room_from(rooms, i + 1, uuid)
    }
}

/// First pending entry with the wanted token at or after `i`.
fn find_pending_from(
    list: &Vec<(MessageType, String, Option<String>)>,
    i: usize,
    token: &String,
    Ghost(pv): Ghost<Seq<(MessageType, Seq<char>, Option<Seq<char>>)>>,
) -> (r: Option<usize>)
    requires
        i <= list@.len(),
        pv.len() == list@.len(),
        forall|k: int|
            0 <= k < pv.len() ==> pv[k] == (list@[k].0, list@[k].1@, opt_str_view(list@[k].2)),
    ensures
        match r {
            Some(j) => i <= j < list@.len() && first_pending_with(pv.skip(i as int), token@)
                == Some(j - i as int),
            None => first_pending_with(pv.skip(i as int), token@) is None,
        },
    decreases list@.len() - i,
{
    let ghost s = pv.skip(i as int);
    if i == list.len() {
        return None;
    }
    assert(s[0] == pv[i as int]);
    if str_eq(list[i].1.as_str(), token.as_str()) {
        Some(i)
    } else {
        assert(s.drop_first() =~= pv.skip(i as int + 1));
        match find_pending_from(list, i + 1, token, Ghost(pv)) {
            Some(j) => Some(j),
            None => None,
        }
    }
}

// ---------------------------------------------------------------------------
// Transition predicates: what each engine operation does, stated over the
// engine's views. `eprefix` and `aprefix` are the event and action queues as
// the operation found them.
// ---------------------------------------------------------------------------

/// Effect of a transport "send completed" callback. An unknown token has no
/// observable effect; a completed acknowledgement only leaves the table; a
/// completed chat message moves to `Sent` at some in-range instant, or raises
/// not-found when the store no longer holds it.
pub open spec fn mark_as_sent_post(
    pre: ChatModel,
    post: ChatModel,
    token: Seq<char>,
    eprefix: Seq<ChatAppEventV>,
    aprefix: Seq<EngineActionV>,
) -> bool {
    let pend = pre.pending_view();
    &&& ChatModel::same_config(pre, post)
    &&& post.actions_view() == aprefix
    &&& match first_pending_with(pend, token) {
        None => {
            &&& post.pending_send_list == pre.pending_send_list
            &&& post.db == pre.db
            &&& post.events_view() == eprefix
        },
        Some(i) => {
            &&& post.pending_view() == pend.remove(i)
            &&& if pend[i].0 == MessageType::Ack {
                post.db == pre.db && post.events_view() == eprefix
            } else {
                match first_message_with(pre.messages_view(), token) {
                    Some(j) => exists|t: int|
                        {
                            &&& timestamp_millis_in_range(t)
                            &&& post.messages_view() == pre.messages_view().update(
                                j,
                                apply_mark(pre.messages_view()[j], MarkIntentV::Sent(t)),
                            )
                            &&& post.events_view() == eprefix.push(
                                ChatAppEventV::Message(
                                    ChatAppInfoEventV::Sent(
                                        apply_mark(pre.messages_view()[j], MarkIntentV::Sent(t)),
                                    ),
                                ),
                            )
                        },
                    None => {
                        &&& post.db == pre.db
                        &&& post.events_view() == eprefix.push(
                            ChatAppEventV::Error(
                                ChatAppErrorEventV::MessageNotFound(
                                    "Message cannot be found in the database: "@ + token,
                                ),
                            ),
                        )
                    },
                }
            }
        },
    }
}

/// Effect of a transport failure callback for a token. A failed
/// acknowledgement is dropped without an event; a failed chat message moves
/// to `Failed` (the transport error itself was already reported); an unknown
/// token has no observable effect.
pub open spec fn mark_failed_post(
    pre: ChatModel,
    post: ChatModel,
    token: Seq<char>,
    eprefix: Seq<ChatAppEventV>,
    aprefix: Seq<EngineActionV>,
) -> bool {
    let pend = pre.pending_view();
    &&& ChatModel::same_config(pre, post)
    &&& post.actions_view() == aprefix
    &&& match first_pending_with(pend, token) {
        None => {
            &&& post.pending_send_list == pre.pending_send_list
            &&& post.db == pre.db
            &&& post.events_view() == eprefix
        },
        Some(i) => {
            &&& post.pending_view() == pend.remove(i)
            &&& if pend[i].0 == MessageType::Ack {
                post.db == pre.db && post.events_view() == eprefix
            } else {
                match first_message_with(pre.messages_view(), token) {
                    Some(j) => {
                        &&& post.messages_view() == pre.messages_view().update(
                            j,
                            apply_mark(pre.messages_view()[j], MarkIntentV::Failed),
                        )
                        &&& post.events_view() == eprefix
                    },
                    None => {
                        &&& post.db == pre.db
                        &&& post.events_view() == eprefix.push(
                            ChatAppEventV::Error(
                                ChatAppErrorEventV::MessageNotFound(
                                    "Message cannot be found in the database: "@ + token,
                                ),
                            ),
                        )
                    },
                }
            }
        },
    }
}

/// Effect of consuming an acknowledgement envelope: with a readable
/// timestamp, the acknowledged message moves to `ReceivedByPeer` carrying the
/// acknowledgement's embedded instant as its receive time — not the local
/// clock; an unknown message or an unreadable timestamp only raises an error.
pub open spec fn mark_as_acked_post(
    pre: ChatModel,
    post: ChatModel,
    uuid: Seq<char>,
    ts: i64,
    eprefix: Seq<ChatAppEventV>,
    aprefix: Seq<EngineActionV>,
) -> bool {
    &&& ChatModel::same_config(pre, post)
    &&& post.actions_view() == aprefix
    &&& post.pending_send_list == pre.pending_send_list
    &&& if timestamp_millis_in_range(ts as int) {
        match first_message_with(pre.messages_view(), uuid) {
            Some(j) => {
                &&& post.messages_view() == pre.messages_view().update(
                    j,
                    apply_mark(pre.messages_view()[j], MarkIntentV::Acked(ts as int)),
                )
                &&& post.events_view() == eprefix.push(
                    ChatAppEventV::Message(
                        ChatAppInfoEventV::AckReceived(
                            apply_mark(pre.messages_view()[j], MarkIntentV::Acked(ts as int)),
                        ),
                    ),
                )
            },
            None => {
                &&& post.db == pre.db
                &&& post.events_view() == eprefix.push(
                    ChatAppEventV::Error(
                        ChatAppErrorEventV::MessageNotFound(
                            "Received ack for unknown message: "@ + uuid,
                        ),
                    ),
                )
            },
        }
    } else {
        &&& post.db == pre.db
        &&& post.events_view() == eprefix.push(
            ChatAppEventV::Error(
                ChatAppErrorEventV::ProtocolDecode(
                    "Wire decode error: invalid timestamp to ack message "@ + uuid,
                ),
            ),
        )
    }
}

/// The informational text `start` raises about the oracle state.
pub open spec fn start_info_text(s: ASabrInitStateV) -> Seq<char> {
    match s {
        ASabrInitStateV::Enabled => "A-SABR prediction enabled"@,
        ASabrInitStateV::Error(err) => "Initialization of A-SABR prediction failed: "@ + err,
        ASabrInitStateV::Disabled => "A-SABR prediction disabled (cp_path must be set)"@,
    }
}

/// The lifecycle notice a freshly persisted message raises: `Sending` for the
/// local peer's own messages, `Received` for everyone else's.
pub open spec fn persist_event(pre: ChatModel, m: ChatMessageV) -> ChatAppEventV {
    if m.sender_uuid == pre.db.localpeer@.uuid {
        ChatAppEventV::Message(ChatAppInfoEventV::Sending(m))
    } else {
        ChatAppEventV::Message(ChatAppInfoEventV::Received(m))
    }
}

/// Effect of persisting a message: the store gains exactly it, and exactly
/// one lifecycle notice is raised.
pub open spec fn add_message_post(
    pre: ChatModel,
    post: ChatModel,
    m: ChatMessageV,
    eprefix: Seq<ChatAppEventV>,
) -> bool {
    &&& ChatModel::same_config(pre, post)
    &&& post.out_actions == pre.out_actions
    &&& post.pending_send_list == pre.pending_send_list
    &&& post.messages_view() == pre.messages_view().push(m)
    &&& post.events_view() == eprefix.push(persist_event(pre, m))
}

/// The text an endpoint option contributes to an envelope's source field.
pub open spec fn source_text(lep: Option<EndpointV>) -> Seq<char> {
    match lep {
        Some(e) => endpoint_text(e),
        None => "??"@,
    }
}

/// One acknowledgement issue, with its fresh identity and stamp named.
pub open spec fn send_ack_fields(
    pre: ChatModel,
    post: ChatModel,
    for_msg: ChatMessageV,
    target: EndpointV,
    eprefix: Seq<ChatAppEventV>,
    aprefix: Seq<EngineActionV>,
    ack_uuid: Seq<char>,
    ts: i64,
) -> bool {
    let lep = find_endpoint_for_proto(pre.db.localpeer@.endpoints, target.proto);
    let env = ProtoMessageV {
        uuid: ack_uuid,
        sender_uuid: pre.db.localpeer@.uuid,
        timestamp: ts,
        room_uuid: for_msg.room_uuid,
        source_endpoint: source_text(lep),
        msg_type: Some(MsgTypeV::Ack(for_msg.uuid)),
    };
    &&& ack_uuid.len() == 36
    &&& timestamp_millis_in_range(ts as int)
    &&& post.pending_view() == pre.pending_view().push(
        (MessageType::Ack, ack_uuid, Some(for_msg.uuid)),
    )
    &&& if pre.started {
        &&& post.actions_view() == aprefix.push(
            EngineActionV::SendData {
                local_endpoint: lep,
                remote_endpoint: target,
                data: spec_encode(env),
                token: ack_uuid,
            },
        )
        &&& post.events_view() == eprefix.push(
            ChatAppEventV::Message(ChatAppInfoEventV::AckSent(for_msg, endpoint_text(target))),
        )
    } else {
        post.actions_view() == aprefix && post.events_view() == eprefix
    }
}

/// Effect of issuing the acknowledgement for a received message: the
/// pending-send table gains one acknowledgement entry; when started, the
/// encoded acknowledgement envelope goes to the source endpoint and the issue
/// is reported.
pub open spec fn send_ack_post(
    pre: ChatModel,
    post: ChatModel,
    for_msg: ChatMessageV,
    target: EndpointV,
    eprefix: Seq<ChatAppEventV>,
    aprefix: Seq<EngineActionV>,
) -> bool {
    &&& ChatModel::same_config(pre, post)
    &&& post.db == pre.db
    &&& exists|ack_uuid: Seq<char>, ts: i64|
        send_ack_fields(pre, post, for_msg, target, eprefix, aprefix, ack_uuid, ts)
}

/// One outbound send, with the fresh message named.
pub open spec fn send_to_peer_fields(
    pre: ChatModel,
    post: ChatModel,
    content: ContentV,
    room: Seq<char>,
    peer: Seq<char>,
    target: EndpointV,
    try_prediction: bool,
    ret: Seq<char>,
    eprefix: Seq<ChatAppEventV>,
    aprefix: Seq<EngineActionV>,
    m: ChatMessageV,
) -> bool {
    let local = pre.db.localpeer@;
    let lep = find_endpoint_for_proto(local.endpoints, target.proto);
    let sent = pre.started && lep is Some;
    let env = ProtoMessageV {
        uuid: m.uuid,
        sender_uuid: m.sender_uuid,
        timestamp: m.send_time as i64,
        room_uuid: m.room_uuid,
        source_endpoint: source_text(lep),
        msg_type: Some(payload_of_content(m.content)),
    };
    let bytes = spec_encode(env);
    let bp_local = find_endpoint_for_proto(local.endpoints, EndpointProto::Bp);
    let bp_peer = match find_peer(pre.db.peers.deep_view(), peer) {
        Some(p) => find_endpoint_for_proto(p.endpoints, EndpointProto::Bp),
        None => None,
    };
    let predicted = try_prediction && sent && bp_local is Some && bp_peer is Some
        && pre.a_sabr@ is Enabled;
    &&& m.uuid == ret
    &&& ret.len() == 36
    &&& m.sender_uuid == local.uuid
    &&& m.room_uuid == room
    &&& m.content == content
    &&& m.status == MessageStatus::Sending
    &&& m.send_completed is None
    &&& m.receive_time is None
    &&& m.predicted_arrival_time is None
    &&& m.source_endpoint == target
    &&& timestamp_millis_in_range(m.send_time)
    &&& post.messages_view() == pre.messages_view().push(m)
    &&& post.pending_view() == pre.pending_view().push(
        (MessageType::Text, ret, None::<Seq<char>>),
    )
    &&& post.actions_view() == aprefix + (if sent {
        seq![
            EngineActionV::SendData {
                local_endpoint: lep,
                remote_endpoint: target,
                data: bytes,
                token: ret,
            },
        ]
    } else {
        Seq::<EngineActionV>::empty()
    }) + (if predicted {
        seq![
            EngineActionV::RequestPrediction {
                source_eid: bp_local.unwrap().endpoint,
                dest_eid: bp_peer.unwrap().endpoint,
                size_bytes: bytes.len(),
                message_uuid: ret,
            },
        ]
    } else {
        Seq::<EngineActionV>::empty()
    })
    &&& post.events_view() == eprefix + (if pre.started && lep is None {
        seq![
            ChatAppEventV::Error(
                ChatAppErrorEventV::ProtocolEncode(
                    "No local endpoint matches the destination transport"@,
                ),
            ),
        ]
    } else {
        Seq::<ChatAppEventV>::empty()
    }) + seq![ChatAppEventV::Message(ChatAppInfoEventV::Sending(m))]
}

/// Effect of one outbound send: exactly one fresh `Sending` message joins the
/// store and is announced, its token joins the pending-send table, and — when
/// the engine is started and a local endpoint matches the destination's
/// transport — its encoded envelope goes out; with no matching local endpoint
/// the send is skipped and an encode error is surfaced instead. A prediction
/// request is queued only when asked for, possible, and the oracle is
/// enabled.
pub open spec fn send_to_peer_post(
    pre: ChatModel,
    post: ChatModel,
    content: ContentV,
    room: Seq<char>,
    peer: Seq<char>,
    target: EndpointV,
    try_prediction: bool,
    ret: Seq<char>,
    eprefix: Seq<ChatAppEventV>,
    aprefix: Seq<EngineActionV>,
) -> bool {
    &&& ChatModel::same_config(pre, post)
    &&& exists|m: ChatMessageV|
        send_to_peer_fields(
            pre,
            post,
            content,
            room,
            peer,
            target,
            try_prediction,
            ret,
            eprefix,
            aprefix,
            m,
        )
}

/// Effect of persisting an inbound message `m` and acknowledging it back to
/// `src`: the store gains it, the pending table gains the acknowledgement's
/// token, and — when started — the encoded acknowledgement goes out.
pub open spec fn deliver_effects(
    pre: ChatModel,
    post: ChatModel,
    m: ChatMessageV,
    src: EndpointV,
    eprefix: Seq<ChatAppEventV>,
    aprefix: Seq<EngineActionV>,
    ack_uuid: Seq<char>,
    ack_ts: i64,
) -> bool {
    let lep = find_endpoint_for_proto(pre.db.localpeer@.endpoints, src.proto);
    let ack_env = ProtoMessageV {
        uuid: ack_uuid,
        sender_uuid: pre.db.localpeer@.uuid,
        timestamp: ack_ts,
        room_uuid: m.room_uuid,
        source_endpoint: source_text(lep),
        msg_type: Some(MsgTypeV::Ack(m.uuid)),
    };
    &&& ack_uuid.len() == 36
    &&& timestamp_millis_in_range(ack_ts as int)
    &&& post.messages_view() == pre.messages_view().push(m)
    &&& post.pending_view() == pre.pending_view().push(
        (MessageType::Ack, ack_uuid, Some(m.uuid)),
    )
    &&& post.events_view() == eprefix.push(persist_event(pre, m)) + (if pre.started {
        seq![ChatAppEventV::Message(ChatAppInfoEventV::AckSent(m, endpoint_text(src)))]
    } else {
        Seq::<ChatAppEventV>::empty()
    })
    &&& post.actions_view() == aprefix + (if pre.started {
        seq![
            EngineActionV::SendData {
                local_endpoint: lep,
                remote_endpoint: src,
                data: spec_encode(ack_env),
                token: ack_uuid,
            },
        ]
    } else {
        Seq::<EngineActionV>::empty()
    })
}

/// One inbound Text or File delivery, with the stored message and its
/// acknowledgement named.
pub open spec fn treat_content_fields(
    pre: ChatModel,
    post: ChatModel,
    env: ProtoMessageV,
    content: ContentV,
    eprefix: Seq<ChatAppEventV>,
    aprefix: Seq<EngineActionV>,
    m: ChatMessageV,
    ack_uuid: Seq<char>,
    ack_ts: i64,
) -> bool {
    let src = parse_endpoint(env.source_endpoint).unwrap();
    &&& m.uuid == env.uuid
    &&& m.sender_uuid == env.sender_uuid
    &&& m.room_uuid == env.room_uuid
    &&& m.content == content
    &&& m.send_time == env.timestamp as int
    &&& m.send_completed == Some(env.timestamp as int)
    &&& m.receive_time is Some
    &&& m.predicted_arrival_time is None
    &&& m.status == MessageStatus::Received
    &&& m.source_endpoint == src
    &&& deliver_effects(pre, post, m, src, eprefix, aprefix, ack_uuid, ack_ts)
}

/// Effect of an inbound Text or File body: with a readable timestamp and
/// source endpoint, the message is persisted, announced, and acknowledged
/// back to its source; otherwise nothing observable happens.
pub open spec fn treat_content_post(
    pre: ChatModel,
    post: ChatModel,
    env: ProtoMessageV,
    content: ContentV,
    eprefix: Seq<ChatAppEventV>,
    aprefix: Seq<EngineActionV>,
) -> bool {
    &&& ChatModel::same_config(pre, post)
    &&& if timestamp_millis_in_range(env.timestamp as int) && parse_endpoint(
        env.source_endpoint,
    ) is Some {
        exists|m: ChatMessageV, ack_uuid: Seq<char>, ack_ts: i64|
            treat_content_fields(pre, post, env, content, eprefix, aprefix, m, ack_uuid, ack_ts)
    } else {
        &&& post.db == pre.db
        &&& post.pending_send_list == pre.pending_send_list
        &&& post.events_view() == eprefix
        &&& post.actions_view() == aprefix
    }
}

/// Effect of dispatching one decoded envelope.
pub open spec fn treat_proto_post(
    pre: ChatModel,
    post: ChatModel,
    env: ProtoMessageV,
    eprefix: Seq<ChatAppEventV>,
    aprefix: Seq<EngineActionV>,
) -> bool {
    match env.msg_type {
        Some(MsgTypeV::Text(text)) => treat_content_post(
            pre,
            post,
            env,
            ContentV::Text(text),
            eprefix,
            aprefix,
        ),
        Some(MsgTypeV::File(name, data)) => treat_content_post(
            pre,
            post,
            env,
            ContentV::File(name, data),
            eprefix,
            aprefix.push(EngineActionV::StoreFile { name, data }),
        ),
        Some(MsgTypeV::Ack(acked)) => mark_as_acked_post(
            pre,
            post,
            acked,
            env.timestamp,
            eprefix,
            aprefix,
        ),
        None => {
            &&& ChatModel::same_config(pre, post)
            &&& post.db == pre.db
            &&& post.pending_send_list == pre.pending_send_list
            &&& post.actions_view() == aprefix
            &&& post.events_view() == eprefix.push(
                ChatAppEventV::Error(
                    ChatAppErrorEventV::ProtocolDecode(
                        "Received proto message with unknown type"@,
                    ),
                ),
            )
        },
    }
}

/// Who a room send would go to: the other registered members, in room order;
/// nothing when the room is unknown or the local peer is not registered.
pub open spec fn room_recipients(pre: ChatModel, room: Seq<char>) -> Option<
    Seq<(Seq<char>, EndpointV)>,
> {
    match find_room(pre.db.rooms.deep_view(), room) {
        Some(rm) => if room_has_local(rm.participants, pre.db.localpeer@.uuid) {
            Some(room_others(rm.participants, pre.db.localpeer@.uuid))
        } else {
            None
        },
        None => None,
    }
}

/// Effect of a room send. On a room without the local peer, or with nobody
/// else in it, nothing at all happens. Otherwise every other member gets one
/// send, in room order: the store gains one fresh `Sending` message per
/// member, the pending table gains their tokens, members whose endpoint's
/// transport matches a local endpoint get a transport send, and every member
/// without one yields an encode error event instead of being silently
/// skipped.
pub open spec fn send_to_room_post(
    pre: ChatModel,
    post: ChatModel,
    content: ContentV,
    room: Seq<char>,
    try_prediction: bool,
    r: Option<crate::message::RoomMessageV>,
) -> bool {
    match r {
        None => {
            &&& (room_recipients(pre, room) is None || room_recipients(pre, room).unwrap().len()
                == 0)
            &&& post == pre
        },
        Some(rm) => {
            let ps = room_recipients(pre, room).unwrap();
            let k = ps.len() as int;
            let base = pre.messages_view().len() as int;
            &&& room_recipients(pre, room) is Some
            &&& k > 0
            &&& rm.uuid.len() == 36
            &&& rm.room_uuid == room
            &&& rm.messages.len() == k
            &&& ChatModel::same_config(pre, post)
            &&& post.messages_view().len() == base + k
            &&& post.messages_view().take(base) == pre.messages_view()
            &&& forall|j: int|
                0 <= j < k ==> {
                    let m = #[trigger] post.messages_view()[base + j];
                    &&& m.uuid == rm.messages[j]
                    &&& m.uuid.len() == 36
                    &&& m.sender_uuid == pre.db.localpeer@.uuid
                    &&& m.room_uuid == room
                    &&& m.content == content
                    &&& m.status == MessageStatus::Sending
                    &&& m.source_endpoint == ps[j].1
                }
            &&& post.pending_view() == pre.pending_view() + Seq::new(
                k as nat,
                |j: int| (MessageType::Text, rm.messages[j], None::<Seq<char>>),
            )
            &&& pre.events_view().is_prefix_of(post.events_view())
            &&& pre.actions_view().is_prefix_of(post.actions_view())
            &&& forall|j: int|
                0 <= j < k && pre.started && find_endpoint_for_proto(
                    pre.db.localpeer@.endpoints,
                    (#[trigger] ps[j]).1.proto,
                ) is Some ==> exists|x: int|
                    #![trigger post.actions_view()[x]]
                    {
                        &&& pre.actions_view().len() <= x < post.actions_view().len()
                        &&& (post.actions_view()[x] matches EngineActionV::SendData {
                            remote_endpoint,
                            token,
                            ..
                        } && remote_endpoint == ps[j].1 && token == rm.messages[j])
                    }
            &&& forall|j: int|
                0 <= j < k && pre.started && find_endpoint_for_proto(
                    pre.db.localpeer@.endpoints,
                    (#[trigger] ps[j]).1.proto,
                ) is None ==> exists|x: int|
                    #![trigger post.events_view()[x]]
                    {
                        &&& pre.events_view().len() <= x < post.events_view().len()
                        &&& post.events_view()[x] == ChatAppEventV::Error(
                            ChatAppErrorEventV::ProtocolEncode(
                                "No local endpoint matches the destination transport"@,
                            ),
                        )
                    }
        },
    }
}

/// The engine components a dispatch reads; two states that agree on them
/// drive any dispatch identically, whatever notices are already queued.
pub open spec fn same_inputs(a: ChatModel, b: ChatModel) -> bool {
    &&& a.pending_send_list == b.pending_send_list
    &&& a.db == b.db
    &&& a.sort_strategy == b.sort_strategy
    &&& a.started == b.started
    &&& a.a_sabr == b.a_sabr
}

proof fn lemma_mark_as_sent_post_stable(
    pre1: ChatModel,
    pre2: ChatModel,
    post: ChatModel,
    token: Seq<char>,
    e: Seq<ChatAppEventV>,
    a: Seq<EngineActionV>,
)
    requires
        same_inputs(pre1, pre2),
        mark_as_sent_post(pre2, post, token, e, a),
    ensures
        mark_as_sent_post(pre1, post, token, e, a),
{
    assert(pre1.pending_view() == pre2.pending_view());
    assert(pre1.messages_view() == pre2.messages_view());
}

proof fn lemma_mark_failed_post_stable(
    pre1: ChatModel,
    pre2: ChatModel,
    post: ChatModel,
    token: Seq<char>,
    e: Seq<ChatAppEventV>,
    a: Seq<EngineActionV>,
)
    requires
        same_inputs(pre1, pre2),
        mark_failed_post(pre2, post, token, e, a),
    ensures
        mark_failed_post(pre1, post, token, e, a),
{
    assert(pre1.pending_view() == pre2.pending_view());
    assert(pre1.messages_view() == pre2.messages_view());
}

proof fn lemma_mark_as_acked_post_stable(
    pre1: ChatModel,
    pre2: ChatModel,
    post: ChatModel,
    uuid: Seq<char>,
    ts: i64,
    e: Seq<ChatAppEventV>,
    a: Seq<EngineActionV>,
)
    requires
        same_inputs(pre1, pre2),
        mark_as_acked_post(pre2, post, uuid, ts, e, a),
    ensures
        mark_as_acked_post(pre1, post, uuid, ts, e, a),
{
    assert(pre1.messages_view() == pre2.messages_view());
}

proof fn lemma_treat_content_post_stable(
    pre1: ChatModel,
    pre2: ChatModel,
    post: ChatModel,
    env: ProtoMessageV,
    content: ContentV,
    e: Seq<ChatAppEventV>,
    a: Seq<EngineActionV>,
)
    requires
        same_inputs(pre1, pre2),
        treat_content_post(pre2, post, env, content, e, a),
    ensures
        treat_content_post(pre1, post, env, content, e, a),
{
    assert(pre1.pending_view() == pre2.pending_view());
    assert(pre1.messages_view() == pre2.messages_view());
    if timestamp_millis_in_range(env.timestamp as int) && parse_endpoint(
        env.source_endpoint,
    ) is Some {
        let (m, u, t): (ChatMessageV, Seq<char>, i64) = choose|
            m: ChatMessageV,
            u: Seq<char>,
            t: i64,
        | treat_content_fields(pre2, post, env, content, e, a, m, u, t);
        assert(persist_event(pre1, m) == persist_event(pre2, m));
        assert(treat_content_fields(pre1, post, env, content, e, a, m, u, t));
    }
}

proof fn lemma_treat_proto_post_stable(
    pre1: ChatModel,
    pre2: ChatModel,
    post: ChatModel,
    env: ProtoMessageV,
    e: Seq<ChatAppEventV>,
    a: Seq<EngineActionV>,
)
    requires
        same_inputs(pre1, pre2),
        treat_proto_post(pre2, post, env, e, a),
    ensures
        treat_proto_post(pre1, post, env, e, a),
{
    match env.msg_type {
        Some(MsgTypeV::Text(text)) => {
            lemma_treat_content_post_stable(pre1, pre2, post, env, ContentV::Text(text), e, a);
        },
        Some(MsgTypeV::File(name, data)) => {
            lemma_treat_content_post_stable(
                pre1,
                pre2,
                post,
                env,
                ContentV::File(name, data),
                e,
                a.push(EngineActionV::StoreFile { name, data }),
            );
        },
        Some(MsgTypeV::Ack(acked)) => {
            lemma_mark_as_acked_post_stable(pre1, pre2, post, acked, env.timestamp, e, a);
        },
        None => {},
    }
}

/// Nothing but the given notices.
pub open spec fn passthrough_post(
    pre: ChatModel,
    post: ChatModel,
    events: Seq<ChatAppEventV>,
    aprefix: Seq<EngineActionV>,
) -> bool {
    &&& ChatModel::same_config(pre, post)
    &&& post.db == pre.db
    &&& post.pending_send_list == pre.pending_send_list
    &&& post.events_view() == events
    &&& post.actions_view() == aprefix
}

/// Effect of one transport notification: every notification is passed
/// through to observers; received bytes are decoded and dispatched, send
/// completions resolve their token, connection and send failures fail their
/// token, and everything else is only reported.
pub open spec fn on_engine_event_post(
    pre: ChatModel,
    post: ChatModel,
    ev: SocketEngineEventV,
    eprefix: Seq<ChatAppEventV>,
    aprefix: Seq<EngineActionV>,
) -> bool {
    match ev {
        SocketEngineEventV::Data(de) => {
            let e2 = eprefix.push(ChatAppEventV::SocketEngineInfo(NetworkEventV::Data(de)));
            match de {
                DataEventV::Received { data, from } => match spec_decode(data) {
                    Some(env) => treat_proto_post(pre, post, env, e2, aprefix),
                    None => passthrough_post(
                        pre,
                        post,
                        e2.push(
                            ChatAppEventV::Error(
                                ChatAppErrorEventV::ProtocolDecode(
                                    "Wire decode error: malformed envelope"@,
                                ),
                            ),
                        ),
                        aprefix,
                    ),
                },
                DataEventV::Sent { token, to, bytes_sent } => mark_as_sent_post(
                    pre,
                    post,
                    token,
                    e2,
                    aprefix,
                ),
                DataEventV::Sending { .. } => passthrough_post(pre, post, e2, aprefix),
            }
        },
        SocketEngineEventV::Connection(ce) => passthrough_post(
            pre,
            post,
            eprefix.push(ChatAppEventV::SocketEngineInfo(NetworkEventV::Connection(ce))),
            aprefix,
        ),
        SocketEngineEventV::Error(ee) => {
            let e2 = eprefix.push(
                ChatAppEventV::SocketEngineError(NetworkErrorEventV::SocketError(ee)),
            );
            match ee {
                ErrorEventV::ConnectionFailed { endpoint, reason, token } => mark_failed_post(
                    pre,
                    post,
                    token,
                    e2,
                    aprefix,
                ),
                ErrorEventV::SendFailed { endpoint, reason, token } => mark_failed_post(
                    pre,
                    post,
                    token,
                    e2,
                    aprefix,
                ),
                ErrorEventV::ReceiveFailed { .. } => passthrough_post(pre, post, e2, aprefix),
                ErrorEventV::SocketError { .. } => passthrough_post(pre, post, e2, aprefix),
            }
        },
    }
}

proof fn lemma_first_pending_push(
    s: Seq<(MessageType, Seq<char>, Option<Seq<char>>)>,
    x: (MessageType, Seq<char>, Option<Seq<char>>),
    token: Seq<char>,
)
    ensures
        first_pending_with(s.push(x), token) == (match first_pending_with(s, token) {
            Some(i) => Some(i),
            None => if x.1 == token {
                Some(s.len() as int)
            } else {
                None
            },
        }),
    decreases s.len(),
{
    assert(s.push(x)[0] == if s.len() == 0 {
        x
    } else {
        s[0]
    });
    if s.len() == 0 {
        assert(s.push(x).drop_first() =~= s);
    } else {
        assert(s.push(x).drop_first() =~= s.drop_first().push(x));
        lemma_first_pending_push(s.drop_first(), x, token);
    }
}

proof fn lemma_first_message_push(s: Seq<ChatMessageV>, m: ChatMessageV, uuid: Seq<char>)
    ensures
        first_message_with(s.push(m), uuid) == (match first_message_with(s, uuid) {
            Some(i) => Some(i),
            None => if m.uuid == uuid {
                Some(s.len() as int)
            } else {
                None
            },
        }),
    decreases s.len(),
{
    assert(s.push(m)[0] == if s.len() == 0 {
        m
    } else {
        s[0]
    });
    if s.len() == 0 {
        assert(s.push(m).drop_first() =~= s);
    } else {
        assert(s.push(m).drop_first() =~= s.drop_first().push(m));
        lemma_first_message_push(s.drop_first(), m, uuid);
    }
}

proof fn lemma_first_message_props(s: Seq<ChatMessageV>, uuid: Seq<char>)
    ensures
        match first_message_with(s, uuid) {
            Some(j) => 0 <= j < s.len() && s[j].uuid == uuid,
            None => true,
        },
    decreases s.len(),
{
    if s.len() > 0 && s[0].uuid != uuid {
        lemma_first_message_props(s.drop_first(), uuid);
    }
}

/// After `send_to_peer` and the transport's completion callback for the same
/// token, the message stands in the store as `Sent` with its transmission
/// instant recorded — provided the token was fresh, as a fresh identifier
/// makes it.
pub proof fn lemma_sent_callback_completes_message(
    s0: ChatModel,
    s1: ChatModel,
    s2: ChatModel,
    content: ContentV,
    room: Seq<char>,
    peer: Seq<char>,
    target: EndpointV,
    try_prediction: bool,
    ret: Seq<char>,
    e1: Seq<ChatAppEventV>,
    a1: Seq<EngineActionV>,
    e2: Seq<ChatAppEventV>,
    a2: Seq<EngineActionV>,
)
    requires
        send_to_peer_post(s0, s1, content, room, peer, target, try_prediction, ret, e1, a1),
        mark_as_sent_post(s1, s2, ret, e2, a2),
        first_pending_with(s0.pending_view(), ret) is None,
        first_message_with(s0.messages_view(), ret) is None,
    ensures
        ({
            let j = s0.messages_view().len() as int;
            &&& s2.messages_view().len() == s0.messages_view().len() + 1
            &&& s2.messages_view()[j].uuid == ret
            &&& s2.messages_view()[j].status == MessageStatus::Sent
            &&& s2.messages_view()[j].send_completed is Some
        }),
{
    let m = choose|m: ChatMessageV|
        send_to_peer_fields(s0, s1, content, room, peer, target, try_prediction, ret, e1, a1, m);
    lemma_first_pending_push(s0.pending_view(), (MessageType::Text, ret, None::<Seq<char>>), ret);
    lemma_first_message_push(s0.messages_view(), m, ret);
    let j = s0.messages_view().len() as int;
    assert(first_pending_with(s1.pending_view(), ret) == Some(s0.pending_view().len() as int));
    assert(s1.pending_view()[s0.pending_view().len() as int].0 == MessageType::Text);
    assert(first_message_with(s1.messages_view(), ret) == Some(j));
    let t = choose|t: int|
        {
            &&& timestamp_millis_in_range(t)
            &&& s2.messages_view() == s1.messages_view().update(
                j,
                apply_mark(s1.messages_view()[j], MarkIntentV::Sent(t)),
            )
            &&& s2.events_view() == e2.push(
                ChatAppEventV::Message(
                    ChatAppInfoEventV::Sent(apply_mark(s1.messages_view()[j], MarkIntentV::Sent(t))),
                ),
            )
        };
    assert(s2.messages_view()[j] == apply_mark(m, MarkIntentV::Sent(t)));
}

/// Consuming a valid acknowledgement moves the acknowledged message to
/// `ReceivedByPeer`, and its receive time is exactly the instant the
/// acknowledgement carried on the wire — not the local clock.
pub proof fn lemma_ack_sets_receive_time(
    s0: ChatModel,
    s1: ChatModel,
    uuid: Seq<char>,
    ts: i64,
    e: Seq<ChatAppEventV>,
    a: Seq<EngineActionV>,
    j: int,
)
    requires
        mark_as_acked_post(s0, s1, uuid, ts, e, a),
        timestamp_millis_in_range(ts as int),
        first_message_with(s0.messages_view(), uuid) == Some(j),
    ensures
        0 <= j < s1.messages_view().len(),
        s1.messages_view()[j].uuid == uuid,
        s1.messages_view()[j].status == MessageStatus::ReceivedByPeer,
        s1.messages_view()[j].receive_time == Some(ts as int),
{
    lemma_first_message_props(s0.messages_view(), uuid);
}

/// A transport failure for a pending chat-message token moves that message to
/// `Failed` and raises nothing beyond the already-reported transport error.
pub proof fn lemma_failure_callback_fails_message(
    s0: ChatModel,
    s1: ChatModel,
    s2: ChatModel,
    content: ContentV,
    room: Seq<char>,
    peer: Seq<char>,
    target: EndpointV,
    try_prediction: bool,
    ret: Seq<char>,
    e1: Seq<ChatAppEventV>,
    a1: Seq<EngineActionV>,
    e2: Seq<ChatAppEventV>,
    a2: Seq<EngineActionV>,
)
    requires
        send_to_peer_post(s0, s1, content, room, peer, target, try_prediction, ret, e1, a1),
        mark_failed_post(s1, s2, ret, e2, a2),
        first_pending_with(s0.pending_view(), ret) is None,
        first_message_with(s0.messages_view(), ret) is None,
    ensures
        ({
            let j = s0.messages_view().len() as int;
            &&& s2.messages_view().len() == s0.messages_view().len() + 1
            &&& s2.messages_view()[j].uuid == ret
            &&& s2.messages_view()[j].status == MessageStatus::Failed
            &&& s2.events_view() == e2
        }),
{
    let m = choose|m: ChatMessageV|
        send_to_peer_fields(s0, s1, content, room, peer, target, try_prediction, ret, e1, a1, m);
    lemma_first_pending_push(s0.pending_view(), (MessageType::Text, ret, None::<Seq<char>>), ret);
    lemma_first_message_push(s0.messages_view(), m, ret);
    let j = s0.messages_view().len() as int;
    assert(first_pending_with(s1.pending_view(), ret) == Some(s0.pending_view().len() as int));
    assert(s1.pending_view()[s0.pending_view().len() as int].0 == MessageType::Text);
    assert(first_message_with(s1.messages_view(), ret) == Some(j));
    assert(s2.messages_view()[j] == apply_mark(m, MarkIntentV::Failed));
}

/// The same transport failure for a pending acknowledgement token changes no
/// message and raises nothing beyond the already-reported transport error.
pub proof fn lemma_failure_callback_ack_harmless(
    s1: ChatModel,
    s2: ChatModel,
    token: Seq<char>,
    e2: Seq<ChatAppEventV>,
    a2: Seq<EngineActionV>,
    i: int,
)
    requires
        mark_failed_post(s1, s2, token, e2, a2),
        first_pending_with(s1.pending_view(), token) == Some(i),
        0 <= i < s1.pending_view().len(),
        s1.pending_view()[i].0 == MessageType::Ack,
    ensures
        s2.db == s1.db,
        s2.events_view() == e2,
{
}

impl ChatModel {
    /// An engine over the given store and oracle state: not started, nothing
    /// pending, nothing queued, sorting the canonical way.
    pub fn new(db: SimpleVecDB, a_sabr: ASabrInitState) -> (r: Self)
        ensures
            r.sort_strategy@ is Standard,
            !r.started,
            r.pending_send_list@.len() == 0,
            r.db == db,
            r.a_sabr == a_sabr,
            r.out_events@.len() == 0,
            r.out_actions@.len() == 0,
    {
        ChatModel {
            sort_strategy: SortStrategy::Standard,
            started: false,
            pending_send_list: Vec::new(),
            db,
            a_sabr,
            out_events: Vec::new(),
            out_actions: Vec::new(),
        }
    }

    pub fn is_pbat_enabled(&self) -> (r: bool)
        ensures
            r == (self.a_sabr@ is Enabled),
    {
        match &self.a_sabr {
            ASabrInitState::Enabled => true,
            _ => false,
        }
    }

    /// Hands the queued observer events over, oldest first, leaving the
    /// queue empty. The host delivers them to every registered observer in
    /// order.
    pub fn take_events(&mut self) -> (r: Vec<ChatAppEvent>)
        ensures
            r == old(self).out_events,
            final(self).out_events@.len() == 0,
            final(self).out_actions == old(self).out_actions,
            final(self).pending_send_list == old(self).pending_send_list,
            final(self).db == old(self).db,
            ChatModel::same_config(*old(self), *final(self)),
    {
        let mut v: Vec<ChatAppEvent> = Vec::new();
        core::mem::swap(&mut v, &mut self.out_events);
        v
    }

    /// Hands the queued host actions over, oldest first, leaving the queue
    /// empty. The host performs them in order.
    pub fn take_actions(&mut self) -> (r: Vec<EngineAction>)
        ensures
            r == old(self).out_actions,
            final(self).out_actions@.len() == 0,
            final(self).out_events == old(self).out_events,
            final(self).pending_send_list == old(self).pending_send_list,
            final(self).db == old(self).db,
            ChatModel::same_config(*old(self), *final(self)),
    {
        let mut v: Vec<EngineAction> = Vec::new();
        core::mem::swap(&mut v, &mut self.out_actions);
        v
    }

    /// First local endpoint of the wanted transport kind.
    fn find_local_endpoint_for_protocol(&self, target_proto: EndpointProto) -> (r: Option<
        Endpoint,
    >)
        ensures
            opt_endpoint_view(r) == find_endpoint_for_proto(
                self.db.localpeer@.endpoints,
                target_proto,
            ),
    {
        proof {
            assert(self.db.localpeer.endpoints.deep_view().skip(0)
                =~= self.db.localpeer.endpoints.deep_view());
        }
        find_ep_from(&self.db.localpeer.endpoints, 0, target_proto)
    }

    /// First endpoint of the wanted transport kind on the wanted peer.
    fn find_peer_endpoint_for_protocol(&self, peer_id: String, target_proto: EndpointProto) -> (r:
        Option<Endpoint>)
        ensures
            opt_endpoint_view(r) == (match find_peer(self.db.peers.deep_view(), peer_id@) {
                Some(p) => find_endpoint_for_proto(p.endpoints, target_proto),
                None => None,
            }),
    {
        proof {
            assert(self.db.peers.deep_view().skip(0) =~= self.db.peers.deep_view());
        }
        match find_peer_from(&self.db.peers, 0, &peer_id) {
            None => None,
            Some(j) => {
                proof {
                    assert(self.db.peers[j as int]@.endpoints.skip(0)
                        =~= self.db.peers[j as int]@.endpoints);
                }
                find_ep_from(&self.db.peers[j].endpoints, 0, target_proto)
            },
        }
    }

    /// Transport "send completed": resolves the token per
    /// [`mark_as_sent_post`]; a token that was never registered has no
    /// observable effect.
    pub fn mark_as_sent(&mut self, target_uuid: &String)
        ensures
            mark_as_sent_post(*old(self), *final(self), target_uuid@, old(self).events_view(), old(self).actions_view()),
    {
        proof {
            assert(self.pending_view().skip(0) =~= self.pending_view());
        }
        let pos = match find_pending_from(
            &self.pending_send_list,
            0,
            target_uuid,
            Ghost(self.pending_view()),
        ) {
            None => {
                return ;
            },
            Some(p) => p,
        };
        let ghost pend = self.pending_view();
        let (msg_type, _uuid, _orig) = self.pending_send_list.remove(pos);
        proof {
            assert(self.pending_view() =~= pend.remove(pos as int));
        }
        if msg_type == MessageType::Ack {
            return ;
        }
        let now = DTChatTime::now();
        let ghost epre = self.events_view();
        match self.db.mark_as(target_uuid, MarkIntent::Sent(now)) {
            Some(message) => {
                self.out_events.push(ChatAppEvent::Message(ChatAppInfoEvent::Sent(message)));
                proof {
                    assert(self.events_view() =~= epre.push(
                        ChatAppEventV::Message(
                            ChatAppInfoEventV::Sent(
                                apply_mark(
                                    old(self).messages_view()[first_message_with(
                                        old(self).messages_view(),
                                        target_uuid@,
                                    ).unwrap()],
                                    MarkIntentV::Sent(now@),
                                ),
                            ),
                        ),
                    ));
                }
            },
            None => {
                self.out_events.push(
                    ChatAppEvent::Error(
                        ChatAppErrorEvent::MessageNotFound(
                            String::from_str("Message cannot be found in the database: ").concat(
                                target_uuid.as_str(),
                            ),
                        ),
                    ),
                );
                proof {
                    assert(self.events_view() =~= epre.push(
                        ChatAppEventV::Error(
                            ChatAppErrorEventV::MessageNotFound(
                                "Message cannot be found in the database: "@ + target_uuid@,
                            ),
                        ),
                    ));
                }
            },
        }
    }

    /// Transport failure for a token: resolves it per [`mark_failed_post`].
    /// There is no retry path; a failed message stays `Failed` until the user
    /// acts.
    fn mark_pending_message_as_failed(&mut self, target_uuid: &String)
        ensures
            mark_failed_post(*old(self), *final(self), target_uuid@, old(self).events_view(), old(self).actions_view()),
    {
        proof {
            assert(self.pending_view().skip(0) =~= self.pending_view());
        }
        let pos = match find_pending_from(
            &self.pending_send_list,
            0,
            target_uuid,
            Ghost(self.pending_view()),
        ) {
            None => {
                return ;
            },
            Some(p) => p,
        };
        let ghost pend = self.pending_view();
        let (msg_type, _uuid, _orig) = self.pending_send_list.remove(pos);
        proof {
            assert(self.pending_view() =~= pend.remove(pos as int));
        }
        if msg_type == MessageType::Ack {
            return ;
        }
        let ghost epre = self.events_view();
        match self.db.mark_as(target_uuid, MarkIntent::Failed) {
            Some(_message) => {
            },
            None => {
                self.out_events.push(
                    ChatAppEvent::Error(
                        ChatAppErrorEvent::MessageNotFound(
                            String::from_str("Message cannot be found in the database: ").concat(
                                target_uuid.as_str(),
                            ),
                        ),
                    ),
                );
                proof {
                    assert(self.events_view() =~= epre.push(
                        ChatAppEventV::Error(
                            ChatAppErrorEventV::MessageNotFound(
                                "Message cannot be found in the database: "@ + target_uuid@,
                            ),
                        ),
                    ));
                }
            },
        }
    }

    /// Acknowledgement consumption per [`mark_as_acked_post`].
    fn mark_as_acked(&mut self, message_uuid: &String, timestamp: i64)
        ensures
            mark_as_acked_post(
                *old(self),
                *final(self),
                message_uuid@,
                timestamp,
                old(self).events_view(),
                old(self).actions_view(),
            ),
    {
        let ghost epre = self.events_view();
        match DTChatTime::from_timestamp_millis(timestamp) {
            Some(received_at) => {
                match self.db.mark_as(message_uuid, MarkIntent::Acked(received_at)) {
                    Some(message) => {
                        self.out_events.push(
                            ChatAppEvent::Message(ChatAppInfoEvent::AckReceived(message)),
                        );
                        proof {
                            assert(self.events_view() =~= epre.push(
                                ChatAppEventV::Message(
                                    ChatAppInfoEventV::AckReceived(
                                        apply_mark(
                                            old(self).messages_view()[first_message_with(
                                                old(self).messages_view(),
                                                message_uuid@,
                                            ).unwrap()],
                                            MarkIntentV::Acked(timestamp as int),
                                        ),
                                    ),
                                ),
                            ));
                        }
                    },
                    None => {
                        self.out_events.push(
                            ChatAppEvent::Error(
                                ChatAppErrorEvent::MessageNotFound(
                                    String::from_str("Received ack for unknown message: ").concat(
                                        message_uuid.as_str(),
                                    ),
                                ),
                            ),
                        );
                        proof {
                            assert(self.events_view() =~= epre.push(
                                ChatAppEventV::Error(
                                    ChatAppErrorEventV::MessageNotFound(
                                        "Received ack for unknown message: "@ + message_uuid@,
                                    ),
                                ),
                            ));
                        }
                    },
                }
            },
            None => {
                self.out_events.push(
                    ChatAppEvent::Error(
                        ChatAppErrorEvent::ProtocolDecode(
                            String::from_str(
                                "Wire decode error: invalid timestamp to ack message ",
                            ).concat(message_uuid.as_str()),
                        ),
                    ),
                );
                proof {
                    assert(self.events_view() =~= epre.push(
                        ChatAppEventV::Error(
                            ChatAppErrorEventV::ProtocolDecode(
                                "Wire decode error: invalid timestamp to ack message "@
                                    + message_uuid@,
                            ),
                        ),
                    ));
                }
            },
        }
    }

    /// Persists a message and raises its lifecycle notice.
    fn add_message(&mut self, new_msg: ChatMessage)
        ensures
            add_message_post(*old(self), *final(self), new_msg@, old(self).events_view()),
    {
        let ghost epre = self.events_view();
        let ghost mpre = self.messages_view();
        let copy = new_msg.duplicate();
        self.db.add_message(new_msg);
        proof {
            assert(self.messages_view() =~= mpre.push(copy@));
        }
        let is_own = str_eq(self.db.localpeer.uuid.as_str(), copy.sender_uuid.as_str());
        let ev = if is_own {
            ChatAppEvent::Message(ChatAppInfoEvent::Sending(copy))
        } else {
            ChatAppEvent::Message(ChatAppInfoEvent::Received(copy))
        };
        self.out_events.push(ev);
        proof {
            assert(self.events_view() =~= epre.push(persist_event(*old(self), new_msg@)));
        }
    }

    /// Binds the engine to its transport: from here on sends produce
    /// transport actions. Queues one listener action per local endpoint, in
    /// order, and one informational notice describing the oracle state.
    /// Meant to be called once.
    pub fn start(&mut self)
        ensures
            final(self).started,
            final(self).sort_strategy == old(self).sort_strategy,
            final(self).a_sabr == old(self).a_sabr,
            final(self).db == old(self).db,
            final(self).pending_send_list == old(self).pending_send_list,
            final(self).actions_view() == old(self).actions_view() + Seq::new(
                old(self).db.localpeer@.endpoints.len(),
                |i: int| EngineActionV::StartListener(old(self).db.localpeer@.endpoints[i]),
            ),
            final(self).events_view() == old(self).events_view().push(
                ChatAppEventV::Info(start_info_text(old(self).a_sabr@)),
            ),
    {
        let ghost apre = self.actions_view();
        let ghost eps = self.db.localpeer@.endpoints;
        let n = self.db.localpeer.endpoints.len();
        let mut i: usize = 0;
        proof {
            assert(self.actions_view() =~= apre + Seq::new(0, |k: int| EngineActionV::StartListener(eps[k])));
        }
        while i < n
            invariant
                i <= n,
                n == eps.len(),
                eps == self.db.localpeer@.endpoints,
                self.db == old(self).db,
                self.sort_strategy == old(self).sort_strategy,
                self.a_sabr == old(self).a_sabr,
                self.started == old(self).started,
                self.pending_send_list == old(self).pending_send_list,
                self.out_events == old(self).out_events,
                self.actions_view() == apre + Seq::new(
                    i as nat,
                    |k: int| EngineActionV::StartListener(eps[k]),
                ),
            decreases n - i,
        {
            let ghost pre = self.actions_view();
            let e = self.db.localpeer.endpoints[i].duplicate();
            self.out_actions.push(EngineAction::StartListener(e));
            proof {
                assert(self.actions_view() =~= pre.push(EngineActionV::StartListener(eps[i as int])));
                assert(self.actions_view() =~= apre + Seq::new(
                    (i + 1) as nat,
                    |k: int| EngineActionV::StartListener(eps[k]),
                ));
            }
            i += 1;
        }
        self.started = true;
        let ghost epre = self.events_view();
        let message = match &self.a_sabr {
            ASabrInitState::Enabled => String::from_str("A-SABR prediction enabled"),
            ASabrInitState::Error(err) => String::from_str(
                "Initialization of A-SABR prediction failed: ",
            ).concat(err.as_str()),
            ASabrInitState::Disabled => String::from_str(
                "A-SABR prediction disabled (cp_path must be set)",
            ),
        };
        self.out_events.push(ChatAppEvent::Info(message));
        proof {
            assert(self.events_view() =~= epre.push(
                ChatAppEventV::Info(start_info_text(old(self).a_sabr@)),
            ));
        }
    }

    /// The local peer's identity record.
    pub fn get_localpeer(&self) -> (r: Peer)
        ensures
            r@ == self.db.localpeer@,
    {
        self.db.get_localpeer().duplicate()
    }

    /// The other peers, in store order.
    pub fn get_other_peers(&self) -> (r: Vec<Peer>)
        ensures
            r.deep_view() == self.db.peers.deep_view(),
    {
        let src = self.db.get_other_peers();
        let mut out: Vec<Peer> = Vec::new();
        let n = src.len();
        let mut i: usize = 0;
        while i < n
            invariant
                n == src@.len(),
                i <= n,
                out.deep_view() == src.deep_view().subrange(0, i as int),
            decreases n - i,
        {
            let ghost pre = out.deep_view();
            out.push(src[i].duplicate());
            proof {
                assert(out.deep_view() =~= pre.push(src.deep_view()[i as int]));
                assert(out.deep_view() =~= src.deep_view().subrange(0, i + 1));
            }
            i += 1;
        }
        proof {
            assert(src.deep_view().subrange(0, n as int) =~= src.deep_view());
        }
        out
    }

    /// The rooms, in store order.
    pub fn get_rooms(&self) -> (r: Vec<Room>)
        ensures
            r.deep_view() == self.db.rooms.deep_view(),
    {
        let src = self.db.get_rooms();
        let mut out: Vec<Room> = Vec::new();
        let n = src.len();
        let mut i: usize = 0;
        while i < n
            invariant
                n == src@.len(),
                i <= n,
                out.deep_view() == src.deep_view().subrange(0, i as int),
            decreases n - i,
        {
            let ghost pre = out.deep_view();
            out.push(src[i].duplicate());
            proof {
                assert(out.deep_view() =~= pre.push(src.deep_view()[i as int]));
                assert(out.deep_view() =~= src.deep_view().subrange(0, i + 1));
            }
            i += 1;
        }
        proof {
            assert(src.deep_view().subrange(0, n as int) =~= src.deep_view());
        }
        out
    }

    /// Every stored message, in insertion order.
    pub fn get_all_messages(&self) -> (r: Vec<ChatMessage>)
        ensures
            r.deep_view() == self.messages_view(),
    {
        let src = self.db.get_all_messages();
        let mut out: Vec<ChatMessage> = Vec::new();
        let n = src.len();
        let mut i: usize = 0;
        while i < n
            invariant
                n == src@.len(),
                i <= n,
                out.deep_view() == src.deep_view().subrange(0, i as int),
            decreases n - i,
        {
            let ghost pre = out.deep_view();
            out.push(src[i].duplicate());
            proof {
                assert(out.deep_view() =~= pre.push(src.deep_view()[i as int]));
                assert(out.deep_view() =~= src.deep_view().subrange(0, i + 1));
            }
            i += 1;
        }
        proof {
            assert(src.deep_view().subrange(0, n as int) =~= src.deep_view());
        }
        out
    }

    /// The most recent `count` stored messages, in insertion order.
    pub fn get_last_messages(&mut self, count: usize) -> (r: Vec<ChatMessage>)
        ensures
            *final(self) == *old(self),
            ({
                let len = old(self).messages_view().len() as int;
                let start = if count as int > len {
                    0
                } else {
                    len - count
                };
                r.deep_view() == old(self).messages_view().subrange(start, len)
            }),
    {
        let n = self.db.messages.len();
        let start = if count > n {
            0
        } else {
            n - count
        };
        let mut out: Vec<ChatMessage> = Vec::new();
        let mut i: usize = start;
        while i < n
            invariant
                start <= i <= n,
                n == self.db.messages@.len(),
                out.deep_view() == self.messages_view().subrange(start as int, i as int),
            decreases n - i,
        {
            let ghost pre = out.deep_view();
            out.push(self.db.messages[i].duplicate());
            proof {
                assert(out.deep_view() =~= pre.push(self.messages_view()[i as int]));
                assert(out.deep_view() =~= self.messages_view().subrange(start as int, i + 1));
            }
            i += 1;
        }
        out
    }

    /// Issues the acknowledgement for a received message back to the
    /// endpoint it came from, per [`send_ack_post`].
    pub fn send_ack_to_peer(&mut self, for_msg: &ChatMessage, target_endpoint: Endpoint)
        ensures
            send_ack_post(
                *old(self),
                *final(self),
                for_msg@,
                target_endpoint@,
                old(self).events_view(),
                old(self).actions_view(),
            ),
    {
        let local_endpoint = self.find_local_endpoint_for_protocol(target_endpoint.proto);
        let now = DTChatTime::now();
        let ts = now.timestamp_millis();
        let proto_msg = ProtoMessage::new_ack(
            for_msg,
            self.db.localpeer.uuid.clone(),
            dup_opt_endpoint(&local_endpoint),
            ts,
        );
        let ghost ack_uuid = proto_msg@.uuid;
        let ghost ppre = self.pending_view();
        self.pending_send_list.push(
            (MessageType::Ack, proto_msg.uuid.clone(), Some(for_msg.uuid.clone())),
        );
        proof {
            assert(self.pending_view() =~= ppre.push(
                (MessageType::Ack, ack_uuid, Some(for_msg@.uuid)),
            ));
        }
        if self.started {
            let ghost apre = self.actions_view();
            let ghost epre = self.events_view();
            let token = proto_msg.uuid.clone();
            let bytes = match proto_msg.encode_to_vec() {
                Ok(b) => b,
                Err(_) => vstd::pervasive::unreached(),
            };
            self.out_actions.push(
                EngineAction::SendData {
                    local_endpoint,
                    remote_endpoint: target_endpoint.duplicate(),
                    data: bytes,
                    token,
                },
            );
            self.out_events.push(
                ChatAppEvent::Message(
                    ChatAppInfoEvent::AckSent(for_msg.duplicate(), target_endpoint.to_string()),
                ),
            );
            proof {
                let lep = find_endpoint_for_proto(
                    old(self).db.localpeer@.endpoints,
                    target_endpoint@.proto,
                );
                let env = ProtoMessageV {
                    uuid: ack_uuid,
                    sender_uuid: old(self).db.localpeer@.uuid,
                    timestamp: ts,
                    room_uuid: for_msg@.room_uuid,
                    source_endpoint: source_text(lep),
                    msg_type: Some(MsgTypeV::Ack(for_msg@.uuid)),
                };
                assert(proto_msg@ == env);
                assert(self.actions_view() =~= apre.push(
                    EngineActionV::SendData {
                        local_endpoint: lep,
                        remote_endpoint: target_endpoint@,
                        data: spec_encode(env),
                        token: ack_uuid,
                    },
                ));
                assert(self.events_view() =~= epre.push(
                    ChatAppEventV::Message(
                        ChatAppInfoEventV::AckSent(for_msg@, endpoint_text(target_endpoint@)),
                    ),
                ));
                assert(send_ack_fields(
                    *old(self),
                    *self,
                    for_msg@,
                    target_endpoint@,
                    old(self).events_view(),
                    old(self).actions_view(),
                    ack_uuid,
                    ts,
                ));
            }
        } else {
            proof {
                assert(send_ack_fields(
                    *old(self),
                    *self,
                    for_msg@,
                    target_endpoint@,
                    old(self).events_view(),
                    old(self).actions_view(),
                    ack_uuid,
                    ts,
                ));
            }
        }
    }

    /// Sends a message to one peer over the given endpoint, per
    /// [`send_to_peer_post`]; returns the fresh message's identity. The
    /// caller observes the final status asynchronously through events.
    pub fn send_to_peer(
        &mut self,
        content: &Content,
        room_uuid: &String,
        peer_uuid: String,
        endpoint: &Endpoint,
        try_prediction: bool,
    ) -> (r: String)
        ensures
            send_to_peer_post(
                *old(self),
                *final(self),
                content@,
                room_uuid@,
                peer_uuid@,
                endpoint@,
                try_prediction,
                r@,
                old(self).events_view(),
                old(self).actions_view(),
            ),
    {
        let chatmsg = ChatMessage::new_to_send(
            &self.db.localpeer.uuid,
            room_uuid,
            content.duplicate(),
            endpoint.duplicate(),
        );
        let ghost gm = chatmsg@;
        let sending_uuid = chatmsg.uuid.clone();
        let local_endpoint = self.find_local_endpoint_for_protocol(endpoint.proto);
        let ghost ppre = self.pending_view();
        self.pending_send_list.push((MessageType::Text, sending_uuid.clone(), None));
        proof {
            assert(self.pending_view() =~= ppre.push(
                (MessageType::Text, gm.uuid, None::<Seq<char>>),
            ));
        }
        let mut size_serialized: Option<usize> = None;
        let ghost apre = self.actions_view();
        let ghost epre = self.events_view();
        if self.started {
            match &local_endpoint {
                Some(lep) => {
                    let proto = ProtoMessage::new_text(&chatmsg, Some(lep.duplicate()));
                    let bytes = match proto.encode_to_vec() {
                        Ok(b) => b,
                        Err(_) => vstd::pervasive::unreached(),
                    };
                    size_serialized = Some(bytes.len());
                    self.out_actions.push(
                        EngineAction::SendData {
                            local_endpoint: Some(lep.duplicate()),
                            remote_endpoint: endpoint.duplicate(),
                            data: bytes,
                            token: sending_uuid.clone(),
                        },
                    );
                },
                None => {
                    self.out_events.push(
                        ChatAppEvent::Error(
                            ChatAppErrorEvent::ProtocolEncode(
                                String::from_str(
                                    "No local endpoint matches the destination transport",
                                ),
                            ),
                        ),
                    );
                },
            }
        }
        let ghost a_after_send = self.actions_view();
        let ghost e_after_send = self.events_view();
        if try_prediction {
            let bp_local = self.find_local_endpoint_for_protocol(EndpointProto::Bp);
            let bp_peer = self.find_peer_endpoint_for_protocol(peer_uuid, EndpointProto::Bp);
            if self.is_pbat_enabled() {
                match (bp_local, bp_peer, size_serialized) {
                    (Some(src_eid), Some(dest_eid), Some(size_sent)) => {
                        self.out_actions.push(
                            EngineAction::RequestPrediction {
                                source_eid: src_eid.endpoint,
                                dest_eid: dest_eid.endpoint,
                                size_bytes: size_sent,
                                message_uuid: sending_uuid.clone(),
                            },
                        );
                    },
                    _ => {},
                }
            }
        }
        let ghost a_after_pred = self.actions_view();
        self.add_message(chatmsg);
        proof {
            let pre = *old(self);
            let local = pre.db.localpeer@;
            let lep = find_endpoint_for_proto(local.endpoints, endpoint@.proto);
            let sent = pre.started && lep is Some;
            let env = ProtoMessageV {
                uuid: gm.uuid,
                sender_uuid: gm.sender_uuid,
                timestamp: gm.send_time as i64,
                room_uuid: gm.room_uuid,
                source_endpoint: source_text(lep),
                msg_type: Some(payload_of_content(gm.content)),
            };
            let bytes = spec_encode(env);
            let bp_local_v = find_endpoint_for_proto(local.endpoints, EndpointProto::Bp);
            let bp_peer_v = match find_peer(pre.db.peers.deep_view(), peer_uuid@) {
                Some(p) => find_endpoint_for_proto(p.endpoints, EndpointProto::Bp),
                None => None,
            };
            let predicted = try_prediction && sent && bp_local_v is Some && bp_peer_v is Some
                && pre.a_sabr@ is Enabled;
            assert(a_after_send =~= apre + (if sent {
                seq![
                    EngineActionV::SendData {
                        local_endpoint: lep,
                        remote_endpoint: endpoint@,
                        data: bytes,
                        token: gm.uuid,
                    },
                ]
            } else {
                Seq::<EngineActionV>::empty()
            }));
            assert(a_after_pred =~= a_after_send + (if predicted {
                seq![
                    EngineActionV::RequestPrediction {
                        source_eid: bp_local_v.unwrap().endpoint,
                        dest_eid: bp_peer_v.unwrap().endpoint,
                        size_bytes: bytes.len(),
                        message_uuid: gm.uuid,
                    },
                ]
            } else {
                Seq::<EngineActionV>::empty()
            }));
            assert(self.actions_view() == a_after_pred);
            assert(e_after_send =~= epre + (if pre.started && lep is None {
                seq![
                    ChatAppEventV::Error(
                        ChatAppErrorEventV::ProtocolEncode(
                            "No local endpoint matches the destination transport"@,
                        ),
                    ),
                ]
            } else {
                Seq::<ChatAppEventV>::empty()
            }));
            assert(self.events_view() =~= e_after_send + seq![
                ChatAppEventV::Message(ChatAppInfoEventV::Sending(gm)),
            ]);
            assert(send_to_peer_fields(
                pre,
                *self,
                content@,
                room_uuid@,
                peer_uuid@,
                endpoint@,
                try_prediction,
                gm.uuid,
                pre.events_view(),
                pre.actions_view(),
                gm,
            ));
        }
        sending_uuid
    }

    /// Persists an inbound message, announces it, and acknowledges it back to
    /// the source endpoint carried on the wire.
    fn treat_file_and_text(&mut self, msg_opt: Option<ChatMessage>, proto_msg: &ProtoMessage)
        requires
            msg_opt matches Some(m) ==> parse_endpoint(proto_msg.source_endpoint@) == Some(
                m@.source_endpoint,
            ),
        ensures
            ChatModel::same_config(*old(self), *final(self)),
            match msg_opt {
                Some(m) => exists|ack_uuid: Seq<char>, ack_ts: i64|
                    deliver_effects(
                        *old(self),
                        *final(self),
                        m@,
                        m@.source_endpoint,
                        old(self).events_view(),
                        old(self).actions_view(),
                        ack_uuid,
                        ack_ts,
                    ),
                None => {
                    &&& final(self).db == old(self).db
                    &&& final(self).pending_send_list == old(self).pending_send_list
                    &&& final(self).out_events == old(self).out_events
                    &&& final(self).out_actions == old(self).out_actions
                },
            },
    {
        match msg_opt {
            Some(msg) => {
                self.add_message(msg.duplicate());
                let ghost mid = *self;
                match Endpoint::from_str(proto_msg.source_endpoint.as_str()) {
                    Some(endpoint) => {
                        proof {
                            assert(endpoint@ == msg@.source_endpoint);
                        }
                        self.send_ack_to_peer(&msg, endpoint);
                        proof {
                            let (u, t): (Seq<char>, i64) = choose|u: Seq<char>, t: i64|
                                send_ack_fields(
                                    mid,
                                    *self,
                                    msg@,
                                    msg@.source_endpoint,
                                    mid.events_view(),
                                    mid.actions_view(),
                                    u,
                                    t,
                                );
                            let pre = *old(self);
                            assert(self.events_view() =~= pre.events_view().push(
                                persist_event(pre, msg@),
                            ) + (if pre.started {
                                seq![
                                    ChatAppEventV::Message(
                                        ChatAppInfoEventV::AckSent(
                                            msg@,
                                            endpoint_text(msg@.source_endpoint),
                                        ),
                                    ),
                                ]
                            } else {
                                Seq::<ChatAppEventV>::empty()
                            }));
                            let lep = find_endpoint_for_proto(
                                pre.db.localpeer@.endpoints,
                                msg@.source_endpoint.proto,
                            );
                            let ack_env = ProtoMessageV {
                                uuid: u,
                                sender_uuid: pre.db.localpeer@.uuid,
                                timestamp: t,
                                room_uuid: msg@.room_uuid,
                                source_endpoint: source_text(lep),
                                msg_type: Some(MsgTypeV::Ack(msg@.uuid)),
                            };
                            assert(self.actions_view() =~= pre.actions_view() + (if pre.started {
                                seq![
                                    EngineActionV::SendData {
                                        local_endpoint: lep,
                                        remote_endpoint: msg@.source_endpoint,
                                        data: spec_encode(ack_env),
                                        token: u,
                                    },
                                ]
                            } else {
                                Seq::<EngineActionV>::empty()
                            }));
                            assert(deliver_effects(
                                *old(self),
                                *self,
                                msg@,
                                msg@.source_endpoint,
                                old(self).events_view(),
                                old(self).actions_view(),
                                u,
                                t,
                            ));
                        }
                    },
                    None => {
                        proof {
                            assert(false);
                        }
                    },
                }
            },
            None => {},
        }
    }

    /// Dispatches one decoded envelope per [`treat_proto_post`]: chat bodies
    /// are persisted and acknowledged, acknowledgements resolve their
    /// message, an empty payload is reported as a decode error.
    pub fn treat_proto_message(&mut self, proto_msg: ProtoMessage)
        ensures
            treat_proto_post(
                *old(self),
                *final(self),
                proto_msg@,
                old(self).events_view(),
                old(self).actions_view(),
            ),
    {
        match &proto_msg.msg_type {
            Some(MsgType::Text(text_part)) => {
                let content = Content::Text(text_part.text.clone());
                let ghost cv = content@;
                let chat_msg = ChatMessage::new_received(&proto_msg, content);
                let ghost mopt = chat_msg;
                self.treat_file_and_text(chat_msg, &proto_msg);
                proof {
                    match mopt {
                        Some(m) => {
                            let (u, t): (Seq<char>, i64) = choose|u: Seq<char>, t: i64|
                                deliver_effects(
                                    *old(self),
                                    *self,
                                    m@,
                                    m@.source_endpoint,
                                    old(self).events_view(),
                                    old(self).actions_view(),
                                    u,
                                    t,
                                );
                            assert(treat_content_fields(
                                *old(self),
                                *self,
                                proto_msg@,
                                cv,
                                old(self).events_view(),
                                old(self).actions_view(),
                                m@,
                                u,
                                t,
                            ));
                        },
                        None => {},
                    }
                }
            },
            Some(MsgType::File(file_part)) => {
                let name = file_part.name.clone();
                let data = dup_bytes(&file_part.data);
                let ghost apre = self.actions_view();
                self.out_actions.push(
                    EngineAction::StoreFile {
                        name: file_part.name.clone(),
                        data: dup_bytes(&file_part.data),
                    },
                );
                proof {
                    assert(self.actions_view() =~= apre.push(
                        EngineActionV::StoreFile { name: name@, data: data@ },
                    ));
                }
                let content = Content::File(name, data);
                let ghost cv = content@;
                let chat_msg = ChatMessage::new_received(&proto_msg, content);
                let ghost mopt = chat_msg;
                let ghost mid = *self;
                self.treat_file_and_text(chat_msg, &proto_msg);
                proof {
                    match mopt {
                        Some(m) => {
                            let (u, t): (Seq<char>, i64) = choose|u: Seq<char>, t: i64|
                                deliver_effects(
                                    mid,
                                    *self,
                                    m@,
                                    m@.source_endpoint,
                                    mid.events_view(),
                                    mid.actions_view(),
                                    u,
                                    t,
                                );
                            assert(deliver_effects(
                                *old(self),
                                *self,
                                m@,
                                m@.source_endpoint,
                                old(self).events_view(),
                                mid.actions_view(),
                                u,
                                t,
                            ));
                            assert(treat_content_fields(
                                *old(self),
                                *self,
                                proto_msg@,
                                cv,
                                old(self).events_view(),
                                old(self).actions_view().push(
                                    EngineActionV::StoreFile { name: name@, data: data@ },
                                ),
                                m@,
                                u,
                                t,
                            ));
                        },
                        None => {},
                    }
                }
            },
            Some(MsgType::Ack(ack)) => {
                let acked_uuid = ack.message_uuid.clone();
                self.mark_as_acked(&acked_uuid, proto_msg.timestamp);
            },
            None => {
                let ghost epre = self.events_view();
                self.out_events.push(
                    ChatAppEvent::Error(
                        ChatAppErrorEvent::ProtocolDecode(
                            String::from_str("Received proto message with unknown type"),
                        ),
                    ),
                );
                proof {
                    assert(self.events_view() =~= epre.push(
                        ChatAppEventV::Error(
                            ChatAppErrorEventV::ProtocolDecode(
                                "Received proto message with unknown type"@,
                            ),
                        ),
                    ));
                }
            },
        }
    }

    /// The other members of a room, with the endpoint each is registered
    /// under; nothing when the room is unknown or the local peer is not
    /// registered in it.
    pub fn get_other_peers_for_room(&self, room_uuid: &String) -> (r: Option<
        Vec<(String, Endpoint)>,
    >)
        ensures
            match r {
                Some(v) => room_recipients(*self, room_uuid@) == Some(participants_view(v@)),
                None => room_recipients(*self, room_uuid@) is None,
            },
    {
        proof {
            assert(self.db.rooms.deep_view().skip(0) =~= self.db.rooms.deep_view());
        }
        let ridx = match find_room_from(&self.db.rooms, 0, room_uuid) {
            None => {
                return None;
            },
            Some(j) => j,
        };
        let room = &self.db.rooms[ridx];
        let ghost parts = room@.participants;
        let local = &self.db.localpeer.uuid;
        let ghost lv = local@;
        let n = room.participants.len();
        let mut is_allowed = false;
        let mut participations: Vec<(String, Endpoint)> = Vec::new();
        let mut i: usize = 0;
        proof {
            assert(parts.take(0) =~= Seq::<(Seq<char>, EndpointV)>::empty());
            assert(participants_view(participations@) =~= room_others(parts.take(0), lv));
        }
        while i < n
            invariant
                i <= n,
                n == room.participants@.len(),
                parts == room@.participants,
                lv == local@,
                is_allowed == room_has_local(parts.take(i as int), lv),
                participants_view(participations@) == room_others(parts.take(i as int), lv),
            decreases n - i,
        {
            proof {
                assert(parts[i as int] == (room.participants@[i as int].0@,
                    room.participants@[i as int].1@));
                assert(parts.take(i + 1) =~= parts.take(i as int).push(parts[i as int]));
                lemma_room_others_push(parts.take(i as int), parts[i as int], lv);
            }
            let p0 = &room.participants[i].0;
            if str_eq(p0.as_str(), local.as_str()) {
                is_allowed = true;
                proof {
                    assert(parts.take(i + 1)[i as int].0 == lv);
                    assert(room_has_local(parts.take(i + 1), lv));
                    assert(room_others(parts.take(i + 1), lv) =~= room_others(
                        parts.take(i as int),
                        lv,
                    ));
                }
            } else {
                let ghost prev = participants_view(participations@);
                let entry = (room.participants[i].0.clone(), room.participants[i].1.duplicate());
                participations.push(entry);
                proof {
                    assert(participants_view(participations@) =~= prev.push(parts[i as int]));
                    assert(room_others(parts.take(i + 1), lv) =~= room_others(
                        parts.take(i as int),
                        lv,
                    ).push(parts[i as int]));
                    assert(room_has_local(parts.take(i + 1), lv) == room_has_local(
                        parts.take(i as int),
                        lv,
                    )) by {
                        if room_has_local(parts.take(i + 1), lv) {
                            let w = choose|w: int|
                                0 <= w < parts.take(i + 1).len() && (#[trigger] parts.take(
                                    i + 1,
                                )[w]).0 == lv;
                            if w < i {
                                assert(parts.take(i as int)[w].0 == lv);
                            }
                        }
                    }
                }
            }
            i += 1;
        }
        proof {
            assert(parts.take(n as int) =~= parts);
        }
        if is_allowed {
            Some(participations)
        } else {
            None
        }
    }

    /// Fans one message out to a room per [`send_to_room_post`]: one send per
    /// other member, their identities collected into one correlation record;
    /// no-op on a room the local peer cannot send to.
    pub fn send_to_room(&mut self, content: &Content, room_uuid: &String, try_prediction: bool) -> (r:
        Option<RoomMessage>)
        ensures
            send_to_room_post(
                *old(self),
                *final(self),
                content@,
                room_uuid@,
                try_prediction,
                match r {
                    Some(rm) => Some(rm@),
                    None => None,
                },
            ),
    {
        let participants = match self.get_other_peers_for_room(room_uuid) {
            None => {
                return None;
            },
            Some(p) => p,
        };
        if participants.len() == 0 {
            return None;
        }
        let ghost pre = *old(self);
        let ghost ps = participants_view(participants@);
        let ghost base = pre.messages_view().len() as int;
        let n = participants.len();
        let mut messages: Vec<String> = Vec::new();
        let mut i: usize = 0;
        proof {
            assert(self.pending_view() =~= pre.pending_view() + Seq::new(
                0,
                |j: int| (MessageType::Text, messages.deep_view()[j], None::<Seq<char>>),
            ));
            assert(self.messages_view().take(base) =~= pre.messages_view());
        }
        while i < n
            invariant
                i <= n,
                n == participants@.len(),
                ps == participants_view(participants@),
                base == pre.messages_view().len() as int,
                messages@.len() == i,
                ChatModel::same_config(pre, *self),
                self.messages_view().len() == base + i,
                self.messages_view().take(base) == pre.messages_view(),
                forall|j: int|
                    0 <= j < i ==> {
                        let m = #[trigger] self.messages_view()[base + j];
                        &&& m.uuid == messages.deep_view()[j]
                        &&& m.uuid.len() == 36
                        &&& m.sender_uuid == pre.db.localpeer@.uuid
                        &&& m.room_uuid == room_uuid@
                        &&& m.content == content@
                        &&& m.status == MessageStatus::Sending
                        &&& m.source_endpoint == ps[j].1
                    },
                self.pending_view() == pre.pending_view() + Seq::new(
                    i as nat,
                    |j: int| (MessageType::Text, messages.deep_view()[j], None::<Seq<char>>),
                ),
                pre.events_view().is_prefix_of(self.events_view()),
                pre.actions_view().is_prefix_of(self.actions_view()),
                forall|j: int|
                    0 <= j < i && pre.started && find_endpoint_for_proto(
                        pre.db.localpeer@.endpoints,
                        (#[trigger] ps[j]).1.proto,
                    ) is Some ==> exists|x: int|
                        #![trigger self.actions_view()[x]]
                        {
                            &&& pre.actions_view().len() <= x < self.actions_view().len()
                            &&& (self.actions_view()[x] matches EngineActionV::SendData {
                                remote_endpoint,
                                token,
                                ..
                            } && remote_endpoint == ps[j].1 && token == messages.deep_view()[j])
                        },
                forall|j: int|
                    0 <= j < i && pre.started && find_endpoint_for_proto(
                        pre.db.localpeer@.endpoints,
                        (#[trigger] ps[j]).1.proto,
                    ) is None ==> exists|x: int|
                        #![trigger self.events_view()[x]]
                        {
                            &&& pre.events_view().len() <= x < self.events_view().len()
                            &&& self.events_view()[x] == ChatAppEventV::Error(
                                ChatAppErrorEventV::ProtocolEncode(
                                    "No local endpoint matches the destination transport"@,
                                ),
                            )
                        },
            decreases n - i,
        {
            let peer_uuid = participants[i].0.clone();
            let endpoint = participants[i].1.duplicate();
            proof {
                assert(ps[i as int] == (participants@[i as int].0@, participants@[i as int].1@));
            }
            let ghost mid = *self;
            let ghost mprev = messages.deep_view();
            let uuid = self.send_to_peer(content, room_uuid, peer_uuid, &endpoint, try_prediction);
            proof {
                let m = choose|m: ChatMessageV|
                    send_to_peer_fields(
                        mid,
                        *self,
                        content@,
                        room_uuid@,
                        participants@[i as int].0@,
                        endpoint@,
                        try_prediction,
                        uuid@,
                        mid.events_view(),
                        mid.actions_view(),
                        m,
                    );
                assert(self.messages_view() == mid.messages_view().push(m));
                assert(self.messages_view().take(base) =~= pre.messages_view());
                assert(mid.db.localpeer == pre.db.localpeer);
                let lep = find_endpoint_for_proto(pre.db.localpeer@.endpoints, ps[i as int].1.proto);
                assert forall|x: int| 0 <= x < mid.actions_view().len() implies self.actions_view()[x]
                    == mid.actions_view()[x] by {}
                assert forall|x: int| 0 <= x < mid.events_view().len() implies self.events_view()[x]
                    == mid.events_view()[x] by {}
                if pre.started && lep is Some {
                    let w = mid.actions_view().len() as int;
                    assert(self.actions_view()[w] matches EngineActionV::SendData {
                        remote_endpoint,
                        token,
                        ..
                    } && remote_endpoint == ps[i as int].1 && token == uuid@);
                }
                if pre.started && lep is None {
                    let w = mid.events_view().len() as int;
                    assert(self.events_view()[w] == ChatAppEventV::Error(
                        ChatAppErrorEventV::ProtocolEncode(
                            "No local endpoint matches the destination transport"@,
                        ),
                    ));
                }
            }
            messages.push(uuid);
            proof {
                assert(messages.deep_view() =~= mprev.push(messages@[i as int]@));
                assert(forall|j: int| 0 <= j < i ==> messages.deep_view()[j] == mprev[j]);
                assert(self.pending_view() =~= pre.pending_view() + Seq::new(
                    (i + 1) as nat,
                    |j: int| (MessageType::Text, messages.deep_view()[j], None::<Seq<char>>),
                ));
            }
            i += 1;
        }
        let room_msg = RoomMessage {
            uuid: generate_uuid(),
            room_uuid: room_uuid.clone(),
            messages,
        };
        proof {
            assert(ps.len() == participants@.len());
        }
        Some(room_msg)
    }

    /// Handles one transport notification per [`on_engine_event_post`]:
    /// passes it through to observers, then decodes received bytes, resolves
    /// completed sends, and fails broken ones.
    #[verifier::rlimit(60)]
    pub fn on_engine_event(&mut self, event: SocketEngineEvent)
        ensures
            on_engine_event_post(
                *old(self),
                *final(self),
                event@,
                old(self).events_view(),
                old(self).actions_view(),
            ),
    {
        match event {
            SocketEngineEvent::Data(data_event) => match data_event {
                DataEvent::Received { data, from } => {
                    let ghost epre = self.events_view();
                    self.out_events.push(
                        ChatAppEvent::SocketEngineInfo(
                            NetworkEvent::Data(
                                DataEvent::Received { data: dup_bytes(&data), from },
                            ),
                        ),
                    );
                    proof {
                        assert(self.events_view() =~= epre.push(
                            ChatAppEventV::SocketEngineInfo(
                                NetworkEventV::Data(DataEventV::Received { data: data@, from: from@ }),
                            ),
                        ));
                    }
                    let ghost mid = *self;
                    match ProtoMessage::decode_from_vec(data) {
                        Ok(proto_msg) => {
                            let ghost env = proto_msg@;
                            self.treat_proto_message(proto_msg);
                            proof {
                                lemma_treat_proto_post_stable(
                                    *old(self),
                                    mid,
                                    *self,
                                    env,
                                    mid.events_view(),
                                    mid.actions_view(),
                                );
                            }
                        },
                        Err(_) => {
                            let ghost e2 = self.events_view();
                            self.out_events.push(
                                ChatAppEvent::Error(
                                    ChatAppErrorEvent::ProtocolDecode(
                                        String::from_str("Wire decode error: malformed envelope"),
                                    ),
                                ),
                            );
                            proof {
                                assert(self.events_view() =~= e2.push(
                                    ChatAppEventV::Error(
                                        ChatAppErrorEventV::ProtocolDecode(
                                            "Wire decode error: malformed envelope"@,
                                        ),
                                    ),
                                ));
                            }
                        },
                    }
                },
                DataEvent::Sent { token, to, bytes_sent } => {
                    let ghost epre = self.events_view();
                    let tok = token.clone();
                    self.out_events.push(
                        ChatAppEvent::SocketEngineInfo(
                            NetworkEvent::Data(DataEvent::Sent { token, to, bytes_sent }),
                        ),
                    );
                    proof {
                        assert(self.events_view() =~= epre.push(
                            ChatAppEventV::SocketEngineInfo(
                                NetworkEventV::Data(
                                    DataEventV::Sent {
                                        token: token@,
                                        to: to@,
                                        bytes_sent: bytes_sent as nat,
                                    },
                                ),
                            ),
                        ));
                    }
                    let ghost mid = *self;
                    self.mark_as_sent(&tok);
                    proof {
                        lemma_mark_as_sent_post_stable(
                            *old(self),
                            mid,
                            *self,
                            tok@,
                            mid.events_view(),
                            mid.actions_view(),
                        );
                    }
                },
                DataEvent::Sending { token, to, bytes } => {
                    let ghost epre = self.events_view();
                    self.out_events.push(
                        ChatAppEvent::SocketEngineInfo(
                            NetworkEvent::Data(DataEvent::Sending { token, to, bytes }),
                        ),
                    );
                    proof {
                        assert(self.events_view() =~= epre.push(
                            ChatAppEventV::SocketEngineInfo(
                                NetworkEventV::Data(
                                    DataEventV::Sending {
                                        token: token@,
                                        to: to@,
                                        bytes: bytes as nat,
                                    },
                                ),
                            ),
                        ));
                    }
                },
            },
            SocketEngineEvent::Connection(connection_event) => {
                let ghost epre = self.events_view();
                self.out_events.push(
                    ChatAppEvent::SocketEngineInfo(NetworkEvent::Connection(connection_event)),
                );
                proof {
                    assert(self.events_view() =~= epre.push(
                        ChatAppEventV::SocketEngineInfo(
                            NetworkEventV::Connection(connection_event@),
                        ),
                    ));
                }
            },
            SocketEngineEvent::Error(error_event) => match error_event {
                ErrorEvent::ConnectionFailed { endpoint, reason, token } => {
                    let ghost epre = self.events_view();
                    let tok = token.clone();
                    self.out_events.push(
                        ChatAppEvent::SocketEngineError(
                            NetworkErrorEvent::SocketError(
                                ErrorEvent::ConnectionFailed { endpoint, reason, token },
                            ),
                        ),
                    );
                    proof {
                        assert(self.events_view() =~= epre.push(
                            ChatAppEventV::SocketEngineError(
                                NetworkErrorEventV::SocketError(
                                    ErrorEventV::ConnectionFailed {
                                        endpoint: endpoint@,
                                        reason: reason@,
                                        token: token@,
                                    },
                                ),
                            ),
                        ));
                    }
                    let ghost mid = *self;
                    self.mark_pending_message_as_failed(&tok);
                    proof {
                        lemma_mark_failed_post_stable(
                            *old(self),
                            mid,
                            *self,
                            tok@,
                            mid.events_view(),
                            mid.actions_view(),
                        );
                    }
                },
                ErrorEvent::SendFailed { endpoint, reason, token } => {
                    let ghost epre = self.events_view();
                    let tok = token.clone();
                    self.out_events.push(
                        ChatAppEvent::SocketEngineError(
                            NetworkErrorEvent::SocketError(
                                ErrorEvent::SendFailed { endpoint, reason, token },
                            ),
                        ),
                    );
                    proof {
                        assert(self.events_view() =~= epre.push(
                            ChatAppEventV::SocketEngineError(
                                NetworkErrorEventV::SocketError(
                                    ErrorEventV::SendFailed {
                                        endpoint: endpoint@,
                                        reason: reason@,
                                        token: token@,
                                    },
                                ),
                            ),
                        ));
                    }
                    let ghost mid = *self;
                    self.mark_pending_message_as_failed(&tok);
                    proof {
                        lemma_mark_failed_post_stable(
                            *old(self),
                            mid,
                            *self,
                            tok@,
                            mid.events_view(),
                            mid.actions_view(),
                        );
                    }
                },
                ErrorEvent::ReceiveFailed { endpoint, reason } => {
                    let ghost epre = self.events_view();
                    self.out_events.push(
                        ChatAppEvent::SocketEngineError(
                            NetworkErrorEvent::SocketError(
                                ErrorEvent::ReceiveFailed { endpoint, reason },
                            ),
                        ),
                    );
                    proof {
                        assert(self.events_view() =~= epre.push(
                            ChatAppEventV::SocketEngineError(
                                NetworkErrorEventV::SocketError(
                                    ErrorEventV::ReceiveFailed {
                                        endpoint: endpoint@,
                                        reason: reason@,
                                    },
                                ),
                            ),
                        ));
                    }
                },
                ErrorEvent::SocketError { reason } => {
                    let ghost epre = self.events_view();
                    self.out_events.push(
                        ChatAppEvent::SocketEngineError(
                            NetworkErrorEvent::SocketError(ErrorEvent::SocketError { reason }),
                        ),
                    );
                    proof {
                        assert(self.events_view() =~= epre.push(
                            ChatAppEventV::SocketEngineError(
                                NetworkErrorEventV::SocketError(
                                    ErrorEventV::SocketError { reason: reason@ },
                                ),
                            ),
                        ));
                    }
                },
            },
        }
    }

    /// Records the oracle's answer for an outbound message; prediction is
    /// advisory, so an unknown identity changes nothing and nothing is ever
    /// raised here.
    pub fn apply_prediction(&mut self, message_uuid: &String, arrival: DTChatTime)
        ensures
            ChatModel::same_config(*old(self), *final(self)),
            final(self).out_events == old(self).out_events,
            final(self).out_actions == old(self).out_actions,
            final(self).pending_send_list == old(self).pending_send_list,
            match first_message_with(old(self).messages_view(), message_uuid@) {
                Some(i) => final(self).messages_view() == old(self).messages_view().update(
                    i,
                    ChatMessageV {
                        predicted_arrival_time: Some(arrival@),
                        ..old(self).messages_view()[i]
                    },
                ),
                None => final(self).db == old(self).db,
            },
    {
        let _ = self.db.set_predicted_arrival(message_uuid, arrival);
    }
}

} // verus!
