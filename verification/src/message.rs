use vstd::prelude::*;
use vstd::seq_lib::to_multiset_insert;
use crate::dtchat::generate_uuid;
use crate::endpoint::{parse_endpoint, Endpoint, EndpointV};
use crate::proto_message::ProtoMessage;
use crate::time::{timestamp_millis_in_range, DTChatTime};

verus! {

/// The per-recipient message copies produced by one logical room send:
/// purely a correlation record.
#[derive(Clone, Debug, PartialEq)]
pub struct RoomMessage {
    pub uuid: String,
    pub room_uuid: String,
    pub messages: Vec<String>,
}

/// Mathematical image of a `RoomMessage`.
#[verifier::ext_equal]
pub struct RoomMessageV {
    pub uuid: Seq<char>,
    pub room_uuid: Seq<char>,
    pub messages: Seq<Seq<char>>,
}

impl View for RoomMessage {
    type V = RoomMessageV;

    open spec fn view(&self) -> RoomMessageV {
        RoomMessageV {
            uuid: self.uuid@,
            room_uuid: self.room_uuid@,
            messages: self.messages.deep_view(),
        }
    }
}

/// Lifecycle state of a chat message. Outbound messages start at `Sending`
/// and move to `Sent` when the transport confirms transmission, then to
/// `ReceivedByPeer` when an acknowledgement arrives; `Failed` is terminal.
/// Inbound messages start at `Received`.
#[derive(Clone, Copy, Debug, PartialEq, Eq, Structural)]
pub enum MessageStatus {
    Sending,
    Sent,
    ReceivedByPeer,
    Failed,
    Received,
}

/// What a message carries: a text, or a file as its name and bytes.
#[derive(Clone, Debug, PartialEq)]
pub enum Content {
    Text(String),
    File(String, Vec<u8>),
}

/// Mathematical image of a `Content`.
#[verifier::ext_equal]
pub enum ContentV {
    Text(Seq<char>),
    File(Seq<char>, Seq<u8>),
}

impl View for Content {
    type V = ContentV;

    open spec fn view(&self) -> ContentV {
        match self {
            Content::Text(t) => ContentV::Text(t@),
            Content::File(name, data) => ContentV::File(name@, data@),
        }
    }
}

impl DeepView for Content {
    type V = ContentV;

    open spec fn deep_view(&self) -> ContentV {
        self.view()
    }
}

impl Content {
    /// A copy whose view equals this content's view.
    pub fn duplicate(&self) -> (r: Self)
        ensures
            r@ == self@,
    {
        match self {
            Content::Text(t) => Content::Text(t.clone()),
            Content::File(name, data) => {
                let mut bytes: Vec<u8> = Vec::new();
                let n = data.len();
                let mut i: usize = 0;
                while i < n
                    invariant
                        n == data@.len(),
                        i <= n,
                        bytes@ == data@.subrange(0, i as int),
                    decreases n - i,
                {
                    bytes.push(data[i]);
                    proof {
                        assert(data@.subrange(0, i + 1) =~= data@.subrange(0, i as int).push(
                            data@[i as int],
                        ));
                    }
                    i += 1;
                }
                proof {
                    assert(data@.subrange(0, n as int) =~= data@);
                }
                Content::File(name.clone(), bytes)
            },
        }
    }
}

/// One chat message and everything the engine tracks about it.
#[derive(Clone, Debug, PartialEq)]
pub struct ChatMessage {
    pub uuid: String,
    pub sender_uuid: String,
    pub room_uuid: String,
    pub content: Content,
    pub send_time: DTChatTime,
    pub send_completed: Option<DTChatTime>,
    pub predicted_arrival_time: Option<DTChatTime>,
    pub receive_time: Option<DTChatTime>,
    pub status: MessageStatus,
    pub source_endpoint: Endpoint,
}

/// Mathematical image of a `ChatMessage`; instants are milliseconds.
#[verifier::ext_equal]
pub struct ChatMessageV {
    pub uuid: Seq<char>,
    pub sender_uuid: Seq<char>,
    pub room_uuid: Seq<char>,
    pub content: ContentV,
    pub send_time: int,
    pub send_completed: Option<int>,
    pub predicted_arrival_time: Option<int>,
    pub receive_time: Option<int>,
    pub status: MessageStatus,
    pub source_endpoint: EndpointV,
}

pub open spec fn opt_time_view(t: Option<DTChatTime>) -> Option<int> {
    match t {
        Some(x) => Some(x@),
        None => None,
    }
}

impl View for ChatMessage {
    type V = ChatMessageV;

    open spec fn view(&self) -> ChatMessageV {
        ChatMessageV {
            uuid: self.uuid@,
            sender_uuid: self.sender_uuid@,
            room_uuid: self.room_uuid@,
            content: self.content@,
            send_time: self.send_time@,
            send_completed: opt_time_view(self.send_completed),
            predicted_arrival_time: opt_time_view(self.predicted_arrival_time),
            receive_time: opt_time_view(self.receive_time),
            status: self.status,
            source_endpoint: self.source_endpoint@,
        }
    }
}

impl DeepView for ChatMessage {
    type V = ChatMessageV;

    open spec fn deep_view(&self) -> ChatMessageV {
        self.view()
    }
}

fn get_timestamps_frm_opt(datetime_opt: &Option<DTChatTime>) -> (r: Option<i64>)
    ensures
        match datetime_opt {
            Some(t) => r matches Some(ms) && ms as int == t@,
            None => r is None,
        },
{
    match datetime_opt {
        Some(datetime) => Some(datetime.timestamp_millis()),
        None => None,
    }
}

impl ChatMessage {
    /// A copy whose view equals this message's view.
    pub fn duplicate(&self) -> (r: Self)
        ensures
            r@ == self@,
    {
        ChatMessage {
            uuid: self.uuid.clone(),
            sender_uuid: self.sender_uuid.clone(),
            room_uuid: self.room_uuid.clone(),
            content: self.content.duplicate(),
            send_time: self.send_time,
            send_completed: self.send_completed,
            predicted_arrival_time: self.predicted_arrival_time,
            receive_time: self.receive_time,
            status: self.status,
            source_endpoint: self.source_endpoint.duplicate(),
        }
    }

    /// A fresh outbound message: stamped now, status `Sending`, nothing
    /// completed, received, or predicted yet.
    pub fn new_to_send(
        sender_uuid: &String,
        room_uuid: &String,
        content: Content,
        source_endpoint: Endpoint,
    ) -> (r: Self)
        ensures
            r@.uuid.len() == 36,
            r@.sender_uuid == sender_uuid@,
            r@.room_uuid == room_uuid@,
            r@.content == content@,
            timestamp_millis_in_range(r@.send_time),
            r@.send_completed is None,
            r@.predicted_arrival_time is None,
            r@.receive_time is None,
            r@.status == MessageStatus::Sending,
            r@.source_endpoint == source_endpoint@,
    {
        ChatMessage {
            uuid: generate_uuid(),
            sender_uuid: sender_uuid.clone(),
            room_uuid: room_uuid.clone(),
            content,
            send_time: DTChatTime::now(),
            send_completed: None,
            predicted_arrival_time: None,
            receive_time: None,
            status: MessageStatus::Sending,
            source_endpoint,
        }
    }

    /// An inbound message built from a decoded envelope. Fails exactly when
    /// the envelope's timestamp is out of range or its source endpoint text
    /// does not parse. The send time is the instant the origin claims; the
    /// receive time is the local arrival instant.
    pub fn new_received(proto_msg: &ProtoMessage, content: Content) -> (r: Option<Self>)
        ensures
            r is Some <==> timestamp_millis_in_range(proto_msg.timestamp as int) && parse_endpoint(
                proto_msg.source_endpoint@,
            ) is Some,
            r matches Some(m) ==> {
                &&& m@.uuid == proto_msg.uuid@
                &&& m@.sender_uuid == proto_msg.sender_uuid@
                &&& m@.room_uuid == proto_msg.room_uuid@
                &&& m@.content == content@
                &&& m@.send_time == proto_msg.timestamp as int
                &&& m@.send_completed == Some(proto_msg.timestamp as int)
                &&& m@.predicted_arrival_time is None
                &&& m@.receive_time is Some
                &&& m@.status == MessageStatus::Received
                &&& Some(m@.source_endpoint) == parse_endpoint(proto_msg.source_endpoint@)
            },
    {
        match DTChatTime::from_timestamp_millis(proto_msg.timestamp) {
            Some(datetime) => match Endpoint::from_str(proto_msg.source_endpoint.as_str()) {
                Some(source_endpoint) => Some(
                    ChatMessage {
                        uuid: proto_msg.uuid.clone(),
                        sender_uuid: proto_msg.sender_uuid.clone(),
                        room_uuid: proto_msg.room_uuid.clone(),
                        content,
                        send_time: datetime,
                        send_completed: Some(datetime),
                        predicted_arrival_time: None,
                        receive_time: Some(DTChatTime::now()),
                        status: MessageStatus::Received,
                        source_endpoint,
                    },
                ),
                None => None,
            },
            None => None,
        }
    }

    /// Send, predicted-arrival, and receive instants, as instants.
    pub fn get_shipment_status_otp(&self) -> (r: (
        DTChatTime,
        Option<DTChatTime>,
        Option<DTChatTime>,
    ))
        ensures
            r.0@ == self@.send_time,
            opt_time_view(r.1) == self@.predicted_arrival_time,
            opt_time_view(r.2) == self@.receive_time,
    {
        (self.send_time, self.predicted_arrival_time, self.receive_time)
    }

    /// Send, predicted-arrival, and receive instants, as milliseconds.
    pub fn get_shipment_status_timestamps(&self) -> (r: (i64, Option<i64>, Option<i64>))
        ensures
            r.0 as int == self@.send_time,
            match r.1 {
                Some(ms) => self@.predicted_arrival_time == Some(ms as int),
                None => self@.predicted_arrival_time is None,
            },
            match r.2 {
                Some(ms) => self@.receive_time == Some(ms as int),
                None => self@.receive_time is None,
            },
    {
        (
            self.send_time.timestamp_millis(),
            get_timestamps_frm_opt(&self.predicted_arrival_time),
            get_timestamps_frm_opt(&self.receive_time),
        )
    }
}

// ---------------------------------------------------------------------------
// Ordering. Two total preorders over messages: a canonical one and a
// viewer-relative one.
// ---------------------------------------------------------------------------

/// How a strategy orders a timeline: the one canonical order, or the order
/// seen by a given viewer.
#[derive(Clone, Debug, PartialEq, Eq)]
pub enum SortStrategy {
    Standard,
    Relative(String),
}

/// Mathematical image of a `SortStrategy`.
#[verifier::ext_equal]
pub enum SortStrategyV {
    Standard,
    Relative(Seq<char>),
}

impl View for SortStrategy {
    type V = SortStrategyV;

    open spec fn view(&self) -> SortStrategyV {
        match self {
            SortStrategy::Standard => SortStrategyV::Standard,
            SortStrategy::Relative(peer) => SortStrategyV::Relative(peer@),
        }
    }
}

impl SortStrategy {
    /// A copy whose view equals this strategy's view.
    pub fn duplicate(&self) -> (r: Self)
        ensures
            r@ == self@,
    {
        match self {
            SortStrategy::Standard => SortStrategy::Standard,
            SortStrategy::Relative(peer) => SortStrategy::Relative(peer.clone()),
        }
    }
}

/// A message's receive instant, falling back to its send instant.
pub open spec fn rx_anchor(m: ChatMessageV) -> int {
    match m.receive_time {
        Some(t) => t,
        None => m.send_time,
    }
}

/// Canonical order: by send instant, ties broken by the receive anchor.
pub open spec fn spec_standard_cmp(a: ChatMessageV, b: ChatMessageV) -> core::cmp::Ordering {
    if a.send_time < b.send_time {
        core::cmp::Ordering::Less
    } else if a.send_time > b.send_time {
        core::cmp::Ordering::Greater
    } else if rx_anchor(a) < rx_anchor(b) {
        core::cmp::Ordering::Less
    } else if rx_anchor(a) > rx_anchor(b) {
        core::cmp::Ordering::Greater
    } else {
        core::cmp::Ordering::Equal
    }
}

/// The instant a viewer positions a message at: their own messages sit at the
/// instant the messages were acknowledged, everyone else's at the claimed
/// send instant.
pub open spec fn relative_anchor(m: ChatMessageV, viewer: Seq<char>) -> int {
    if m.sender_uuid == viewer {
        rx_anchor(m)
    } else {
        m.send_time
    }
}

/// Viewer-relative order: by each message's relative anchor.
pub open spec fn spec_relative_cmp(
    a: ChatMessageV,
    b: ChatMessageV,
    viewer: Seq<char>,
) -> core::cmp::Ordering {
    if relative_anchor(a, viewer) < relative_anchor(b, viewer) {
        core::cmp::Ordering::Less
    } else if relative_anchor(a, viewer) > relative_anchor(b, viewer) {
        core::cmp::Ordering::Greater
    } else {
        core::cmp::Ordering::Equal
    }
}

/// The order a strategy applies.
pub open spec fn spec_cmp_with(
    strat: SortStrategyV,
    a: ChatMessageV,
    b: ChatMessageV,
) -> core::cmp::Ordering {
    match strat {
        SortStrategyV::Standard => spec_standard_cmp(a, b),
        SortStrategyV::Relative(viewer) => spec_relative_cmp(a, b, viewer),
    }
}

pub open spec fn reverse_ordering(o: core::cmp::Ordering) -> core::cmp::Ordering {
    match o {
        core::cmp::Ordering::Less => core::cmp::Ordering::Greater,
        core::cmp::Ordering::Equal => core::cmp::Ordering::Equal,
        core::cmp::Ordering::Greater => core::cmp::Ordering::Less,
    }
}

/// Canonical order over messages.
pub fn standard_cmp(a: &ChatMessage, b: &ChatMessage) -> (r: core::cmp::Ordering)
    ensures
        r == spec_standard_cmp(a@, b@),
{
    let rx_a = match &a.receive_time {
        Some(t) => *t,
        None => a.send_time,
    };
    let rx_b = match &b.receive_time {
        Some(t) => *t,
        None => b.send_time,
    };
    match a.send_time.cmp(&b.send_time) {
        core::cmp::Ordering::Equal => rx_a.cmp(&rx_b),
        o => o,
    }
}

/// Viewer-relative order over messages.
pub fn relative_cmp(a: &ChatMessage, b: &ChatMessage, ctx_peer_uuid: &str) -> (r:
    core::cmp::Ordering)
    ensures
        r == spec_relative_cmp(a@, b@, ctx_peer_uuid@),
{
    let rx_a = match &a.receive_time {
        Some(t) => *t,
        None => a.send_time,
    };
    let rx_b = match &b.receive_time {
        Some(t) => *t,
        None => b.send_time,
    };
    let anchor_a = if crate::text::str_eq(a.sender_uuid.as_str(), ctx_peer_uuid) {
        rx_a
    } else {
        a.send_time
    };
    let anchor_b = if crate::text::str_eq(b.sender_uuid.as_str(), ctx_peer_uuid) {
        rx_b
    } else {
        b.send_time
    };
    anchor_a.cmp(&anchor_b)
}

/// The canonical order is antisymmetric: comparing in either direction gives
/// reversed answers, so the timeline does not depend on which message is
/// queried first.
pub proof fn lemma_standard_cmp_antisymmetric(a: ChatMessageV, b: ChatMessageV)
    ensures
        spec_standard_cmp(a, b) == reverse_ordering(spec_standard_cmp(b, a)),
{
}

/// The viewer-relative order is antisymmetric as well.
pub proof fn lemma_relative_cmp_antisymmetric(a: ChatMessageV, b: ChatMessageV, viewer: Seq<char>)
    ensures
        spec_relative_cmp(a, b, viewer) == reverse_ordering(spec_relative_cmp(b, a, viewer)),
{
}

/// A viewer's own acknowledged message is anchored at its receive instant,
/// not its send instant: a message sent before another but acknowledged
/// after the other's send instant sorts first canonically yet second for its
/// author.
pub proof fn lemma_relative_anchor_flips_order(a: ChatMessageV, b: ChatMessageV, viewer: Seq<char>)
    requires
        a.sender_uuid == viewer,
        b.sender_uuid != viewer,
        a.receive_time matches Some(ra) && ra > b.send_time,
        a.send_time < b.send_time,
    ensures
        relative_anchor(a, viewer) == a.receive_time.unwrap(),
        spec_standard_cmp(a, b) == core::cmp::Ordering::Less,
        spec_relative_cmp(a, b, viewer) == core::cmp::Ordering::Greater,
{
}

/// No earlier element of a timeline sorts after a later one.
pub open spec fn sorted_by(s: Seq<ChatMessageV>, strat: SortStrategyV) -> bool {
    forall|i: int, j: int|
        0 <= i < j < s.len() ==> spec_cmp_with(strat, s[i], s[j])
            != core::cmp::Ordering::Greater
}

/// The order a strategy applies, on concrete messages.
pub fn cmp_with_strategy(strategy: &SortStrategy, a: &ChatMessage, b: &ChatMessage) -> (r:
    core::cmp::Ordering)
    ensures
        r == spec_cmp_with(strategy@, a@, b@),
{
    match strategy {
        SortStrategy::Standard => standard_cmp(a, b),
        SortStrategy::Relative(peer_uuid) => relative_cmp(a, b, peer_uuid.as_str()),
    }
}

/// Inserts a message into an already-sorted timeline, after every message it
/// does not sort strictly before: equal keys keep their arrival order, and
/// the timeline stays sorted.
pub fn insert_with_strategy(
    messages: &mut Vec<ChatMessage>,
    new_msg: ChatMessage,
    strategy: SortStrategy,
)
    requires
        sorted_by(old(messages).deep_view(), strategy@),
    ensures
        sorted_by(final(messages).deep_view(), strategy@),
        exists|i: int|
            {
                &&& 0 <= i <= old(messages).deep_view().len()
                &&& final(messages).deep_view() == old(messages).deep_view().insert(i, new_msg@)
                &&& forall|j: int|
                    0 <= j < i ==> spec_cmp_with(
                        strategy@,
                        old(messages).deep_view()[j],
                        new_msg@,
                    ) != core::cmp::Ordering::Greater
                &&& forall|j: int|
                    i <= j < old(messages).deep_view().len() ==> spec_cmp_with(
                        strategy@,
                        old(messages).deep_view()[j],
                        new_msg@,
                    ) == core::cmp::Ordering::Greater
            },
{
    let ghost dv = messages.deep_view();
    let ghost strat = strategy@;
    let ghost nv = new_msg@;
    let mut lo: usize = 0;
    let mut hi: usize = messages.len();
    assert(dv.len() == messages@.len());
    while lo < hi
        invariant
            lo <= hi <= dv.len(),
            dv.len() == messages@.len(),
            dv == messages.deep_view(),
            strat == strategy@,
            nv == new_msg@,
            sorted_by(dv, strat),
            forall|j: int|
                0 <= j < lo ==> spec_cmp_with(strat, dv[j], nv) != core::cmp::Ordering::Greater,
            forall|j: int|
                hi <= j < dv.len() ==> spec_cmp_with(strat, dv[j], nv)
                    == core::cmp::Ordering::Greater,
        decreases hi - lo,
    {
        let mid = lo + (hi - lo) / 2;
        assert(messages.deep_view()[mid as int] == messages@[mid as int]@);
        match cmp_with_strategy(&strategy, &messages[mid], &new_msg) {
            core::cmp::Ordering::Greater => {
                proof {
                    assert forall|j: int|
                        mid <= j < dv.len() implies spec_cmp_with(strat, dv[j], nv)
                        == core::cmp::Ordering::Greater by {
                        if j > mid {
                            assert(spec_cmp_with(strat, dv[mid as int], dv[j])
                                != core::cmp::Ordering::Greater);
                        }
                    }
                }
                hi = mid;
            },
            _ => {
                proof {
                    assert forall|j: int|
                        0 <= j < mid + 1 implies spec_cmp_with(strat, dv[j], nv)
                        != core::cmp::Ordering::Greater by {
                        if j < mid {
                            assert(spec_cmp_with(strat, dv[j], dv[mid as int])
                                != core::cmp::Ordering::Greater);
                        }
                    }
                }
                lo = mid + 1;
            },
        }
    }
    let ghost pos = lo as int;
    messages.insert(lo, new_msg);
    proof {
        assert(final(messages).deep_view() =~= dv.insert(pos, nv));
        let s2 = dv.insert(pos, nv);
        assert forall|i: int, j: int| 0 <= i < j < s2.len() implies spec_cmp_with(
            strat,
            s2[i],
            s2[j],
        ) != core::cmp::Ordering::Greater by {
            if i == pos {
                assert(s2[j] == dv[j - 1]);
                assert(spec_cmp_with(strat, dv[j - 1], nv) == core::cmp::Ordering::Greater);
                lemma_cmp_with_antisymmetric(strat, dv[j - 1], nv);
            } else if j == pos {
                assert(s2[i] == dv[i]);
                assert(spec_cmp_with(strat, dv[i], nv) != core::cmp::Ordering::Greater);
            } else if i < pos && j > pos {
                assert(s2[i] == dv[i] && s2[j] == dv[j - 1]);
                assert(spec_cmp_with(strat, dv[i], dv[j - 1]) != core::cmp::Ordering::Greater);
            } else if j < pos {
                assert(s2[i] == dv[i] && s2[j] == dv[j]);
            } else {
                assert(s2[i] == dv[i - 1] && s2[j] == dv[j - 1]);
            }
        }
    }
}

/// Either order is antisymmetric.
pub proof fn lemma_cmp_with_antisymmetric(strat: SortStrategyV, a: ChatMessageV, b: ChatMessageV)
    ensures
        spec_cmp_with(strat, a, b) == reverse_ordering(spec_cmp_with(strat, b, a)),
{
}

/// Sorts a timeline by a strategy: the result is sorted and holds exactly
/// the same messages. Messages are inserted in their current order after all
/// equal keys, so equal keys keep their relative order.
pub fn sort_with_strategy(messages: &mut Vec<ChatMessage>, strategy: SortStrategy)
    ensures
        sorted_by(final(messages).deep_view(), strategy@),
        final(messages).deep_view().to_multiset() == old(messages).deep_view().to_multiset(),
{
    broadcast use to_multiset_insert;

    let ghost dv = messages.deep_view();
    let mut out: Vec<ChatMessage> = Vec::new();
    let n = messages.len();
    let mut i: usize = 0;
    assert(out.deep_view() =~= dv.subrange(0, 0));
    while i < n
        invariant
            i <= n,
            n == dv.len(),
            dv == messages.deep_view(),
            n == messages@.len(),
            sorted_by(out.deep_view(), strategy@),
            out.deep_view().to_multiset() == dv.subrange(0, i as int).to_multiset(),
        decreases n - i,
    {
        assert(messages.deep_view()[i as int] == messages@[i as int]@);
        let m = messages[i].duplicate();
        let ghost before = out.deep_view();
        insert_with_strategy(&mut out, m, strategy.duplicate());
        proof {
            let pos = choose|p: int|
                {
                    &&& 0 <= p <= before.len()
                    &&& out.deep_view() == before.insert(p, m@)
                    &&& forall|j: int|
                        0 <= j < p ==> spec_cmp_with(strategy@, before[j], m@)
                            != core::cmp::Ordering::Greater
                    &&& forall|j: int|
                        p <= j < before.len() ==> spec_cmp_with(strategy@, before[j], m@)
                            == core::cmp::Ordering::Greater
                };
            to_multiset_insert(before, pos, m@);
            assert(out.deep_view().to_multiset() == before.to_multiset().insert(m@));
            assert(dv.subrange(0, i + 1) =~= dv.subrange(0, i as int).push(dv[i as int]));
            vstd::seq_lib::to_multiset_build(dv.subrange(0, i as int), dv[i as int]);
        }
        i += 1;
    }
    proof {
        assert(dv.subrange(0, n as int) =~= dv);
    }
    *messages = out;
}

} // verus!
