use vstd::prelude::*;
use crate::endpoint::{Endpoint, EndpointV};
use crate::message::{ChatMessage, ChatMessageV};

verus! {

// ---------------------------------------------------------------------------
// What the transport reports to the engine. These carry plain values; the
// process that runs the sockets translates its own notifications into them.
// ---------------------------------------------------------------------------

/// Payload traffic reported by the transport.
#[derive(Clone, Debug, PartialEq)]
pub enum DataEvent {
    Received { data: Vec<u8>, from: String },
    Sent { token: String, to: String, bytes_sent: usize },
    Sending { token: String, to: String, bytes: usize },
}

/// Connection lifecycle reported by the transport.
#[derive(Clone, Debug, PartialEq)]
pub enum ConnectionEvent {
    ListenerStarted { endpoint: Endpoint },
    Established { remote: String },
    Closed { remote: Option<String> },
}

/// Failures reported by the transport. The ones that carry a token refer to
/// an in-flight send.
#[derive(Clone, Debug, PartialEq)]
pub enum ErrorEvent {
    ConnectionFailed { endpoint: String, reason: String, token: String },
    SendFailed { endpoint: String, reason: String, token: String },
    ReceiveFailed { endpoint: String, reason: String },
    SocketError { reason: String },
}

/// Everything the transport can report.
#[derive(Clone, Debug, PartialEq)]
pub enum SocketEngineEvent {
    Data(DataEvent),
    Connection(ConnectionEvent),
    Error(ErrorEvent),
}

#[verifier::ext_equal]
pub enum DataEventV {
    Received { data: Seq<u8>, from: Seq<char> },
    Sent { token: Seq<char>, to: Seq<char>, bytes_sent: nat },
    Sending { token: Seq<char>, to: Seq<char>, bytes: nat },
}

#[verifier::ext_equal]
pub enum ConnectionEventV {
    ListenerStarted { endpoint: EndpointV },
    Established { remote: Seq<char> },
    Closed { remote: Option<Seq<char>> },
}

#[verifier::ext_equal]
pub enum ErrorEventV {
    ConnectionFailed { endpoint: Seq<char>, reason: Seq<char>, token: Seq<char> },
    SendFailed { endpoint: Seq<char>, reason: Seq<char>, token: Seq<char> },
    ReceiveFailed { endpoint: Seq<char>, reason: Seq<char> },
    SocketError { reason: Seq<char> },
}

#[verifier::ext_equal]
pub enum SocketEngineEventV {
    Data(DataEventV),
    Connection(ConnectionEventV),
    Error(ErrorEventV),
}

impl View for DataEvent {
    type V = DataEventV;

    open spec fn view(&self) -> DataEventV {
        match self {
            DataEvent::Received { data, from } => DataEventV::Received {
                data: data@,
                from: from@,
            },
            DataEvent::Sent { token, to, bytes_sent } => DataEventV::Sent {
                token: token@,
                to: to@,
                bytes_sent: *bytes_sent as nat,
            },
            DataEvent::Sending { token, to, bytes } => DataEventV::Sending {
                token: token@,
                to: to@,
                bytes: *bytes as nat,
            },
        }
    }
}

impl View for ConnectionEvent {
    type V = ConnectionEventV;

    open spec fn view(&self) -> ConnectionEventV {
        match self {
            ConnectionEvent::ListenerStarted { endpoint } => ConnectionEventV::ListenerStarted {
                endpoint: endpoint@,
            },
            ConnectionEvent::Established { remote } => ConnectionEventV::Established {
                remote: remote@,
            },
            ConnectionEvent::Closed { remote } => ConnectionEventV::Closed {
                remote: match remote {
                    Some(r) => Some(r@),
                    None => None,
                },
            },
        }
    }
}

impl View for ErrorEvent {
    type V = ErrorEventV;

    open spec fn view(&self) -> ErrorEventV {
        match self {
            ErrorEvent::ConnectionFailed { endpoint, reason, token } => ErrorEventV::ConnectionFailed {
                endpoint: endpoint@,
                reason: reason@,
                token: token@,
            },
            ErrorEvent::SendFailed { endpoint, reason, token } => ErrorEventV::SendFailed {
                endpoint: endpoint@,
                reason: reason@,
                token: token@,
            },
            ErrorEvent::ReceiveFailed { endpoint, reason } => ErrorEventV::ReceiveFailed {
                endpoint: endpoint@,
                reason: reason@,
            },
            ErrorEvent::SocketError { reason } => ErrorEventV::SocketError { reason: reason@ },
        }
    }
}

impl View for SocketEngineEvent {
    type V = SocketEngineEventV;

    open spec fn view(&self) -> SocketEngineEventV {
        match self {
            SocketEngineEvent::Data(e) => SocketEngineEventV::Data(e@),
            SocketEngineEvent::Connection(e) => SocketEngineEventV::Connection(e@),
            SocketEngineEvent::Error(e) => SocketEngineEventV::Error(e@),
        }
    }
}

// ---------------------------------------------------------------------------
// What the engine reports to its observers.
// ---------------------------------------------------------------------------

/// Transport traffic and connection notices, passed through to observers.
#[derive(Clone, Debug, PartialEq)]
pub enum NetworkEvent {
    Data(DataEvent),
    Connection(ConnectionEvent),
}

/// Transport failures, passed through to observers.
#[derive(Clone, Debug, PartialEq)]
pub enum NetworkErrorEvent {
    SocketError(ErrorEvent),
}

/// Message lifecycle notices.
#[derive(Clone, Debug, PartialEq)]
pub enum ChatAppInfoEvent {
    Sending(ChatMessage),
    Sent(ChatMessage),
    Received(ChatMessage),
    AckSent(ChatMessage, String),
    AckReceived(ChatMessage),
}

/// Failures the engine reports; none of them is fatal to it.
#[derive(Clone, Debug, PartialEq)]
pub enum ChatAppErrorEvent {
    ProtocolDecode(String),
    ProtocolEncode(String),
    InvalidMessage(String),
    MessageNotFound(String),
    PeerNotFound(String),
    NoEngineAttached,
    InternalError(String),
}

/// Everything observers can be told.
#[derive(Clone, Debug, PartialEq)]
pub enum ChatAppEvent {
    Info(String),
    Message(ChatAppInfoEvent),
    Error(ChatAppErrorEvent),
    SocketEngineInfo(NetworkEvent),
    SocketEngineError(NetworkErrorEvent),
}

#[verifier::ext_equal]
pub enum NetworkEventV {
    Data(DataEventV),
    Connection(ConnectionEventV),
}

#[verifier::ext_equal]
pub enum NetworkErrorEventV {
    SocketError(ErrorEventV),
}

#[verifier::ext_equal]
pub enum ChatAppInfoEventV {
    Sending(ChatMessageV),
    Sent(ChatMessageV),
    Received(ChatMessageV),
    AckSent(ChatMessageV, Seq<char>),
    AckReceived(ChatMessageV),
}

#[verifier::ext_equal]
pub enum ChatAppErrorEventV {
    ProtocolDecode(Seq<char>),
    ProtocolEncode(Seq<char>),
    InvalidMessage(Seq<char>),
    MessageNotFound(Seq<char>),
    PeerNotFound(Seq<char>),
    NoEngineAttached,
    InternalError(Seq<char>),
}

#[verifier::ext_equal]
pub enum ChatAppEventV {
    Info(Seq<char>),
    Message(ChatAppInfoEventV),
    Error(ChatAppErrorEventV),
    SocketEngineInfo(NetworkEventV),
    SocketEngineError(NetworkErrorEventV),
}

impl View for NetworkEvent {
    type V = NetworkEventV;

    open spec fn view(&self) -> NetworkEventV {
        match self {
            NetworkEvent::Data(e) => NetworkEventV::Data(e@),
            NetworkEvent::Connection(e) => NetworkEventV::Connection(e@),
        }
    }
}

impl View for NetworkErrorEvent {
    type V = NetworkErrorEventV;

    open spec fn view(&self) -> NetworkErrorEventV {
        match self {
            NetworkErrorEvent::SocketError(e) => NetworkErrorEventV::SocketError(e@),
        }
    }
}

impl View for ChatAppInfoEvent {
    type V = ChatAppInfoEventV;

    open spec fn view(&self) -> ChatAppInfoEventV {
        match self {
            ChatAppInfoEvent::Sending(m) => ChatAppInfoEventV::Sending(m@),
            ChatAppInfoEvent::Sent(m) => ChatAppInfoEventV::Sent(m@),
            ChatAppInfoEvent::Received(m) => ChatAppInfoEventV::Received(m@),
            ChatAppInfoEvent::AckSent(m, to) => ChatAppInfoEventV::AckSent(m@, to@),
            ChatAppInfoEvent::AckReceived(m) => ChatAppInfoEventV::AckReceived(m@),
        }
    }
}

impl View for ChatAppErrorEvent {
    type V = ChatAppErrorEventV;

    open spec fn view(&self) -> ChatAppErrorEventV {
        match self {
            ChatAppErrorEvent::ProtocolDecode(s) => ChatAppErrorEventV::ProtocolDecode(s@),
            ChatAppErrorEvent::ProtocolEncode(s) => ChatAppErrorEventV::ProtocolEncode(s@),
            ChatAppErrorEvent::InvalidMessage(s) => ChatAppErrorEventV::InvalidMessage(s@),
            ChatAppErrorEvent::MessageNotFound(s) => ChatAppErrorEventV::MessageNotFound(s@),
            ChatAppErrorEvent::PeerNotFound(s) => ChatAppErrorEventV::PeerNotFound(s@),
            ChatAppErrorEvent::NoEngineAttached => ChatAppErrorEventV::NoEngineAttached,
            ChatAppErrorEvent::InternalError(s) => ChatAppErrorEventV::InternalError(s@),
        }
    }
}

impl View for ChatAppEvent {
    type V = ChatAppEventV;

    open spec fn view(&self) -> ChatAppEventV {
        match self {
            ChatAppEvent::Info(s) => ChatAppEventV::Info(s@),
            ChatAppEvent::Message(e) => ChatAppEventV::Message(e@),
            ChatAppEvent::Error(e) => ChatAppEventV::Error(e@),
            ChatAppEvent::SocketEngineInfo(e) => ChatAppEventV::SocketEngineInfo(e@),
            ChatAppEvent::SocketEngineError(e) => ChatAppEventV::SocketEngineError(e@),
        }
    }
}

impl DeepView for ChatAppEvent {
    type V = ChatAppEventV;

    open spec fn deep_view(&self) -> ChatAppEventV {
        self.view()
    }
}

/// A listener the surrounding process registers for engine events: a UI, a
/// logger. Delivery order is registration order; a listener must not call
/// back into the engine synchronously.
pub trait AppEventObserver: Send + Sync {
    fn on_event(&mut self, event: ChatAppEvent);
}

} // verus!
