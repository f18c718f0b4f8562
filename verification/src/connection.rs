//! The values that pass between the reactor and its event loop.

use vstd::prelude::*;
use crate::address::Address;
use crate::url::{Url, UrlView};

verus! {

/// The handle of a slot in the connection table.
#[derive(Clone, Copy, Debug, PartialEq, Eq, Hash, Structural)]
pub struct Token(pub usize);

/// Where a connection stands in its exchange.
#[derive(Clone, Copy, Debug, PartialEq, Eq, Structural)]
pub enum Phase {
    /// The connect was started; the socket is not registered yet.
    Connecting,
    /// Registered; the request head has not been written.
    AwaitingWritable,
    /// The request head was written; the response has not been read.
    AwaitingReadable,
}

/// A connection as mathematical values.
pub struct ConnectionView {
    pub token: Token,
    pub url: UrlView,
    pub phase: Phase,
}

/// One in-flight request, as the reactor knows it.
#[derive(Debug, PartialEq, Eq)]
pub struct Connection {
    pub token: Token,
    pub url: Url,
    pub phase: Phase,
}

impl View for Connection {
    type V = ConnectionView;

    open spec fn view(&self) -> ConnectionView {
        ConnectionView { token: self.token, url: self.url@, phase: self.phase }
    }
}

/// A request as mathematical values.
pub struct RequestView {
    pub url: UrlView,
    pub addr: Address,
}

/// A GET to be made: the URL and the address its host resolved to.
#[derive(Debug, PartialEq, Eq)]
pub struct Request {
    pub url: Url,
    pub addr: Address,
}

impl View for Request {
    type V = RequestView;

    open spec fn view(&self) -> RequestView {
        RequestView { url: self.url@, addr: self.addr }
    }
}

impl ConnectionView {
    /// The connection that a request becomes once a slot is found for it.
    pub open spec fn opened(token: Token, request: RequestView) -> ConnectionView {
        ConnectionView { token, url: request.url, phase: Phase::Connecting }
    }

    /// The same connection in another phase.
    pub open spec fn in_phase(self, phase: Phase) -> ConnectionView {
        ConnectionView { phase, ..self }
    }
}

impl Connection {
    /// The connection for a request that was given the slot `token`.
    pub fn opened(token: Token, request: Request) -> (c: Connection)
        ensures
            c@ == ConnectionView::opened(token, request@),
    {
        Connection { token, url: request.url, phase: Phase::Connecting }
    }
}

/// Readiness of a socket, or the readiness a registration asks for.
#[derive(Clone, Copy, Debug, PartialEq, Eq, Structural)]
pub struct EventSet {
    pub readable: bool,
    pub writable: bool,
    pub error: bool,
    pub hup: bool,
}

/// How readiness is reported for a registration.
#[derive(Clone, Copy, Debug, PartialEq, Eq, Structural)]
pub struct PollOpt {
    pub edge: bool,
    pub level: bool,
    pub oneshot: bool,
}

/// The readiness every connection is registered for: readable and writable.
pub open spec fn open_interest() -> EventSet {
    EventSet { readable: true, writable: true, error: false, hup: false }
}

/// How every connection is registered: edge-triggered and one-shot.
pub open spec fn open_options() -> PollOpt {
    PollOpt { edge: true, level: false, oneshot: true }
}

/// The request method. The client only ever asks with GET.
#[derive(Clone, Copy, Debug, PartialEq, Eq, Structural)]
pub enum Method {
    Get,
}

/// A request head as mathematical values.
pub struct RequestHeadView {
    pub method: Method,
    pub url: UrlView,
    pub hostname: Seq<char>,
    pub port: Option<u16>,
    pub keep_alive: bool,
}

/// What is handed to the codec to be written on a connection's stream: the
/// method, the URL, the `Host` header's name and port, and whether the
/// `Connection` header asks to keep the connection alive.
#[derive(Debug, PartialEq, Eq)]
pub struct RequestHead {
    pub method: Method,
    pub url: Url,
    pub hostname: String,
    pub port: Option<u16>,
    pub keep_alive: bool,
}

impl View for RequestHead {
    type V = RequestHeadView;

    open spec fn view(&self) -> RequestHeadView {
        RequestHeadView {
            method: self.method,
            url: self.url@,
            hostname: self.hostname@,
            port: self.port,
            keep_alive: self.keep_alive,
        }
    }
}

impl RequestHeadView {
    /// The head of the GET for a URL: `Host` is the URL's domain (empty
    /// where it names none) with the URL's port, and the connection is kept
    /// alive.
    pub open spec fn get(url: UrlView) -> RequestHeadView {
        RequestHeadView {
            method: Method::Get,
            url,
            hostname: url.header_host(),
            port: url.port,
            keep_alive: true,
        }
    }
}

impl RequestHead {
    /// The head of the GET for a URL.
    pub fn get(url: &Url) -> (head: RequestHead)
        ensures
            head@ == RequestHeadView::get(url@),
    {
        RequestHead {
            method: Method::Get,
            url: url.duplicate(),
            hostname: url.header_host(),
            port: url.port,
            keep_alive: true,
        }
    }
}

/// A message as mathematical values.
pub enum MessageView {
    Req(RequestView),
    Shutdown,
}

/// What client handles send to the reactor.
#[derive(Debug, PartialEq, Eq)]
pub enum Message {
    /// Make this request.
    Req(Request),
    /// Stop.
    Shutdown,
}

impl View for Message {
    type V = MessageView;

    open spec fn view(&self) -> MessageView {
        match self {
            Message::Req(request) => MessageView::Req(request@),
            Message::Shutdown => MessageView::Shutdown,
        }
    }
}

/// Why the reactor stopped.
#[derive(Clone, Copy, Debug, PartialEq, Eq, Structural)]
pub enum StopReason {
    /// A shutdown message arrived.
    Requested,
    /// A request arrived while the table was full at its limit.
    TableFull,
    /// A connect or a registration failed.
    OpenFailed,
    /// A socket reported a hang-up.
    HangUp,
}

/// An action as mathematical values.
pub enum ActionView {
    Open { token: Token, addr: Address, interest: EventSet, options: PollOpt },
    SendRequest { token: Token, head: RequestHeadView },
    Complete { connection: ConnectionView },
    Stop { reason: StopReason },
}

/// What the event loop has to do on the reactor's behalf.
#[derive(Debug, PartialEq, Eq)]
pub enum Action {
    /// Start a non-blocking connect to `addr`, register the socket under
    /// `token` for `interest` with `options`, and report the outcome with
    /// `Reactor::opened`.
    Open { token: Token, addr: Address, interest: EventSet, options: PollOpt },
    /// Write this request head on the stream of `token` and flush it.
    SendRequest { token: Token, head: RequestHead },
    /// The connection has left the table: read the whole response body from
    /// its stream and call its callback with it.
    Complete { connection: Connection },
    /// Stop the event loop and drop every stream and callback.
    Stop { reason: StopReason },
}

impl View for Action {
    type V = ActionView;

    open spec fn view(&self) -> ActionView {
        match self {
            Action::Open { token, addr, interest, options } => ActionView::Open {
                token: *token,
                addr: *addr,
                interest: *interest,
                options: *options,
            },
            Action::SendRequest { token, head } => ActionView::SendRequest {
                token: *token,
                head: head@,
            },
            Action::Complete { connection } => ActionView::Complete { connection: connection@ },
            Action::Stop { reason } => ActionView::Stop { reason: *reason },
        }
    }
}

/// The views of a list of actions, in order.
pub open spec fn action_views(actions: Seq<Action>) -> Seq<ActionView> {
    actions.map_values(|a: Action| a@)
}

} // verus!
