//! Transparent bidirectional WebSocket relay between a client and Chromium.
//!
//! Frames are passed on as they are; nothing here looks into a payload. The
//! relay is a state machine: it is told what happened and says what to do.

use axum::extract::ws::Utf8Bytes as ClientText;
use bytes::Bytes;
use tokio_tungstenite::tungstenite::Utf8Bytes as UpstreamText;
use vstd::prelude::*;
use vstd::utf8::encode_utf8;
use vstd::utf8::valid_utf8;

verus! {

/// Largest WebSocket frame, in bytes: enough for large CDP payloads such as
/// screencast frames while still bounding memory per connection.
pub const MAX_FRAME_SIZE: usize = 16 * 1024 * 1024;

/// Largest WebSocket message, in bytes.
pub const MAX_MESSAGE_SIZE: usize = 64 * 1024 * 1024;

/// Milliseconds that the close frame to the client may take.
pub const CLIENT_CLOSE_TIMEOUT: u64 = 1000;

/// Milliseconds that the close frame to Chromium may take.
pub const UPSTREAM_CLOSE_TIMEOUT: u64 = 500;

// ---------------------------------------------------------------------------
// Payloads
// ---------------------------------------------------------------------------

/// The byte buffer of `bytes`.
#[verifier::external_type_specification]
#[verifier::external_body]
pub struct ExBytes(bytes::Bytes);

/// Text payload on the client side.
#[verifier::external_type_specification]
#[verifier::external_body]
pub struct ExClientText(axum::extract::ws::Utf8Bytes);

/// Text payload on the Chromium side.
#[verifier::external_type_specification]
#[verifier::external_body]
pub struct ExUpstreamText(tokio_tungstenite::tungstenite::Utf8Bytes);

/// The bytes that a buffer holds.
pub uninterp spec fn bytes_of(buffer: Bytes) -> Seq<u8>;

/// The bytes that a text payload of the client side holds.
pub uninterp spec fn client_bytes(text: ClientText) -> Seq<u8>;

/// The bytes that a text payload of the Chromium side holds.
pub uninterp spec fn upstream_bytes(text: UpstreamText) -> Seq<u8>;

/// `Bytes::clone`: another handle on the same bytes.
pub assume_specification[ <bytes::Bytes as Clone>::clone ](buffer: &bytes::Bytes) -> (r:
    bytes::Bytes)
    ensures
        bytes_of(r) == bytes_of(*buffer),
;

/// `Bytes::from` a text payload of `axum`: the same bytes, which are always
/// valid UTF-8.
#[verifier::external_body]
fn client_text_into_bytes(text: ClientText) -> (r: Bytes)
    ensures
        bytes_of(r) == client_bytes(text),
        valid_utf8(bytes_of(r)),
{
    Bytes::from(text)
}

/// `Bytes::from` a text payload of `tungstenite`: the same bytes, which are
/// always valid UTF-8.
#[verifier::external_body]
fn upstream_text_into_bytes(text: UpstreamText) -> (r: Bytes)
    ensures
        bytes_of(r) == upstream_bytes(text),
        valid_utf8(bytes_of(r)),
{
    Bytes::from(text)
}

/// `Utf8Bytes::try_from` of `axum`: the same bytes as a text payload, exactly
/// when they are valid UTF-8.
#[verifier::external_body]
fn client_text_from_bytes(buffer: Bytes) -> (r: Option<ClientText>)
    ensures
        r is Some <==> valid_utf8(bytes_of(buffer)),
        r matches Some(text) ==> client_bytes(text) == bytes_of(buffer),
{
    ClientText::try_from(buffer).ok()
}

/// `Utf8Bytes::try_from` of `tungstenite`: the same bytes as a text payload,
/// exactly when they are valid UTF-8.
#[verifier::external_body]
fn upstream_text_from_bytes(buffer: Bytes) -> (r: Option<UpstreamText>)
    ensures
        r is Some <==> valid_utf8(bytes_of(buffer)),
        r matches Some(text) ==> upstream_bytes(text) == bytes_of(buffer),
{
    UpstreamText::try_from(buffer).ok()
}

/// `Utf8Bytes::from` a `str`, of `axum`: the bytes of the text.
#[verifier::external_body]
fn client_text_from_str(text: &str) -> (r: ClientText)
    ensures
        client_bytes(r) == encode_utf8(text@),
{
    ClientText::from(text)
}

// ---------------------------------------------------------------------------
// Messages
// ---------------------------------------------------------------------------

/// A WebSocket message of the client.
pub enum ClientMessage {
    Text(ClientText),
    Binary(Bytes),
    Ping(Bytes),
    Pong(Bytes),
    Close(Option<ClientCloseFrame>),
}

/// Why the client closes, by number and in words.
pub struct ClientCloseFrame {
    pub code: u16,
    pub reason: ClientText,
}

/// A WebSocket message of Chromium.
pub enum UpstreamMessage {
    Text(UpstreamText),
    Binary(Bytes),
    Ping(Bytes),
    Pong(Bytes),
    Close(Option<UpstreamCloseFrame>),
    /// A raw frame, which is never produced in standard read mode.
    Frame,
}

/// Why Chromium closes, by number and in words.
pub struct UpstreamCloseFrame {
    pub code: u16,
    pub reason: UpstreamText,
}

/// What a message says, on either side.
pub enum MessageView {
    Text(Seq<u8>),
    Binary(Seq<u8>),
    Ping(Seq<u8>),
    Pong(Seq<u8>),
    Close(Option<(u16, Seq<u8>)>),
    Frame,
}

impl View for ClientMessage {
    type V = MessageView;

    open spec fn view(&self) -> MessageView {
        match *self {
            ClientMessage::Text(t) => MessageView::Text(client_bytes(t)),
            ClientMessage::Binary(b) => MessageView::Binary(bytes_of(b)),
            ClientMessage::Ping(b) => MessageView::Ping(bytes_of(b)),
            ClientMessage::Pong(b) => MessageView::Pong(bytes_of(b)),
            ClientMessage::Close(Some(f)) => MessageView::Close(
                Some((f.code, client_bytes(f.reason))),
            ),
            ClientMessage::Close(None) => MessageView::Close(None),
        }
    }
}

impl View for UpstreamMessage {
    type V = MessageView;

    open spec fn view(&self) -> MessageView {
        match *self {
            UpstreamMessage::Text(t) => MessageView::Text(upstream_bytes(t)),
            UpstreamMessage::Binary(b) => MessageView::Binary(bytes_of(b)),
            UpstreamMessage::Ping(b) => MessageView::Ping(bytes_of(b)),
            UpstreamMessage::Pong(b) => MessageView::Pong(bytes_of(b)),
            UpstreamMessage::Close(Some(f)) => MessageView::Close(
                Some((f.code, upstream_bytes(f.reason))),
            ),
            UpstreamMessage::Close(None) => MessageView::Close(None),
            UpstreamMessage::Frame => MessageView::Frame,
        }
    }
}

/// The client's message for Chromium: it says the same. Payloads are handed
/// on without copying.
pub fn client_to_upstream(message: ClientMessage) -> (r: UpstreamMessage)
    ensures
        r@ == message@,
{
    match message {
        ClientMessage::Text(text) => {
            let buffer = client_text_into_bytes(text);
            match upstream_text_from_bytes(buffer.clone()) {
                Some(text) => UpstreamMessage::Text(text),
                None => UpstreamMessage::Binary(buffer),
            }
        },
        ClientMessage::Binary(data) => UpstreamMessage::Binary(data),
        ClientMessage::Ping(data) => UpstreamMessage::Ping(data),
        ClientMessage::Pong(data) => UpstreamMessage::Pong(data),
        ClientMessage::Close(Some(frame)) => {
            match upstream_text_from_bytes(client_text_into_bytes(frame.reason)) {
                Some(reason) => UpstreamMessage::Close(
                    Some(UpstreamCloseFrame { code: frame.code, reason }),
                ),
                None => UpstreamMessage::Close(None),
            }
        },
        ClientMessage::Close(None) => UpstreamMessage::Close(None),
    }
}

/// Chromium's message for the client: it says the same, and only a raw frame
/// is not passed on.
pub fn upstream_to_client(message: UpstreamMessage) -> (r: Option<ClientMessage>)
    ensures
        match r {
            Some(m) => m@ == message@,
            None => message@ == MessageView::Frame,
        },
{
    match message {
        UpstreamMessage::Text(text) => {
            match client_text_from_bytes(upstream_text_into_bytes(text)) {
                Some(text) => Some(ClientMessage::Text(text)),
                None => None,
            }
        },
        UpstreamMessage::Binary(data) => Some(ClientMessage::Binary(data)),
        UpstreamMessage::Ping(data) => Some(ClientMessage::Ping(data)),
        UpstreamMessage::Pong(data) => Some(ClientMessage::Pong(data)),
        UpstreamMessage::Close(Some(frame)) => {
            match client_text_from_bytes(upstream_text_into_bytes(frame.reason)) {
                Some(reason) => Some(
                    ClientMessage::Close(Some(ClientCloseFrame { code: frame.code, reason })),
                ),
                None => None,
            }
        },
        UpstreamMessage::Close(None) => Some(ClientMessage::Close(None)),
        UpstreamMessage::Frame => None,
    }
}

// ---------------------------------------------------------------------------
// Closing
// ---------------------------------------------------------------------------

/// Why the relay ended. Decides the close code sent to the client.
#[derive(Clone, Copy, Debug, PartialEq, Eq, Structural)]
pub enum CloseReason {
    ClientDisconnected,
    ClientError,
    ChromiumClosed,
    ChromiumError,
    SessionTimeout,
    ServerShutdown,
}

impl CloseReason {
    /// The reason by its name.
    pub open spec fn text(self) -> Seq<char> {
        match self {
            CloseReason::ClientDisconnected => "client_disconnected"@,
            CloseReason::ClientError => "client_error"@,
            CloseReason::ChromiumClosed => "chromium_closed"@,
            CloseReason::ChromiumError => "chromium_error"@,
            CloseReason::SessionTimeout => "session_timeout"@,
            CloseReason::ServerShutdown => "server_shutdown"@,
        }
    }

    /// The close code for the client: 1000 for a normal closure, 1001 for
    /// going away, 1011 for an internal error. A client that is gone gets
    /// none.
    pub open spec fn code(self) -> Option<u16> {
        match self {
            CloseReason::ChromiumClosed => Some(1000u16),
            CloseReason::SessionTimeout => Some(1001u16),
            CloseReason::ServerShutdown => Some(1001u16),
            CloseReason::ChromiumError => Some(1011u16),
            CloseReason::ClientDisconnected => None,
            CloseReason::ClientError => None,
        }
    }

    /// The reason by its name.
    pub fn as_str(&self) -> (r: &'static str)
        ensures
            r@ == self.text(),
    {
        match self {
            CloseReason::ClientDisconnected => "client_disconnected",
            CloseReason::ClientError => "client_error",
            CloseReason::ChromiumClosed => "chromium_closed",
            CloseReason::ChromiumError => "chromium_error",
            CloseReason::SessionTimeout => "session_timeout",
            CloseReason::ServerShutdown => "server_shutdown",
        }
    }

    /// The close code for the client, if it gets one.
    pub fn close_code(self) -> (r: Option<u16>)
        ensures
            r == self.code(),
    {
        match self {
            CloseReason::ChromiumClosed => Some(1000),
            CloseReason::SessionTimeout | CloseReason::ServerShutdown => Some(1001),
            CloseReason::ChromiumError => Some(1011),
            CloseReason::ClientDisconnected | CloseReason::ClientError => None,
        }
    }
}

/// The close message for the client: the code and the name of the reason.
pub open spec fn farewell(reason: CloseReason) -> Option<MessageView> {
    match reason.code() {
        Some(code) => Some(MessageView::Close(Some((code, encode_utf8(reason.text()))))),
        None => None,
    }
}

/// The messages that close both sides once the relay has ended: one for the
/// client, unless it is gone, then one for Chromium.
pub fn closing_messages(reason: CloseReason) -> (r: (Option<ClientMessage>, UpstreamMessage))
    ensures
        match r.0 {
            Some(m) => farewell(reason) == Some(m@),
            None => farewell(reason) is None,
        },
        r.1@ == MessageView::Close(None),
{
    let to_client = match reason.close_code() {
        Some(code) => Some(
            ClientMessage::Close(
                Some(ClientCloseFrame { code, reason: client_text_from_str(reason.as_str()) }),
            ),
        ),
        None => None,
    };
    (to_client, UpstreamMessage::Close(None))
}

// ---------------------------------------------------------------------------
// The relay
// ---------------------------------------------------------------------------

/// Where the relay stands.
#[derive(Clone, Copy, Debug, PartialEq, Eq, Structural)]
pub enum RelayState {
    /// It listens to both sides, the session timeout and the server.
    Listening,
    /// It passes a message on to Chromium; a close message ends the relay.
    ToUpstream { closing: bool },
    /// It passes a message on to the client; a close message ends the relay.
    ToClient { closing: bool },
    /// It is over.
    Ended(CloseReason),
}

/// What happened.
pub enum RelayEvent {
    FromClient(ClientMessage),
    ClientFailed,
    ClientEnded,
    FromUpstream(UpstreamMessage),
    UpstreamFailed,
    UpstreamEnded,
    TimedOut,
    Cancelled,
    /// The message was passed on, or could not be.
    Sent(bool),
}

/// What to do.
pub enum RelayAction {
    /// Wait for the next event of a listening relay.
    Listen,
    /// Pass this message on to Chromium.
    SendUpstream(UpstreamMessage),
    /// Pass this message on to the client.
    SendClient(ClientMessage),
    /// Close both sides.
    Finish(CloseReason),
}

/// A `RelayEvent` with the message as a view.
pub enum RelayEventView {
    FromClient(MessageView),
    ClientFailed,
    ClientEnded,
    FromUpstream(MessageView),
    UpstreamFailed,
    UpstreamEnded,
    TimedOut,
    Cancelled,
    Sent(bool),
}

/// A `RelayAction` with the message as a view.
pub enum RelayActionView {
    Listen,
    SendUpstream(MessageView),
    SendClient(MessageView),
    Finish(CloseReason),
}

impl View for RelayEvent {
    type V = RelayEventView;

    open spec fn view(&self) -> RelayEventView {
        match *self {
            RelayEvent::FromClient(m) => RelayEventView::FromClient(m@),
            RelayEvent::ClientFailed => RelayEventView::ClientFailed,
            RelayEvent::ClientEnded => RelayEventView::ClientEnded,
            RelayEvent::FromUpstream(m) => RelayEventView::FromUpstream(m@),
            RelayEvent::UpstreamFailed => RelayEventView::UpstreamFailed,
            RelayEvent::UpstreamEnded => RelayEventView::UpstreamEnded,
            RelayEvent::TimedOut => RelayEventView::TimedOut,
            RelayEvent::Cancelled => RelayEventView::Cancelled,
            RelayEvent::Sent(ok) => RelayEventView::Sent(ok),
        }
    }
}

impl View for RelayAction {
    type V = RelayActionView;

    open spec fn view(&self) -> RelayActionView {
        match *self {
            RelayAction::Listen => RelayActionView::Listen,
            RelayAction::SendUpstream(m) => RelayActionView::SendUpstream(m@),
            RelayAction::SendClient(m) => RelayActionView::SendClient(m@),
            RelayAction::Finish(reason) => RelayActionView::Finish(reason),
        }
    }
}

impl RelayState {
    /// The action of a relay in this state that has nothing new to pass on.
    pub open spec fn idle_action(self) -> RelayActionView {
        match self {
            RelayState::Ended(reason) => RelayActionView::Finish(reason),
            _ => RelayActionView::Listen,
        }
    }
}

/// The state after a message was passed on, or could not be.
pub open spec fn after_send(ok: bool, closing: bool, failed: CloseReason, closed: CloseReason) -> RelayState {
    if !ok {
        RelayState::Ended(failed)
    } else if closing {
        RelayState::Ended(closed)
    } else {
        RelayState::Listening
    }
}

/// The state that an event leads to, and what to do then. What cannot happen
/// in a state changes nothing.
pub open spec fn relay_next(state: RelayState, event: RelayEventView) -> (
    RelayState,
    RelayActionView,
) {
    match (state, event) {
        (RelayState::Listening, RelayEventView::FromClient(m)) => (
            RelayState::ToUpstream { closing: m is Close },
            RelayActionView::SendUpstream(m),
        ),
        (RelayState::Listening, RelayEventView::FromUpstream(m)) => if m is Frame {
            (state, RelayActionView::Listen)
        } else {
            (RelayState::ToClient { closing: m is Close }, RelayActionView::SendClient(m))
        },
        _ => {
            let next = match (state, event) {
                (RelayState::Listening, RelayEventView::ClientFailed) => RelayState::Ended(
                    CloseReason::ClientError,
                ),
                (RelayState::Listening, RelayEventView::ClientEnded) => RelayState::Ended(
                    CloseReason::ClientDisconnected,
                ),
                (RelayState::Listening, RelayEventView::UpstreamFailed) => RelayState::Ended(
                    CloseReason::ChromiumError,
                ),
                (RelayState::Listening, RelayEventView::UpstreamEnded) => RelayState::Ended(
                    CloseReason::ChromiumClosed,
                ),
                (RelayState::Listening, RelayEventView::TimedOut) => RelayState::Ended(
                    CloseReason::SessionTimeout,
                ),
                (RelayState::Listening, RelayEventView::Cancelled) => RelayState::Ended(
                    CloseReason::ServerShutdown,
                ),
                (RelayState::ToUpstream { closing }, RelayEventView::Sent(ok)) => after_send(
                    ok,
                    closing,
                    CloseReason::ChromiumError,
                    CloseReason::ClientDisconnected,
                ),
                (RelayState::ToClient { closing }, RelayEventView::Sent(ok)) => after_send(
                    ok,
                    closing,
                    CloseReason::ClientDisconnected,
                    CloseReason::ChromiumClosed,
                ),
                _ => state,
            };
            (next, next.idle_action())
        },
    }
}

fn ended(reason: CloseReason) -> (r: (RelayState, RelayAction))
    ensures
        r.0 == RelayState::Ended(reason),
        r.1@ == RelayActionView::Finish(reason),
{
    (RelayState::Ended(reason), RelayAction::Finish(reason))
}

fn sent(ok: bool, closing: bool, failed: CloseReason, closed: CloseReason) -> (r: (
    RelayState,
    RelayAction,
))
    ensures
        r.0 == after_send(ok, closing, failed, closed),
        r.1@ == r.0.idle_action(),
{
    if !ok {
        ended(failed)
    } else if closing {
        ended(closed)
    } else {
        (RelayState::Listening, RelayAction::Listen)
    }
}

/// One step of the relay. It reads on from a side only after the message
/// before was passed on, which propagates backpressure.
pub fn run(state: RelayState, event: RelayEvent) -> (r: (RelayState, RelayAction))
    ensures
        (r.0, r.1@) == relay_next(state, event@),
{
    match state {
        RelayState::Listening => match event {
            RelayEvent::FromClient(message) => {
                let closing = match &message {
                    ClientMessage::Close(_) => true,
                    _ => false,
                };
                (
                    RelayState::ToUpstream { closing },
                    RelayAction::SendUpstream(client_to_upstream(message)),
                )
            },
            RelayEvent::FromUpstream(message) => {
                let closing = match &message {
                    UpstreamMessage::Close(_) => true,
                    _ => false,
                };
                match upstream_to_client(message) {
                    Some(message) => (
                        RelayState::ToClient { closing },
                        RelayAction::SendClient(message),
                    ),
                    None => (RelayState::Listening, RelayAction::Listen),
                }
            },
            RelayEvent::ClientFailed => ended(CloseReason::ClientError),
            RelayEvent::ClientEnded => ended(CloseReason::ClientDisconnected),
            RelayEvent::UpstreamFailed => ended(CloseReason::ChromiumError),
            RelayEvent::UpstreamEnded => ended(CloseReason::ChromiumClosed),
            RelayEvent::TimedOut => ended(CloseReason::SessionTimeout),
            RelayEvent::Cancelled => ended(CloseReason::ServerShutdown),
            RelayEvent::Sent(_) => (RelayState::Listening, RelayAction::Listen),
        },
        RelayState::ToUpstream { closing } => match event {
            RelayEvent::Sent(ok) => sent(
                ok,
                closing,
                CloseReason::ChromiumError,
                CloseReason::ClientDisconnected,
            ),
            _ => (state, RelayAction::Listen),
        },
        RelayState::ToClient { closing } => match event {
            RelayEvent::Sent(ok) => sent(
                ok,
                closing,
                CloseReason::ClientDisconnected,
                CloseReason::ChromiumClosed,
            ),
            _ => (state, RelayAction::Listen),
        },
        RelayState::Ended(reason) => ended(reason),
    }
}

// ---------------------------------------------------------------------------
// Laws
// ---------------------------------------------------------------------------

/// The state after a series of events.
pub open spec fn relay_run(state: RelayState, events: Seq<RelayEventView>) -> RelayState
    decreases events.len(),
{
    if events.len() == 0 {
        state
    } else {
        relay_next(relay_run(state, events.drop_last()), events.last()).0
    }
}

/// What a series of events makes the relay do, action by action.
pub open spec fn relay_actions(state: RelayState, events: Seq<RelayEventView>) -> Seq<
    RelayActionView,
>
    decreases events.len(),
{
    if events.len() == 0 {
        Seq::empty()
    } else {
        relay_actions(state, events.drop_last()).push(
            relay_next(relay_run(state, events.drop_last()), events.last()).1,
        )
    }
}

/// The messages among some actions that go to Chromium.
pub open spec fn to_upstream(actions: Seq<RelayActionView>) -> Seq<MessageView>
    decreases actions.len(),
{
    if actions.len() == 0 {
        Seq::empty()
    } else {
        match actions.last() {
            RelayActionView::SendUpstream(m) => to_upstream(actions.drop_last()).push(m),
            _ => to_upstream(actions.drop_last()),
        }
    }
}

/// The messages among some actions that go to the client.
pub open spec fn to_client(actions: Seq<RelayActionView>) -> Seq<MessageView>
    decreases actions.len(),
{
    if actions.len() == 0 {
        Seq::empty()
    } else {
        match actions.last() {
            RelayActionView::SendClient(m) => to_client(actions.drop_last()).push(m),
            _ => to_client(actions.drop_last()),
        }
    }
}

/// The messages that the relay reads from the client: those that come while
/// it listens.
pub open spec fn read_from_client(state: RelayState, events: Seq<RelayEventView>) -> Seq<
    MessageView,
>
    decreases events.len(),
{
    if events.len() == 0 {
        Seq::empty()
    } else {
        let before = read_from_client(state, events.drop_last());
        match events.last() {
            RelayEventView::FromClient(m) => if relay_run(state, events.drop_last())
                == RelayState::Listening {
                before.push(m)
            } else {
                before
            },
            _ => before,
        }
    }
}

/// The messages other than raw frames that the relay reads from Chromium.
pub open spec fn read_from_upstream(state: RelayState, events: Seq<RelayEventView>) -> Seq<
    MessageView,
>
    decreases events.len(),
{
    if events.len() == 0 {
        Seq::empty()
    } else {
        let before = read_from_upstream(state, events.drop_last());
        match events.last() {
            RelayEventView::FromUpstream(m) => if !(m is Frame) && relay_run(
                state,
                events.drop_last(),
            ) == RelayState::Listening {
                before.push(m)
            } else {
                before
            },
            _ => before,
        }
    }
}

/// The relay is transparent: whatever happens, the messages passed on to
/// Chromium are exactly those read from the client, and the messages passed on
/// to the client exactly those read from Chromium, each once, unchanged and in
/// order.
pub proof fn law_relay_is_transparent(state: RelayState, events: Seq<RelayEventView>)
    ensures
        to_upstream(relay_actions(state, events)) == read_from_client(state, events),
        to_client(relay_actions(state, events)) == read_from_upstream(state, events),
    decreases events.len(),
{
    if events.len() > 0 {
        let rest = events.drop_last();
        law_relay_is_transparent(state, rest);
        let actions = relay_actions(state, events);
        assert(actions.drop_last() =~= relay_actions(state, rest));
    }
}

/// A relay that has ended stays so, for the same reason, and passes nothing
/// on any more.
pub proof fn law_relay_ends_once(reason: CloseReason, events: Seq<RelayEventView>)
    ensures
        relay_run(RelayState::Ended(reason), events) == RelayState::Ended(reason),
        to_upstream(relay_actions(RelayState::Ended(reason), events)) == Seq::<
            MessageView,
        >::empty(),
        to_client(relay_actions(RelayState::Ended(reason), events)) == Seq::<MessageView>::empty(),
    decreases events.len(),
{
    if events.len() > 0 {
        let rest = events.drop_last();
        law_relay_ends_once(reason, rest);
        let actions = relay_actions(RelayState::Ended(reason), events);
        assert(actions.drop_last() =~= relay_actions(RelayState::Ended(reason), rest));
    }
}

/// The side that closes, fails or stalls decides the reason: a relay that
/// leaves the listening state for good does so for the reason of the event.
pub proof fn law_reason_of_end(event: RelayEventView, reason: CloseReason)
    requires
        relay_next(RelayState::Listening, event).0 == RelayState::Ended(reason),
    ensures
        reason == CloseReason::ClientError <==> event is ClientFailed,
        reason == CloseReason::ClientDisconnected <==> event is ClientEnded,
        reason == CloseReason::ChromiumError <==> event is UpstreamFailed,
        reason == CloseReason::ChromiumClosed <==> event is UpstreamEnded,
        reason == CloseReason::SessionTimeout <==> event is TimedOut,
        reason == CloseReason::ServerShutdown <==> event is Cancelled,
{
}

/// The client is told why the session ends unless it is the one that is gone:
/// 1000 when Chromium closed, 1001 for a timeout or a shutdown of the server,
/// 1011 for an error of Chromium.
pub proof fn law_close_codes(reason: CloseReason)
    ensures
        farewell(reason) is None <==> reason == CloseReason::ClientDisconnected || reason
            == CloseReason::ClientError,
        farewell(reason) matches Some(m) ==> m == MessageView::Close(
            Some((reason.code()->0, encode_utf8(reason.text()))),
        ),
        reason.code() == Some(1000u16) <==> reason == CloseReason::ChromiumClosed,
        reason.code() == Some(1001u16) <==> reason == CloseReason::SessionTimeout || reason
            == CloseReason::ServerShutdown,
        reason.code() == Some(1011u16) <==> reason == CloseReason::ChromiumError,
{
}

/// Messages, events and actions keep their kind, their payload and, where they
/// close, their code and reason when they are viewed, on either side.
pub proof fn law_message_views(
    c: ClientText,
    u: UpstreamText,
    b: Bytes,
    code: u16,
    m: ClientMessage,
    n: UpstreamMessage,
)
    ensures
        ClientMessage::Text(c)@ == MessageView::Text(client_bytes(c)),
        ClientMessage::Binary(b)@ == MessageView::Binary(bytes_of(b)),
        ClientMessage::Ping(b)@ == MessageView::Ping(bytes_of(b)),
        ClientMessage::Pong(b)@ == MessageView::Pong(bytes_of(b)),
        ClientMessage::Close(None)@ == MessageView::Close(None),
        ClientMessage::Close(Some(ClientCloseFrame { code, reason: c }))@ == MessageView::Close(
            Some((code, client_bytes(c))),
        ),
        UpstreamMessage::Text(u)@ == MessageView::Text(upstream_bytes(u)),
        UpstreamMessage::Binary(b)@ == MessageView::Binary(bytes_of(b)),
        UpstreamMessage::Ping(b)@ == MessageView::Ping(bytes_of(b)),
        UpstreamMessage::Pong(b)@ == MessageView::Pong(bytes_of(b)),
        UpstreamMessage::Close(None)@ == MessageView::Close(None),
        UpstreamMessage::Close(Some(UpstreamCloseFrame { code, reason: u }))@
            == MessageView::Close(Some((code, upstream_bytes(u)))),
        UpstreamMessage::Frame@ == MessageView::Frame,
        RelayEvent::FromClient(m)@ == RelayEventView::FromClient(m@),
        RelayEvent::FromUpstream(n)@ == RelayEventView::FromUpstream(n@),
        RelayEvent::Sent(true)@ == RelayEventView::Sent(true),
        RelayEvent::Sent(false)@ == RelayEventView::Sent(false),
        RelayAction::Listen@ == RelayActionView::Listen,
        RelayAction::SendUpstream(n)@ == RelayActionView::SendUpstream(n@),
        RelayAction::SendClient(m)@ == RelayActionView::SendClient(m@),
{
}

/// A message of the client is passed on as it is, and ends the relay exactly
/// when it is a close message: once it is passed on, the relay listens again
/// after every other message, and is over after a close. A message that cannot
/// be passed on ends it as an error of Chromium.
pub proof fn law_only_close_of_client_ends(m: ClientMessage)
    ensures
        ({
            let (state, action) = relay_next(RelayState::Listening, RelayEvent::FromClient(m)@);
            &&& action == RelayActionView::SendUpstream(m@)
            &&& !(m is Close) ==> relay_next(state, RelayEvent::Sent(true)@) == (
                RelayState::Listening,
                RelayActionView::Listen,
            )
            &&& m is Close ==> relay_next(state, RelayEvent::Sent(true)@) == (
                RelayState::Ended(CloseReason::ClientDisconnected),
                RelayActionView::Finish(CloseReason::ClientDisconnected),
            )
            &&& relay_next(state, RelayEvent::Sent(false)@) == (
                RelayState::Ended(CloseReason::ChromiumError),
                RelayActionView::Finish(CloseReason::ChromiumError),
            )
        }),
{
}

/// A message of Chromium is passed on as it is, a raw frame apart, and ends the
/// relay exactly when it is a close message. One that cannot be passed on ends
/// it because the client is gone.
pub proof fn law_only_close_of_chromium_ends(m: UpstreamMessage)
    ensures
        m is Frame ==> relay_next(RelayState::Listening, RelayEvent::FromUpstream(m)@) == (
            RelayState::Listening,
            RelayActionView::Listen,
        ),
        !(m is Frame) ==> ({
            let (state, action) = relay_next(RelayState::Listening, RelayEvent::FromUpstream(m)@);
            &&& action == RelayActionView::SendClient(m@)
            &&& !(m is Close) ==> relay_next(state, RelayEvent::Sent(true)@) == (
                RelayState::Listening,
                RelayActionView::Listen,
            )
            &&& m is Close ==> relay_next(state, RelayEvent::Sent(true)@) == (
                RelayState::Ended(CloseReason::ChromiumClosed),
                RelayActionView::Finish(CloseReason::ChromiumClosed),
            )
            &&& relay_next(state, RelayEvent::Sent(false)@) == (
                RelayState::Ended(CloseReason::ClientDisconnected),
                RelayActionView::Finish(CloseReason::ClientDisconnected),
            )
        }),
{
}

/// A listening relay ends at once when a side fails or ends, when the session
/// has lasted long enough and when the server shuts down, each for its own
/// reason.
pub proof fn law_listening_relay_ends()
    ensures
        relay_next(RelayState::Listening, RelayEvent::ClientFailed@) == (
            RelayState::Ended(CloseReason::ClientError),
            RelayActionView::Finish(CloseReason::ClientError),
        ),
        relay_next(RelayState::Listening, RelayEvent::ClientEnded@) == (
            RelayState::Ended(CloseReason::ClientDisconnected),
            RelayActionView::Finish(CloseReason::ClientDisconnected),
        ),
        relay_next(RelayState::Listening, RelayEvent::UpstreamFailed@) == (
            RelayState::Ended(CloseReason::ChromiumError),
            RelayActionView::Finish(CloseReason::ChromiumError),
        ),
        relay_next(RelayState::Listening, RelayEvent::UpstreamEnded@) == (
            RelayState::Ended(CloseReason::ChromiumClosed),
            RelayActionView::Finish(CloseReason::ChromiumClosed),
        ),
        relay_next(RelayState::Listening, RelayEvent::TimedOut@) == (
            RelayState::Ended(CloseReason::SessionTimeout),
            RelayActionView::Finish(CloseReason::SessionTimeout),
        ),
        relay_next(RelayState::Listening, RelayEvent::Cancelled@) == (
            RelayState::Ended(CloseReason::ServerShutdown),
            RelayActionView::Finish(CloseReason::ServerShutdown),
        ),
        forall|ok: bool| #[trigger]
            relay_next(RelayState::Listening, RelayEventView::Sent(ok)) == (
                RelayState::Listening,
                RelayActionView::Listen,
            ),
{
}

/// While a message is passed on, nothing but the outcome of that matters, and a
/// relay that has ended keeps its reason whatever happens.
pub proof fn law_sending_relay_waits(state: RelayState, event: RelayEventView, reason: CloseReason)
    ensures
        (state is ToUpstream || state is ToClient) && !(event is Sent) ==> relay_next(state, event)
            == (state, RelayActionView::Listen),
        relay_next(RelayState::Ended(reason), event) == (
            RelayState::Ended(reason),
            RelayActionView::Finish(reason),
        ),
{
}

/// What each reason is called.
pub proof fn law_reason_names()
    ensures
        CloseReason::ClientDisconnected.text() == "client_disconnected"@,
        CloseReason::ClientError.text() == "client_error"@,
        CloseReason::ChromiumClosed.text() == "chromium_closed"@,
        CloseReason::ChromiumError.text() == "chromium_error"@,
        CloseReason::SessionTimeout.text() == "session_timeout"@,
        CloseReason::ServerShutdown.text() == "server_shutdown"@,
{
}

/// Frames are capped at 16 MiB and messages at 64 MiB; the close frames get a
/// second and half a second.
pub proof fn law_relay_limits()
    ensures
        MAX_FRAME_SIZE == 0x100_0000,
        MAX_MESSAGE_SIZE == 4 * MAX_FRAME_SIZE,
        CLIENT_CLOSE_TIMEOUT == 1000,
        UPSTREAM_CLOSE_TIMEOUT == 500,
{
}

} // verus!
