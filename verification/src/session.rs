//! Session lifecycle: queued -> starting -> active -> closing -> closed, or
//! failed before it becomes active. It may be dropped at any point: by a client
//! that disconnects before the upgrade, or by a panic.
//!
//! A session holds a slot from the moment it is granted one, and a browser
//! from the moment one has started. The lifecycle is a state machine: it is
//! told what happened and says what to do.

use vstd::prelude::*;

use crate::errors::GatewayError;
use crate::errors::GatewayErrorView;
use crate::proxy::CloseReason;
use crate::text::concat;

verus! {

/// How long a session waited for its slot and for its browser, in
/// milliseconds.
#[derive(Clone, Copy, Debug)]
pub struct SessionTimings {
    pub queue_time: u64,
    pub startup_time: u64,
}

/// How a session ends.
pub enum SessionEnd {
    /// It was active and is closed.
    Closed(CloseReason),
    /// It failed before it was active; the client gets this error.
    Failed(GatewayError),
    /// It was dropped on its way.
    Dropped,
}

/// Where a session stands.
pub enum SessionState {
    /// It waits for a slot.
    Queued,
    /// It has a slot, and its browser is launched.
    Starting,
    /// Its browser runs, and the connection to it is made.
    Connecting,
    /// The client is connected, and frames are relayed.
    Active,
    /// Its browser is taken down.
    Closing(SessionEnd),
    /// It holds nothing any more.
    Over(SessionEnd),
}

/// What happened to a session.
pub enum SessionEvent {
    SlotGranted,
    SlotDenied(GatewayError),
    BrowserStarted,
    /// The browser did not start, and nothing of it is left.
    BrowserFailed(GatewayError),
    Connected,
    /// The connection to the browser failed; why, in words.
    ConnectFailed(String),
    RelayEnded(CloseReason),
    BrowserStopped,
    /// The task that runs the session is dropped. A launch that is under way
    /// takes its process with it.
    Dropped,
}

/// What to do about a session.
#[derive(Clone, Copy, Debug, PartialEq, Eq, Structural)]
pub enum SessionAction {
    /// Wait for what happens next.
    Wait,
    /// Launch the browser.
    LaunchBrowser,
    /// Connect to the CDP endpoint of the browser.
    Connect,
    /// Complete the upgrade and relay frames.
    Relay,
    /// Take the browser down.
    StopBrowser,
    /// Give the slot back.
    ReleaseSlot,
    /// Take down and give back what a dropped session holds.
    CleanUp { stop_browser: bool, release_slot: bool },
}

/// A `SessionEnd` with its error as a view.
pub enum SessionEndView {
    Closed(CloseReason),
    Failed(GatewayErrorView),
    Dropped,
}

/// A `SessionState` with its error as a view.
pub enum SessionStateView {
    Queued,
    Starting,
    Connecting,
    Active,
    Closing(SessionEndView),
    Over(SessionEndView),
}

/// A `SessionEvent` with its texts as views.
pub enum SessionEventView {
    SlotGranted,
    SlotDenied(GatewayErrorView),
    BrowserStarted,
    BrowserFailed(GatewayErrorView),
    Connected,
    ConnectFailed(Seq<char>),
    RelayEnded(CloseReason),
    BrowserStopped,
    Dropped,
}

impl View for SessionEnd {
    type V = SessionEndView;

    open spec fn view(&self) -> SessionEndView {
        match *self {
            SessionEnd::Closed(reason) => SessionEndView::Closed(reason),
            SessionEnd::Failed(e) => SessionEndView::Failed(e@),
            SessionEnd::Dropped => SessionEndView::Dropped,
        }
    }
}

impl View for SessionState {
    type V = SessionStateView;

    open spec fn view(&self) -> SessionStateView {
        match *self {
            SessionState::Queued => SessionStateView::Queued,
            SessionState::Starting => SessionStateView::Starting,
            SessionState::Connecting => SessionStateView::Connecting,
            SessionState::Active => SessionStateView::Active,
            SessionState::Closing(end) => SessionStateView::Closing(end@),
            SessionState::Over(end) => SessionStateView::Over(end@),
        }
    }
}

impl View for SessionEvent {
    type V = SessionEventView;

    open spec fn view(&self) -> SessionEventView {
        match *self {
            SessionEvent::SlotGranted => SessionEventView::SlotGranted,
            SessionEvent::SlotDenied(e) => SessionEventView::SlotDenied(e@),
            SessionEvent::BrowserStarted => SessionEventView::BrowserStarted,
            SessionEvent::BrowserFailed(e) => SessionEventView::BrowserFailed(e@),
            SessionEvent::Connected => SessionEventView::Connected,
            SessionEvent::ConnectFailed(why) => SessionEventView::ConnectFailed(why@),
            SessionEvent::RelayEnded(reason) => SessionEventView::RelayEnded(reason),
            SessionEvent::BrowserStopped => SessionEventView::BrowserStopped,
            SessionEvent::Dropped => SessionEventView::Dropped,
        }
    }
}

/// The session holds a slot.
pub open spec fn holds_slot(state: SessionStateView) -> bool {
    !(state is Queued) && !(state is Over)
}

/// The session holds a browser process and its profile directory.
pub open spec fn holds_browser(state: SessionStateView) -> bool {
    state is Connecting || state is Active || state is Closing
}

/// The state that an event leads to, and what to do then. What cannot happen
/// in a state changes nothing.
pub open spec fn session_next(state: SessionStateView, event: SessionEventView) -> (
    SessionStateView,
    SessionAction,
) {
    match (state, event) {
        (SessionStateView::Queued, SessionEventView::SlotGranted) => (
            SessionStateView::Starting,
            SessionAction::LaunchBrowser,
        ),
        (SessionStateView::Queued, SessionEventView::SlotDenied(e)) => (
            SessionStateView::Over(SessionEndView::Failed(e)),
            SessionAction::Wait,
        ),
        (SessionStateView::Starting, SessionEventView::BrowserStarted) => (
            SessionStateView::Connecting,
            SessionAction::Connect,
        ),
        (SessionStateView::Starting, SessionEventView::BrowserFailed(e)) => (
            SessionStateView::Over(SessionEndView::Failed(e)),
            SessionAction::ReleaseSlot,
        ),
        (SessionStateView::Connecting, SessionEventView::Connected) => (
            SessionStateView::Active,
            SessionAction::Relay,
        ),
        (SessionStateView::Connecting, SessionEventView::ConnectFailed(why)) => (
            SessionStateView::Closing(
                SessionEndView::Failed(
                    GatewayErrorView::ChromiumUnavailable("CDP connect failed: "@ + why),
                ),
            ),
            SessionAction::StopBrowser,
        ),
        (SessionStateView::Active, SessionEventView::RelayEnded(reason)) => (
            SessionStateView::Closing(SessionEndView::Closed(reason)),
            SessionAction::StopBrowser,
        ),
        (SessionStateView::Closing(end), SessionEventView::BrowserStopped) => (
            SessionStateView::Over(end),
            SessionAction::ReleaseSlot,
        ),
        (SessionStateView::Over(_), SessionEventView::Dropped) => (state, SessionAction::Wait),
        (_, SessionEventView::Dropped) => (
            SessionStateView::Over(SessionEndView::Dropped),
            SessionAction::CleanUp {
                stop_browser: holds_browser(state),
                release_slot: holds_slot(state),
            },
        ),
        _ => (state, SessionAction::Wait),
    }
}

fn dropped(stop_browser: bool, release_slot: bool) -> (r: (SessionState, SessionAction))
    ensures
        r.0@ == SessionStateView::Over(SessionEndView::Dropped),
        r.1 == (SessionAction::CleanUp { stop_browser, release_slot }),
{
    (SessionState::Over(SessionEnd::Dropped), SessionAction::CleanUp { stop_browser, release_slot })
}

/// One step of a session.
pub fn run(state: SessionState, event: SessionEvent) -> (r: (SessionState, SessionAction))
    ensures
        (r.0@, r.1) == session_next(state@, event@),
{
    match (state, event) {
        (SessionState::Queued, SessionEvent::SlotGranted) => (
            SessionState::Starting,
            SessionAction::LaunchBrowser,
        ),
        (SessionState::Queued, SessionEvent::SlotDenied(e)) => (
            SessionState::Over(SessionEnd::Failed(e)),
            SessionAction::Wait,
        ),
        (SessionState::Starting, SessionEvent::BrowserStarted) => (
            SessionState::Connecting,
            SessionAction::Connect,
        ),
        (SessionState::Starting, SessionEvent::BrowserFailed(e)) => (
            SessionState::Over(SessionEnd::Failed(e)),
            SessionAction::ReleaseSlot,
        ),
        (SessionState::Connecting, SessionEvent::Connected) => (
            SessionState::Active,
            SessionAction::Relay,
        ),
        (SessionState::Connecting, SessionEvent::ConnectFailed(why)) => (
            SessionState::Closing(
                SessionEnd::Failed(
                    GatewayError::ChromiumUnavailable(
                        concat("CDP connect failed: ", why.as_str()),
                    ),
                ),
            ),
            SessionAction::StopBrowser,
        ),
        (SessionState::Active, SessionEvent::RelayEnded(reason)) => (
            SessionState::Closing(SessionEnd::Closed(reason)),
            SessionAction::StopBrowser,
        ),
        (SessionState::Closing(end), SessionEvent::BrowserStopped) => (
            SessionState::Over(end),
            SessionAction::ReleaseSlot,
        ),
        (SessionState::Queued, SessionEvent::Dropped) => dropped(false, false),
        (SessionState::Starting, SessionEvent::Dropped) => dropped(false, true),
        (SessionState::Connecting, SessionEvent::Dropped) => dropped(true, true),
        (SessionState::Active, SessionEvent::Dropped) => dropped(true, true),
        (SessionState::Closing(_), SessionEvent::Dropped) => dropped(true, true),
        (state, _) => (state, SessionAction::Wait),
    }
}

// ---------------------------------------------------------------------------
// Laws
// ---------------------------------------------------------------------------

/// The state after a series of events.
pub open spec fn session_run(state: SessionStateView, events: Seq<SessionEventView>) -> SessionStateView
    decreases events.len(),
{
    if events.len() == 0 {
        state
    } else {
        session_next(session_run(state, events.drop_last()), events.last()).0
    }
}

/// How often a series of events leads to the action.
pub open spec fn count_action(
    state: SessionStateView,
    events: Seq<SessionEventView>,
    action: SessionAction,
) -> nat
    decreases events.len(),
{
    if events.len() == 0 {
        0
    } else {
        let before = count_action(state, events.drop_last(), action);
        if session_next(session_run(state, events.drop_last()), events.last()).1 == action {
            before + 1
        } else {
            before
        }
    }
}

/// The action gives the slot back.
pub open spec fn gives_slot_back(action: SessionAction) -> bool {
    action == SessionAction::ReleaseSlot || action matches SessionAction::CleanUp {
        release_slot: true,
        ..
    }
}

/// How often a series of events has the slot given back.
pub open spec fn count_released(state: SessionStateView, events: Seq<SessionEventView>) -> nat
    decreases events.len(),
{
    if events.len() == 0 {
        0
    } else {
        let before = count_released(state, events.drop_last());
        if gives_slot_back(
            session_next(session_run(state, events.drop_last()), events.last()).1,
        ) {
            before + 1
        } else {
            before
        }
    }
}

/// How often a series of events sees the browser gone for good: its teardown
/// was completed, or it is left to the clean-up of a dropped session.
pub open spec fn count_down(state: SessionStateView, events: Seq<SessionEventView>) -> nat
    decreases events.len(),
{
    if events.len() == 0 {
        0
    } else {
        let before = count_down(state, events.drop_last());
        let at = session_run(state, events.drop_last());
        if (at is Closing && events.last() is BrowserStopped) || session_next(
            at,
            events.last(),
        ).1 matches SessionAction::CleanUp { stop_browser: true, .. } {
            before + 1
        } else {
            before
        }
    }
}

/// Whatever happens, also when the session is dropped on its way, its slot is
/// given back exactly once and its browser goes down exactly once: a slot was
/// granted as often as it is held or was given back, and a browser that started
/// is still held or went down. A teardown is ordered at most once.
pub proof fn law_released_exactly_once(events: Seq<SessionEventView>)
    ensures
        ({
            let start = SessionStateView::Queued;
            let state = session_run(start, events);
            let granted = count_action(start, events, SessionAction::LaunchBrowser);
            let released = count_released(start, events);
            let started = count_action(start, events, SessionAction::Connect);
            let ordered = count_action(start, events, SessionAction::StopBrowser);
            let down = count_down(start, events);
            &&& granted <= 1
            &&& granted == released + if holds_slot(state) {
                1nat
            } else {
                0nat
            }
            &&& started <= 1
            &&& started == down + if holds_browser(state) {
                1nat
            } else {
                0nat
            }
            &&& ordered <= started
            &&& state is Connecting || state is Active ==> ordered == 0
            &&& state is Queued ==> granted == 0
            &&& state is Queued || state is Starting ==> started == 0
            &&& state is Over ==> granted == released && started == down
        }),
    decreases events.len(),
{
    if events.len() > 0 {
        law_released_exactly_once(events.drop_last());
    }
}

/// A session that is dropped is over at once, and exactly what it held is
/// cleaned up: its slot when it held one, its browser when it held one.
pub proof fn law_dropped_session_is_cleaned_up(state: SessionStateView)
    requires
        !(state is Over),
    ensures
        session_next(state, SessionEventView::Dropped).0 == SessionStateView::Over(
            SessionEndView::Dropped,
        ),
        gives_slot_back(session_next(state, SessionEventView::Dropped).1) <==> holds_slot(state),
        (session_next(state, SessionEventView::Dropped).1 matches SessionAction::CleanUp {
            stop_browser: true,
            ..
        }) <==> holds_browser(state),
{
}

/// The slot outlives the browser: a session that holds a browser holds a slot,
/// and one that is over holds neither.
pub proof fn law_slot_outlives_browser(state: SessionStateView)
    ensures
        holds_browser(state) ==> holds_slot(state),
        state is Over ==> !holds_slot(state) && !holds_browser(state),
{
}

/// How a session that ended came to its end.
pub open spec fn end_of(state: SessionStateView) -> Option<SessionEndView> {
    match state {
        SessionStateView::Closing(end) => Some(end),
        SessionStateView::Over(end) => Some(end),
        _ => None,
    }
}

/// Failures are answered before the upgrade and closes come after it: a
/// session fails only when it was never active, and is closed only when it
/// was.
pub proof fn law_failures_precede_upgrade(events: Seq<SessionEventView>)
    ensures
        ({
            let start = SessionStateView::Queued;
            let upgraded = count_action(start, events, SessionAction::Relay);
            let state = session_run(start, events);
            &&& state is Queued || state is Starting || state is Connecting ==> upgraded == 0
            &&& state is Active ==> upgraded == 1
            &&& end_of(state) matches Some(SessionEndView::Failed(_)) ==> upgraded == 0
            &&& end_of(state) matches Some(SessionEndView::Closed(_)) ==> upgraded == 1
            &&& upgraded <= 1
        }),
    decreases events.len(),
{
    if events.len() > 0 {
        law_failures_precede_upgrade(events.drop_last());
    }
}

/// A session that is over stays so.
pub proof fn law_over_is_final(end: SessionEndView, event: SessionEventView)
    ensures
        session_next(SessionStateView::Over(end), event) == (
            SessionStateView::Over(end),
            SessionAction::Wait,
        ),
{
}

/// States, events and ends keep their kind and what they carry when they are
/// viewed.
pub proof fn law_session_views(e: GatewayError, why: String, reason: CloseReason, end: SessionEnd)
    ensures
        SessionEnd::Closed(reason)@ == SessionEndView::Closed(reason),
        SessionEnd::Failed(e)@ == SessionEndView::Failed(e@),
        SessionEnd::Dropped@ == SessionEndView::Dropped,
        SessionState::Queued@ == SessionStateView::Queued,
        SessionState::Starting@ == SessionStateView::Starting,
        SessionState::Connecting@ == SessionStateView::Connecting,
        SessionState::Active@ == SessionStateView::Active,
        SessionState::Closing(end)@ == SessionStateView::Closing(end@),
        SessionState::Over(end)@ == SessionStateView::Over(end@),
        SessionEvent::SlotGranted@ == SessionEventView::SlotGranted,
        SessionEvent::SlotDenied(e)@ == SessionEventView::SlotDenied(e@),
        SessionEvent::BrowserStarted@ == SessionEventView::BrowserStarted,
        SessionEvent::BrowserFailed(e)@ == SessionEventView::BrowserFailed(e@),
        SessionEvent::Connected@ == SessionEventView::Connected,
        SessionEvent::ConnectFailed(why)@ == SessionEventView::ConnectFailed(why@),
        SessionEvent::RelayEnded(reason)@ == SessionEventView::RelayEnded(reason),
        SessionEvent::BrowserStopped@ == SessionEventView::BrowserStopped,
        SessionEvent::Dropped@ == SessionEventView::Dropped,
{
}

/// A relay that ends, for whatever reason, takes its session down: an active
/// session goes on to close with that very reason and has its browser stopped,
/// and once that is done it is over and gives its slot back. It never stays
/// active, whatever came before.
pub proof fn law_ended_relay_ends_session(
    start: SessionStateView,
    events: Seq<SessionEventView>,
    reason: CloseReason,
)
    requires
        session_run(start, events) is Active,
    ensures
        ({
            let ended = events.push(SessionEvent::RelayEnded(reason)@);
            let stopped = ended.push(SessionEvent::BrowserStopped@);
            &&& session_run(start, ended) == SessionStateView::Closing(
                SessionEndView::Closed(reason),
            )
            &&& count_action(start, ended, SessionAction::StopBrowser) == count_action(
                start,
                events,
                SessionAction::StopBrowser,
            ) + 1
            &&& session_run(start, stopped) == SessionStateView::Over(
                SessionEndView::Closed(reason),
            )
            &&& count_action(start, stopped, SessionAction::ReleaseSlot) == count_action(
                start,
                events,
                SessionAction::ReleaseSlot,
            ) + 1
        }),
{
    let ended = events.push(SessionEvent::RelayEnded(reason)@);
    let stopped = ended.push(SessionEvent::BrowserStopped@);
    assert(ended.drop_last() =~= events);
    assert(stopped.drop_last() =~= ended);
    assert(session_run(start, ended) is Closing);
    assert(count_action(start, ended, SessionAction::ReleaseSlot) == count_action(
        start,
        events,
        SessionAction::ReleaseSlot,
    ));
}

/// A browser that is being taken down, for whatever end, gives way to that end:
/// the session is over with it, and the slot is given back then and not before.
pub proof fn law_teardown_ends_session(end: SessionEnd)
    ensures
        session_next(SessionState::Closing(end)@, SessionEvent::BrowserStopped@) == (
            SessionState::Over(end)@,
            SessionAction::ReleaseSlot,
        ),
{
}

/// The way to an active session: a slot leads to the launch, a browser that
/// started to the connection, and the connection to the relay. Where one of them
/// fails, the client gets the error: at once without a slot, with the slot given
/// back without a browser, and after the browser was stopped without a
/// connection.
pub proof fn law_way_to_active(e: GatewayError, why: String)
    ensures
        session_next(SessionState::Queued@, SessionEvent::SlotGranted@) == (
            SessionState::Starting@,
            SessionAction::LaunchBrowser,
        ),
        session_next(SessionState::Starting@, SessionEvent::BrowserStarted@) == (
            SessionState::Connecting@,
            SessionAction::Connect,
        ),
        session_next(SessionState::Connecting@, SessionEvent::Connected@) == (
            SessionState::Active@,
            SessionAction::Relay,
        ),
        session_next(SessionState::Queued@, SessionEvent::SlotDenied(e)@) == (
            SessionState::Over(SessionEnd::Failed(e))@,
            SessionAction::Wait,
        ),
        session_next(SessionState::Starting@, SessionEvent::BrowserFailed(e)@) == (
            SessionState::Over(SessionEnd::Failed(e))@,
            SessionAction::ReleaseSlot,
        ),
        session_next(SessionState::Connecting@, SessionEvent::ConnectFailed(why)@) == (
            SessionStateView::Closing(
                SessionEndView::Failed(
                    GatewayErrorView::ChromiumUnavailable("CDP connect failed: "@ + why@),
                ),
            ),
            SessionAction::StopBrowser,
        ),
{
}

/// How far a session has come.
pub open spec fn stage(state: SessionStateView) -> nat {
    match state {
        SessionStateView::Queued => 0,
        SessionStateView::Starting => 1,
        SessionStateView::Connecting => 2,
        SessionStateView::Active => 3,
        SessionStateView::Closing(_) => 4,
        SessionStateView::Over(_) => 5,
    }
}

/// The event tells how the work of the stage came out.
pub open spec fn awaited(state: SessionStateView, event: SessionEventView) -> bool {
    match state {
        SessionStateView::Queued => event is SlotGranted || event is SlotDenied,
        SessionStateView::Starting => event is BrowserStarted || event is BrowserFailed,
        SessionStateView::Connecting => event is Connected || event is ConnectFailed,
        SessionStateView::Active => event is RelayEnded,
        SessionStateView::Closing(_) => event is BrowserStopped,
        SessionStateView::Over(_) => false,
    }
}

/// Progress: whatever the work of a stage comes to, the session goes on to a
/// later stage, a drop ends it at once, and nothing else moves it.
pub proof fn law_session_goes_forward(state: SessionStateView, event: SessionEventView)
    ensures
        awaited(state, event) ==> stage(session_next(state, event).0) > stage(state),
        event is Dropped ==> session_next(state, event).0 is Over,
        !awaited(state, event) && !(event is Dropped) ==> session_next(state, event) == (
            state,
            SessionAction::Wait,
        ),
{
}

} // verus!
