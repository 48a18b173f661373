use pinokio::errors::GatewayError;
use pinokio::proxy::CloseReason;
use pinokio::session::{run, SessionAction, SessionEnd, SessionEvent, SessionState};

#[test]
fn session_runs_its_course() {
    let (s, a) = run(SessionState::Queued, SessionEvent::SlotGranted);
    assert_eq!(a, SessionAction::LaunchBrowser);
    let (s, a) = run(s, SessionEvent::BrowserStarted);
    assert_eq!(a, SessionAction::Connect);
    let (s, a) = run(s, SessionEvent::Connected);
    assert_eq!(a, SessionAction::Relay);
    assert!(matches!(s, SessionState::Active));
    let (s, a) = run(s, SessionEvent::RelayEnded(CloseReason::SessionTimeout));
    assert_eq!(a, SessionAction::StopBrowser);
    let (s, a) = run(s, SessionEvent::BrowserStopped);
    assert_eq!(a, SessionAction::ReleaseSlot);
    assert!(matches!(
        s,
        SessionState::Over(SessionEnd::Closed(CloseReason::SessionTimeout))
    ));
}

#[test]
fn denied_session_holds_nothing() {
    let (s, a) = run(
        SessionState::Queued,
        SessionEvent::SlotDenied(GatewayError::QueueFull),
    );
    assert_eq!(a, SessionAction::Wait);
    assert!(matches!(s, SessionState::Over(SessionEnd::Failed(GatewayError::QueueFull))));
}

#[test]
fn failed_launch_releases_the_slot() {
    let (s, a) = run(
        SessionState::Starting,
        SessionEvent::BrowserFailed(GatewayError::ChromiumStartupTimeout),
    );
    assert_eq!(a, SessionAction::ReleaseSlot);
    assert!(matches!(
        s,
        SessionState::Over(SessionEnd::Failed(GatewayError::ChromiumStartupTimeout))
    ));
}

#[test]
fn failed_connection_stops_the_browser_first() {
    let (s, a) = run(
        SessionState::Connecting,
        SessionEvent::ConnectFailed("refused".to_string()),
    );
    assert_eq!(a, SessionAction::StopBrowser);
    let (s, a) = run(s, SessionEvent::BrowserStopped);
    assert_eq!(a, SessionAction::ReleaseSlot);
    match s {
        SessionState::Over(SessionEnd::Failed(e)) => assert_eq!(
            e.message(),
            "failed to start Chromium: CDP connect failed: refused"
        ),
        _ => panic!(),
    }
}

#[test]
fn stray_events_change_nothing() {
    let (s, a) = run(SessionState::Active, SessionEvent::SlotGranted);
    assert!(matches!(s, SessionState::Active));
    assert_eq!(a, SessionAction::Wait);
    let over = SessionState::Over(SessionEnd::Closed(CloseReason::ClientError));
    let (s, a) = run(over, SessionEvent::BrowserStopped);
    assert_eq!(a, SessionAction::Wait);
    assert!(matches!(
        s,
        SessionState::Over(SessionEnd::Closed(CloseReason::ClientError))
    ));
}

#[test]
fn dropped_session_is_cleaned_up() {
    let table = [
        (SessionState::Queued, false, false),
        (SessionState::Starting, false, true),
        (SessionState::Connecting, true, true),
        (SessionState::Active, true, true),
        (
            SessionState::Closing(SessionEnd::Closed(CloseReason::ClientError)),
            true,
            true,
        ),
    ];
    for (stage, stop_browser, release_slot) in table {
        let (stage, action) = run(stage, SessionEvent::Dropped);
        assert_eq!(action, SessionAction::CleanUp { stop_browser, release_slot });
        assert!(matches!(stage, SessionState::Over(SessionEnd::Dropped)));
        let (stage, action) = run(stage, SessionEvent::Dropped);
        assert_eq!(action, SessionAction::Wait);
        assert!(matches!(stage, SessionState::Over(SessionEnd::Dropped)));
    }
}

#[test]
fn drop_after_the_end_changes_nothing() {
    let over = SessionState::Over(SessionEnd::Failed(GatewayError::QueueFull));
    let (stage, action) = run(over, SessionEvent::Dropped);
    assert_eq!(action, SessionAction::Wait);
    assert!(matches!(stage, SessionState::Over(SessionEnd::Failed(GatewayError::QueueFull))));
}
