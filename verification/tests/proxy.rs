use axum::extract::ws::Utf8Bytes as ClientText;
use bytes::Bytes;
use pinokio::proxy::{
    client_to_upstream, closing_messages, run, upstream_to_client, ClientCloseFrame, ClientMessage, CloseReason,
    RelayAction, RelayEvent, RelayState, UpstreamCloseFrame, UpstreamMessage, MAX_FRAME_SIZE,
    MAX_MESSAGE_SIZE,
};
use tokio_tungstenite::tungstenite::Utf8Bytes as UpstreamText;

#[test]
fn size_limits() {
    assert_eq!(MAX_FRAME_SIZE, 16_777_216);
    assert_eq!(MAX_MESSAGE_SIZE, 67_108_864);
}

#[test]
fn client_messages_pass_unchanged() {
    let text = ClientMessage::Text(ClientText::from("{\"id\":1,\"é\":2}"));
    match client_to_upstream(text) {
        UpstreamMessage::Text(t) => assert_eq!(t.as_str(), "{\"id\":1,\"é\":2}"),
        _ => panic!(),
    }
    match client_to_upstream(ClientMessage::Binary(Bytes::from_static(b"\xff\x00"))) {
        UpstreamMessage::Binary(b) => assert_eq!(&b[..], b"\xff\x00"),
        _ => panic!(),
    }
    match client_to_upstream(ClientMessage::Ping(Bytes::from_static(b"p"))) {
        UpstreamMessage::Ping(b) => assert_eq!(&b[..], b"p"),
        _ => panic!(),
    }
    match client_to_upstream(ClientMessage::Pong(Bytes::from_static(b"q"))) {
        UpstreamMessage::Pong(b) => assert_eq!(&b[..], b"q"),
        _ => panic!(),
    }
    let close = ClientMessage::Close(Some(ClientCloseFrame {
        code: 4001,
        reason: ClientText::from("bye"),
    }));
    match client_to_upstream(close) {
        UpstreamMessage::Close(Some(f)) => {
            assert_eq!(f.code, 4001);
            assert_eq!(f.reason.as_str(), "bye");
        }
        _ => panic!(),
    }
    assert!(matches!(
        client_to_upstream(ClientMessage::Close(None)),
        UpstreamMessage::Close(None)
    ));
}

#[test]
fn upstream_messages_pass_unchanged() {
    match upstream_to_client(UpstreamMessage::Text(UpstreamText::from("été"))) {
        Some(ClientMessage::Text(t)) => assert_eq!(t.as_str(), "été"),
        _ => panic!(),
    }
    match upstream_to_client(UpstreamMessage::Binary(Bytes::from_static(b"b"))) {
        Some(ClientMessage::Binary(b)) => assert_eq!(&b[..], b"b"),
        _ => panic!(),
    }
    match upstream_to_client(UpstreamMessage::Ping(Bytes::from_static(b"p"))) {
        Some(ClientMessage::Ping(b)) => assert_eq!(&b[..], b"p"),
        _ => panic!(),
    }
    match upstream_to_client(UpstreamMessage::Pong(Bytes::from_static(b"q"))) {
        Some(ClientMessage::Pong(b)) => assert_eq!(&b[..], b"q"),
        _ => panic!(),
    }
    let close = UpstreamMessage::Close(Some(UpstreamCloseFrame {
        code: 1001,
        reason: UpstreamText::from("away"),
    }));
    match upstream_to_client(close) {
        Some(ClientMessage::Close(Some(f))) => {
            assert_eq!(f.code, 1001);
            assert_eq!(f.reason.as_str(), "away");
        }
        _ => panic!(),
    }
    assert!(matches!(
        upstream_to_client(UpstreamMessage::Close(None)),
        Some(ClientMessage::Close(None))
    ));
    assert!(upstream_to_client(UpstreamMessage::Frame).is_none());
}

#[test]
fn reasons_and_codes() {
    let table = [
        (CloseReason::ClientDisconnected, "client_disconnected", None),
        (CloseReason::ClientError, "client_error", None),
        (CloseReason::ChromiumClosed, "chromium_closed", Some(1000)),
        (CloseReason::ChromiumError, "chromium_error", Some(1011)),
        (CloseReason::SessionTimeout, "session_timeout", Some(1001)),
        (CloseReason::ServerShutdown, "server_shutdown", Some(1001)),
    ];
    for (reason, name, code) in table {
        assert_eq!(reason.as_str(), name);
        assert_eq!(reason.close_code(), code);
    }
}

#[test]
fn relay_passes_messages_on_one_at_a_time() {
    let message = ClientMessage::Text(ClientText::from("a"));
    let (state, action) = run(RelayState::Listening, RelayEvent::FromClient(message));
    assert_eq!(state, RelayState::ToUpstream { closing: false });
    assert!(matches!(
        action,
        RelayAction::SendUpstream(UpstreamMessage::Text(t)) if t.as_str() == "a"
    ));
    let (state, action) = run(state, RelayEvent::TimedOut);
    assert_eq!(state, RelayState::ToUpstream { closing: false });
    assert!(matches!(action, RelayAction::Listen));
    let (state, action) = run(state, RelayEvent::Sent(true));
    assert_eq!(state, RelayState::Listening);
    assert!(matches!(action, RelayAction::Listen));

    let message = UpstreamMessage::Text(UpstreamText::from("b"));
    let (state, action) = run(state, RelayEvent::FromUpstream(message));
    assert_eq!(state, RelayState::ToClient { closing: false });
    assert!(matches!(
        action,
        RelayAction::SendClient(ClientMessage::Text(t)) if t.as_str() == "b"
    ));
    let (state, _) = run(state, RelayEvent::Sent(true));
    assert_eq!(state, RelayState::Listening);
    let (state, action) = run(state, RelayEvent::FromUpstream(UpstreamMessage::Frame));
    assert_eq!(state, RelayState::Listening);
    assert!(matches!(action, RelayAction::Listen));
}

#[test]
fn relay_ends_for_the_reason_of_the_event() {
    let table = [
        (RelayEvent::ClientFailed, CloseReason::ClientError),
        (RelayEvent::ClientEnded, CloseReason::ClientDisconnected),
        (RelayEvent::UpstreamFailed, CloseReason::ChromiumError),
        (RelayEvent::UpstreamEnded, CloseReason::ChromiumClosed),
        (RelayEvent::TimedOut, CloseReason::SessionTimeout),
        (RelayEvent::Cancelled, CloseReason::ServerShutdown),
    ];
    for (event, reason) in table {
        let (state, action) = run(RelayState::Listening, event);
        assert_eq!(state, RelayState::Ended(reason));
        assert!(matches!(action, RelayAction::Finish(r) if r == reason));
        let (state, action) = run(state, RelayEvent::FromClient(ClientMessage::Close(None)));
        assert_eq!(state, RelayState::Ended(reason));
        assert!(matches!(action, RelayAction::Finish(r) if r == reason));
    }
}

#[test]
fn sending_can_end_the_relay() {
    let table = [
        (RelayState::ToUpstream { closing: false }, false, CloseReason::ChromiumError),
        (RelayState::ToUpstream { closing: true }, false, CloseReason::ChromiumError),
        (RelayState::ToUpstream { closing: true }, true, CloseReason::ClientDisconnected),
        (RelayState::ToClient { closing: false }, false, CloseReason::ClientDisconnected),
        (RelayState::ToClient { closing: true }, false, CloseReason::ClientDisconnected),
        (RelayState::ToClient { closing: true }, true, CloseReason::ChromiumClosed),
    ];
    for (state, ok, reason) in table {
        let (state, action) = run(state, RelayEvent::Sent(ok));
        assert_eq!(state, RelayState::Ended(reason));
        assert!(matches!(action, RelayAction::Finish(r) if r == reason));
    }
}

#[test]
fn close_messages_are_passed_on_before_the_end() {
    let (state, action) = run(
        RelayState::Listening,
        RelayEvent::FromClient(ClientMessage::Close(None)),
    );
    assert_eq!(state, RelayState::ToUpstream { closing: true });
    assert!(matches!(action, RelayAction::SendUpstream(UpstreamMessage::Close(None))));
    let (state, action) = run(
        RelayState::Listening,
        RelayEvent::FromUpstream(UpstreamMessage::Close(None)),
    );
    assert_eq!(state, RelayState::ToClient { closing: true });
    assert!(matches!(action, RelayAction::SendClient(ClientMessage::Close(None))));
}

#[test]
fn both_sides_are_closed() {
    let (to_client, to_upstream) = closing_messages(CloseReason::SessionTimeout);
    match to_client {
        Some(ClientMessage::Close(Some(f))) => {
            assert_eq!(f.code, 1001);
            assert_eq!(f.reason.as_str(), "session_timeout");
        }
        _ => panic!(),
    }
    assert!(matches!(to_upstream, UpstreamMessage::Close(None)));
    let (to_client, to_upstream) = closing_messages(CloseReason::ClientError);
    assert!(to_client.is_none());
    assert!(matches!(to_upstream, UpstreamMessage::Close(None)));
}
