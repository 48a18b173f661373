use axum::http::header::AUTHORIZATION;
use axum::http::{HeaderMap, HeaderValue};
use pinokio::chromium::BrowserInfo;
use pinokio::config::BrowserEngine;
use pinokio::errors::GatewayError;
use pinokio::launch::LaunchOptions;
use pinokio::queue::Gate;
use pinokio::server::{
    check_admission, launch_options, ready, status, LaunchParameter, Readiness, StatusReport,
};

#[test]
fn readiness_of_the_server() {
    let mut gate = Gate::new(1, 0);
    assert_eq!(ready(false, true, &gate), Readiness::Ready);
    assert_eq!(ready(false, false, &gate), Readiness::BrowserPending);
    assert_eq!(ready(true, true, &gate), Readiness::ShuttingDown);
    gate.acquire(1);
    assert_eq!(ready(false, true, &gate), Readiness::AtCapacity);
    assert_eq!(ready(false, false, &gate), Readiness::BrowserPending);
    assert_eq!(ready(true, false, &gate), Readiness::ShuttingDown);
}

#[test]
fn readiness_answers() {
    let table = [
        (Readiness::Ready, 200, None),
        (Readiness::ShuttingDown, 503, Some("shutting_down")),
        (Readiness::BrowserPending, 503, Some("browser_pending")),
        (Readiness::AtCapacity, 503, Some("at_capacity")),
    ];
    for (readiness, code, reason) in table {
        assert_eq!(readiness.status_code(), code);
        assert_eq!(readiness.reason(), reason);
    }
}

fn counters(report: &StatusReport) -> [usize; 4] {
    [
        report.active_sessions,
        report.max_concurrent_sessions,
        report.queued_sessions,
        report.max_queue_length,
    ]
}

#[test]
fn status_is_protected() {
    let mut gate = Gate::new(2, 3);
    for id in 0..4 {
        gate.acquire(id);
    }
    let mut headers = HeaderMap::new();
    let report = status(&gate, None, None, None, &headers).unwrap();
    assert_eq!(counters(&report), [2, 2, 2, 3]);
    let report = status(&gate, None, Some("t"), Some("t"), &headers).unwrap();
    assert_eq!(counters(&report), [2, 2, 2, 3]);
    assert!(matches!(
        status(&gate, None, Some("t"), None, &headers),
        Err(GatewayError::Unauthorized)
    ));
    headers.insert(AUTHORIZATION, HeaderValue::from_static("Bearer t"));
    let report = status(&gate, None, Some("t"), None, &headers).unwrap();
    assert_eq!(counters(&report), [2, 2, 2, 3]);
}

#[test]
fn status_names_the_browser() {
    let gate = Gate::new(1, 1);
    let headers = HeaderMap::new();
    let info = BrowserInfo {
        engine: BrowserEngine::Chromium,
        name: Some("Chromium".to_string()),
        version: Some("146.0.7680.177".to_string()),
        sha256: None,
        path: "/usr/bin/chromium".to_string(),
    };
    let report = status(&gate, Some(&info), None, None, &headers).unwrap();
    let shown = report.browser.unwrap();
    assert_eq!(shown.engine, BrowserEngine::Chromium);
    assert_eq!(shown.version.as_deref(), Some("146.0.7680.177"));
    assert_eq!(shown.path, "/usr/bin/chromium");
    assert!(status(&gate, None, None, None, &headers).unwrap().browser.is_none());
    assert!(status(&gate, Some(&info), Some("t"), None, &headers).is_err());
}

#[test]
fn admission_order() {
    let headers = HeaderMap::new();
    assert!(check_admission(None, None, &headers, false, true).is_ok());
    assert!(matches!(
        check_admission(Some("t"), Some("u"), &headers, true, false),
        Err(GatewayError::Unauthorized)
    ));
    assert!(matches!(
        check_admission(Some("t"), Some("t"), &headers, true, false),
        Err(GatewayError::ShuttingDown)
    ));
    match check_admission(Some("t"), Some("t"), &headers, false, false) {
        Err(e) => {
            assert_eq!(e.status_code(), 503);
            assert_eq!(e.message(), "failed to start Chromium: browser is not ready");
        }
        Ok(()) => panic!(),
    }
}

#[test]
fn ready_server_admits() {
    let mut gate = Gate::new(1, 1);
    let headers = HeaderMap::new();
    for id in 0..2 {
        assert_eq!(ready(false, true, &gate), Readiness::Ready);
        assert!(check_admission(None, None, &headers, false, true).is_ok());
        assert!(gate.acquire(id).refusal().is_none());
    }
    assert_eq!(ready(false, true, &gate), Readiness::AtCapacity);
    assert!(gate.acquire(9).refusal().is_some());
}

#[test]
fn launch_parameters() {
    let absent = launch_options(LaunchParameter::Absent).unwrap();
    assert!(absent.user_agent.is_none());
    match launch_options(LaunchParameter::Malformed("expected value".to_string())) {
        Err(e) => {
            assert_eq!(e.status_code(), 400);
            assert_eq!(e.message(), "invalid launch options: expected value");
        }
        Ok(_) => panic!(),
    }
    let with = |s: &str| {
        LaunchParameter::Parsed(LaunchOptions {
            user_agent: Some(s.to_string()),
            ..LaunchOptions::default()
        })
    };
    let options = launch_options(with("Agent")).unwrap();
    assert_eq!(options.user_agent.as_deref(), Some("Agent"));
    assert!(matches!(
        launch_options(with(" ")),
        Err(GatewayError::InvalidLaunchOptions(_))
    ));
}
