use pinokio::chromium::{
    devtools_endpoint, identify, split_version_output, version, version_args, version_text,
    wait_for_devtools_endpoint, ChildStatus, Chromium, LaunchEvent, LaunchState, ShutdownStep,
    StartupStep,
};
use pinokio::config::{BrowserEngine, Config, Environment, IpAddress, Probe};
use pinokio::errors::GatewayError;

fn config() -> Config {
    let env = Environment {
        host: None,
        port: None,
        token: None,
        max_concurrent_sessions: None,
        max_queue_length: None,
        browser_archive_url: None,
        browser_archive_sha256: None,
        chrome_path: Some("/opt/chrome".to_string()),
        chrome_extra_args: None,
        language: None,
        connection_timeout_ms: None,
        queue_timeout_ms: None,
        chrome_startup_timeout_ms: None,
        shutdown_grace_period_ms: None,
        chrome_headless: None,
        chrome_no_sandbox: None,
        chrome_disable_dev_shm_usage: None,
    };
    let probe = Probe {
        host: Some(IpAddress::V4([127, 0, 0, 1])),
        chrome_path_is_file: true,
        custom_is_file: false,
        bundled_is_file: false,
    };
    Config::from_env(&env, &probe).unwrap_or_else(|e| panic!("{}", e.message()))
}

fn split(output: &str) -> (Option<String>, Option<String>) {
    split_version_output(output)
}

fn some(s: &str) -> Option<String> {
    Some(s.to_string())
}

#[test]
fn version_outputs() {
    assert_eq!(
        split("Google Chrome 146.0.7680.177"),
        (some("Google Chrome"), some("146.0.7680.177"))
    );
    assert_eq!(
        split("Chromium 146.0.7680.177 built on Debian GNU/Linux 13 (trixie)"),
        (some("Chromium"), some("146.0.7680.177"))
    );
    assert_eq!(split(" 1.2 x"), (None, some("1.2")));
    assert_eq!(split("Brave  Browser\t"), (some("Brave Browser"), None));
    assert_eq!(split("A .5 5. 6"), (some("A .5"), some("5.")));
    assert_eq!(split("A 146 1.x"), (some("A 146 1.x"), None));
    assert_eq!(split("  "), (None, None));
}

#[test]
fn browser_identity() {
    let c = config();
    let info = identify(&c, Some("Chromium 1.2.3"), some("ab"));
    assert_eq!(info.engine, BrowserEngine::Custom);
    assert_eq!(info.name, some("Chromium"));
    assert_eq!(info.version, some("1.2.3"));
    assert_eq!(info.sha256, some("ab"));
    assert_eq!(info.path, "/opt/chrome");
    let info = identify(&c, None, None);
    assert_eq!((info.name, info.version, info.sha256), (None, None, None));
}

#[test]
fn version_queries() {
    let mut c = config();
    assert_eq!(version_args(&c), ["--no-sandbox", "--version"]);
    c.chrome_no_sandbox = false;
    assert_eq!(version_args(&c), ["--version"]);
    assert_eq!(version_text(true, " Chromium 1.2 \n"), some("Chromium 1.2"));
    assert_eq!(version_text(false, "Chromium 1.2"), None);
    assert_eq!(version_text(true, " \n"), None);
    assert_eq!(version(true, b" Chromium 1.2\n"), some("Chromium 1.2"));
    assert_eq!(version(true, b"Chr\xffm\n"), some("Chr\u{fffd}m"));
    assert_eq!(version(true, "Chromé".as_bytes()), some("Chromé"));
    assert_eq!(version(false, b"Chromium"), None);
    assert_eq!(version(true, b"\n"), None);
}

#[test]
fn published_endpoints() {
    assert_eq!(
        devtools_endpoint("9222\n/devtools/browser/abc"),
        some("ws://127.0.0.1:9222/devtools/browser/abc")
    );
    assert_eq!(
        devtools_endpoint(" 9222 \r\n /devtools/browser/abc \r\nrest"),
        some("ws://127.0.0.1:9222/devtools/browser/abc")
    );
    for contents in ["", "9222", "9222\n", "0\n/x", "65536\n/x", "x\n/x", "9222\nx", "\n9222\n/x"] {
        assert_eq!(devtools_endpoint(contents), None, "{:?}", contents);
    }
}

#[test]
fn startup_looks() {
    let ready = "9222\n/x";
    match wait_for_devtools_endpoint(ChildStatus::Running, Some(ready), true) {
        StartupStep::Ready(url) => assert_eq!(url, "ws://127.0.0.1:9222/x"),
        _ => panic!(),
    }
    assert!(matches!(
        wait_for_devtools_endpoint(ChildStatus::Running, Some("9222"), false),
        StartupStep::Wait
    ));
    assert!(matches!(
        wait_for_devtools_endpoint(ChildStatus::Running, None, true),
        StartupStep::Fail(GatewayError::ChromiumStartupTimeout)
    ));
    let exited = ChildStatus::Exited("exit status: 1".to_string());
    match wait_for_devtools_endpoint(exited, Some(ready), false) {
        StartupStep::Fail(e) => assert_eq!(
            e.message(),
            "failed to start Chromium: chromium exited during startup with exit status: 1"
        ),
        _ => panic!(),
    }
    let unknown = ChildStatus::Unknown("no child".to_string());
    match wait_for_devtools_endpoint(unknown, None, true) {
        StartupStep::Fail(e) => {
            assert_eq!(e.message(), "failed to start Chromium: wait failed: no child")
        }
        _ => panic!(),
    }
}

fn teardown(chromium: &mut Chromium, running: bool, exits: bool) -> Vec<ShutdownStep> {
    let mut steps = Vec::new();
    let mut step = chromium.shutdown();
    while step != ShutdownStep::Done {
        steps.push(step);
        let outcome = if step == ShutdownStep::Probe { running } else { exits };
        step = chromium.shutdown_next(step, outcome);
    }
    steps
}

#[test]
fn teardowns() {
    let mut c = Chromium::new("ws://127.0.0.1:1/x".to_string());
    assert_eq!(
        teardown(&mut c, false, false),
        [ShutdownStep::Probe, ShutdownStep::Sweep, ShutdownStep::RemoveProfile]
    );
    assert!(!c.has_profile);
    assert_eq!(c.ws_url, "ws://127.0.0.1:1/x");
    assert_eq!(teardown(&mut c, true, true), []);

    let mut c = Chromium::new(String::new());
    assert_eq!(
        teardown(&mut c, true, true),
        [
            ShutdownStep::Probe,
            ShutdownStep::Terminate,
            ShutdownStep::AwaitExit,
            ShutdownStep::Sweep,
            ShutdownStep::RemoveProfile,
        ]
    );
    let mut c = Chromium::new(String::new());
    assert_eq!(
        teardown(&mut c, true, false),
        [
            ShutdownStep::Probe,
            ShutdownStep::Terminate,
            ShutdownStep::AwaitExit,
            ShutdownStep::Kill,
            ShutdownStep::Reap,
            ShutdownStep::Sweep,
            ShutdownStep::RemoveProfile,
        ]
    );
}

fn look(status: ChildStatus, contents: Option<&str>, deadline_passed: bool) -> LaunchEvent<'_> {
    LaunchEvent::Looked { status, contents, deadline_passed }
}

#[test]
fn launch_becomes_ready() {
    let mut c = Chromium::new(String::new());
    let state = c.launch_next(LaunchState::Starting, look(ChildStatus::Running, None, false));
    assert!(matches!(state, LaunchState::Starting));
    let state = c.launch_next(state, LaunchEvent::Performed(true));
    assert!(matches!(state, LaunchState::Starting));
    let state = c.launch_next(state, look(ChildStatus::Running, Some("9222\n/x"), false));
    assert!(matches!(&state, LaunchState::Ready(url) if url == "ws://127.0.0.1:9222/x"));
    assert_eq!(c.ws_url, "ws://127.0.0.1:9222/x");
    assert!(c.has_profile);
    let state = c.launch_next(state, look(ChildStatus::Running, Some("1\n/y"), false));
    assert!(matches!(&state, LaunchState::Ready(url) if url == "ws://127.0.0.1:9222/x"));
    assert_eq!(c.ws_url, "ws://127.0.0.1:9222/x");
}

#[test]
fn failed_launch_tears_down_before_it_answers() {
    let mut c = Chromium::new(String::new());
    let mut state = c.launch_next(LaunchState::Starting, look(ChildStatus::Running, None, true));
    let mut steps = Vec::new();
    while let LaunchState::Stopping { step, error } = state {
        assert!(c.has_profile);
        assert!(matches!(error, GatewayError::ChromiumStartupTimeout));
        steps.push(step);
        let outcome = step == ShutdownStep::Probe;
        let stopping = LaunchState::Stopping { step, error };
        state = c.launch_next(stopping, LaunchEvent::Performed(outcome));
    }
    assert_eq!(
        steps,
        [
            ShutdownStep::Probe,
            ShutdownStep::Terminate,
            ShutdownStep::AwaitExit,
            ShutdownStep::Kill,
            ShutdownStep::Reap,
            ShutdownStep::Sweep,
            ShutdownStep::RemoveProfile,
        ]
    );
    assert!(matches!(state, LaunchState::Failed(GatewayError::ChromiumStartupTimeout)));
    assert!(!c.has_profile);
}

#[test]
fn exited_browser_is_swept_before_the_error() {
    let mut c = Chromium::new(String::new());
    let exited = ChildStatus::Exited("signal: 9".to_string());
    let state = c.launch_next(LaunchState::Starting, look(exited, None, false));
    assert!(matches!(&state, LaunchState::Stopping { step: ShutdownStep::Probe, .. }));
    let state = c.launch_next(state, LaunchEvent::Performed(false));
    assert!(matches!(&state, LaunchState::Stopping { step: ShutdownStep::Sweep, .. }));
    let state = c.launch_next(state, LaunchEvent::Performed(true));
    let state = c.launch_next(state, LaunchEvent::Performed(true));
    match state {
        LaunchState::Failed(e) => assert_eq!(
            e.message(),
            "failed to start Chromium: chromium exited during startup with signal: 9"
        ),
        _ => panic!(),
    }
}
