use pinokio::config::{
    chosen_filter, env_bool, env_duration_ms, env_given, env_parse, env_str, host_text, invalid, log_filter,
    log_level, BrowserEngine, Config,
    ConfigError, Environment, IpAddress, Probe,
};

fn unset() -> Environment {
    Environment {
        host: None,
        port: None,
        token: None,
        max_concurrent_sessions: None,
        max_queue_length: None,
        browser_archive_url: None,
        browser_archive_sha256: None,
        chrome_path: None,
        chrome_extra_args: None,
        language: None,
        connection_timeout_ms: None,
        queue_timeout_ms: None,
        chrome_startup_timeout_ms: None,
        shutdown_grace_period_ms: None,
        chrome_headless: None,
        chrome_no_sandbox: None,
        chrome_disable_dev_shm_usage: None,
    }
}

fn bundled() -> Probe {
    Probe {
        host: Some(IpAddress::V4([0, 0, 0, 0])),
        chrome_path_is_file: false,
        custom_is_file: false,
        bundled_is_file: true,
    }
}

fn set(s: &str) -> Option<String> {
    Some(s.to_string())
}

fn fault(env: &Environment, probe: &Probe) -> (String, String) {
    match Config::from_env(env, probe) {
        Ok(_) => panic!("accepted"),
        Err(ConfigError::Invalid { name, reason }) => (name.to_string(), reason),
    }
}

#[test]
fn defaults() {
    let c = Config::from_env(&unset(), &bundled()).unwrap_or_else(|e| panic!("{}", e.message()));
    assert!(matches!(c.host, IpAddress::V4([0, 0, 0, 0])));
    assert_eq!(c.port, 3000);
    assert_eq!(c.token, None);
    assert_eq!(c.max_concurrent_sessions, 10);
    assert_eq!(c.max_queue_length, 20);
    assert_eq!(c.connection_timeout, 600_000);
    assert_eq!(c.queue_timeout, 600_000);
    assert_eq!(c.chrome_startup_timeout, 15_000);
    assert_eq!(c.shutdown_grace_period, 10_000);
    assert_eq!(c.browser_engine, BrowserEngine::Chromium);
    assert_eq!(c.chrome_path, "/usr/bin/chromium");
    assert!(c.browser_archive.is_none());
    assert_eq!(c.browser_archive_root, "/opt/browsers");
    assert!(c.chrome_headless);
    assert!(c.chrome_no_sandbox);
    assert!(c.chrome_disable_dev_shm_usage);
    assert!(c.chrome_extra_args.is_empty());
    assert_eq!(c.language, None);
}

#[test]
fn values_of_the_environment() {
    let mut env = unset();
    env.port = set(" 8080 ");
    env.token = set("  secret\n");
    env.max_concurrent_sessions = set("3");
    env.max_queue_length = set("0");
    env.chrome_extra_args = set(" --disable-gpu  --window-size=800,600 ");
    env.language = set("fr-FR ");
    env.connection_timeout_ms = set("1");
    env.queue_timeout_ms = set("2");
    env.chrome_startup_timeout_ms = set("3");
    env.shutdown_grace_period_ms = set("18446744073709551615");
    env.chrome_headless = set("NO");
    env.chrome_no_sandbox = set("0");
    env.chrome_disable_dev_shm_usage = set("Yes");
    let c = Config::from_env(&env, &bundled()).unwrap_or_else(|e| panic!("{}", e.message()));
    assert_eq!(c.port, 8080);
    assert_eq!(c.token.as_deref(), Some("secret"));
    assert_eq!(c.max_concurrent_sessions, 3);
    assert_eq!(c.max_queue_length, 0);
    assert_eq!(c.chrome_extra_args, ["--disable-gpu", "--window-size=800,600"]);
    assert_eq!(c.language.as_deref(), Some("fr-FR"));
    assert_eq!(c.connection_timeout, 1);
    assert_eq!(c.queue_timeout, 2);
    assert_eq!(c.chrome_startup_timeout, 3);
    assert_eq!(c.shutdown_grace_period, u64::MAX);
    assert!(!c.chrome_headless);
    assert!(!c.chrome_no_sandbox);
    assert!(c.chrome_disable_dev_shm_usage);
}

#[test]
fn invalid_values_are_refused() {
    let mut probe = bundled();
    probe.host = None;
    assert_eq!(fault(&unset(), &probe), ("HOST".into(), "expected an IP address".into()));

    let number = "invalid digit found in string".to_string();
    let large = "number too large to fit in target type".to_string();

    let mut env = unset();
    env.port = set("http");
    assert_eq!(fault(&env, &bundled()), ("PORT".into(), number.clone()));
    env.port = set("65536");
    assert_eq!(fault(&env, &bundled()), ("PORT".into(), large.clone()));
    env.port = set("0");
    assert_eq!(fault(&env, &bundled()), ("PORT".into(), "must be between 1 and 65535".into()));

    let mut env = unset();
    env.max_concurrent_sessions = set("0");
    assert_eq!(
        fault(&env, &bundled()),
        ("MAX_CONCURRENT_SESSIONS".into(), "must be at least 1".into())
    );

    let mut env = unset();
    env.max_queue_length = set("-1");
    assert_eq!(fault(&env, &bundled()), ("MAX_QUEUE_LENGTH".into(), number));

    let mut env = unset();
    env.queue_timeout_ms = set("0");
    assert_eq!(
        fault(&env, &bundled()),
        ("QUEUE_TIMEOUT_MS".into(), "must be greater than 0".into())
    );
    env.connection_timeout_ms = set("99999999999999999999");
    assert_eq!(fault(&env, &bundled()), ("CONNECTION_TIMEOUT_MS".into(), large));

    let mut env = unset();
    env.chrome_startup_timeout_ms = set("0");
    assert_eq!(fault(&env, &bundled()).0, "CHROME_STARTUP_TIMEOUT_MS");
    let mut env = unset();
    env.shutdown_grace_period_ms = set("soon");
    assert_eq!(fault(&env, &bundled()).0, "SHUTDOWN_GRACE_PERIOD_MS");
}

#[test]
fn switches_that_name_no_position() {
    let mut env = unset();
    env.chrome_headless = set(" Maybe ");
    assert_eq!(
        fault(&env, &bundled()),
        ("CHROME_HEADLESS".into(), "expected a boolean, got \"maybe\"".into())
    );
    env.chrome_headless = set("a\"b\n");
    assert_eq!(
        fault(&env, &bundled()),
        ("CHROME_HEADLESS".into(), "expected a boolean, got \"a\\\"b\"".into())
    );
    let mut env = unset();
    env.chrome_no_sandbox = set("on");
    assert_eq!(fault(&env, &bundled()).0, "CHROME_NO_SANDBOX");
    let mut env = unset();
    env.chrome_disable_dev_shm_usage = set("off");
    assert_eq!(fault(&env, &bundled()).0, "CHROME_DISABLE_DEV_SHM_USAGE");
}

#[test]
fn archive_variables() {
    let url = "https://example.com/chrome.tar.gz";
    let hash = "6D692200e90979b6bfa00a0f993fbe67f89ab99165fe8cdfcbcd7accca05ea63";
    let mut env = unset();
    env.browser_archive_url = set(" https://example.com/chrome.tar.gz ");
    env.browser_archive_sha256 = set(hash);
    let c = Config::from_env(&env, &bundled()).unwrap_or_else(|e| panic!("{}", e.message()));
    assert_eq!(c.browser_engine, BrowserEngine::Downloaded);
    assert_eq!(c.chrome_path, "/opt/browsers/6d692200e90979b6/chrome");
    let archive = c.browser_archive.unwrap_or_else(|| panic!());
    assert_eq!(archive.url, url);
    assert_eq!(archive.sha256, Some(hash.to_ascii_lowercase()));

    env.browser_archive_sha256 = set(&hash[1..]);
    assert_eq!(
        fault(&env, &bundled()),
        ("BROWSER_ARCHIVE_SHA256".into(), "expected 64 hexadecimal characters".into())
    );
    env.browser_archive_sha256 = set(&"g".repeat(64));
    assert_eq!(fault(&env, &bundled()).0, "BROWSER_ARCHIVE_SHA256");
    env.browser_archive_url = set("ftp://example.com/a.zip");
    assert_eq!(
        fault(&env, &bundled()),
        (
            "BROWSER_ARCHIVE_URL".into(),
            "expected an http(s) URL to a .tar.gz or .zip archive".into()
        )
    );
    env.browser_archive_url = set("  ");
    assert_eq!(
        fault(&env, &bundled()),
        ("BROWSER_ARCHIVE_URL".into(), "required with BROWSER_ARCHIVE_SHA256".into())
    );
}

#[test]
fn browser_precedence() {
    let mut env = unset();
    env.browser_archive_url = set("http://example.com/chrome.zip");
    let mut probe = bundled();
    probe.custom_is_file = true;
    let c = Config::from_env(&env, &probe).unwrap_or_else(|e| panic!("{}", e.message()));
    assert_eq!(c.browser_engine, BrowserEngine::Custom);
    assert_eq!(c.chrome_path, "/opt/browser/chrome");
    assert!(c.browser_archive.is_some());

    env.chrome_path = set(" /usr/bin/google-chrome ");
    assert_eq!(
        fault(&env, &probe),
        ("CHROME_PATH".into(), "/usr/bin/google-chrome is not an executable file".into())
    );
    probe.chrome_path_is_file = true;
    let c = Config::from_env(&env, &probe).unwrap_or_else(|e| panic!("{}", e.message()));
    assert_eq!(c.browser_engine, BrowserEngine::Custom);
    assert_eq!(c.chrome_path, "/usr/bin/google-chrome");

    let mut probe = bundled();
    probe.bundled_is_file = false;
    assert_eq!(
        fault(&unset(), &probe),
        ("CHROME_PATH".into(), "/usr/bin/chromium is not an executable file".into())
    );
}

#[test]
fn faults_come_in_order() {
    let mut env = unset();
    env.port = set("0");
    env.chrome_headless = set("x");
    env.connection_timeout_ms = set("0");
    let mut probe = bundled();
    probe.bundled_is_file = false;
    assert_eq!(fault(&env, &probe).0, "PORT");
    env.port = None;
    assert_eq!(fault(&env, &probe).0, "CHROME_PATH");
    probe.bundled_is_file = true;
    assert_eq!(fault(&env, &probe).0, "CONNECTION_TIMEOUT_MS");
    env.connection_timeout_ms = None;
    assert_eq!(fault(&env, &probe).0, "CHROME_HEADLESS");
}

#[test]
fn blank_token_disables_authentication() {
    let mut env = unset();
    env.token = set("   ");
    let c = Config::from_env(&env, &bundled()).unwrap_or_else(|e| panic!("{}", e.message()));
    assert!(pinokio::auth::is_token_accepted(c.token.as_deref(), None, None));
}

#[test]
fn single_variables() {
    assert_eq!(env_str(&None, "0.0.0.0"), "0.0.0.0");
    assert_eq!(env_str(&set(" ::1"), "0.0.0.0"), " ::1");
    assert_eq!(env_given(&set(" \t")), None);
    assert_eq!(env_given(&set(" a b ")).as_deref(), Some("a b"));
    assert!(matches!(env_parse("N", &set("+5"), 1, 9), Ok(5)));
    assert!(matches!(env_parse("N", &set(""), 1, 9), Ok(1)));
    assert!(matches!(env_bool("B", &set("TRUE"), false), Ok(true)));
    assert!(matches!(env_bool("B", &None, true), Ok(true)));
    assert!(matches!(env_duration_ms("D", &None, 7), Ok(7)));
    assert_eq!(invalid("X", "why").message(), "invalid value for X: why");
}

#[test]
fn engine_names() {
    assert_eq!(BrowserEngine::Chromium.as_str(), "chromium");
    assert_eq!(BrowserEngine::Downloaded.as_str(), "downloaded");
    assert_eq!(BrowserEngine::Custom.as_str(), "custom");
}

#[test]
fn bind_address_text() {
    let mut env = unset();
    assert_eq!(host_text(&env), "0.0.0.0");
    env.host = set(" ::1");
    assert_eq!(host_text(&env), " ::1");
}

#[test]
fn log_levels() {
    assert_eq!(log_filter(&None), "info");
    assert_eq!(log_filter(&set("debug")), "debug");
    assert!(matches!(log_level(&None), Ok(s) if s == "info"));
    for text in [
        "trace",
        "debug",
        "info",
        "warn",
        "error",
        "WARN",
        "pinokio",
        "",
        "warn,pinokio=debug",
        "é=info",
        " é",
        " info",
        "[span{field=1}]=trace",
    ] {
        assert!(matches!(log_level(&set(text)), Ok(s) if s == text), "{:?}", text);
    }
    for text in ["==", "pinokio=loud", "info,=", " é=info", "  é=info", "a, é=info", "!"] {
        match log_level(&set(text)) {
            Err(e) => assert_eq!(
                e.message(),
                "invalid value for LOG_LEVEL: expected a log level"
            ),
            Ok(_) => panic!("{:?}", text),
        }
    }
}

#[test]
fn log_filter_by_outcome() {
    assert!(matches!(chosen_filter(&None, true), Ok(s) if s == "info"));
    assert!(matches!(chosen_filter(&set("warn"), true), Ok(s) if s == "warn"));
    match chosen_filter(&set("warn"), false) {
        Err(ConfigError::Invalid { name, reason }) => {
            assert_eq!(name, "LOG_LEVEL");
            assert_eq!(reason, "expected a log level");
        }
        Ok(_) => panic!(),
    }
}
