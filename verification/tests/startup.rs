use pinokio::config::{BrowserArchive, BrowserEngine, Config, Environment, IpAddress, Probe};
use pinokio::startup::{archive_to_install, exits_with_success, Preparation, DRAIN_MARGIN};

fn config() -> Config {
    let env = Environment {
        host: None,
        port: None,
        token: None,
        max_concurrent_sessions: None,
        max_queue_length: None,
        browser_archive_url: None,
        browser_archive_sha256: None,
        chrome_path: None,
        chrome_extra_args: None,
        language: None,
        connection_timeout_ms: None,
        queue_timeout_ms: None,
        chrome_startup_timeout_ms: None,
        shutdown_grace_period_ms: None,
        chrome_headless: None,
        chrome_no_sandbox: None,
        chrome_disable_dev_shm_usage: None,
    };
    let probe = Probe {
        host: Some(IpAddress::V6([0; 16])),
        chrome_path_is_file: false,
        custom_is_file: false,
        bundled_is_file: true,
    };
    Config::from_env(&env, &probe).unwrap_or_else(|e| panic!("{}", e.message()))
}

#[test]
fn only_the_launched_archive_is_installed() {
    let mut c = config();
    assert!(archive_to_install(&c).is_none());
    assert_eq!(Preparation::prepare_browser(&c), Preparation::CheckBinary);
    c.browser_archive = Some(BrowserArchive { url: "https://x/y".to_string(), sha256: None });
    c.browser_engine = BrowserEngine::Custom;
    assert!(archive_to_install(&c).is_none());
    assert_eq!(Preparation::prepare_browser(&c), Preparation::CheckBinary);
    c.browser_engine = BrowserEngine::Downloaded;
    assert_eq!(archive_to_install(&c).unwrap_or_else(|| panic!()).url, "https://x/y");
    assert_eq!(Preparation::prepare_browser(&c), Preparation::Install);
}

#[test]
fn preparation_steps() {
    assert_eq!(Preparation::Install.advance(true), Preparation::CheckBinary);
    assert_eq!(Preparation::Install.advance(false), Preparation::Fail);
    assert_eq!(Preparation::CheckBinary.advance(true), Preparation::Identify);
    assert_eq!(Preparation::CheckBinary.advance(false), Preparation::Fail);
    assert_eq!(Preparation::Fail.advance(true), Preparation::Fail);
    assert_eq!(Preparation::Identify.advance(false), Preparation::Identify);
}

#[test]
fn exit_codes() {
    for served in [false, true] {
        for drained in [false, true] {
            for startup_failed in [false, true] {
                assert_eq!(
                    exits_with_success(served, drained, startup_failed),
                    served && drained && !startup_failed
                );
            }
        }
    }
    assert_eq!(DRAIN_MARGIN, 10_000);
}
