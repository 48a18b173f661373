use pinokio::chromium::{
    default_user_agent, launch, LaunchFault, LaunchOptions, Viewport,
};
use pinokio::config::{Config, Environment, IpAddress, Probe};
use pinokio::errors::GatewayError;
use pinokio::launch::WINDOW_CHROME_HEIGHT;

fn config() -> Config {
    let env = Environment {
        host: None,
        port: None,
        token: None,
        max_concurrent_sessions: None,
        max_queue_length: None,
        browser_archive_url: None,
        browser_archive_sha256: None,
        chrome_path: None,
        chrome_extra_args: None,
        language: None,
        connection_timeout_ms: None,
        queue_timeout_ms: None,
        chrome_startup_timeout_ms: None,
        shutdown_grace_period_ms: None,
        chrome_headless: None,
        chrome_no_sandbox: None,
        chrome_disable_dev_shm_usage: None,
    };
    let probe = Probe {
        host: Some(IpAddress::V4([127, 0, 0, 1])),
        chrome_path_is_file: false,
        custom_is_file: false,
        bundled_is_file: true,
    };
    Config::from_env(&env, &probe).unwrap_or_else(|e| panic!("{}", e.message()))
}

fn refusal(options: LaunchOptions) -> String {
    match options.validate() {
        Err(GatewayError::InvalidLaunchOptions(reason)) => reason,
        Err(e) => panic!("{}", e.message()),
        Ok(_) => "accepted".to_string(),
    }
}

fn viewport(width: u32, height: u32) -> Viewport {
    Viewport { width, height }
}

#[test]
fn window_and_screen() {
    assert_eq!(WINDOW_CHROME_HEIGHT, 87);
    assert_eq!(viewport(1280, 720).window_size(), (1280, 807));
    assert_eq!(viewport(1280, 720).screen_size(), (1920, 1080));
    assert_eq!(viewport(1920, 993).screen_size(), (1920, 1080));
    assert_eq!(viewport(1920, 994).screen_size(), (2560, 1440));
    assert_eq!(viewport(1921, 100).screen_size(), (2560, 1440));
    assert_eq!(viewport(2561, 100).screen_size(), (3840, 2160));
    assert_eq!(viewport(100, 2074).screen_size(), (100, 2161));
    assert_eq!(viewport(7680, 4320).screen_size(), (7680, 4407));
}

#[test]
fn desktop_user_agents() {
    let agent = |major: &str| {
        format!(
            "Mozilla/5.0 (X11; Linux x86_64) AppleWebKit/537.36 (KHTML, like Gecko) Chrome/{}.0.0.0 Safari/537.36",
            major
        )
    };
    assert_eq!(default_user_agent(Some("146.0.7680.177")), agent("146"));
    assert_eq!(default_user_agent(Some("146")), agent("146"));
    assert_eq!(default_user_agent(Some("")), agent("0"));
    assert_eq!(default_user_agent(Some(".1")), agent("0"));
    assert_eq!(default_user_agent(Some("v146.0")), agent("0"));
    assert_eq!(default_user_agent(None), agent("0"));
}

#[test]
fn defaults_are_valid() {
    let o = LaunchOptions::default().validate().unwrap();
    assert!(o.proxy_server.is_none() && o.viewport.is_none() && o.user_agent.is_none());
}

#[test]
fn accept_language_is_checked() {
    let with = |s: &str| LaunchOptions {
        accept_language: Some(s.to_string()),
        ..LaunchOptions::default()
    };
    assert_eq!(refusal(with("fr-FR,fr")), "accepted");
    let reason = "acceptLanguage must be a comma-separated list of BCP 47 language tags";
    assert_eq!(refusal(with("")), reason);
    assert_eq!(refusal(with("***")), reason);
    assert_eq!(refusal(with(&"fr,".repeat(85))), "accepted");
    assert_eq!(refusal(with(&format!("{}fr", "fr,".repeat(85)))), reason);
}

#[test]
fn proxy_server_is_checked() {
    let with = |s: &str| LaunchOptions {
        proxy_server: Some(s.to_string()),
        ..LaunchOptions::default()
    };
    let reason = "proxyServer must be a valid HTTP, HTTPS, SOCKS4, or SOCKS5 URL";
    for s in ["http://p:8080", "https://p", "socks4://p", "socks5://p:1080"] {
        assert_eq!(refusal(with(s)), "accepted");
    }
    for s in ["", "p:8080", "ftp://p", "HTTP://p", "http://p\n", "http://p\u{85}"] {
        assert_eq!(refusal(with(s)), reason);
    }
    assert_eq!(refusal(with(&format!("http://{}", "a".repeat(2041)))), "accepted");
    assert_eq!(refusal(with(&format!("http://{}", "a".repeat(2042)))), reason);
    assert_eq!(refusal(with(&format!("http://{}", "é".repeat(1021)))), reason);
}

#[test]
fn proxy_bypass_list_is_checked() {
    let with = |s: &str| LaunchOptions {
        proxy_bypass_list: Some(s.to_string()),
        ..LaunchOptions::default()
    };
    let reason = "proxyBypassList contains invalid characters";
    assert_eq!(refusal(with("")), "accepted");
    assert_eq!(refusal(with("*.local;127.0.0.1")), "accepted");
    assert_eq!(refusal(with("a\tb")), reason);
    assert_eq!(refusal(with(&"a".repeat(2049))), reason);
}

#[test]
fn user_agent_is_checked() {
    let with = |s: &str| LaunchOptions {
        user_agent: Some(s.to_string()),
        ..LaunchOptions::default()
    };
    let reason = "userAgent must be printable ASCII of at most 512 characters";
    assert_eq!(refusal(with("Mozilla/5.0 ~")), "accepted");
    assert_eq!(refusal(with(&"a".repeat(512))), "accepted");
    for s in ["", "  ", "a\nb", "é", "\u{7f}"] {
        assert_eq!(refusal(with(s)), reason);
    }
    assert_eq!(refusal(with(&"a".repeat(513))), reason);
}

#[test]
fn viewport_is_checked() {
    let with = |width, height| LaunchOptions {
        viewport: Some(Viewport { width, height }),
        ..LaunchOptions::default()
    };
    let reason = "viewport width must be 100-7680 and height 100-4320";
    for (w, h) in [(100, 100), (7680, 4320)] {
        assert_eq!(refusal(with(w, h)), "accepted");
    }
    for (w, h) in [(99, 100), (100, 99), (7681, 100), (100, 4321), (0, 0)] {
        assert_eq!(refusal(with(w, h)), reason);
    }
}

#[test]
fn first_fault_counts() {
    let o = LaunchOptions {
        accept_language: Some("!".to_string()),
        proxy_server: Some("!".to_string()),
        proxy_bypass_list: Some("\n".to_string()),
        user_agent: Some("".to_string()),
        viewport: Some(viewport(0, 0)),
        disable_web_security: None,
    };
    assert_eq!(
        refusal(o),
        "acceptLanguage must be a comma-separated list of BCP 47 language tags"
    );
}

#[test]
fn default_command_line() {
    let command = launch(
        &config(),
        &LaunchOptions::default(),
        Some("146.0.7680.177"),
        "/tmp/pinokio-x",
    );
    assert_eq!(command.program, "/usr/bin/chromium");
    assert_eq!(command.language, None);
    assert_eq!(
        command.args,
        [
            "--headless=new",
            "--disable-blink-features=AutomationControlled",
            "--blink-settings=primaryPointerType=4,availablePointerTypes=4,primaryHoverType=2,availableHoverTypes=2",
            "--use-fake-device-for-media-stream",
            "--window-size=1280,807",
            "--screen-info={1920x1080}",
            "--user-agent=Mozilla/5.0 (X11; Linux x86_64) AppleWebKit/537.36 (KHTML, like Gecko) Chrome/146.0.0.0 Safari/537.36",
            "--remote-debugging-port=0",
            "--user-data-dir=/tmp/pinokio-x",
            "--no-first-run",
            "--no-default-browser-check",
            "--disable-background-networking",
            "--disable-component-update",
            "--disable-sync",
            "--metrics-recording-only",
            "--disable-default-apps",
            "--no-sandbox",
            "--disable-dev-shm-usage",
        ]
    );
}

#[test]
fn full_command_line() {
    let mut c = config();
    c.chrome_headless = false;
    c.chrome_no_sandbox = false;
    c.chrome_disable_dev_shm_usage = false;
    c.language = Some("en-US".to_string());
    c.chrome_extra_args = vec!["--mute-audio".to_string(), "--x=1".to_string()];
    let o = LaunchOptions {
        proxy_server: Some("socks5://p:1080".to_string()),
        proxy_bypass_list: Some("<local>".to_string()),
        disable_web_security: Some(true),
        accept_language: Some("fr-FR".to_string()),
        user_agent: Some("Agent".to_string()),
        viewport: Some(viewport(800, 600)),
    };
    let command = launch(&c, &o, None, "/d");
    assert_eq!(command.language.as_deref(), Some("fr-FR"));
    assert_eq!(
        command.args,
        [
            "--user-agent=Agent",
            "--remote-debugging-port=0",
            "--user-data-dir=/d",
            "--no-first-run",
            "--no-default-browser-check",
            "--disable-background-networking",
            "--disable-component-update",
            "--disable-sync",
            "--metrics-recording-only",
            "--disable-default-apps",
            "--lang=fr-FR",
            "--accept-lang=fr-FR,fr",
            "--proxy-server=socks5://p:1080",
            "--proxy-bypass-list=<local>",
            "--disable-web-security",
            "--mute-audio",
            "--x=1",
        ]
    );
}

#[test]
fn server_language_is_the_fallback() {
    let mut c = config();
    c.language = Some("de-DE:de".to_string());
    let command = launch(&c, &LaunchOptions::default(), None, "/d");
    assert_eq!(command.language.as_deref(), Some("de-DE"));
    assert!(command.args.contains(&"--lang=de-DE".to_string()));
    assert!(command.args.contains(&"--accept-lang=de-DE,de".to_string()));
    c.language = Some("C.UTF-8".to_string());
    let command = launch(&c, &LaunchOptions::default(), None, "/d");
    assert_eq!(command.language, None);
    assert!(!command.args.iter().any(|a| a.starts_with("--lang=")));
}

#[test]
fn web_security_stays_on_unless_asked() {
    for choice in [None, Some(false)] {
        let o = LaunchOptions {
            disable_web_security: choice,
            ..LaunchOptions::default()
        };
        let command = launch(&config(), &o, None, "/d");
        assert!(!command.args.contains(&"--disable-web-security".to_string()));
    }
}

#[test]
fn values_stay_behind_their_flags() {
    let o = LaunchOptions {
        proxy_server: Some("http://p --no-sandbox".to_string()),
        proxy_bypass_list: Some("--remote-debugging-address=0.0.0.0".to_string()),
        ..LaunchOptions::default()
    };
    let mut c = config();
    c.chrome_no_sandbox = false;
    let command = launch(&c, &o, None, "/d");
    assert!(!command.args.iter().any(|a| a == "--no-sandbox"));
    assert!(!command.args.iter().any(|a| a.starts_with("--remote-debugging-address")));
}

#[test]
fn launch_faults() {
    let text = |fault: LaunchFault| fault.error().message();
    assert_eq!(
        text(LaunchFault::TempDir("full".to_string())),
        "failed to start Chromium: temp dir creation failed: full"
    );
    assert_eq!(
        text(LaunchFault::Spawn("gone".to_string())),
        "failed to start Chromium: spawn failed: gone"
    );
    assert_eq!(
        text(LaunchFault::NoPid),
        "failed to start Chromium: spawned process has no pid"
    );
}
