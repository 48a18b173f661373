//! Per-session launch options and the Chromium command line.

use vstd::prelude::*;

use crate::config::Config;
use crate::errors::GatewayError;
use crate::errors::GatewayErrorView;
use crate::language::language_args;
use crate::language::locale;
use crate::number::decimal;
use crate::number::to_decimal;
use crate::text::before;
use crate::text::begins_with;
use crate::text::byte_len;
use crate::text::chars_of;
use crate::text::concat;
use crate::text::control;
use crate::text::digit;
use crate::text::is_control;
use crate::text::is_digit;
use crate::text::is_printable;
use crate::text::law_before_and_behind;
use crate::text::length_in_bytes;
use crate::text::printable;
use crate::text::text_before;
use crate::text::text_of;
use crate::text::text_of_ref;
use crate::text::texts;
use crate::text::trim;
use crate::text::trimmed;

verus! {

// ---------------------------------------------------------------------------
// Viewport
// ---------------------------------------------------------------------------

/// Page viewport in CSS pixels.
#[derive(Clone, Copy, Debug, PartialEq, Eq, Structural)]
pub struct Viewport {
    pub width: u32,
    pub height: u32,
}

/// Height of the tab strip and toolbar on a Linux Chrome window: the outer
/// height exceeds the inner one by this much on a desktop.
pub const WINDOW_CHROME_HEIGHT: u32 = 87;

/// The viewport of sessions that ask for none.
pub open spec fn default_viewport() -> Viewport {
    Viewport { width: 1280, height: 720 }
}

/// Width and height of the window whose inner viewport is `v`.
pub open spec fn window_of(v: Viewport) -> (int, int) {
    (v.width as int, v.height + WINDOW_CHROME_HEIGHT)
}

/// `inner` fits into `outer`.
pub open spec fn fits(inner: (int, int), outer: (int, int)) -> bool {
    inner.0 <= outer.0 && inner.1 <= outer.1
}

/// Width and height of the emulated screen: the smallest common desktop
/// resolution that holds the window, or the window itself.
pub open spec fn screen_of(v: Viewport) -> (int, int) {
    if fits(window_of(v), (1920, 1080)) {
        (1920, 1080)
    } else if fits(window_of(v), (2560, 1440)) {
        (2560, 1440)
    } else if fits(window_of(v), (3840, 2160)) {
        (3840, 2160)
    } else {
        window_of(v)
    }
}

/// The window of `v` can be expressed: its height does not overflow.
pub open spec fn has_window(v: Viewport) -> bool {
    v.height + WINDOW_CHROME_HEIGHT <= u32::MAX
}

impl Viewport {
    /// Width and height of the window whose inner viewport is this one.
    pub fn window_size(self) -> (r: (u32, u32))
        requires
            has_window(self),
        ensures
            (r.0 as int, r.1 as int) == window_of(self),
    {
        (self.width, self.height + WINDOW_CHROME_HEIGHT)
    }

    /// Width and height of the screen that the session reports.
    pub fn screen_size(self) -> (r: (u32, u32))
        requires
            has_window(self),
        ensures
            (r.0 as int, r.1 as int) == screen_of(self),
    {
        let (width, height) = self.window_size();
        if width <= 1920 && height <= 1080 {
            (1920, 1080)
        } else if width <= 2560 && height <= 1440 {
            (2560, 1440)
        } else if width <= 3840 && height <= 2160 {
            (3840, 2160)
        } else {
            (width, height)
        }
    }
}

/// The window always fits the screen that is reported, and no common
/// resolution smaller than that screen would hold it.
pub proof fn law_screen_holds_window(v: Viewport)
    ensures
        fits(window_of(v), screen_of(v)),
        fits(window_of(v), (1920, 1080)) <==> screen_of(v) == (1920int, 1080int),
        fits(window_of(v), (2560, 1440)) ==> fits(screen_of(v), (2560, 1440)),
        fits(window_of(v), (3840, 2160)) ==> fits(screen_of(v), (3840, 2160)),
{
}

// ---------------------------------------------------------------------------
// User agent
// ---------------------------------------------------------------------------

/// All characters are decimal digits.
pub open spec fn all_digits(s: Seq<char>) -> bool {
    forall|i: int| 0 <= i < s.len() ==> digit(#[trigger] s[i])
}

/// The part of a version in front of its first dot, or `0` when that is no
/// number.
pub open spec fn major_version(version: Option<Seq<char>>) -> Seq<char> {
    match version {
        Some(v) => if before(v, '.').len() > 0 && all_digits(before(v, '.')) {
            before(v, '.')
        } else {
            "0"@
        },
        None => "0"@,
    }
}

/// The user agent of a desktop Chrome of that version.
pub open spec fn desktop_user_agent(version: Option<Seq<char>>) -> Seq<char> {
    "Mozilla/5.0 (X11; Linux x86_64) AppleWebKit/537.36 (KHTML, like Gecko) Chrome/"@
        + major_version(version) + ".0.0.0 Safari/537.36"@
}

fn is_all_digits(s: &str) -> (r: bool)
    ensures
        r == all_digits(s@),
{
    let cs = chars_of(s);
    let mut i: usize = 0;
    while i < cs.len()
        invariant
            cs@ == s@,
            i <= cs@.len(),
            forall|j: int| 0 <= j < i ==> digit(#[trigger] s@[j]),
        decreases cs@.len() - i,
    {
        if !is_digit(cs[i]) {
            assert(!digit(s@[i as int]));
            return false;
        }
        i += 1;
    }
    true
}

/// Headed-desktop equivalent of the binary's headless user agent: Chromium
/// on Linux reports "X11; Linux x86_64" whatever the CPU, and the reduced
/// user agent keeps only the major version.
pub fn default_user_agent(browser_version: Option<&str>) -> (r: String)
    ensures
        r@ == desktop_user_agent(text_of_ref(browser_version)),
{
    let major = match browser_version {
        Some(version) => {
            let major = text_before(version, '.');
            if !major.is_empty() && is_all_digits(major) {
                major
            } else {
                "0"
            }
        },
        None => "0",
    };
    let mut r = concat(
        "Mozilla/5.0 (X11; Linux x86_64) AppleWebKit/537.36 (KHTML, like Gecko) Chrome/",
        major,
    );
    r.append(".0.0.0 Safari/537.36");
    r
}

// ---------------------------------------------------------------------------
// Launch options
// ---------------------------------------------------------------------------

/// What a client may choose about the browser of its session.
#[derive(Debug)]
pub struct LaunchOptions {
    pub proxy_server: Option<String>,
    pub proxy_bypass_list: Option<String>,
    pub disable_web_security: Option<bool>,
    /// Comma-separated BCP 47 tags, e.g. "fr-FR,fr". Wins over the server-wide
    /// language for this session.
    pub accept_language: Option<String>,
    /// User agent applied browser-wide. Defaults to the binary's own one
    /// without the "Headless" marker.
    pub user_agent: Option<String>,
    /// Page viewport that the client will use.
    pub viewport: Option<Viewport>,
}

impl Default for LaunchOptions {
    fn default() -> (r: LaunchOptions)
        ensures
            r.proxy_server is None,
            r.proxy_bypass_list is None,
            r.disable_web_security is None,
            r.accept_language is None,
            r.user_agent is None,
            r.viewport is None,
    {
        LaunchOptions {
            proxy_server: None,
            proxy_bypass_list: None,
            disable_web_security: None,
            accept_language: None,
            user_agent: None,
            viewport: None,
        }
    }
}

/// Some character is a control character.
pub open spec fn has_control(s: Seq<char>) -> bool {
    exists|i: int| 0 <= i < s.len() && control(#[trigger] s[i])
}

/// All characters are printable ASCII.
pub open spec fn all_printable(s: Seq<char>) -> bool {
    forall|i: int| 0 <= i < s.len() ==> printable(#[trigger] s[i])
}

/// At most 256 bytes with at least one language tag.
pub open spec fn valid_accept_language(s: Seq<char>) -> bool {
    byte_len(s) <= 256 && locale(s) is Some
}

/// The text begins like a URL of one of the supported proxy protocols.
pub open spec fn has_proxy_scheme(s: Seq<char>) -> bool {
    ||| "http://"@.is_prefix_of(s)
    ||| "https://"@.is_prefix_of(s)
    ||| "socks4://"@.is_prefix_of(s)
    ||| "socks5://"@.is_prefix_of(s)
}

pub open spec fn valid_proxy_server(s: Seq<char>) -> bool {
    byte_len(s) <= 2048 && !has_control(s) && has_proxy_scheme(s)
}

pub open spec fn valid_proxy_bypass_list(s: Seq<char>) -> bool {
    byte_len(s) <= 2048 && !has_control(s)
}

pub open spec fn valid_user_agent(s: Seq<char>) -> bool {
    trimmed(s).len() > 0 && byte_len(s) <= 512 && all_printable(s)
}

pub open spec fn valid_viewport(v: Viewport) -> bool {
    100 <= v.width <= 7680 && 100 <= v.height <= 4320
}

/// Why launch options are refused: the first option that is not valid, in
/// the order accept language, proxy server, bypass list, user agent, viewport.
pub open spec fn launch_options_fault(o: LaunchOptions) -> Option<Seq<char>> {
    if o.accept_language matches Some(s) && !valid_accept_language(s@) {
        Some("acceptLanguage must be a comma-separated list of BCP 47 language tags"@)
    } else if o.proxy_server matches Some(s) && !valid_proxy_server(s@) {
        Some("proxyServer must be a valid HTTP, HTTPS, SOCKS4, or SOCKS5 URL"@)
    } else if o.proxy_bypass_list matches Some(s) && !valid_proxy_bypass_list(s@) {
        Some("proxyBypassList contains invalid characters"@)
    } else if o.user_agent matches Some(s) && !valid_user_agent(s@) {
        Some("userAgent must be printable ASCII of at most 512 characters"@)
    } else if o.viewport matches Some(v) && !valid_viewport(v) {
        Some("viewport width must be 100-7680 and height 100-4320"@)
    } else {
        None
    }
}

fn contains_control(s: &str) -> (r: bool)
    ensures
        r == has_control(s@),
{
    let cs = chars_of(s);
    let mut i: usize = 0;
    while i < cs.len()
        invariant
            cs@ == s@,
            i <= cs@.len(),
            forall|j: int| 0 <= j < i ==> !control(#[trigger] s@[j]),
        decreases cs@.len() - i,
    {
        if is_control(cs[i]) {
            assert(control(s@[i as int]));
            return true;
        }
        i += 1;
    }
    false
}

fn is_all_printable(s: &str) -> (r: bool)
    ensures
        r == all_printable(s@),
{
    let cs = chars_of(s);
    let mut i: usize = 0;
    while i < cs.len()
        invariant
            cs@ == s@,
            i <= cs@.len(),
            forall|j: int| 0 <= j < i ==> printable(#[trigger] s@[j]),
        decreases cs@.len() - i,
    {
        if !is_printable(cs[i]) {
            assert(!printable(s@[i as int]));
            return false;
        }
        i += 1;
    }
    true
}

fn refused(reason: &str) -> (r: Result<LaunchOptions, GatewayError>)
    ensures
        r matches Err(e) && e@ == GatewayErrorView::InvalidLaunchOptions(reason@),
{
    Err(GatewayError::InvalidLaunchOptions(reason.to_owned()))
}

impl LaunchOptions {
    /// Hands valid options back unchanged and refuses the others.
    pub fn validate(self) -> (r: Result<LaunchOptions, GatewayError>)
        ensures
            match launch_options_fault(self) {
                None => r matches Ok(o) && o == self,
                Some(reason) => r matches Err(e) && e@ == GatewayErrorView::InvalidLaunchOptions(
                    reason,
                ),
            },
    {
        if let Some(s) = &self.accept_language {
            if length_in_bytes(s.as_str()) > 256 || language_args(s.as_str()).is_none() {
                return refused(
                    "acceptLanguage must be a comma-separated list of BCP 47 language tags",
                );
            }
        }
        if let Some(s) = &self.proxy_server {
            if length_in_bytes(s.as_str()) > 2048 || contains_control(s.as_str()) || !(begins_with(
                s.as_str(),
                "http://",
            ) || begins_with(s.as_str(), "https://") || begins_with(s.as_str(), "socks4://")
                || begins_with(s.as_str(), "socks5://")) {
                return refused("proxyServer must be a valid HTTP, HTTPS, SOCKS4, or SOCKS5 URL");
            }
        }
        if let Some(s) = &self.proxy_bypass_list {
            if length_in_bytes(s.as_str()) > 2048 || contains_control(s.as_str()) {
                return refused("proxyBypassList contains invalid characters");
            }
        }
        if let Some(s) = &self.user_agent {
            if trim(s.as_str()).is_empty() || length_in_bytes(s.as_str()) > 512
                || !is_all_printable(s.as_str()) {
                return refused("userAgent must be printable ASCII of at most 512 characters");
            }
        }
        if let Some(v) = &self.viewport {
            if !(100 <= v.width && v.width <= 7680 && 100 <= v.height && v.height <= 4320) {
                return refused("viewport width must be 100-7680 and height 100-4320");
            }
        }
        Ok(self)
    }
}

// ---------------------------------------------------------------------------
// Command line
// ---------------------------------------------------------------------------

/// A browser process to start: the executable, its arguments, and the value
/// of its `LANGUAGE` variable where the session sets one.
pub struct LaunchCommand {
    pub program: String,
    pub args: Vec<String>,
    pub language: Option<String>,
}

/// The viewport that the session asks for, or the default.
pub open spec fn session_viewport(o: LaunchOptions) -> Viewport {
    match o.viewport {
        Some(v) => v,
        None => default_viewport(),
    }
}

/// The user agent that the session asks for, or the desktop one.
pub open spec fn session_user_agent(o: LaunchOptions, version: Option<Seq<char>>) -> Seq<char> {
    match o.user_agent {
        Some(s) => s@,
        None => desktop_user_agent(version),
    }
}

/// The locale of the session: from the languages that it asks for, or else
/// from the language of the server.
pub open spec fn session_locale(config: Config, o: LaunchOptions) -> Option<
    (Seq<char>, Seq<char>),
> {
    match o.accept_language {
        Some(s) => locale(s@),
        None => match config.language {
            Some(s) => locale(s@),
            None => None,
        },
    }
}

/// Headless mode with the values that a desktop Chrome reports.
pub open spec fn headless_args(v: Viewport) -> Seq<Seq<char>> {
    seq![
        "--headless=new"@,
        "--disable-blink-features=AutomationControlled"@,
        "--blink-settings=primaryPointerType=4,availablePointerTypes=4,primaryHoverType=2,availableHoverTypes=2"@,
        "--use-fake-device-for-media-stream"@,
        "--window-size="@ + decimal(window_of(v).0 as nat) + ","@ + decimal(window_of(v).1 as nat),
        "--screen-info={"@ + decimal(screen_of(v).0 as nat) + "x"@ + decimal(screen_of(v).1 as nat)
            + "}"@,
    ]
}

/// What every browser process is started with.
pub open spec fn process_args(user_agent: Seq<char>, user_data_dir: Seq<char>) -> Seq<Seq<char>> {
    seq![
        "--user-agent="@ + user_agent,
        "--remote-debugging-port=0"@,
        "--user-data-dir="@ + user_data_dir,
        "--no-first-run"@,
        "--no-default-browser-check"@,
        "--disable-background-networking"@,
        "--disable-component-update"@,
        "--disable-sync"@,
        "--metrics-recording-only"@,
        "--disable-default-apps"@,
    ]
}

/// One argument where `on` holds, none otherwise.
pub open spec fn flag_if(on: bool, flag: Seq<char>) -> Seq<Seq<char>> {
    if on {
        seq![flag]
    } else {
        Seq::empty()
    }
}

/// `prefix` with the value behind it, where there is one.
pub open spec fn flag_with(prefix: Seq<char>, value: Option<Seq<char>>) -> Seq<Seq<char>> {
    match value {
        Some(v) => seq![prefix + v],
        None => Seq::empty(),
    }
}

/// The locale arguments.
pub open spec fn locale_args(l: Option<(Seq<char>, Seq<char>)>) -> Seq<Seq<char>> {
    match l {
        Some((primary, accept)) => seq!["--lang="@ + primary, "--accept-lang="@ + accept],
        None => Seq::empty(),
    }
}

/// The arguments that the client's proxy and security options stand for.
pub open spec fn client_args(o: LaunchOptions) -> Seq<Seq<char>> {
    flag_with("--proxy-server="@, text_of(o.proxy_server)) + flag_with(
        "--proxy-bypass-list="@,
        text_of(o.proxy_bypass_list),
    ) + flag_if(o.disable_web_security == Some(true), "--disable-web-security"@)
}

/// The arguments that the server's own switches stand for.
pub open spec fn server_args(config: Config) -> Seq<Seq<char>> {
    flag_if(config.chrome_no_sandbox, "--no-sandbox"@) + flag_if(
        config.chrome_disable_dev_shm_usage,
        "--disable-dev-shm-usage"@,
    )
}

/// All arguments of the browser process. The operator's extra arguments come
/// last.
pub open spec fn launch_args(
    config: Config,
    o: LaunchOptions,
    version: Option<Seq<char>>,
    user_data_dir: Seq<char>,
) -> Seq<Seq<char>> {
    (if config.chrome_headless {
        headless_args(session_viewport(o))
    } else {
        Seq::empty()
    }) + process_args(session_user_agent(o, version), user_data_dir) + server_args(config)
        + locale_args(session_locale(config, o)) + client_args(o) + texts(
        config.chrome_extra_args@,
    )
}

fn add_arg(args: &mut Vec<String>, arg: &str)
    ensures
        texts(final(args)@) == texts(old(args)@).push(arg@),
{
    let ghost before = texts(args@);
    args.push(arg.to_owned());
    assert(texts(args@) =~= before.push(arg@));
}

fn add_flag_if(args: &mut Vec<String>, on: bool, flag: &str)
    ensures
        texts(final(args)@) == texts(old(args)@) + flag_if(on, flag@),
{
    let ghost before = texts(args@);
    if on {
        add_arg(args, flag);
    }
    assert(texts(args@) =~= before + flag_if(on, flag@));
}

fn add_flag_with(args: &mut Vec<String>, prefix: &str, value: &Option<String>)
    ensures
        texts(final(args)@) == texts(old(args)@) + flag_with(prefix@, text_of(*value)),
{
    let ghost before = texts(args@);
    if let Some(v) = value {
        let arg = concat(prefix, v.as_str());
        add_arg(args, arg.as_str());
    }
    assert(texts(args@) =~= before + flag_with(prefix@, text_of(*value)));
}

/// `prefix`, two numbers with `between` in their middle, then `end`.
fn size_arg(prefix: &str, size: (u32, u32), between: &str, end: &str) -> (r: String)
    ensures
        r@ == prefix@ + decimal(size.0 as nat) + between@ + decimal(size.1 as nat) + end@,
{
    let mut r = prefix.to_owned();
    r.append(to_decimal(size.0 as u64).as_str());
    r.append(between);
    r.append(to_decimal(size.1 as u64).as_str());
    r.append(end);
    r
}

fn add_headless_args(args: &mut Vec<String>, v: Viewport)
    requires
        has_window(v),
    ensures
        texts(final(args)@) == texts(old(args)@) + headless_args(v),
{
    let ghost start = texts(args@);
    add_arg(args, "--headless=new");
    add_arg(args, "--disable-blink-features=AutomationControlled");
    add_arg(
        args,
        "--blink-settings=primaryPointerType=4,availablePointerTypes=4,primaryHoverType=2,availableHoverTypes=2",
    );
    add_arg(args, "--use-fake-device-for-media-stream");
    let window = size_arg("--window-size=", v.window_size(), ",", "");
    proof {
        reveal_strlit("");
        assert(window@ =~= "--window-size="@ + decimal(window_of(v).0 as nat) + ","@ + decimal(
            window_of(v).1 as nat,
        ));
    }
    add_arg(args, window.as_str());
    let screen = size_arg("--screen-info={", v.screen_size(), "x", "}");
    add_arg(args, screen.as_str());
    assert(texts(args@) =~= start + headless_args(v));
}

fn add_process_args(args: &mut Vec<String>, user_agent: &str, user_data_dir: &str)
    ensures
        texts(final(args)@) == texts(old(args)@) + process_args(user_agent@, user_data_dir@),
{
    let ghost start = texts(args@);
    let user_agent_arg = concat("--user-agent=", user_agent);
    add_arg(args, user_agent_arg.as_str());
    add_arg(args, "--remote-debugging-port=0");
    let user_data_arg = concat("--user-data-dir=", user_data_dir);
    add_arg(args, user_data_arg.as_str());
    add_arg(args, "--no-first-run");
    add_arg(args, "--no-default-browser-check");
    add_arg(args, "--disable-background-networking");
    add_arg(args, "--disable-component-update");
    add_arg(args, "--disable-sync");
    add_arg(args, "--metrics-recording-only");
    add_arg(args, "--disable-default-apps");
    assert(texts(args@) =~= start + process_args(user_agent@, user_data_dir@));
}

fn add_extra_args(args: &mut Vec<String>, extra: &Vec<String>)
    ensures
        texts(final(args)@) == texts(old(args)@) + texts(extra@),
{
    let ghost start = texts(args@);
    let mut i: usize = 0;
    assert(texts(args@) =~= start + texts(extra@).take(0));
    while i < extra.len()
        invariant
            i <= extra@.len(),
            texts(args@) == start + texts(extra@).take(i as int),
        decreases extra@.len() - i,
    {
        add_arg(args, extra[i].as_str());
        assert(texts(args@) =~= start + texts(extra@).take(i + 1));
        i += 1;
    }
    assert(texts(extra@).take(extra@.len() as int) =~= texts(extra@));
}

proof fn lemma_empty_add(s: Seq<Seq<char>>)
    ensures
        Seq::<Seq<char>>::empty() + s == s,
{
    assert(Seq::<Seq<char>>::empty() + s =~= s);
}

fn add_server_args(args: &mut Vec<String>, config: &Config)
    ensures
        texts(final(args)@) == texts(old(args)@) + server_args(*config),
{
    let ghost start = texts(args@);
    add_flag_if(args, config.chrome_no_sandbox, "--no-sandbox");
    add_flag_if(args, config.chrome_disable_dev_shm_usage, "--disable-dev-shm-usage");
    assert(texts(args@) =~= start + server_args(*config));
}

/// Adds the locale arguments and returns the primary language tag.
fn add_locale_args(args: &mut Vec<String>, config: &Config, launch_options: &LaunchOptions) -> (r:
    Option<String>)
    ensures
        texts(final(args)@) == texts(old(args)@) + locale_args(
            session_locale(*config, *launch_options),
        ),
        match r {
            Some(primary) => session_locale(*config, *launch_options) matches Some((p, _))
                && p == primary@,
            None => session_locale(*config, *launch_options) is None,
        },
{
    let ghost start = texts(args@);
    let ghost chosen = session_locale(*config, *launch_options);
    let language = match &launch_options.accept_language {
        Some(s) => language_args(s.as_str()),
        None => match &config.language {
            Some(s) => language_args(s.as_str()),
            None => None,
        },
    };
    match language {
        Some((primary, accept)) => {
            assert(chosen == Some((primary@, accept@)));
            let lang = concat("--lang=", primary.as_str());
            add_arg(args, lang.as_str());
            let accept_lang = concat("--accept-lang=", accept.as_str());
            add_arg(args, accept_lang.as_str());
            assert(texts(args@) =~= start + locale_args(chosen));
            Some(primary)
        },
        None => {
            assert(texts(args@) =~= start + locale_args(chosen));
            None
        },
    }
}

fn add_client_args(args: &mut Vec<String>, launch_options: &LaunchOptions)
    ensures
        texts(final(args)@) == texts(old(args)@) + client_args(*launch_options),
{
    let ghost start = texts(args@);
    add_flag_with(args, "--proxy-server=", &launch_options.proxy_server);
    add_flag_with(args, "--proxy-bypass-list=", &launch_options.proxy_bypass_list);
    let insecure = match launch_options.disable_web_security {
        Some(on) => on,
        None => false,
    };
    add_flag_if(args, insecure, "--disable-web-security");
    assert(texts(args@) =~= start + client_args(*launch_options));
}

/// The browser process of a session: which executable runs, with which
/// arguments, on the profile directory `user_data_dir`.
pub fn launch(
    config: &Config,
    launch_options: &LaunchOptions,
    browser_version: Option<&str>,
    user_data_dir: &str,
) -> (r: LaunchCommand)
    requires
        config.chrome_headless ==> has_window(session_viewport(*launch_options)),
    ensures
        r.program@ == config.chrome_path@,
        texts(r.args@) == launch_args(
            *config,
            *launch_options,
            text_of_ref(browser_version),
            user_data_dir@,
        ),
        match r.language {
            Some(primary) => session_locale(*config, *launch_options) matches Some((p, _))
                && p == primary@,
            None => session_locale(*config, *launch_options) is None,
        },
{
    let mut args: Vec<String> = Vec::new();
    assert(texts(args@) =~= Seq::<Seq<char>>::empty());
    if config.chrome_headless {
        let viewport = match launch_options.viewport {
            Some(v) => v,
            None => Viewport { width: 1280, height: 720 },
        };
        add_headless_args(&mut args, viewport);
        proof {
            lemma_empty_add(headless_args(session_viewport(*launch_options)));
        }
    }
    let user_agent = match &launch_options.user_agent {
        Some(s) => s.clone(),
        None => default_user_agent(browser_version),
    };
    add_process_args(&mut args, user_agent.as_str(), user_data_dir);
    add_server_args(&mut args, config);
    let primary = add_locale_args(&mut args, config, launch_options);
    add_client_args(&mut args, launch_options);
    add_extra_args(&mut args, &config.chrome_extra_args);
    LaunchCommand { program: config.chrome_path.clone(), args, language: primary }
}

/// Why a browser process could not be started.
pub enum LaunchFault {
    /// No profile directory could be made; why, in words.
    TempDir(String),
    /// The process could not be spawned; why, in words.
    Spawn(String),
    /// The process that was spawned is gone.
    NoPid,
}

impl LaunchFault {
    /// What went wrong, in words.
    pub open spec fn text(self) -> Seq<char> {
        match self {
            LaunchFault::TempDir(why) => "temp dir creation failed: "@ + why@,
            LaunchFault::Spawn(why) => "spawn failed: "@ + why@,
            LaunchFault::NoPid => "spawned process has no pid"@,
        }
    }

    /// The error that the client gets.
    pub fn error(self) -> (r: GatewayError)
        ensures
            r@ == GatewayErrorView::ChromiumUnavailable(self.text()),
    {
        GatewayError::ChromiumUnavailable(
            match self {
                LaunchFault::TempDir(why) => concat("temp dir creation failed: ", why.as_str()),
                LaunchFault::Spawn(why) => concat("spawn failed: ", why.as_str()),
                LaunchFault::NoPid => "spawned process has no pid".to_owned(),
            },
        )
    }
}

// ---------------------------------------------------------------------------
// Laws of the command line
// ---------------------------------------------------------------------------

/// Arguments that the server sets by itself, without a value from outside.
pub open spec fn fixed_arg(a: Seq<char>) -> bool {
    ||| a == "--headless=new"@
    ||| a == "--disable-blink-features=AutomationControlled"@
    ||| a
        == "--blink-settings=primaryPointerType=4,availablePointerTypes=4,primaryHoverType=2,availableHoverTypes=2"@
    ||| a == "--use-fake-device-for-media-stream"@
    ||| a == "--remote-debugging-port=0"@
    ||| a == "--no-first-run"@
    ||| a == "--no-default-browser-check"@
    ||| a == "--disable-background-networking"@
    ||| a == "--disable-component-update"@
    ||| a == "--disable-sync"@
    ||| a == "--metrics-recording-only"@
    ||| a == "--disable-default-apps"@
    ||| a == "--no-sandbox"@
    ||| a == "--disable-dev-shm-usage"@
    ||| a == "--disable-web-security"@
}

/// Arguments that carry one value behind a flag of the server's choosing.
pub open spec fn valued_arg(a: Seq<char>) -> bool {
    ||| "--window-size="@.is_prefix_of(a)
    ||| "--screen-info={"@.is_prefix_of(a)
    ||| "--user-agent="@.is_prefix_of(a)
    ||| "--user-data-dir="@.is_prefix_of(a)
    ||| "--lang="@.is_prefix_of(a)
    ||| "--accept-lang="@.is_prefix_of(a)
    ||| "--proxy-server="@.is_prefix_of(a)
    ||| "--proxy-bypass-list="@.is_prefix_of(a)
}

/// Every argument is one that the server sets by itself, or a value behind a
/// flag of the server's choosing.
pub open spec fn only_server_flags(args: Seq<Seq<char>>) -> bool {
    forall|i: int| 0 <= i < args.len() ==> fixed_arg(#[trigger] args[i]) || valued_arg(args[i])
}

proof fn lemma_server_flags_append(a: Seq<Seq<char>>, b: Seq<Seq<char>>)
    requires
        only_server_flags(a),
        only_server_flags(b),
    ensures
        only_server_flags(a + b),
{
    assert forall|i: int| 0 <= i < (a + b).len() implies fixed_arg(#[trigger] (a + b)[i])
        || valued_arg((a + b)[i]) by {
        if i < a.len() {
            assert((a + b)[i] == a[i]);
        } else {
            assert((a + b)[i] == b[i - a.len()]);
        }
    }
}

/// `p` is a prefix of `p + v`.
proof fn lemma_prefix(p: Seq<char>, v: Seq<char>)
    ensures
        p.is_prefix_of(p + v),
{
    assert((p + v).subrange(0, p.len() as int) =~= p);
}

proof fn lemma_headless_flags(v: Viewport)
    ensures
        only_server_flags(headless_args(v)),
{
    let w = window_of(v);
    let s = screen_of(v);
    let window = "--window-size="@ + decimal(w.0 as nat) + ","@ + decimal(w.1 as nat);
    let screen = "--screen-info={"@ + decimal(s.0 as nat) + "x"@ + decimal(s.1 as nat) + "}"@;
    assert(window =~= "--window-size="@ + (decimal(w.0 as nat) + ","@ + decimal(w.1 as nat)));
    lemma_prefix("--window-size="@, decimal(w.0 as nat) + ","@ + decimal(w.1 as nat));
    assert(screen =~= "--screen-info={"@ + (decimal(s.0 as nat) + "x"@ + decimal(s.1 as nat)
        + "}"@));
    lemma_prefix("--screen-info={"@, decimal(s.0 as nat) + "x"@ + decimal(s.1 as nat) + "}"@);
}

/// Clients cannot inject launch arguments: whatever the launch options, every
/// argument in front of the operator's own extra ones is either fixed by the
/// server or a value behind a flag that the server chose.
pub proof fn law_no_argument_injection(
    config: Config,
    o: LaunchOptions,
    version: Option<Seq<char>>,
    user_data_dir: Seq<char>,
)
    ensures
        ({
            let args = launch_args(config, o, version, user_data_dir);
            let own = args.len() - config.chrome_extra_args@.len();
            &&& 0 <= own
            &&& only_server_flags(args.take(own))
            &&& args.skip(own) == texts(config.chrome_extra_args@)
        }),
{
    let head = if config.chrome_headless {
        headless_args(session_viewport(o))
    } else {
        Seq::empty()
    };
    let process = process_args(session_user_agent(o, version), user_data_dir);
    let server = server_args(config);
    let language = locale_args(session_locale(config, o));
    let client = client_args(o);
    let extra = texts(config.chrome_extra_args@);
    lemma_headless_flags(session_viewport(o));
    lemma_prefix("--user-agent="@, session_user_agent(o, version));
    lemma_prefix("--user-data-dir="@, user_data_dir);
    assert(only_server_flags(process));
    lemma_server_flags_append(
        flag_if(config.chrome_no_sandbox, "--no-sandbox"@),
        flag_if(config.chrome_disable_dev_shm_usage, "--disable-dev-shm-usage"@),
    );
    if let Some((primary, accept)) = session_locale(config, o) {
        lemma_prefix("--lang="@, primary);
        lemma_prefix("--accept-lang="@, accept);
    }
    assert(only_server_flags(language));
    let proxy = flag_with("--proxy-server="@, text_of(o.proxy_server));
    let bypass = flag_with("--proxy-bypass-list="@, text_of(o.proxy_bypass_list));
    if let Some(s) = o.proxy_server {
        lemma_prefix("--proxy-server="@, s@);
    }
    if let Some(s) = o.proxy_bypass_list {
        lemma_prefix("--proxy-bypass-list="@, s@);
    }
    lemma_server_flags_append(proxy, bypass);
    lemma_server_flags_append(
        proxy + bypass,
        flag_if(o.disable_web_security == Some(true), "--disable-web-security"@),
    );
    lemma_server_flags_append(head, process);
    lemma_server_flags_append(head + process, server);
    lemma_server_flags_append(head + process + server, language);
    lemma_server_flags_append(head + process + server + language, client);
    let own = head + process + server + language + client;
    let args = launch_args(config, o, version, user_data_dir);
    assert(args =~= own + extra);
    assert(args.take(own.len() as int) =~= own);
    assert(args.skip(own.len() as int) =~= extra);
}

/// The languages that a session asks for win over the language of the
/// server: with them set, the server's language plays no part.
pub proof fn law_session_language_wins(
    config: Config,
    other: Config,
    o: LaunchOptions,
)
    requires
        o.accept_language is Some,
    ensures
        session_locale(config, o) == session_locale(other, o),
{
}

/// Options that pass validation can always be launched.
pub proof fn law_valid_options_launch(o: LaunchOptions)
    requires
        launch_options_fault(o) is None,
    ensures
        has_window(session_viewport(o)),
{
}

/// The window is as wide as the viewport and 87 pixels higher. The screen is the
/// first of the three common resolutions that holds the window, and the window
/// itself where none does.
pub proof fn law_window_and_screen(v: Viewport)
    ensures
        window_of(v) == (v.width as int, v.height + 87),
        v.width <= 1920 && v.height + 87 <= 1080 ==> screen_of(v) == (1920int, 1080int),
        !(v.width <= 1920 && v.height + 87 <= 1080) && v.width <= 2560 && v.height + 87 <= 1440
            ==> screen_of(v) == (2560int, 1440int),
        !(v.width <= 2560 && v.height + 87 <= 1440) && v.width <= 3840 && v.height + 87 <= 2160
            ==> screen_of(v) == (3840int, 2160int),
        v.width > 3840 || v.height + 87 > 2160 ==> screen_of(v) == (v.width as int, v.height + 87),
        has_window(v) <==> v.height + 87 < 0x1_0000_0000,
{
}

/// The user agent names the part of the version in front of its first dot where
/// that is a number, whatever follows, and 0 otherwise.
pub proof fn law_user_agent(major: Seq<char>, rest: Seq<char>)
    requires
        forall|i: int| 0 <= i < major.len() ==> major[i] != '.',
    ensures
        ({
            let front =
                "Mozilla/5.0 (X11; Linux x86_64) AppleWebKit/537.36 (KHTML, like Gecko) Chrome/"@;
            let back = ".0.0.0 Safari/537.36"@;
            let number = major.len() > 0 && forall|i: int|
                0 <= i < major.len() ==> '0' as u32 <= #[trigger] major[i] as u32 <= '9' as u32;
            &&& number ==> desktop_user_agent(Some(major)) == front + major + back
            &&& number ==> desktop_user_agent(Some(major.push('.') + rest)) == front + major + back
            &&& !number ==> desktop_user_agent(Some(major)) == front + "0"@ + back
            &&& !number ==> desktop_user_agent(Some(major.push('.') + rest)) == front + "0"@ + back
            &&& desktop_user_agent(None) == front + "0"@ + back
        }),
{
    law_before_and_behind(major, '.', rest);
    assert(all_digits(major) <==> forall|i: int|
        0 <= i < major.len() ==> '0' as u32 <= #[trigger] major[i] as u32 <= '9' as u32) by {
        assert forall|i: int| 0 <= i < major.len() && all_digits(major) implies '0' as u32
            <= #[trigger] major[i] as u32 <= '9' as u32 by {
            assert(digit(major[i]));
        }
    }
}

/// Options are refused for what is wrong with them and for nothing else: an
/// accept language that is too long or lists no tag, a proxy that is too long,
/// holds control characters or has none of the four schemes, a bypass list that
/// is too long or holds control characters, a user agent that is blank, too long
/// or not printable, and a viewport out of range. The first of these, in that
/// order, is the one that is named.
pub proof fn law_options_refused(o: LaunchOptions)
    ensures
        ({
            let language = o.accept_language matches Some(s) ==> byte_len(s@) <= 256 && locale(s@)
                is Some;
            let proxy = o.proxy_server matches Some(s) ==> byte_len(s@) <= 2048 && (forall|i: int|
                0 <= i < s@.len() ==> !control(#[trigger] s@[i])) && ("http://"@.is_prefix_of(s@)
                || "https://"@.is_prefix_of(s@) || "socks4://"@.is_prefix_of(s@)
                || "socks5://"@.is_prefix_of(s@));
            let bypass = o.proxy_bypass_list matches Some(s) ==> byte_len(s@) <= 2048 && (forall|
                i: int,
            |
                0 <= i < s@.len() ==> !control(#[trigger] s@[i]));
            let agent = o.user_agent matches Some(s) ==> byte_len(s@) <= 512 && trimmed(s@).len()
                > 0 && (forall|i: int| 0 <= i < s@.len() ==> printable(#[trigger] s@[i]));
            let viewport = o.viewport matches Some(v) ==> 100 <= v.width <= 7680 && 100 <= v.height
                <= 4320;
            let fault = launch_options_fault(o);
            &&& fault is None <==> language && proxy && bypass && agent && viewport
            &&& !language ==> fault == Some(
                "acceptLanguage must be a comma-separated list of BCP 47 language tags"@,
            )
            &&& language && !proxy ==> fault == Some(
                "proxyServer must be a valid HTTP, HTTPS, SOCKS4, or SOCKS5 URL"@,
            )
            &&& language && proxy && !bypass ==> fault == Some(
                "proxyBypassList contains invalid characters"@,
            )
            &&& language && proxy && bypass && !agent ==> fault == Some(
                "userAgent must be printable ASCII of at most 512 characters"@,
            )
            &&& language && proxy && bypass && agent && !viewport ==> fault == Some(
                "viewport width must be 100-7680 and height 100-4320"@,
            )
        }),
{
}

/// The locale of a session is that of the languages it asks for, and of the
/// server's language where it asks for none.
pub proof fn law_session_locale(config: Config, o: LaunchOptions)
    ensures
        o.accept_language matches Some(s) ==> session_locale(config, o) == locale(s@),
        o.accept_language is None && config.language is Some ==> session_locale(config, o)
            == locale(config.language->0@),
        o.accept_language is None && config.language is None ==> session_locale(config, o) is None,
{
}

/// What could not be done to start a browser is named in front of the reason.
pub proof fn law_launch_faults(why: String)
    ensures
        LaunchFault::TempDir(why).text() == "temp dir creation failed: "@ + why@,
        LaunchFault::Spawn(why).text() == "spawn failed: "@ + why@,
        LaunchFault::NoPid.text() == "spawned process has no pid"@,
        WINDOW_CHROME_HEIGHT == 87,
{
}

/// The window argument of a viewport.
pub open spec fn window_arg(width: int, height: int) -> Seq<char> {
    "--window-size="@ + decimal(width as nat) + ","@ + decimal((height + 87) as nat)
}

/// The screen argument of a screen.
pub open spec fn screen_arg(width: int, height: int) -> Seq<char> {
    "--screen-info={"@ + decimal(width as nat) + "x"@ + decimal(height as nat) + "}"@
}

/// The argument is there for a reason, each with its own value: the viewport
/// and the marks of a desktop in headless mode, the user agent, the profile
/// directory, the fixed ones, and what the operator's switches, the locale and
/// the client's options ask for.
pub open spec fn asked_for(
    config: Config,
    o: LaunchOptions,
    version: Option<Seq<char>>,
    user_data_dir: Seq<char>,
    a: Seq<char>,
) -> bool {
    let (width, height) = match o.viewport {
        Some(v) => (v.width as int, v.height as int),
        None => (1280int, 720int),
    };
    let screen = if width <= 1920 && height + 87 <= 1080 {
        (1920int, 1080int)
    } else if width <= 2560 && height + 87 <= 1440 {
        (2560int, 1440int)
    } else if width <= 3840 && height + 87 <= 2160 {
        (3840int, 2160int)
    } else {
        (width, height + 87)
    };
    let user_agent = match o.user_agent {
        Some(s) => s@,
        None => desktop_user_agent(version),
    };
    let language = match (o.accept_language, config.language) {
        (Some(s), _) => locale(s@),
        (None, Some(s)) => locale(s@),
        (None, None) => None,
    };
    ||| config.chrome_headless && (a == "--headless=new"@ || a
        == "--disable-blink-features=AutomationControlled"@ || a
        == "--blink-settings=primaryPointerType=4,availablePointerTypes=4,primaryHoverType=2,availableHoverTypes=2"@
        || a == "--use-fake-device-for-media-stream"@ || a == window_arg(width, height) || a
        == screen_arg(screen.0, screen.1))
    ||| a == "--user-agent="@ + user_agent
    ||| a == "--remote-debugging-port=0"@
    ||| a == "--user-data-dir="@ + user_data_dir
    ||| a == "--no-first-run"@
    ||| a == "--no-default-browser-check"@
    ||| a == "--disable-background-networking"@
    ||| a == "--disable-component-update"@
    ||| a == "--disable-sync"@
    ||| a == "--metrics-recording-only"@
    ||| a == "--disable-default-apps"@
    ||| config.chrome_no_sandbox && a == "--no-sandbox"@
    ||| config.chrome_disable_dev_shm_usage && a == "--disable-dev-shm-usage"@
    ||| language is Some && a == "--lang="@ + (language->0).0
    ||| language is Some && a == "--accept-lang="@ + (language->0).1
    ||| o.proxy_server is Some && a == "--proxy-server="@ + (o.proxy_server->0)@
    ||| o.proxy_bypass_list is Some && a == "--proxy-bypass-list="@ + (o.proxy_bypass_list->0)@
    ||| o.disable_web_security == Some(true) && a == "--disable-web-security"@
}

proof fn lemma_either(a: Seq<Seq<char>>, b: Seq<Seq<char>>, x: Seq<char>)
    ensures
        (a + b).contains(x) <==> a.contains(x) || b.contains(x),
{
    let c = a + b;
    if a.contains(x) {
        let k = choose|k: int| 0 <= k < a.len() && a[k] == x;
        assert(c[k] == x);
    }
    if b.contains(x) {
        let k = choose|k: int| 0 <= k < b.len() && b[k] == x;
        assert(c[k + a.len()] == x);
    }
    if c.contains(x) {
        let k = choose|k: int| 0 <= k < c.len() && c[k] == x;
        if k < a.len() {
            assert(a[k] == x);
        } else {
            assert(b[k - a.len()] == x);
        }
    }
}

proof fn lemma_one(x: Seq<char>, y: Seq<char>)
    ensures
        seq![x].contains(y) <==> x == y,
{
    assert(seq![x][0] == x);
}

proof fn lemma_headless_contains(v: Viewport, a: Seq<char>)
    ensures
        headless_args(v).contains(a) <==> a == "--headless=new"@ || a
            == "--disable-blink-features=AutomationControlled"@ || a
            == "--blink-settings=primaryPointerType=4,availablePointerTypes=4,primaryHoverType=2,availableHoverTypes=2"@
            || a == "--use-fake-device-for-media-stream"@ || a == window_arg(
            v.width as int,
            v.height as int,
        ) || a == screen_arg(screen_of(v).0, screen_of(v).1),
{
    let s = headless_args(v);
    assert(s.len() == 6);
    assert(s[0] == "--headless=new"@);
    assert(s[1] == "--disable-blink-features=AutomationControlled"@);
    assert(s[2]
        == "--blink-settings=primaryPointerType=4,availablePointerTypes=4,primaryHoverType=2,availableHoverTypes=2"@);
    assert(s[3] == "--use-fake-device-for-media-stream"@);
    assert(s[4] == window_arg(v.width as int, v.height as int));
    assert(s[5] == screen_arg(screen_of(v).0, screen_of(v).1));
    if s.contains(a) {
        let k = choose|k: int| 0 <= k < s.len() && s[k] == a;
        assert(k == 0 || k == 1 || k == 2 || k == 3 || k == 4 || k == 5);
    }
}

proof fn lemma_process_contains(user_agent: Seq<char>, user_data_dir: Seq<char>, a: Seq<char>)
    ensures
        process_args(user_agent, user_data_dir).contains(a) <==> a == "--user-agent="@ + user_agent
            || a == "--remote-debugging-port=0"@ || a == "--user-data-dir="@ + user_data_dir || a
            == "--no-first-run"@ || a == "--no-default-browser-check"@ || a
            == "--disable-background-networking"@ || a == "--disable-component-update"@ || a
            == "--disable-sync"@ || a == "--metrics-recording-only"@ || a
            == "--disable-default-apps"@,
{
    let s = process_args(user_agent, user_data_dir);
    assert(s.len() == 10);
    assert(s[0] == "--user-agent="@ + user_agent);
    assert(s[1] == "--remote-debugging-port=0"@);
    assert(s[2] == "--user-data-dir="@ + user_data_dir);
    assert(s[3] == "--no-first-run"@);
    assert(s[4] == "--no-default-browser-check"@);
    assert(s[5] == "--disable-background-networking"@);
    assert(s[6] == "--disable-component-update"@);
    assert(s[7] == "--disable-sync"@);
    assert(s[8] == "--metrics-recording-only"@);
    assert(s[9] == "--disable-default-apps"@);
    if s.contains(a) {
        let k = choose|k: int| 0 <= k < s.len() && s[k] == a;
        assert(k == 0 || k == 1 || k == 2 || k == 3 || k == 4 || k == 5 || k == 6 || k == 7 || k
            == 8 || k == 9);
    }
}

proof fn lemma_locale_contains(l: Option<(Seq<char>, Seq<char>)>, a: Seq<char>)
    ensures
        locale_args(l).contains(a) <==> l is Some && (a == "--lang="@ + (l->0).0 || a
            == "--accept-lang="@ + (l->0).1),
        locale_args(l).len() == if l is Some {
            2nat
        } else {
            0nat
        },
{
    let s = locale_args(l);
    if l is Some {
        assert(s[0] == "--lang="@ + (l->0).0);
        assert(s[1] == "--accept-lang="@ + (l->0).1);
    }
}

proof fn lemma_flag_contains(on: bool, flag: Seq<char>, a: Seq<char>)
    ensures
        flag_if(on, flag).contains(a) <==> on && a == flag,
{
    lemma_one(flag, a);
}

proof fn lemma_value_contains(prefix: Seq<char>, value: Option<String>, a: Seq<char>)
    ensures
        flag_with(prefix, text_of(value)).contains(a) <==> value is Some && a == prefix
            + (value->0)@,
{
    if let Some(v) = value {
        lemma_one(prefix + v@, a);
    }
}

/// The command line is what was asked for, all of it and nothing else: in front
/// of the operator's extra arguments an argument stands exactly when the
/// configuration or the options of the session ask for it, with the very value
/// they give it. The viewport that the client asks for sets the window and the
/// screen; 1280 by 720 stands in only where it asks for none. As many arguments
/// stand there as are asked for, so that none is repeated.
pub proof fn law_command_line(
    config: Config,
    o: LaunchOptions,
    version: Option<Seq<char>>,
    user_data_dir: Seq<char>,
    a: Seq<char>,
)
    ensures
        ({
            let args = launch_args(config, o, version, user_data_dir);
            let own = args.len() - config.chrome_extra_args@.len();
            &&& args.take(own).contains(a) <==> asked_for(config, o, version, user_data_dir, a)
            &&& args.skip(own) == texts(config.chrome_extra_args@)
            &&& own == 10 + (if config.chrome_headless {
                6int
            } else {
                0
            }) + (if config.chrome_no_sandbox {
                1int
            } else {
                0
            }) + (if config.chrome_disable_dev_shm_usage {
                1int
            } else {
                0
            }) + (if session_locale(config, o) is Some {
                2int
            } else {
                0
            }) + (if o.proxy_server is Some {
                1int
            } else {
                0
            }) + (if o.proxy_bypass_list is Some {
                1int
            } else {
                0
            }) + (if o.disable_web_security == Some(true) {
                1int
            } else {
                0
            })
        }),
{
    let v = session_viewport(o);
    let head = if config.chrome_headless {
        headless_args(v)
    } else {
        Seq::empty()
    };
    let user_agent = session_user_agent(o, version);
    let process = process_args(user_agent, user_data_dir);
    let sandbox = flag_if(config.chrome_no_sandbox, "--no-sandbox"@);
    let memory = flag_if(config.chrome_disable_dev_shm_usage, "--disable-dev-shm-usage"@);
    let language = session_locale(config, o);
    let tags = locale_args(language);
    let proxy = flag_with("--proxy-server="@, text_of(o.proxy_server));
    let bypass = flag_with("--proxy-bypass-list="@, text_of(o.proxy_bypass_list));
    let security = flag_if(o.disable_web_security == Some(true), "--disable-web-security"@);
    let extra = texts(config.chrome_extra_args@);
    let server = sandbox + memory;
    let client = proxy + bypass + security;
    let all = head + process + server + tags + client;
    let args = launch_args(config, o, version, user_data_dir);
    assert(args =~= all + extra);
    assert(args.take(all.len() as int) =~= all);
    assert(args.skip(all.len() as int) =~= extra);
    lemma_headless_contains(v, a);
    lemma_process_contains(user_agent, user_data_dir, a);
    lemma_flag_contains(config.chrome_no_sandbox, "--no-sandbox"@, a);
    lemma_flag_contains(config.chrome_disable_dev_shm_usage, "--disable-dev-shm-usage"@, a);
    lemma_locale_contains(language, a);
    lemma_value_contains("--proxy-server="@, o.proxy_server, a);
    lemma_value_contains("--proxy-bypass-list="@, o.proxy_bypass_list, a);
    lemma_flag_contains(o.disable_web_security == Some(true), "--disable-web-security"@, a);
    lemma_either(sandbox, memory, a);
    lemma_either(proxy, bypass, a);
    lemma_either(proxy + bypass, security, a);
    lemma_either(head, process, a);
    lemma_either(head + process, server, a);
    lemma_either(head + process + server, tags, a);
    lemma_either(head + process + server + tags, client, a);
}

/// In headless mode the viewport that a session asks for is the one it gets: the
/// window is that wide and 87 pixels higher, and the screen is the first common
/// resolution that holds the window.
pub proof fn law_viewport_is_used(
    config: Config,
    o: LaunchOptions,
    version: Option<Seq<char>>,
    user_data_dir: Seq<char>,
    v: Viewport,
)
    requires
        config.chrome_headless,
        o.viewport == Some(v) || (o.viewport is None && v.width == 1280 && v.height == 720),
    ensures
        ({
            let args = launch_args(config, o, version, user_data_dir);
            let h = v.height + 87;
            &&& args.contains(
                "--window-size="@ + decimal(v.width as nat) + ","@ + decimal(h as nat),
            )
            &&& v.width <= 1920 && h <= 1080 ==> args.contains("--screen-info={1920x1080}"@)
            &&& !(v.width <= 1920 && h <= 1080) && v.width <= 2560 && h <= 1440 ==> args.contains(
                "--screen-info={2560x1440}"@,
            )
            &&& !(v.width <= 2560 && h <= 1440) && v.width <= 3840 && h <= 2160 ==> args.contains(
                "--screen-info={3840x2160}"@,
            )
            &&& !(v.width <= 3840 && h <= 2160) ==> args.contains(
                "--screen-info={"@ + decimal(v.width as nat) + "x"@ + decimal(h as nat) + "}"@,
            )
        }),
{
    let args = launch_args(config, o, version, user_data_dir);
    let own = args.len() - config.chrome_extra_args@.len();
    let window = window_arg(v.width as int, v.height as int);
    let screen = screen_arg(screen_of(v).0, screen_of(v).1);
    law_command_line(config, o, version, user_data_dir, window);
    law_command_line(config, o, version, user_data_dir, screen);
    assert(args =~= args.take(own) + args.skip(own));
    lemma_either(args.take(own), args.skip(own), window);
    lemma_either(args.take(own), args.skip(own), screen);
    reveal_with_fuel(decimal, 5);
    reveal_strlit("--screen-info={");
    reveal_strlit("x");
    reveal_strlit("}");
    reveal_strlit("--screen-info={1920x1080}");
    reveal_strlit("--screen-info={2560x1440}");
    reveal_strlit("--screen-info={3840x2160}");
    assert(screen_arg(1920, 1080) =~= "--screen-info={1920x1080}"@);
    assert(screen_arg(2560, 1440) =~= "--screen-info={2560x1440}"@);
    assert(screen_arg(3840, 2160) =~= "--screen-info={3840x2160}"@);
}

} // verus!
