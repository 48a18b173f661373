//! Server configuration, from environment variables.
//!
//! The variables and what the file system says about the browser paths are
//! plain inputs here; reading them is left to the caller.

use vstd::prelude::*;

use crate::auth::accepted;
use crate::browser_archive::binary_of;
use crate::browser_archive::binary_path;
use crate::browser_archive::INSTALL_ROOT;
use crate::number::parse_number;
use crate::number::parsed;
use crate::number::NumberError;
use crate::text::all_blank;
use crate::text::begins_with;
use crate::text::byte_len;
use crate::text::chars_of;
use crate::text::concat;
use crate::text::hex_digit;
use crate::text::is_hex_digit;
use crate::text::is_white_space;
use crate::text::law_ascii_length;
use crate::text::law_split;
use crate::text::law_trimmed;
use crate::text::lemma_split_single;
use crate::text::length_in_bytes;
use crate::text::lower_letter;
use crate::text::lowered;
use crate::text::same_text;
use crate::text::solid;
use crate::text::split;
use crate::text::split_text;
use crate::text::split_words;
use crate::text::text_of;
use crate::text::texts;
use crate::text::to_lowercase;
use crate::text::trim;
use crate::text::trimmed;
use crate::text::upper_letter;
use crate::text::white_space;
use crate::text::words;
use crate::text::Separator;

verus! {

/// Where the browser build that is launched comes from. `Chromium` ships in
/// the image, `Downloaded` is the archive named by `BROWSER_ARCHIVE_URL`,
/// `Custom` covers `CHROME_PATH` and the `/opt/browser` mount.
#[derive(Clone, Copy, Debug, PartialEq, Eq, Structural)]
pub enum BrowserEngine {
    Chromium,
    Downloaded,
    Custom,
}

/// Browser archive that the operator asked to download.
pub struct BrowserArchive {
    pub url: String,
    /// Lower-case hexadecimal SHA-256 that the archive must match, if any.
    pub sha256: Option<String>,
}

/// An IP address by its octets in network order.
#[derive(Clone, Copy, Debug)]
pub enum IpAddress {
    V4([u8; 4]),
    V6([u8; 16]),
}

/// Server configuration, loaded from environment variables and validated at
/// startup. Times are in milliseconds.
pub struct Config {
    pub host: IpAddress,
    pub port: u16,
    /// Without a token every request is accepted.
    pub token: Option<String>,
    pub max_concurrent_sessions: usize,
    pub max_queue_length: usize,
    pub connection_timeout: u64,
    pub queue_timeout: u64,
    pub chrome_startup_timeout: u64,
    pub shutdown_grace_period: u64,
    pub browser_engine: BrowserEngine,
    /// Executable to launch. For the `Downloaded` engine it may not exist yet
    /// at configuration time.
    pub chrome_path: String,
    pub browser_archive: Option<BrowserArchive>,
    /// Directory where downloaded archives are installed.
    pub browser_archive_root: String,
    pub chrome_headless: bool,
    pub chrome_no_sandbox: bool,
    pub chrome_disable_dev_shm_usage: bool,
    pub chrome_extra_args: Vec<String>,
    /// Locale of sessions that ask for none.
    pub language: Option<String>,
}

/// Stock Chromium shipped in the image.
pub const BUNDLED_CHROMIUM_PATH: &'static str = "/usr/bin/chromium";

/// Where a browser directory provided by the operator is mounted. Without
/// `CHROME_PATH`, this executable takes precedence over a downloaded archive
/// and over the bundled Chromium.
pub const CUSTOM_BROWSER_PATH: &'static str = "/opt/browser/chrome";

impl BrowserEngine {
    /// The engine by its name.
    pub open spec fn text(self) -> Seq<char> {
        match self {
            BrowserEngine::Chromium => "chromium"@,
            BrowserEngine::Downloaded => "downloaded"@,
            BrowserEngine::Custom => "custom"@,
        }
    }

    /// The engine by its name.
    pub fn as_str(&self) -> (r: &'static str)
        ensures
            r@ == self.text(),
    {
        match self {
            BrowserEngine::Chromium => "chromium",
            BrowserEngine::Downloaded => "downloaded",
            BrowserEngine::Custom => "custom",
        }
    }
}

// ---------------------------------------------------------------------------
// Errors
// ---------------------------------------------------------------------------

/// A variable whose value is not accepted, and why.
#[derive(Debug)]
pub enum ConfigError {
    Invalid { name: &'static str, reason: String },
}

/// A `ConfigError` with its texts as characters.
pub struct ConfigErrorView {
    pub name: Seq<char>,
    pub reason: Seq<char>,
}

impl View for ConfigError {
    type V = ConfigErrorView;

    open spec fn view(&self) -> ConfigErrorView {
        match *self {
            ConfigError::Invalid { name, reason } => ConfigErrorView {
                name: name@,
                reason: reason@,
            },
        }
    }
}

impl ConfigError {
    /// The error in words.
    pub fn message(&self) -> (r: String)
        ensures
            r@ == "invalid value for "@ + self@.name + ": "@ + self@.reason,
    {
        match self {
            ConfigError::Invalid { name, reason } => {
                let mut r = concat("invalid value for ", name);
                r.append(": ");
                r.append(reason.as_str());
                r
            },
        }
    }
}

/// The fault of a variable.
pub open spec fn fault(name: Seq<char>, reason: Seq<char>) -> Option<ConfigErrorView> {
    Some(ConfigErrorView { name, reason })
}

/// The value of the variable `name` is not accepted.
pub fn invalid(name: &'static str, reason: &str) -> (r: ConfigError)
    ensures
        Some(r@) == fault(name@, reason@),
{
    ConfigError::Invalid { name, reason: reason.to_owned() }
}

// ---------------------------------------------------------------------------
// Inputs
// ---------------------------------------------------------------------------

/// The environment variables, each `None` when it is not set.
pub struct Environment {
    pub host: Option<String>,
    pub port: Option<String>,
    pub token: Option<String>,
    pub max_concurrent_sessions: Option<String>,
    pub max_queue_length: Option<String>,
    pub browser_archive_url: Option<String>,
    pub browser_archive_sha256: Option<String>,
    pub chrome_path: Option<String>,
    pub chrome_extra_args: Option<String>,
    pub language: Option<String>,
    pub connection_timeout_ms: Option<String>,
    pub queue_timeout_ms: Option<String>,
    pub chrome_startup_timeout_ms: Option<String>,
    pub shutdown_grace_period_ms: Option<String>,
    pub chrome_headless: Option<String>,
    pub chrome_no_sandbox: Option<String>,
    pub chrome_disable_dev_shm_usage: Option<String>,
}

/// What the system tells about the variables.
pub struct Probe {
    /// The address that `host_text` stands for, if it is one.
    pub host: Option<IpAddress>,
    /// `CHROME_PATH` is a file.
    pub chrome_path_is_file: bool,
    /// `CUSTOM_BROWSER_PATH` is a file.
    pub custom_is_file: bool,
    /// `BUNDLED_CHROMIUM_PATH` is a file.
    pub bundled_is_file: bool,
}

// ---------------------------------------------------------------------------
// Values of single variables
// ---------------------------------------------------------------------------

/// What a variable says: its value without the white space around it, unless
/// it is not set or blank.
pub open spec fn given(raw: Option<String>) -> Option<Seq<char>> {
    match raw {
        Some(s) => if trimmed(s@).len() > 0 {
            Some(trimmed(s@))
        } else {
            None
        },
        None => None,
    }
}

/// The number that a variable says, or the default.
pub open spec fn number_of(raw: Option<String>, default: nat, max: nat) -> Result<
    nat,
    NumberError,
> {
    match given(raw) {
        Some(t) => parsed(t, max),
        None => Ok(default),
    }
}

/// The switch that a variable says, or the default. `Err` is the text that
/// names neither position.
pub open spec fn switch_of(raw: Option<String>, default: bool) -> Result<bool, Seq<char>> {
    match given(raw) {
        Some(t) => {
            let word = lowered(t);
            if word == "true"@ || word == "1"@ || word == "yes"@ {
                Ok(true)
            } else if word == "false"@ || word == "0"@ || word == "no"@ {
                Ok(false)
            } else {
                Err(word)
            }
        },
        None => Ok(default),
    }
}

/// A text in quotes, with what cannot be shown escaped.
pub uninterp spec fn debug_quoted(s: Seq<char>) -> Seq<char>;

/// The `Debug` form of a `str`: a function of the text.
#[verifier::external_body]
fn quote(s: &str) -> (r: String)
    ensures
        r@ == debug_quoted(s@),
{
    format!("{s:?}")
}

/// What is wrong with a number, if anything.
pub open spec fn number_fault(name: Seq<char>, value: Result<nat, NumberError>) -> Option<
    ConfigErrorView,
> {
    match value {
        Ok(_) => None,
        Err(e) => fault(name, e.text()),
    }
}

/// What is wrong with a number that must not be 0, if anything.
pub open spec fn positive_fault(
    name: Seq<char>,
    value: Result<nat, NumberError>,
    reason: Seq<char>,
) -> Option<ConfigErrorView> {
    if value == Ok::<nat, NumberError>(0) {
        fault(name, reason)
    } else {
        number_fault(name, value)
    }
}

/// What is wrong with a switch, if anything.
pub open spec fn switch_fault(name: Seq<char>, value: Result<bool, Seq<char>>) -> Option<
    ConfigErrorView,
> {
    match value {
        Ok(_) => None,
        Err(word) => fault(name, "expected a boolean, got "@ + debug_quoted(word)),
    }
}

/// The value of a variable, or the default when it is not set.
pub fn env_str(raw: &Option<String>, default: &str) -> (r: String)
    ensures
        r@ == match *raw {
            Some(s) => s@,
            None => default@,
        },
{
    match raw {
        Some(s) => s.clone(),
        None => default.to_owned(),
    }
}

/// The text of the bind address.
pub open spec fn host_of(env: Environment) -> Seq<char> {
    match env.host {
        Some(s) => s@,
        None => "0.0.0.0"@,
    }
}

/// The text of the bind address: `HOST`, or all interfaces when it is not set.
pub fn host_text(env: &Environment) -> (r: String)
    ensures
        r@ == host_of(*env),
{
    env_str(&env.host, "0.0.0.0")
}

/// The text of the log filter.
pub open spec fn log_filter_of(raw: Option<String>) -> Seq<char> {
    match raw {
        Some(s) => s@,
        None => "info"@,
    }
}

/// The text of the log filter: `LOG_LEVEL`, or `info` when it is not set.
pub fn log_filter(raw: &Option<String>) -> (r: String)
    ensures
        r@ == log_filter_of(*raw),
{
    env_str(raw, "info")
}

/// All characters are ASCII.
pub open spec fn all_ascii(s: Seq<char>) -> bool {
    forall|i: int| 0 <= i < s.len() ==> (#[trigger] s[i] as u32) < 0x80
}

/// The filter can be read without cutting a character in two. It is read by
/// offsets that leave the white space in front out of account, which goes wrong
/// at most where a part begins with white space, is not ASCII and holds one of
/// the characters `=` and `[`.
pub open spec fn readable_filter(text: Seq<char>) -> bool {
    forall|i: int|
        0 <= i < split(text, set![',']).len() ==> readable_part(
            #[trigger] split(text, set![','])[i],
        )
}

/// A part of a filter that can be read.
pub open spec fn readable_part(part: Seq<char>) -> bool {
    ||| all_ascii(part)
    ||| !(part.len() > 0 && white_space(part.first()))
    ||| !part.contains('=') && !part.contains('[')
}

/// A single word of ASCII letters, such as the name of a level.
pub open spec fn single_word(s: Seq<char>) -> bool {
    s.len() > 0 && forall|i: int|
        0 <= i < s.len() ==> upper_letter(#[trigger] s[i]) || lower_letter(s[i])
}

/// The text is a log filter.
pub uninterp spec fn is_filter(text: Seq<char>) -> bool;

/// `EnvFilter::try_new` of `tracing_subscriber`: whether it accepts the text,
/// which is a function of the text. A single word of letters is always a
/// filter: the name of a level, or else that of a target. It may panic where a
/// part of the filter cannot be read.
#[verifier::external_body]
fn takes_filter(text: &str) -> (r: bool)
    requires
        readable_filter(text@),
    ensures
        r == is_filter(text@),
        single_word(text@) ==> r,
{
    tracing_subscriber::EnvFilter::try_new(text).is_ok()
}

fn is_readable_part(part: &str) -> (r: bool)
    ensures
        r == readable_part(part@),
{
    let cs = chars_of(part);
    if cs.len() == 0 || !is_white_space(cs[0]) {
        return true;
    }
    let mut ascii = true;
    let mut marked = false;
    let mut i: usize = 0;
    while i < cs.len()
        invariant
            cs@ == part@,
            i <= cs@.len(),
            ascii == all_ascii(part@.take(i as int)),
            marked == (part@.take(i as int).contains('=') || part@.take(i as int).contains('[')),
        decreases cs@.len() - i,
    {
        let c: char = cs[i];
        proof {
            lemma_one_more(part@, i as int);
        }
        if c as u32 >= 0x80 {
            ascii = false;
        }
        if c == '=' || c == '[' {
            marked = true;
        }
        i += 1;
    }
    assert(part@.take(part@.len() as int) =~= part@);
    ascii || !marked
}

/// What the first characters of a text hold, with one more of them.
proof fn lemma_one_more(s: Seq<char>, i: int)
    requires
        0 <= i < s.len(),
    ensures
        all_ascii(s.take(i + 1)) <==> all_ascii(s.take(i)) && (s[i] as u32) < 0x80,
        forall|c: char|
            #![auto]
            s.take(i + 1).contains(c) <==> s.take(i).contains(c) || s[i] == c,
{
    let a = s.take(i);
    let b = s.take(i + 1);
    assert(b[i] == s[i]);
    assert(forall|j: int| 0 <= j < i ==> a[j] == b[j]);
    if all_ascii(b) {
        assert forall|j: int| 0 <= j < a.len() implies (#[trigger] a[j] as u32) < 0x80 by {
            assert((b[j] as u32) < 0x80);
        }
        assert((b[i] as u32) < 0x80);
    }
    assert forall|c: char| #![auto] b.contains(c) <==> a.contains(c) || s[i] == c by {
        if b.contains(c) {
            let k = choose|k: int| 0 <= k < b.len() && b[k] == c;
            assert(k < i ==> a[k] == c);
        }
        if a.contains(c) {
            let k = choose|k: int| 0 <= k < a.len() && a[k] == c;
            assert(b[k] == c);
        }
    }
}

fn is_readable_filter(text: &str) -> (r: bool)
    ensures
        r == readable_filter(text@),
{
    let parts = split_text(text, &Separator::Char(','));
    let ghost pieces = split(text@, set![',']);
    let mut i: usize = 0;
    while i < parts.len()
        invariant
            texts(parts@) == pieces,
            pieces == split(text@, set![',']),
            i <= parts@.len(),
            forall|j: int| 0 <= j < i ==> readable_part(#[trigger] pieces[j]),
        decreases parts@.len() - i,
    {
        assert(pieces[i as int] == parts@[i as int]@);
        if !is_readable_part(parts[i].as_str()) {
            return false;
        }
        i += 1;
    }
    true
}

/// The log filter to use, given whether its text is one; any other text is an
/// invalid value of `LOG_LEVEL`.
pub fn chosen_filter(raw: &Option<String>, accepted: bool) -> (r: Result<String, ConfigError>)
    ensures
        match r {
            Ok(text) => accepted && text@ == log_filter_of(*raw),
            Err(e) => !accepted && Some(e@) == fault("LOG_LEVEL"@, "expected a log level"@),
        },
{
    if accepted {
        Ok(log_filter(raw))
    } else {
        Err(invalid("LOG_LEVEL", "expected a log level"))
    }
}

/// The log filter to use: the text of `LOG_LEVEL`, or `info` when it is not
/// set. A text that is no filter is refused. The name of a level, or any other
/// single word, never is.
pub fn log_level(raw: &Option<String>) -> (r: Result<String, ConfigError>)
    ensures
        match r {
            Ok(text) => text@ == log_filter_of(*raw) && readable_filter(text@) && is_filter(text@),
            Err(e) => !(readable_filter(log_filter_of(*raw)) && is_filter(log_filter_of(*raw)))
                && Some(e@) == fault("LOG_LEVEL"@, "expected a log level"@),
        },
        single_word(log_filter_of(*raw)) ==> r is Ok,
        *raw is None ==> r is Ok,
{
    let text = log_filter(raw);
    proof {
        reveal_strlit("info");
        assert(single_word("info"@));
        if single_word(text@) {
            lemma_word_is_readable(text@);
        }
    }
    let accepted = is_readable_filter(text.as_str()) && takes_filter(text.as_str());
    chosen_filter(raw, accepted)
}

/// A single word can be read.
proof fn lemma_word_is_readable(s: Seq<char>)
    requires
        single_word(s),
    ensures
        readable_filter(s),
{
    assert forall|i: int| 0 <= i < s.len() implies !set![','].contains(#[trigger] s[i]) by {
        assert(upper_letter(s[i]) || lower_letter(s[i]));
    }
    lemma_split_single(s, set![',']);
    assert(all_ascii(s)) by {
        assert forall|i: int| 0 <= i < s.len() implies (#[trigger] s[i] as u32) < 0x80 by {
            assert(upper_letter(s[i]) || lower_letter(s[i]));
        }
    }
}

/// What a variable says, unless it is not set or blank.
pub fn env_given(raw: &Option<String>) -> (r: Option<String>)
    ensures
        text_of(r) == given(*raw),
{
    match raw {
        Some(s) => {
            let t = trim(s.as_str());
            if t.is_empty() {
                None
            } else {
                Some(t.to_owned())
            }
        },
        None => None,
    }
}

/// The number of at most `max` that a variable says, or the default.
pub fn env_parse(name: &'static str, raw: &Option<String>, default: u64, max: u64) -> (r: Result<
    u64,
    ConfigError,
>)
    ensures
        match r {
            Ok(v) => number_of(*raw, default as nat, max as nat) == Ok::<nat, NumberError>(
                v as nat,
            ),
            Err(e) => number_fault(name@, number_of(*raw, default as nat, max as nat)) == Some(e@),
        },
{
    match env_given(raw) {
        Some(t) => match parse_number(t.as_str(), max) {
            Ok(v) => Ok(v),
            Err(e) => Err(invalid(name, e.message())),
        },
        None => Ok(default),
    }
}

/// The number of at most `max` that a variable says, or the default; 0 is
/// refused with the reason given.
fn env_positive(
    name: &'static str,
    raw: &Option<String>,
    default: u64,
    max: u64,
    reason: &str,
) -> (r: Result<u64, ConfigError>)
    ensures
        match r {
            Ok(v) => v > 0 && number_of(*raw, default as nat, max as nat) == Ok::<
                nat,
                NumberError,
            >(v as nat),
            Err(e) => positive_fault(
                name@,
                number_of(*raw, default as nat, max as nat),
                reason@,
            ) == Some(e@),
        },
{
    match env_parse(name, raw, default, max) {
        Ok(v) => {
            if v == 0 {
                Err(invalid(name, reason))
            } else {
                Ok(v)
            }
        },
        Err(e) => Err(e),
    }
}

/// The switch that a variable says, or the default.
pub fn env_bool(name: &'static str, raw: &Option<String>, default: bool) -> (r: Result<
    bool,
    ConfigError,
>)
    ensures
        match r {
            Ok(v) => switch_of(*raw, default) == Ok::<bool, Seq<char>>(v),
            Err(e) => switch_fault(name@, switch_of(*raw, default)) == Some(e@),
        },
{
    match env_given(raw) {
        Some(t) => {
            let lower = to_lowercase(t.as_str());
            let word = lower.as_str();
            if same_text(word, "true") || same_text(word, "1") || same_text(word, "yes") {
                Ok(true)
            } else if same_text(word, "false") || same_text(word, "0") || same_text(word, "no") {
                Ok(false)
            } else {
                let reason = concat("expected a boolean, got ", quote(word).as_str());
                Err(invalid(name, reason.as_str()))
            }
        },
        None => Ok(default),
    }
}

/// The milliseconds that a variable says, or the default; never 0.
pub fn env_duration_ms(name: &'static str, raw: &Option<String>, default_ms: u64) -> (r: Result<
    u64,
    ConfigError,
>)
    ensures
        match r {
            Ok(v) => v > 0 && number_of(*raw, default_ms as nat, u64::MAX as nat) == Ok::<
                nat,
                NumberError,
            >(v as nat),
            Err(e) => duration_fault(
                name@,
                number_of(*raw, default_ms as nat, u64::MAX as nat),
            ) == Some(e@),
        },
{
    env_positive(name, raw, default_ms, u64::MAX, "must be greater than 0")
}

/// What is wrong with a duration, if anything.
pub open spec fn duration_fault(name: Seq<char>, value: Result<nat, NumberError>) -> Option<
    ConfigErrorView,
> {
    positive_fault(name, value, "must be greater than 0"@)
}

// ---------------------------------------------------------------------------
// Browser archive and browser path
// ---------------------------------------------------------------------------

/// The checksum that the environment says, in lower case.
pub open spec fn given_sha256(env: Environment) -> Option<Seq<char>> {
    match given(env.browser_archive_sha256) {
        Some(t) => Some(lowered(t)),
        None => None,
    }
}

/// 64 hexadecimal digits.
pub open spec fn valid_sha256(s: Seq<char>) -> bool {
    byte_len(s) == 64 && forall|i: int| 0 <= i < s.len() ==> hex_digit(#[trigger] s[i])
}

/// A URL that can be fetched over HTTP.
pub open spec fn http_url(s: Seq<char>) -> bool {
    "https://"@.is_prefix_of(s) || "http://"@.is_prefix_of(s)
}

/// What is wrong with the archive variables, if anything.
pub open spec fn archive_fault(env: Environment) -> Option<ConfigErrorView> {
    match (given(env.browser_archive_url), given_sha256(env)) {
        (None, None) => None,
        (None, Some(_)) => fault(
            "BROWSER_ARCHIVE_URL"@,
            "required with BROWSER_ARCHIVE_SHA256"@,
        ),
        (Some(url), sha256) => if !http_url(url) {
            fault(
                "BROWSER_ARCHIVE_URL"@,
                "expected an http(s) URL to a .tar.gz or .zip archive"@,
            )
        } else if sha256 matches Some(s) && !valid_sha256(s) {
            fault("BROWSER_ARCHIVE_SHA256"@, "expected 64 hexadecimal characters"@)
        } else {
            None
        },
    }
}

/// The browser that is launched, and where it is: an explicit `CHROME_PATH`,
/// else a browser mounted at `/opt/browser`, else a downloaded archive, else
/// the bundled Chromium.
pub open spec fn chosen_browser(env: Environment, probe: Probe) -> (BrowserEngine, Seq<char>) {
    match given(env.chrome_path) {
        Some(path) => (BrowserEngine::Custom, path),
        None => if probe.custom_is_file {
            (BrowserEngine::Custom, CUSTOM_BROWSER_PATH@)
        } else {
            match given(env.browser_archive_url) {
                Some(url) => (BrowserEngine::Downloaded, binary_of(INSTALL_ROOT@, url)),
                None => (BrowserEngine::Chromium, BUNDLED_CHROMIUM_PATH@),
            }
        },
    }
}

/// The browser that is launched is there, or will be downloaded.
pub open spec fn browser_available(env: Environment, probe: Probe) -> bool {
    match given(env.chrome_path) {
        Some(_) => probe.chrome_path_is_file,
        None => probe.custom_is_file || given(env.browser_archive_url) is Some
            || probe.bundled_is_file,
    }
}

/// What is wrong with the browser path, if anything.
pub open spec fn browser_fault(env: Environment, probe: Probe) -> Option<ConfigErrorView> {
    if browser_available(env, probe) {
        None
    } else {
        fault("CHROME_PATH"@, chosen_browser(env, probe).1 + " is not an executable file"@)
    }
}

fn is_valid_sha256(s: &str) -> (r: bool)
    ensures
        r == valid_sha256(s@),
{
    if length_in_bytes(s) != 64 {
        return false;
    }
    let cs = chars_of(s);
    let mut i: usize = 0;
    while i < cs.len()
        invariant
            cs@ == s@,
            i <= cs@.len(),
            forall|j: int| 0 <= j < i ==> hex_digit(#[trigger] s@[j]),
        decreases cs@.len() - i,
    {
        if !is_hex_digit(cs[i]) {
            assert(!hex_digit(s@[i as int]));
            return false;
        }
        i += 1;
    }
    true
}

/// The archive that the environment asks for.
fn env_archive(env: &Environment) -> (r: Result<Option<BrowserArchive>, ConfigError>)
    ensures
        match r {
            Ok(archive) => archive_fault(*env) is None && archive_matches(archive, *env),
            Err(e) => archive_fault(*env) == Some(e@),
        },
{
    let url = env_given(&env.browser_archive_url);
    let sha256 = match env_given(&env.browser_archive_sha256) {
        Some(t) => Some(to_lowercase(t.as_str())),
        None => None,
    };
    match url {
        None => {
            if sha256.is_some() {
                return Err(invalid("BROWSER_ARCHIVE_URL", "required with BROWSER_ARCHIVE_SHA256"));
            }
            Ok(None)
        },
        Some(url) => {
            if !(begins_with(url.as_str(), "https://") || begins_with(url.as_str(), "http://")) {
                return Err(
                    invalid(
                        "BROWSER_ARCHIVE_URL",
                        "expected an http(s) URL to a .tar.gz or .zip archive",
                    ),
                );
            }
            if let Some(s) = &sha256 {
                if !is_valid_sha256(s.as_str()) {
                    return Err(
                        invalid("BROWSER_ARCHIVE_SHA256", "expected 64 hexadecimal characters"),
                    );
                }
            }
            Ok(Some(BrowserArchive { url, sha256 }))
        },
    }
}

/// `archive` is the one that the environment asks for.
pub open spec fn archive_matches(archive: Option<BrowserArchive>, env: Environment) -> bool {
    match archive {
        Some(a) => given(env.browser_archive_url) == Some(a.url@) && text_of(a.sha256)
            == given_sha256(env),
        None => given(env.browser_archive_url) is None,
    }
}

/// The browser that is launched, and where it is.
fn env_browser(env: &Environment, probe: &Probe, archive: &Option<BrowserArchive>) -> (r: Result<
    (BrowserEngine, String),
    ConfigError,
>)
    requires
        archive_matches(*archive, *env),
    ensures
        match r {
            Ok((engine, path)) => browser_fault(*env, *probe) is None && (engine, path@)
                == chosen_browser(*env, *probe),
            Err(e) => browser_fault(*env, *probe) == Some(e@),
        },
{
    let (engine, path, available) = match env_given(&env.chrome_path) {
        Some(path) => (BrowserEngine::Custom, path, probe.chrome_path_is_file),
        None => {
            if probe.custom_is_file {
                (BrowserEngine::Custom, CUSTOM_BROWSER_PATH.to_owned(), true)
            } else {
                match archive {
                    Some(a) => (
                        BrowserEngine::Downloaded,
                        binary_path(INSTALL_ROOT, a.url.as_str()),
                        true,
                    ),
                    None => (
                        BrowserEngine::Chromium,
                        BUNDLED_CHROMIUM_PATH.to_owned(),
                        probe.bundled_is_file,
                    ),
                }
            }
        },
    };
    if available {
        Ok((engine, path))
    } else {
        let reason = concat(path.as_str(), " is not an executable file");
        Err(invalid("CHROME_PATH", reason.as_str()))
    }
}

// ---------------------------------------------------------------------------
// The whole configuration
// ---------------------------------------------------------------------------

/// The first of two faults.
pub open spec fn first(a: Option<ConfigErrorView>, b: Option<ConfigErrorView>) -> Option<
    ConfigErrorView,
> {
    if a is Some {
        a
    } else {
        b
    }
}

pub open spec fn port_of(env: Environment) -> Result<nat, NumberError> {
    number_of(env.port, 3000, 65535)
}

pub open spec fn sessions_of(env: Environment) -> Result<nat, NumberError> {
    number_of(env.max_concurrent_sessions, 10, usize::MAX as nat)
}

pub open spec fn queue_of(env: Environment) -> Result<nat, NumberError> {
    number_of(env.max_queue_length, 20, usize::MAX as nat)
}

pub open spec fn duration_of(raw: Option<String>, default_ms: nat) -> Result<nat, NumberError> {
    number_of(raw, default_ms, u64::MAX as nat)
}

/// What is wrong with the address, the limits and the browser, if anything.
pub open spec fn service_fault(env: Environment, probe: Probe) -> Option<ConfigErrorView> {
    let host = if probe.host is Some {
        None
    } else {
        fault("HOST"@, "expected an IP address"@)
    };
    let port = positive_fault("PORT"@, port_of(env), "must be between 1 and 65535"@);
    let sessions = positive_fault(
        "MAX_CONCURRENT_SESSIONS"@,
        sessions_of(env),
        "must be at least 1"@,
    );
    let queue = number_fault("MAX_QUEUE_LENGTH"@, queue_of(env));
    first(
        host,
        first(
            port,
            first(sessions, first(queue, first(archive_fault(env), browser_fault(env, probe)))),
        ),
    )
}

/// What is wrong with the timeouts, if anything.
pub open spec fn timeout_fault(env: Environment) -> Option<ConfigErrorView> {
    first(
        duration_fault(
            "CONNECTION_TIMEOUT_MS"@,
            duration_of(env.connection_timeout_ms, 600_000),
        ),
        first(
            duration_fault("QUEUE_TIMEOUT_MS"@, duration_of(env.queue_timeout_ms, 600_000)),
            first(
                duration_fault(
                    "CHROME_STARTUP_TIMEOUT_MS"@,
                    duration_of(env.chrome_startup_timeout_ms, 15_000),
                ),
                duration_fault(
                    "SHUTDOWN_GRACE_PERIOD_MS"@,
                    duration_of(env.shutdown_grace_period_ms, 10_000),
                ),
            ),
        ),
    )
}

/// What is wrong with the switches, if anything.
pub open spec fn switches_fault(env: Environment) -> Option<ConfigErrorView> {
    first(
        switch_fault("CHROME_HEADLESS"@, switch_of(env.chrome_headless, true)),
        first(
            switch_fault("CHROME_NO_SANDBOX"@, switch_of(env.chrome_no_sandbox, true)),
            switch_fault(
                "CHROME_DISABLE_DEV_SHM_USAGE"@,
                switch_of(env.chrome_disable_dev_shm_usage, true),
            ),
        ),
    )
}

/// The first fault of the environment, if any.
pub open spec fn config_fault(env: Environment, probe: Probe) -> Option<ConfigErrorView> {
    first(service_fault(env, probe), first(timeout_fault(env), switches_fault(env)))
}

/// `c` holds what the variables say, with the defaults for the others.
pub open spec fn configured(c: Config, env: Environment, probe: Probe) -> bool {
    &&& Some(c.host) == probe.host
    &&& port_of(env) == Ok::<nat, NumberError>(c.port as nat)
    &&& text_of(c.token) == given(env.token)
    &&& sessions_of(env) == Ok::<nat, NumberError>(c.max_concurrent_sessions as nat)
    &&& queue_of(env) == Ok::<nat, NumberError>(c.max_queue_length as nat)
    &&& duration_of(env.connection_timeout_ms, 600_000) == Ok::<nat, NumberError>(
        c.connection_timeout as nat,
    )
    &&& duration_of(env.queue_timeout_ms, 600_000) == Ok::<nat, NumberError>(
        c.queue_timeout as nat,
    )
    &&& duration_of(env.chrome_startup_timeout_ms, 15_000) == Ok::<nat, NumberError>(
        c.chrome_startup_timeout as nat,
    )
    &&& duration_of(env.shutdown_grace_period_ms, 10_000) == Ok::<nat, NumberError>(
        c.shutdown_grace_period as nat,
    )
    &&& (c.browser_engine, c.chrome_path@) == chosen_browser(env, probe)
    &&& archive_matches(c.browser_archive, env)
    &&& c.browser_archive_root@ == INSTALL_ROOT@
    &&& switch_of(env.chrome_headless, true) == Ok::<bool, Seq<char>>(c.chrome_headless)
    &&& switch_of(env.chrome_no_sandbox, true) == Ok::<bool, Seq<char>>(c.chrome_no_sandbox)
    &&& switch_of(env.chrome_disable_dev_shm_usage, true) == Ok::<bool, Seq<char>>(
        c.chrome_disable_dev_shm_usage,
    )
    &&& texts(c.chrome_extra_args@) == match env.chrome_extra_args {
        Some(raw) => words(raw@),
        None => Seq::empty(),
    }
    &&& text_of(c.language) == given(env.language)
}

impl Config {
    /// The configuration that the environment variables say, or the first
    /// variable whose value is not accepted.
    pub fn from_env(env: &Environment, probe: &Probe) -> (r: Result<Config, ConfigError>)
        ensures
            match r {
                Ok(c) => config_fault(*env, *probe) is None && configured(c, *env, *probe),
                Err(e) => config_fault(*env, *probe) == Some(e@),
            },
    {
        let host = match probe.host {
            Some(host) => host,
            None => return Err(invalid("HOST", "expected an IP address")),
        };
        let port = match env_positive(
            "PORT",
            &env.port,
            3000,
            65535,
            "must be between 1 and 65535",
        ) {
            Ok(v) => v as u16,
            Err(e) => return Err(e),
        };
        let token = env_given(&env.token);
        let max_concurrent_sessions = match env_positive(
            "MAX_CONCURRENT_SESSIONS",
            &env.max_concurrent_sessions,
            10,
            usize::MAX as u64,
            "must be at least 1",
        ) {
            Ok(v) => v as usize,
            Err(e) => return Err(e),
        };
        let max_queue_length = match env_parse(
            "MAX_QUEUE_LENGTH",
            &env.max_queue_length,
            20,
            usize::MAX as u64,
        ) {
            Ok(v) => v as usize,
            Err(e) => return Err(e),
        };
        let browser_archive = match env_archive(env) {
            Ok(archive) => archive,
            Err(e) => return Err(e),
        };
        let (browser_engine, chrome_path) = match env_browser(env, probe, &browser_archive) {
            Ok(chosen) => chosen,
            Err(e) => return Err(e),
        };
        let chrome_extra_args = match &env.chrome_extra_args {
            Some(raw) => split_words(raw.as_str()),
            None => Vec::new(),
        };
        assert(env.chrome_extra_args is None ==> texts(chrome_extra_args@) =~= Seq::<
            Seq<char>,
        >::empty());
        let language = env_given(&env.language);
        let connection_timeout = match env_duration_ms(
            "CONNECTION_TIMEOUT_MS",
            &env.connection_timeout_ms,
            600_000,
        ) {
            Ok(v) => v,
            Err(e) => return Err(e),
        };
        let queue_timeout = match env_duration_ms(
            "QUEUE_TIMEOUT_MS",
            &env.queue_timeout_ms,
            600_000,
        ) {
            Ok(v) => v,
            Err(e) => return Err(e),
        };
        let chrome_startup_timeout = match env_duration_ms(
            "CHROME_STARTUP_TIMEOUT_MS",
            &env.chrome_startup_timeout_ms,
            15_000,
        ) {
            Ok(v) => v,
            Err(e) => return Err(e),
        };
        let shutdown_grace_period = match env_duration_ms(
            "SHUTDOWN_GRACE_PERIOD_MS",
            &env.shutdown_grace_period_ms,
            10_000,
        ) {
            Ok(v) => v,
            Err(e) => return Err(e),
        };
        let chrome_headless = match env_bool("CHROME_HEADLESS", &env.chrome_headless, true) {
            Ok(v) => v,
            Err(e) => return Err(e),
        };
        let chrome_no_sandbox = match env_bool("CHROME_NO_SANDBOX", &env.chrome_no_sandbox, true) {
            Ok(v) => v,
            Err(e) => return Err(e),
        };
        let chrome_disable_dev_shm_usage = match env_bool(
            "CHROME_DISABLE_DEV_SHM_USAGE",
            &env.chrome_disable_dev_shm_usage,
            true,
        ) {
            Ok(v) => v,
            Err(e) => return Err(e),
        };
        Ok(
            Config {
                host,
                port,
                token,
                max_concurrent_sessions,
                max_queue_length,
                connection_timeout,
                queue_timeout,
                chrome_startup_timeout,
                shutdown_grace_period,
                browser_engine,
                chrome_path,
                browser_archive,
                browser_archive_root: INSTALL_ROOT.to_owned(),
                chrome_headless,
                chrome_no_sandbox,
                chrome_disable_dev_shm_usage,
                chrome_extra_args,
                language,
            },
        )
    }
}

// ---------------------------------------------------------------------------
// Laws
// ---------------------------------------------------------------------------

/// A configuration that the server can run with.
pub open spec fn sound(c: Config) -> bool {
    &&& 1 <= c.port
    &&& 1 <= c.max_concurrent_sessions
    &&& 1 <= c.connection_timeout
    &&& 1 <= c.queue_timeout
    &&& 1 <= c.chrome_startup_timeout
    &&& 1 <= c.shutdown_grace_period
    &&& c.token matches Some(t) ==> t@.len() > 0
    &&& c.browser_engine == BrowserEngine::Downloaded ==> c.browser_archive is Some
    &&& c.browser_engine == BrowserEngine::Downloaded ==> c.chrome_path@ == binary_of(
        c.browser_archive_root@,
        c.browser_archive->0.url@,
    )
    &&& c.browser_archive matches Some(a) ==> http_url(a.url@)
    &&& c.browser_archive matches Some(a) ==> (a.sha256 matches Some(s) ==> valid_sha256(s@)
        && forall|i: int| 0 <= i < s@.len() ==> !upper_letter(#[trigger] s@[i]))
}

/// Invalid values prevent the server from starting: a configuration that is
/// accepted has no zero port, limit or timeout, no blank token, and an
/// archive that can be fetched and checked wherever one is needed.
pub proof fn law_accepted_config_is_sound(c: Config, env: Environment, probe: Probe)
    requires
        config_fault(env, probe) is None,
        configured(c, env, probe),
    ensures
        sound(c),
{
    if let Some(a) = c.browser_archive {
        if let Some(s) = a.sha256 {
            let t = given(env.browser_archive_sha256)->0;
            assert(s@ == lowered(t));
            assert forall|i: int| 0 <= i < s@.len() implies !upper_letter(#[trigger] s@[i]) by {
                assert(s@[i] == crate::text::lower(t[i]));
            }
        }
    }
}

/// An explicit `CHROME_PATH` wins over a mounted browser, which wins over a
/// downloaded archive, which wins over the bundled Chromium.
pub proof fn law_browser_precedence(env: Environment, probe: Probe)
    ensures
        given(env.chrome_path) matches Some(path) ==> chosen_browser(env, probe) == (
            BrowserEngine::Custom,
            path,
        ),
        given(env.chrome_path) is None && probe.custom_is_file ==> chosen_browser(env, probe).1
            == CUSTOM_BROWSER_PATH@,
        chosen_browser(env, probe).0 == BrowserEngine::Downloaded <==> given(env.chrome_path)
            is None && !probe.custom_is_file && given(env.browser_archive_url) is Some,
        chosen_browser(env, probe).0 == BrowserEngine::Chromium <==> given(env.chrome_path) is None
            && !probe.custom_is_file && given(env.browser_archive_url) is None,
{
}

/// A token that is not set or blank disables authentication: every request is
/// accepted.
pub proof fn law_blank_token_disables_authentication(
    c: Config,
    env: Environment,
    probe: Probe,
    query_token: Option<Seq<char>>,
    authorization: Option<Seq<char>>,
)
    requires
        configured(c, env, probe),
        given(env.token) is None,
    ensures
        accepted(text_of(c.token), query_token, authorization),
{
}

/// A variable says its value without the white space around it, and nothing when
/// it is not set or holds white space alone.
pub proof fn law_given(raw: String, a: Seq<char>, text: Seq<char>, b: Seq<char>)
    requires
        raw@ == a + text + b,
        all_blank(a),
        all_blank(b),
        solid(text) || text.len() == 0,
    ensures
        given(Some(raw)) == if text.len() > 0 {
            Some(text)
        } else {
            None
        },
        given(None) == None::<Seq<char>>,
{
    law_trimmed(a, text, b);
}

/// The words decide a switch, in any case of their letters: `true`, `1` and `yes`
/// switch it on, `false`, `0` and `no` switch it off, nothing else that is said is
/// taken, and without a word the default holds.
pub proof fn law_switch_words(raw: Option<String>, default: bool)
    ensures
        given(raw) is None ==> switch_of(raw, default) == Ok::<bool, Seq<char>>(default),
        given(raw) matches Some(t) ==> {
            let on = lowered(t) == "true"@ || lowered(t) == "1"@ || lowered(t) == "yes"@;
            let off = lowered(t) == "false"@ || lowered(t) == "0"@ || lowered(t) == "no"@;
            &&& switch_of(raw, default) == Ok::<bool, Seq<char>>(true) <==> on
            &&& switch_of(raw, default) == Ok::<bool, Seq<char>>(false) <==> off
            &&& switch_of(raw, default) == Err::<bool, Seq<char>>(lowered(t)) <==> !on && !off
        },
{
    reveal_strlit("true");
    reveal_strlit("1");
    reveal_strlit("yes");
    reveal_strlit("false");
    reveal_strlit("0");
    reveal_strlit("no");
    assert("true"@.len() == 4 && "1"@.len() == 1 && "yes"@.len() == 3);
    assert("false"@.len() == 5 && "0"@.len() == 1 && "no"@.len() == 2);
    assert("1"@[0] != "0"@[0]);
}

/// `on` is what the variable of a switch says: on for `true`, `1` and `yes`, off
/// for `false`, `0` and `no`, and on when it says nothing.
pub open spec fn switched(raw: Option<String>, on: bool) -> bool {
    match given(raw) {
        None => on,
        Some(t) => {
            &&& on <==> lowered(t) == "true"@ || lowered(t) == "1"@ || lowered(t) == "yes"@
            &&& !on <==> lowered(t) == "false"@ || lowered(t) == "0"@ || lowered(t) == "no"@
        },
    }
}

/// A configuration that is accepted has its three switches as the words say, on
/// where nothing is said.
pub proof fn law_configured_switches(c: Config, env: Environment, probe: Probe)
    requires
        configured(c, env, probe),
    ensures
        switched(env.chrome_headless, c.chrome_headless),
        switched(env.chrome_no_sandbox, c.chrome_no_sandbox),
        switched(env.chrome_disable_dev_shm_usage, c.chrome_disable_dev_shm_usage),
{
    law_switch_words(env.chrome_headless, true);
    law_switch_words(env.chrome_no_sandbox, true);
    law_switch_words(env.chrome_disable_dev_shm_usage, true);
}

/// `value` is the number that a variable says, at most `max`, or the default
/// where it says nothing.
pub open spec fn says_number(raw: Option<String>, default: nat, max: nat, value: nat) -> bool {
    match given(raw) {
        None => value == default,
        Some(t) => parsed(t, max) == Ok::<nat, NumberError>(value),
    }
}

/// A configuration that is accepted holds in each of its fields what the variable
/// of that name says, or else the default: port 3000, 10 sessions, 20 queue
/// places, ten minutes for a session and for the wait, 15 seconds for the startup
/// and 10 for the shutdown, and no token, language or extra arguments.
pub proof fn law_configured_values(c: Config, env: Environment, probe: Probe)
    requires
        configured(c, env, probe),
    ensures
        probe.host == Some(c.host),
        says_number(env.port, 3000, 65535, c.port as nat),
        says_number(
            env.max_concurrent_sessions,
            10,
            usize::MAX as nat,
            c.max_concurrent_sessions as nat,
        ),
        says_number(env.max_queue_length, 20, usize::MAX as nat, c.max_queue_length as nat),
        says_number(
            env.connection_timeout_ms,
            600_000,
            u64::MAX as nat,
            c.connection_timeout as nat,
        ),
        says_number(env.queue_timeout_ms, 600_000, u64::MAX as nat, c.queue_timeout as nat),
        says_number(
            env.chrome_startup_timeout_ms,
            15_000,
            u64::MAX as nat,
            c.chrome_startup_timeout as nat,
        ),
        says_number(
            env.shutdown_grace_period_ms,
            10_000,
            u64::MAX as nat,
            c.shutdown_grace_period as nat,
        ),
        match c.token {
            Some(t) => given(env.token) == Some(t@),
            None => given(env.token) is None,
        },
        match c.language {
            Some(t) => given(env.language) == Some(t@),
            None => given(env.language) is None,
        },
        c.chrome_extra_args@.len() == match env.chrome_extra_args {
            Some(s) => words(s@).len(),
            None => 0,
        },
        env.chrome_extra_args matches Some(s) ==> forall|i: int|
            0 <= i < c.chrome_extra_args@.len() ==> (#[trigger] c.chrome_extra_args@[i])@ == words(
                s@,
            )[i],
        match c.browser_archive {
            Some(a) => given(env.browser_archive_url) == Some(a.url@),
            None => given(env.browser_archive_url) is None,
        },
        c.browser_archive matches Some(a) ==> match a.sha256 {
            Some(s) => given(env.browser_archive_sha256) matches Some(t) && s@ == lowered(t),
            None => given(env.browser_archive_sha256) is None,
        },
        c.browser_archive_root@ == "/opt/browsers"@,
{
    if let Some(s) = env.chrome_extra_args {
        assert(texts(c.chrome_extra_args@) == words(s@));
        assert forall|i: int| 0 <= i < c.chrome_extra_args@.len() implies (
        #[trigger] c.chrome_extra_args@[i])@ == words(s@)[i] by {
            assert(texts(c.chrome_extra_args@)[i] == c.chrome_extra_args@[i]@);
        }
    } else {
        assert(texts(c.chrome_extra_args@).len() == c.chrome_extra_args@.len());
    }
}

/// The browser is at the path that was chosen: the one given, the mounted one, the
/// executable of the archive in the install volume, or the bundled one. It has to
/// be a file already unless it is to be downloaded.
pub proof fn law_browser_path(env: Environment, probe: Probe)
    ensures
        given(env.chrome_path) matches Some(path) ==> chosen_browser(env, probe) == (
            BrowserEngine::Custom,
            path,
        ) && (browser_fault(env, probe) is None <==> probe.chrome_path_is_file),
        given(env.chrome_path) is None && probe.custom_is_file ==> chosen_browser(env, probe) == (
            BrowserEngine::Custom,
            "/opt/browser/chrome"@,
        ) && browser_fault(env, probe) is None,
        given(env.chrome_path) is None && !probe.custom_is_file && given(env.browser_archive_url)
            is Some ==> chosen_browser(env, probe) == (
            BrowserEngine::Downloaded,
            binary_of("/opt/browsers"@, given(env.browser_archive_url)->0),
        ) && browser_fault(env, probe) is None,
        given(env.chrome_path) is None && !probe.custom_is_file && given(env.browser_archive_url)
            is None ==> chosen_browser(env, probe) == (
            BrowserEngine::Chromium,
            "/usr/bin/chromium"@,
        ) && (browser_fault(env, probe) is None <==> probe.bundled_is_file),
        browser_fault(env, probe) matches Some(e) ==> e.name == "CHROME_PATH"@ && e.reason
            == chosen_browser(env, probe).1 + " is not an executable file"@,
{
}

/// An archive needs an http or https URL, and its checksum, where there is one, 64
/// hexadecimal digits; a checksum without a URL is refused.
pub proof fn law_archive_variables(env: Environment)
    ensures
        ({
            let url = given(env.browser_archive_url);
            let sha256 = given(env.browser_archive_sha256);
            let fetchable = url matches Some(u) ==> "https://"@.is_prefix_of(u)
                || "http://"@.is_prefix_of(u);
            let digits = sha256 matches Some(s) ==> lowered(s).len() == 64 && forall|i: int|
                0 <= i < lowered(s).len() ==> hex_digit(#[trigger] lowered(s)[i]);
            let e = archive_fault(env);
            &&& e is None <==> (url is None && sha256 is None) || (url is Some && fetchable
                && digits)
            &&& url is None && sha256 is Some ==> e == Some(
                ConfigErrorView {
                    name: "BROWSER_ARCHIVE_URL"@,
                    reason: "required with BROWSER_ARCHIVE_SHA256"@,
                },
            )
            &&& url is Some && !fetchable ==> e == Some(
                ConfigErrorView {
                    name: "BROWSER_ARCHIVE_URL"@,
                    reason: "expected an http(s) URL to a .tar.gz or .zip archive"@,
                },
            )
            &&& url is Some && fetchable && !digits ==> e == Some(
                ConfigErrorView {
                    name: "BROWSER_ARCHIVE_SHA256"@,
                    reason: "expected 64 hexadecimal characters"@,
                },
            )
        }),
{
    if let Some(t) = given(env.browser_archive_sha256) {
        let s = lowered(t);
        if forall|i: int| 0 <= i < s.len() ==> hex_digit(#[trigger] s[i]) {
            assert forall|i: int| 0 <= i < s.len() implies (#[trigger] s[i] as u32) < 0x80 by {
                assert(hex_digit(s[i]));
            }
            law_ascii_length(s);
        }
    }
}

/// What is wrong with a variable that says a number: why it cannot be read, where
/// it cannot, and that it is 0, where that is not allowed.
pub proof fn law_number_fault(
    name: Seq<char>,
    raw: Option<String>,
    default: nat,
    max: nat,
    reason: Seq<char>,
)
    ensures
        given(raw) is None ==> number_of(raw, default, max) == Ok::<nat, NumberError>(default),
        given(raw) matches Some(t) ==> number_of(raw, default, max) == parsed(t, max),
        number_of(raw, default, max) matches Ok(n) ==> number_fault(
            name,
            number_of(raw, default, max),
        ) is None && (positive_fault(name, number_of(raw, default, max), reason) == if n == 0 {
            Some(ConfigErrorView { name, reason })
        } else {
            None
        }),
        number_of(raw, default, max) matches Err(e) ==> number_fault(
            name,
            number_of(raw, default, max),
        ) == Some(ConfigErrorView { name, reason: e.text() }) && positive_fault(
            name,
            number_of(raw, default, max),
            reason,
        ) == Some(ConfigErrorView { name, reason: e.text() }),
{
}

/// The first of some faults.
pub open spec fn first_of(faults: Seq<Option<ConfigErrorView>>) -> Option<ConfigErrorView>
    decreases faults.len(),
{
    if faults.len() == 0 {
        None
    } else if faults[0] is Some {
        faults[0]
    } else {
        first_of(faults.drop_first())
    }
}

/// The environment is refused for the first variable that is wrong, in the order
/// host, port, sessions, queue, archive, browser, the four timeouts and the three
/// switches, and accepted exactly when none is. Each is named by its own name; the
/// host is wrong when it is no address, a port, a session limit or a timeout also
/// when it is 0.
pub proof fn law_first_fault_counts(env: Environment, probe: Probe)
    ensures
        config_fault(env, probe) == first_of(
            seq![
                if probe.host is Some {
                    None
                } else {
                    Some(
                        ConfigErrorView { name: "HOST"@, reason: "expected an IP address"@ },
                    )
                },
                positive_fault(
                    "PORT"@,
                    number_of(env.port, 3000, 65535),
                    "must be between 1 and 65535"@,
                ),
                positive_fault(
                    "MAX_CONCURRENT_SESSIONS"@,
                    number_of(env.max_concurrent_sessions, 10, usize::MAX as nat),
                    "must be at least 1"@,
                ),
                number_fault(
                    "MAX_QUEUE_LENGTH"@,
                    number_of(env.max_queue_length, 20, usize::MAX as nat),
                ),
                archive_fault(env),
                browser_fault(env, probe),
                positive_fault(
                    "CONNECTION_TIMEOUT_MS"@,
                    number_of(env.connection_timeout_ms, 600_000, u64::MAX as nat),
                    "must be greater than 0"@,
                ),
                positive_fault(
                    "QUEUE_TIMEOUT_MS"@,
                    number_of(env.queue_timeout_ms, 600_000, u64::MAX as nat),
                    "must be greater than 0"@,
                ),
                positive_fault(
                    "CHROME_STARTUP_TIMEOUT_MS"@,
                    number_of(env.chrome_startup_timeout_ms, 15_000, u64::MAX as nat),
                    "must be greater than 0"@,
                ),
                positive_fault(
                    "SHUTDOWN_GRACE_PERIOD_MS"@,
                    number_of(env.shutdown_grace_period_ms, 10_000, u64::MAX as nat),
                    "must be greater than 0"@,
                ),
                switch_fault("CHROME_HEADLESS"@, switch_of(env.chrome_headless, true)),
                switch_fault("CHROME_NO_SANDBOX"@, switch_of(env.chrome_no_sandbox, true)),
                switch_fault(
                    "CHROME_DISABLE_DEV_SHM_USAGE"@,
                    switch_of(env.chrome_disable_dev_shm_usage, true),
                ),
            ],
        ),
{
    reveal_with_fuel(first_of, 14);
}

/// A switch is refused for the word that it says, which is quoted, and a duration
/// when it is no number or 0.
pub proof fn law_switch_and_duration_faults(
    name: Seq<char>,
    word: Seq<char>,
    on: bool,
    n: nat,
    e: NumberError,
)
    ensures
        switch_fault(name, Ok(on)) is None,
        switch_fault(name, Err(word)) == Some(
            ConfigErrorView { name, reason: "expected a boolean, got "@ + debug_quoted(word) },
        ),
        duration_fault(name, Ok(n)) == if n == 0 {
            Some(ConfigErrorView { name, reason: "must be greater than 0"@ })
        } else {
            None
        },
        duration_fault(name, Err(e)) == Some(ConfigErrorView { name, reason: e.text() }),
{
}

/// The bind address is `HOST` as it is set, and all interfaces otherwise; the log
/// filter is `LOG_LEVEL` as it is set, and `info` otherwise.
pub proof fn law_texts_with_defaults(env: Environment, s: String)
    ensures
        env.host matches Some(h) ==> host_of(env) == h@,
        env.host is None ==> host_of(env) == "0.0.0.0"@,
        log_filter_of(Some(s)) == s@,
        log_filter_of(None) == "info"@,
{
}

/// A filter can be read exactly when all its parts between commas can, and a part
/// cannot only where it begins with white space, is not ASCII and holds `=` or `[`.
pub proof fn law_readable_filter(a: Seq<char>, b: Seq<char>)
    ensures
        readable_filter(a.push(',') + b) <==> readable_filter(a) && readable_filter(b),
        (forall|i: int| 0 <= i < b.len() ==> #[trigger] b[i] != ',') ==> (readable_filter(b) <==> !(
        b.len() > 0 && white_space(b[0]) && (exists|i: int|
            0 <= i < b.len() && #[trigger] b[i] as u32 >= 0x80) && (exists|i: int|
            0 <= i < b.len() && (#[trigger] b[i] == '=' || b[i] == '[')))),
{
    let sep = set![','];
    law_split(a, ',', b, sep);
    let x = split(a, sep);
    let y = split(b, sep);
    let z = split(a.push(',') + b, sep);
    assert(z == x + y);
    if readable_filter(a.push(',') + b) {
        assert forall|i: int| 0 <= i < x.len() implies readable_part(#[trigger] x[i]) by {
            assert(readable_part(z[i]));
        }
        assert forall|i: int| 0 <= i < y.len() implies readable_part(#[trigger] y[i]) by {
            assert(readable_part(z[i + x.len()]));
        }
    }
    if readable_filter(a) && readable_filter(b) {
        assert forall|i: int| 0 <= i < z.len() implies readable_part(#[trigger] z[i]) by {
            if i < x.len() {
                assert(readable_part(x[i]));
            } else {
                assert(readable_part(y[i - x.len()]));
            }
        }
    }
    if forall|i: int| 0 <= i < b.len() ==> #[trigger] b[i] != ',' {
        assert(y == seq![b]);
        assert(y[0] == b);
        assert(readable_filter(b) <==> readable_part(b));
        if exists|i: int| 0 <= i < b.len() && (#[trigger] b[i] == '=' || b[i] == '[') {
            let k = choose|i: int| 0 <= i < b.len() && (#[trigger] b[i] == '=' || b[i] == '[');
            assert(b.contains(b[k]));
        } else {
            assert(!b.contains('=') && !b.contains('['));
        }
    }
}

/// A single word is made of ASCII letters alone, and is not empty.
pub proof fn law_single_word(s: Seq<char>)
    ensures
        single_word(s) <==> s.len() > 0 && forall|i: int|
            0 <= i < s.len() ==> 'A' as u32 <= #[trigger] s[i] as u32 <= 'Z' as u32 || 'a' as u32
                <= s[i] as u32 <= 'z' as u32,
{
    if single_word(s) {
        assert forall|i: int| 0 <= i < s.len() implies 'A' as u32 <= #[trigger] s[i] as u32
            <= 'Z' as u32 || 'a' as u32 <= s[i] as u32 <= 'z' as u32 by {
            assert(upper_letter(s[i]) || lower_letter(s[i]));
        }
    }
}

/// What the engines are called, where their executables are, and what a
/// configuration error carries.
pub proof fn law_names(name: &'static str, reason: String)
    ensures
        BrowserEngine::Chromium.text() == "chromium"@,
        BrowserEngine::Downloaded.text() == "downloaded"@,
        BrowserEngine::Custom.text() == "custom"@,
        BUNDLED_CHROMIUM_PATH@ == "/usr/bin/chromium"@,
        CUSTOM_BROWSER_PATH@ == "/opt/browser/chrome"@,
        (ConfigError::Invalid { name, reason })@ == (ConfigErrorView {
            name: name@,
            reason: reason@,
        }),
        fault(name@, reason@) == Some(ConfigErrorView { name: name@, reason: reason@ }),
{
}

} // verus!
