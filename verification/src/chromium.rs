//! The browser binary and its process: identity, startup and teardown.

use vstd::prelude::*;
use vstd::utf8::decode_utf8;
use vstd::utf8::valid_utf8;

use crate::config::BrowserEngine;
use crate::config::Config;
use crate::errors::GatewayError;
use crate::errors::GatewayErrorView;
use crate::number::decimal;
use crate::number::law_only_digits_are_read;
use crate::number::law_reading_undoes_writing;
use crate::number::parse_number;
use crate::number::parsed;
use crate::number::to_decimal;
use crate::number::written;
use crate::number::NumberError;
use crate::text::all_blank;
use crate::text::before;
use crate::text::begins_with;
use crate::text::behind;
use crate::text::chars_of;
use crate::text::concat;
use crate::text::digit;
use crate::text::find;
use crate::text::is_digit;
use crate::text::join_text;
use crate::text::joined;
use crate::text::law_before_and_behind;
use crate::text::law_trimmed;
use crate::text::lemma_find_bounds;
use crate::text::solid;
use crate::text::split_words;
use crate::text::text_before;
use crate::text::text_behind;
use crate::text::text_of;
use crate::text::text_of_ref;
use crate::text::texts;
use crate::text::trim;
use crate::text::trimmed;
use crate::text::white_space;
use crate::text::words;

pub use crate::language::is_language_tag;
pub use crate::language::language_args;
pub use crate::launch::default_user_agent;
pub use crate::launch::launch;
pub use crate::launch::LaunchCommand;
pub use crate::launch::LaunchFault;
pub use crate::launch::LaunchOptions;
pub use crate::launch::Viewport;

verus! {

/// File in the profile directory where Chromium publishes its CDP endpoint.
pub const DEVTOOLS_PORT_FILE: &'static str = "DevToolsActivePort";

/// Milliseconds between two looks at that file.
pub const PORT_FILE_POLL_INTERVAL: u64 = 50;

/// Milliseconds that a browser gets to exit after SIGTERM.
pub const SIGTERM_GRACE: u64 = 3000;

/// Milliseconds that a browser gets to answer `--version`.
pub const VERSION_TIMEOUT: u64 = 5000;

// ---------------------------------------------------------------------------
// Identity
// ---------------------------------------------------------------------------

/// Identity of the browser binary that is launched.
#[derive(Debug)]
pub struct BrowserInfo {
    pub engine: BrowserEngine,
    /// Product name from `--version`, e.g. "Chromium" or "Google Chrome".
    pub name: Option<String>,
    /// Version number from `--version`, e.g. "146.0.7680.177".
    pub version: Option<String>,
    /// Lower-case hexadecimal SHA-256 of the executable file.
    pub sha256: Option<String>,
    pub path: String,
}

/// A dotted number: digits and dots, a digit first and at least one dot.
pub open spec fn dotted_number(s: Seq<char>) -> bool {
    &&& s.contains('.')
    &&& forall|i: int| 0 <= i < s.len() ==> digit(#[trigger] s[i]) || s[i] == '.'
    &&& s.len() > 0 && digit(s.first())
}

/// Position of the first dotted number, or the number of words without one.
pub open spec fn version_position(list: Seq<Seq<char>>) -> nat
    decreases list.len(),
{
    if list.len() == 0 || dotted_number(list.first()) {
        0
    } else {
        1 + version_position(list.drop_first())
    }
}

/// All words of a list with single spaces between them, unless it is empty.
pub open spec fn phrase(list: Seq<Seq<char>>) -> Option<Seq<char>> {
    if list.len() > 0 {
        Some(joined(list, " "@))
    } else {
        None
    }
}

/// Name and version in the output of `--version`: the version is the first
/// word that is a dotted number, the name is what stands before it. What
/// follows is dropped; without a version, all of the output is the name.
pub open spec fn name_and_version(output: Seq<char>) -> (Option<Seq<char>>, Option<Seq<char>>) {
    let list = words(output);
    let k = version_position(list);
    (
        phrase(list.take(k as int)),
        if k < list.len() {
            Some(list[k as int])
        } else {
            None
        },
    )
}

proof fn lemma_version_position(list: Seq<Seq<char>>, i: int)
    requires
        0 <= i <= list.len(),
        forall|j: int| 0 <= j < i ==> !dotted_number(#[trigger] list[j]),
        i < list.len() ==> dotted_number(list[i]),
    ensures
        version_position(list) == i,
    decreases list.len(),
{
    if i > 0 {
        assert(!dotted_number(list[0]));
        assert forall|j: int| 0 <= j < i - 1 implies !dotted_number(
            #[trigger] list.drop_first()[j],
        ) by {
            assert(list.drop_first()[j] == list[j + 1]);
        }
        lemma_version_position(list.drop_first(), i - 1);
    }
}

fn is_dotted_number(s: &str) -> (r: bool)
    ensures
        r == dotted_number(s@),
{
    let cs = chars_of(s);
    if cs.len() == 0 || !is_digit(cs[0]) {
        return false;
    }
    let mut has_dot = false;
    let mut i: usize = 0;
    while i < cs.len()
        invariant
            cs@ == s@,
            i <= cs@.len(),
            has_dot == s@.take(i as int).contains('.'),
            forall|j: int| 0 <= j < i ==> digit(#[trigger] s@[j]) || s@[j] == '.',
        decreases cs@.len() - i,
    {
        let c: char = cs[i];
        let ghost seen = s@.take(i as int);
        assert(s@.take(i + 1) =~= seen.push(c));
        if c == '.' {
            has_dot = true;
            assert(s@.take(i + 1)[i as int] == '.');
        } else if !is_digit(c) {
            assert(!(digit(s@[i as int]) || s@[i as int] == '.'));
            return false;
        } else {
            assert(seen.push(c).contains('.') ==> seen.contains('.')) by {
                if seen.push(c).contains('.') {
                    let k = choose|k: int| 0 <= k < seen.push(c).len() && seen.push(c)[k] == '.';
                    assert(seen[k] == '.');
                }
            }
            assert(seen.contains('.') ==> seen.push(c).contains('.')) by {
                if seen.contains('.') {
                    let k = choose|k: int| 0 <= k < seen.len() && seen[k] == '.';
                    assert(seen.push(c)[k] == '.');
                }
            }
        }
        i += 1;
    }
    assert(s@.take(s@.len() as int) =~= s@);
    has_dot
}

/// Splits `--version` output into name and version: "Google Chrome
/// 146.0.7680.177" gives ("Google Chrome", "146.0.7680.177").
pub fn split_version_output(output: &str) -> (r: (Option<String>, Option<String>))
    ensures
        (text_of(r.0), text_of(r.1)) == name_and_version(output@),
{
    let tokens = split_words(output);
    let ghost list = texts(tokens@);
    let n: usize = tokens.len();
    let mut k: usize = 0;
    while k < n && !is_dotted_number(tokens[k].as_str())
        invariant
            list == texts(tokens@),
            n == tokens@.len(),
            k <= n,
            forall|j: int| 0 <= j < k ==> !dotted_number(#[trigger] list[j]),
        decreases n - k,
    {
        assert(list[k as int] == tokens@[k as int]@);
        k += 1;
    }
    proof {
        if k < n {
            assert(list[k as int] == tokens@[k as int]@);
        }
        lemma_version_position(list, k as int);
    }
    let name = if k > 0 {
        Some(join_text(&tokens, k, " "))
    } else {
        None
    };
    let version = if k < n {
        Some(tokens[k].clone())
    } else {
        None
    };
    (name, version)
}

/// The identity of the configured browser, from the output of its `--version`
/// and the hash of its executable, as far as they are known.
pub fn identify(
    config: &Config,
    version_output: Option<&str>,
    sha256: Option<String>,
) -> (r: BrowserInfo)
    ensures
        r.engine == config.browser_engine,
        r.path@ == config.chrome_path@,
        r.sha256 == sha256,
        (text_of(r.name), text_of(r.version)) == match version_output {
            Some(output) => name_and_version(output@),
            None => (None, None),
        },
{
    let (name, version) = match version_output {
        Some(output) => split_version_output(output),
        None => (None, None),
    };
    BrowserInfo {
        engine: config.browser_engine,
        name,
        version,
        sha256,
        path: config.chrome_path.clone(),
    }
}

// ---------------------------------------------------------------------------
// Version query
// ---------------------------------------------------------------------------

/// The text that bytes stand for when read as UTF-8, with a replacement
/// character for each maximal part of an ill-formed sequence.
pub uninterp spec fn utf8_lossy(bytes: Seq<u8>) -> Seq<char>;

/// `String::from_utf8_lossy`: the result depends on the bytes alone, and is
/// their exact text when they are valid UTF-8.
#[verifier::external_body]
fn lossy_text(bytes: &[u8]) -> (r: String)
    ensures
        r@ == utf8_lossy(bytes@),
        valid_utf8(bytes@) ==> r@ == decode_utf8(bytes@),
{
    String::from_utf8_lossy(bytes).into_owned()
}

/// The arguments of the version query.
pub fn version_args(config: &Config) -> (r: Vec<String>)
    ensures
        texts(r@) == if config.chrome_no_sandbox {
            seq!["--no-sandbox"@, "--version"@]
        } else {
            seq!["--version"@]
        },
{
    let mut args: Vec<String> = Vec::new();
    if config.chrome_no_sandbox {
        args.push("--no-sandbox".to_owned());
    }
    args.push("--version".to_owned());
    assert(config.chrome_no_sandbox ==> texts(args@) =~= seq!["--no-sandbox"@, "--version"@]);
    assert(!config.chrome_no_sandbox ==> texts(args@) =~= seq!["--version"@]);
    args
}

/// What a version query tells: the output without the white space around it,
/// unless the query failed or printed nothing.
pub open spec fn version_answer(success: bool, output: Seq<char>) -> Option<Seq<char>> {
    if success && trimmed(output).len() > 0 {
        Some(trimmed(output))
    } else {
        None
    }
}

/// What the version query tells, from its exit status and its output.
pub fn version_text(success: bool, output: &str) -> (r: Option<String>)
    ensures
        text_of(r) == version_answer(success, output@),
{
    if !success {
        return None;
    }
    let text = trim(output);
    if text.is_empty() {
        None
    } else {
        Some(text.to_owned())
    }
}

/// What the version query tells, from its exit status and the bytes that it
/// printed.
pub fn version(success: bool, stdout: &[u8]) -> (r: Option<String>)
    ensures
        text_of(r) == version_answer(success, utf8_lossy(stdout@)),
        valid_utf8(stdout@) ==> text_of(r) == version_answer(success, decode_utf8(stdout@)),
{
    let output = lossy_text(stdout);
    version_text(success, output.as_str())
}

// ---------------------------------------------------------------------------
// Startup
// ---------------------------------------------------------------------------

/// The endpoint in the contents of the port file: a port other than 0 on the
/// first line and a path that begins with `/` on the second.
pub open spec fn published_endpoint(contents: Seq<char>) -> Option<Seq<char>> {
    let port = parsed(trimmed(before(contents, '\n')), 65535);
    let path = trimmed(before(behind(contents, '\n'), '\n'));
    match port {
        Ok(p) => if p > 0 && "/"@.is_prefix_of(path) {
            Some("ws://127.0.0.1:"@ + decimal(p) + path)
        } else {
            None
        },
        Err(_) => None,
    }
}

/// The WebSocket URL in the contents of the port file. It always points to
/// 127.0.0.1.
pub fn devtools_endpoint(contents: &str) -> (r: Option<String>)
    ensures
        text_of(r) == published_endpoint(contents@),
{
    let port = parse_number(trim(text_before(contents, '\n')), 65535);
    let path = trim(text_before(text_behind(contents, '\n'), '\n'));
    match port {
        Ok(p) => {
            if p > 0 && begins_with(path, "/") {
                let mut url = concat("ws://127.0.0.1:", to_decimal(p).as_str());
                url.append(path);
                Some(url)
            } else {
                None
            }
        },
        Err(_) => None,
    }
}

/// What is known of a browser process that is starting.
pub enum ChildStatus {
    Running,
    /// The process is gone; how it ended, in words.
    Exited(String),
    /// Its status cannot be read; why, in words.
    Unknown(String),
}

/// What to do about a browser process that is starting.
pub enum StartupStep {
    /// It serves CDP at this URL.
    Ready(String),
    /// Give up, stop the process and answer with this error.
    Fail(GatewayError),
    /// Look again after the poll interval.
    Wait,
}

/// A `StartupStep` with its texts as characters.
pub enum StartupStepView {
    Ready(Seq<char>),
    Fail(GatewayErrorView),
    Wait,
}

impl View for StartupStep {
    type V = StartupStepView;

    open spec fn view(&self) -> StartupStepView {
        match *self {
            StartupStep::Ready(url) => StartupStepView::Ready(url@),
            StartupStep::Fail(e) => StartupStepView::Fail(e@),
            StartupStep::Wait => StartupStepView::Wait,
        }
    }
}

/// A process that is gone fails the startup, else a published endpoint
/// completes it, else the deadline ends it.
pub open spec fn startup_step(
    status: ChildStatus,
    contents: Option<Seq<char>>,
    deadline_passed: bool,
) -> StartupStepView {
    match status {
        ChildStatus::Unknown(why) => StartupStepView::Fail(
            GatewayErrorView::ChromiumUnavailable("wait failed: "@ + why@),
        ),
        ChildStatus::Exited(how) => StartupStepView::Fail(
            GatewayErrorView::ChromiumUnavailable(
                "chromium exited during startup with "@ + how@,
            ),
        ),
        ChildStatus::Running => {
            let endpoint = match contents {
                Some(c) => published_endpoint(c),
                None => None,
            };
            match endpoint {
                Some(url) => StartupStepView::Ready(url),
                None => if deadline_passed {
                    StartupStepView::Fail(GatewayErrorView::ChromiumStartupTimeout)
                } else {
                    StartupStepView::Wait
                },
            }
        },
    }
}

/// One look at a starting browser: its process status, the contents of the
/// port file if it can be read, and whether the startup timeout is over.
pub fn wait_for_devtools_endpoint(
    status: ChildStatus,
    contents: Option<&str>,
    deadline_passed: bool,
) -> (r: StartupStep)
    ensures
        r@ == startup_step(status, text_of_ref(contents), deadline_passed),
{
    match status {
        ChildStatus::Unknown(why) => StartupStep::Fail(
            GatewayError::ChromiumUnavailable(concat("wait failed: ", why.as_str())),
        ),
        ChildStatus::Exited(how) => StartupStep::Fail(
            GatewayError::ChromiumUnavailable(
                concat("chromium exited during startup with ", how.as_str()),
            ),
        ),
        ChildStatus::Running => {
            let endpoint = match contents {
                Some(c) => devtools_endpoint(c),
                None => None,
            };
            match endpoint {
                Some(url) => StartupStep::Ready(url),
                None => {
                    if deadline_passed {
                        StartupStep::Fail(GatewayError::ChromiumStartupTimeout)
                    } else {
                        StartupStep::Wait
                    }
                },
            }
        },
    }
}

/// The CDP endpoint is only ever reached on the local host.
pub proof fn law_endpoint_is_local(contents: Seq<char>)
    requires
        published_endpoint(contents) is Some,
    ensures
        "ws://127.0.0.1:"@.is_prefix_of(published_endpoint(contents)->0),
{
    let host = "ws://127.0.0.1:"@;
    let url = published_endpoint(contents)->0;
    assert(url.subrange(0, host.len() as int) =~= host);
}

// ---------------------------------------------------------------------------
// Teardown
// ---------------------------------------------------------------------------

/// What to do next to take a browser process down. Signals go to the process
/// group of that browser only.
#[derive(Clone, Copy, Debug, PartialEq, Eq, Structural)]
pub enum ShutdownStep {
    /// Find out whether the process still runs.
    Probe,
    /// Send SIGTERM to the group.
    Terminate,
    /// Wait for the process, for the grace period at most.
    AwaitExit,
    /// Send SIGKILL to the group.
    Kill,
    /// Wait for the process.
    Reap,
    /// Send SIGKILL to what is left of the group.
    Sweep,
    /// Remove the profile directory.
    RemoveProfile,
    /// Nothing is left to do.
    Done,
}

impl ShutdownStep {
    /// The step that follows. `outcome` tells of `Probe` whether the process
    /// still runs, and of `AwaitExit` whether it is gone.
    pub open spec fn next(self, outcome: bool) -> ShutdownStep {
        match self {
            ShutdownStep::Probe => if outcome {
                ShutdownStep::Terminate
            } else {
                ShutdownStep::Sweep
            },
            ShutdownStep::Terminate => ShutdownStep::AwaitExit,
            ShutdownStep::AwaitExit => if outcome {
                ShutdownStep::Sweep
            } else {
                ShutdownStep::Kill
            },
            ShutdownStep::Kill => ShutdownStep::Reap,
            ShutdownStep::Reap => ShutdownStep::Sweep,
            ShutdownStep::Sweep => ShutdownStep::RemoveProfile,
            ShutdownStep::RemoveProfile => ShutdownStep::Done,
            ShutdownStep::Done => ShutdownStep::Done,
        }
    }

    /// Steps that are left at most.
    pub open spec fn left(self) -> nat {
        match self {
            ShutdownStep::Probe => 7,
            ShutdownStep::Terminate => 6,
            ShutdownStep::AwaitExit => 5,
            ShutdownStep::Kill => 4,
            ShutdownStep::Reap => 3,
            ShutdownStep::Sweep => 2,
            ShutdownStep::RemoveProfile => 1,
            ShutdownStep::Done => 0,
        }
    }
}

/// A browser process bound to one session.
pub struct Chromium {
    /// Browser-level CDP WebSocket URL, on 127.0.0.1.
    pub ws_url: String,
    /// The profile directory exists: the process has not been taken down.
    pub has_profile: bool,
}

impl Chromium {
    /// A process that was just started with its profile directory.
    pub fn new(ws_url: String) -> (r: Chromium)
        ensures
            r.ws_url == ws_url,
            r.has_profile,
    {
        Chromium { ws_url, has_profile: true }
    }

    /// The first step of taking the process down; nothing is done for a
    /// process that was taken down before.
    pub fn shutdown(&self) -> (r: ShutdownStep)
        ensures
            r == if self.has_profile {
                ShutdownStep::Probe
            } else {
                ShutdownStep::Done
            },
    {
        if self.has_profile {
            ShutdownStep::Probe
        } else {
            ShutdownStep::Done
        }
    }

    /// Records that `step` was carried out and returns the one that follows.
    pub fn shutdown_next(&mut self, step: ShutdownStep, outcome: bool) -> (r: ShutdownStep)
        ensures
            r == step.next(outcome),
            final(self).ws_url == old(self).ws_url,
            final(self).has_profile == (old(self).has_profile && step
                != ShutdownStep::RemoveProfile),
    {
        match step {
            ShutdownStep::Probe => {
                if outcome {
                    ShutdownStep::Terminate
                } else {
                    ShutdownStep::Sweep
                }
            },
            ShutdownStep::Terminate => ShutdownStep::AwaitExit,
            ShutdownStep::AwaitExit => {
                if outcome {
                    ShutdownStep::Sweep
                } else {
                    ShutdownStep::Kill
                }
            },
            ShutdownStep::Kill => ShutdownStep::Reap,
            ShutdownStep::Reap => ShutdownStep::Sweep,
            ShutdownStep::Sweep => ShutdownStep::RemoveProfile,
            ShutdownStep::RemoveProfile => {
                self.has_profile = false;
                ShutdownStep::Done
            },
            ShutdownStep::Done => ShutdownStep::Done,
        }
    }
}

/// The steps carried out from `step` on, when the process still runs at first
/// (`running`) and is gone within the grace period (`exits`).
pub open spec fn shutdown_run(step: ShutdownStep, running: bool, exits: bool) -> Seq<ShutdownStep>
    decreases step.left(),
{
    if step == ShutdownStep::Done {
        Seq::empty()
    } else {
        let outcome = if step == ShutdownStep::Probe {
            running
        } else {
            exits
        };
        seq![step] + shutdown_run(step.next(outcome), running, exits)
    }
}

/// Teardown always completes: SIGKILL is sent to a live process only after
/// SIGTERM and the grace period, the group is swept and the profile directory
/// removed exactly once and last.
pub proof fn law_shutdown_runs(running: bool, exits: bool)
    ensures
        shutdown_run(ShutdownStep::Probe, running, exits) == (if !running {
            seq![ShutdownStep::Probe, ShutdownStep::Sweep, ShutdownStep::RemoveProfile]
        } else if exits {
            seq![
                ShutdownStep::Probe,
                ShutdownStep::Terminate,
                ShutdownStep::AwaitExit,
                ShutdownStep::Sweep,
                ShutdownStep::RemoveProfile,
            ]
        } else {
            seq![
                ShutdownStep::Probe,
                ShutdownStep::Terminate,
                ShutdownStep::AwaitExit,
                ShutdownStep::Kill,
                ShutdownStep::Reap,
                ShutdownStep::Sweep,
                ShutdownStep::RemoveProfile,
            ]
        }),
{
    reveal_with_fuel(shutdown_run, 8);
    let run = shutdown_run(ShutdownStep::Probe, running, exits);
    if !running {
        assert(run =~= seq![
            ShutdownStep::Probe,
            ShutdownStep::Sweep,
            ShutdownStep::RemoveProfile,
        ]);
    } else if exits {
        assert(run =~= seq![
            ShutdownStep::Probe,
            ShutdownStep::Terminate,
            ShutdownStep::AwaitExit,
            ShutdownStep::Sweep,
            ShutdownStep::RemoveProfile,
        ]);
    } else {
        assert(run =~= seq![
            ShutdownStep::Probe,
            ShutdownStep::Terminate,
            ShutdownStep::AwaitExit,
            ShutdownStep::Kill,
            ShutdownStep::Reap,
            ShutdownStep::Sweep,
            ShutdownStep::RemoveProfile,
        ]);
    }
}

/// Whatever the outcomes, each step leaves fewer steps to do.
pub proof fn law_shutdown_ends(step: ShutdownStep, outcome: bool)
    requires
        step != ShutdownStep::Done,
    ensures
        step.next(outcome).left() < step.left(),
{
}

// ---------------------------------------------------------------------------
// From the spawned process to the answer
// ---------------------------------------------------------------------------

/// Where the launch of a spawned process stands.
pub enum LaunchState {
    /// Its startup is watched.
    Starting,
    /// The startup failed with this error, and this step of the teardown is
    /// due.
    Stopping { step: ShutdownStep, error: GatewayError },
    /// The launch succeeded: CDP is served at this URL.
    Ready(String),
    /// The launch is answered with this error.
    Failed(GatewayError),
}

/// What happened in a launch.
pub enum LaunchEvent<'a> {
    /// A look at the process and its port file.
    Looked { status: ChildStatus, contents: Option<&'a str>, deadline_passed: bool },
    /// The step of the teardown that was due was carried out, with its outcome.
    Performed(bool),
}

/// A `LaunchState` with its texts as characters.
pub enum LaunchStateView {
    Starting,
    Stopping { step: ShutdownStep, error: GatewayErrorView },
    Ready(Seq<char>),
    Failed(GatewayErrorView),
}

/// A `LaunchEvent` with the look as what it comes to.
pub enum LaunchEventView {
    Looked(StartupStepView),
    Performed(bool),
}

impl View for LaunchState {
    type V = LaunchStateView;

    open spec fn view(&self) -> LaunchStateView {
        match *self {
            LaunchState::Starting => LaunchStateView::Starting,
            LaunchState::Stopping { step, error } => LaunchStateView::Stopping {
                step,
                error: error@,
            },
            LaunchState::Ready(url) => LaunchStateView::Ready(url@),
            LaunchState::Failed(e) => LaunchStateView::Failed(e@),
        }
    }
}

impl<'a> View for LaunchEvent<'a> {
    type V = LaunchEventView;

    open spec fn view(&self) -> LaunchEventView {
        match *self {
            LaunchEvent::Looked { status, contents, deadline_passed } => LaunchEventView::Looked(
                startup_step(status, text_of_ref(contents), deadline_passed),
            ),
            LaunchEvent::Performed(outcome) => LaunchEventView::Performed(outcome),
        }
    }
}

/// The state that an event leads to. A startup that fails leads into the
/// teardown, and only behind its last step to the error. What cannot happen in
/// a state changes nothing.
pub open spec fn launch_next(state: LaunchStateView, event: LaunchEventView) -> LaunchStateView {
    match (state, event) {
        (LaunchStateView::Starting, LaunchEventView::Looked(look)) => match look {
            StartupStepView::Ready(url) => LaunchStateView::Ready(url),
            StartupStepView::Fail(error) => LaunchStateView::Stopping {
                step: ShutdownStep::Probe,
                error,
            },
            StartupStepView::Wait => LaunchStateView::Starting,
        },
        (LaunchStateView::Stopping { step, error }, LaunchEventView::Performed(outcome)) => if step.next(
            outcome,
        ) == ShutdownStep::Done {
            LaunchStateView::Failed(error)
        } else {
            LaunchStateView::Stopping { step: step.next(outcome), error }
        },
        _ => state,
    }
}

impl Chromium {
    /// One step of a launch.
    pub fn launch_next(&mut self, state: LaunchState, event: LaunchEvent<'_>) -> (r: LaunchState)
        ensures
            r@ == launch_next(state@, event@),
            final(self).ws_url@ == match (state@, r@) {
                (LaunchStateView::Starting, LaunchStateView::Ready(url)) => url,
                _ => old(self).ws_url@,
            },
            final(self).has_profile == (old(self).has_profile && !(state@ matches
                LaunchStateView::Stopping { step: ShutdownStep::RemoveProfile, .. } && event@
                is Performed)),
    {
        match (state, event) {
            (
                LaunchState::Starting,
                LaunchEvent::Looked { status, contents, deadline_passed },
            ) => match wait_for_devtools_endpoint(status, contents, deadline_passed) {
                StartupStep::Ready(url) => {
                    self.ws_url = url.clone();
                    LaunchState::Ready(url)
                },
                StartupStep::Fail(error) => LaunchState::Stopping {
                    step: ShutdownStep::Probe,
                    error,
                },
                StartupStep::Wait => LaunchState::Starting,
            },
            (LaunchState::Stopping { step, error }, LaunchEvent::Performed(outcome)) => {
                match self.shutdown_next(step, outcome) {
                    ShutdownStep::Done => LaunchState::Failed(error),
                    step => LaunchState::Stopping { step, error },
                }
            },
            (state, _) => state,
        }
    }
}

/// The state after a series of events.
pub open spec fn launch_run(events: Seq<LaunchEventView>) -> LaunchStateView
    decreases events.len(),
{
    if events.len() == 0 {
        LaunchStateView::Starting
    } else {
        launch_next(launch_run(events.drop_last()), events.last())
    }
}

/// The steps of the teardown that a series of events carried out.
pub open spec fn torn_down(events: Seq<LaunchEventView>) -> Seq<ShutdownStep>
    decreases events.len(),
{
    if events.len() == 0 {
        Seq::empty()
    } else {
        let before = torn_down(events.drop_last());
        match (launch_run(events.drop_last()), events.last()) {
            (LaunchStateView::Stopping { step, .. }, LaunchEventView::Performed(_)) => before.push(
                step,
            ),
            _ => before,
        }
    }
}

/// The error that a startup failed with in a series of events, if it did.
pub open spec fn startup_error(events: Seq<LaunchEventView>) -> Option<GatewayErrorView>
    decreases events.len(),
{
    if events.len() == 0 {
        None
    } else {
        match (launch_run(events.drop_last()), events.last()) {
            (
                LaunchStateView::Starting,
                LaunchEventView::Looked(StartupStepView::Fail(e)),
            ) => Some(e),
            _ => startup_error(events.drop_last()),
        }
    }
}

/// `done` is what a teardown has carried out when `step` is due.
spec fn done_before(done: Seq<ShutdownStep>, step: ShutdownStep) -> bool {
    let gone = seq![ShutdownStep::Probe];
    let exited = seq![ShutdownStep::Probe, ShutdownStep::Terminate, ShutdownStep::AwaitExit];
    let killed = exited.push(ShutdownStep::Kill).push(ShutdownStep::Reap);
    match step {
        ShutdownStep::Probe => done == Seq::<ShutdownStep>::empty(),
        ShutdownStep::Terminate => done == gone,
        ShutdownStep::AwaitExit => done == gone.push(ShutdownStep::Terminate),
        ShutdownStep::Kill => done == exited,
        ShutdownStep::Reap => done == exited.push(ShutdownStep::Kill),
        ShutdownStep::Sweep => done == gone || done == exited || done == killed,
        ShutdownStep::RemoveProfile => done == gone.push(ShutdownStep::Sweep) || done
            == exited.push(ShutdownStep::Sweep) || done == killed.push(ShutdownStep::Sweep),
        ShutdownStep::Done => done == gone.push(ShutdownStep::Sweep).push(
            ShutdownStep::RemoveProfile,
        ) || done == exited.push(ShutdownStep::Sweep).push(ShutdownStep::RemoveProfile) || done
            == killed.push(ShutdownStep::Sweep).push(ShutdownStep::RemoveProfile),
    }
}

proof fn lemma_done_after(done: Seq<ShutdownStep>, step: ShutdownStep, outcome: bool)
    requires
        done_before(done, step),
        step != ShutdownStep::Done,
    ensures
        done_before(done.push(step), step.next(outcome)),
{
    let gone = seq![ShutdownStep::Probe];
    let exited = seq![ShutdownStep::Probe, ShutdownStep::Terminate, ShutdownStep::AwaitExit];
    match step {
        ShutdownStep::Probe => {
            assert(done.push(step) =~= gone);
        },
        ShutdownStep::AwaitExit => {
            assert(done.push(step) =~= exited);
        },
        _ => {},
    }
}

/// `steps` is a whole teardown.
pub open spec fn whole_teardown(steps: Seq<ShutdownStep>) -> bool {
    ||| steps == shutdown_run(ShutdownStep::Probe, false, false)
    ||| steps == shutdown_run(ShutdownStep::Probe, true, true)
    ||| steps == shutdown_run(ShutdownStep::Probe, true, false)
}

proof fn lemma_done_is_whole(done: Seq<ShutdownStep>)
    requires
        done_before(done, ShutdownStep::Done),
    ensures
        whole_teardown(done),
        done.last() == ShutdownStep::RemoveProfile,
{
    law_shutdown_runs(false, false);
    law_shutdown_runs(true, true);
    law_shutdown_runs(true, false);
    assert(done =~= shutdown_run(ShutdownStep::Probe, false, false) || done =~= shutdown_run(
        ShutdownStep::Probe,
        true,
        true,
    ) || done =~= shutdown_run(ShutdownStep::Probe, true, false));
}

proof fn lemma_launch_run(events: Seq<LaunchEventView>)
    ensures
        match launch_run(events) {
            LaunchStateView::Starting => torn_down(events) == Seq::<ShutdownStep>::empty()
                && startup_error(events) is None,
            LaunchStateView::Ready(_) => torn_down(events) == Seq::<ShutdownStep>::empty()
                && startup_error(events) is None,
            LaunchStateView::Stopping { step, error } => step != ShutdownStep::Done && done_before(
                torn_down(events),
                step,
            ) && startup_error(events) == Some(error),
            LaunchStateView::Failed(error) => done_before(torn_down(events), ShutdownStep::Done)
                && startup_error(events) == Some(error),
        },
    decreases events.len(),
{
    if events.len() > 0 {
        let rest = events.drop_last();
        lemma_launch_run(rest);
        if let LaunchStateView::Stopping { step, .. } = launch_run(rest) {
            if let LaunchEventView::Performed(outcome) = events.last() {
                lemma_done_after(torn_down(rest), step, outcome);
            }
        }
    }
}

/// No error is answered before the teardown is complete: whatever happens, a
/// launch fails only with the error of its startup, and only after the process
/// group was killed, the process reaped and, last of all, the profile directory
/// removed. A launch that succeeds tears nothing down.
pub proof fn law_teardown_precedes_error(events: Seq<LaunchEventView>)
    ensures
        match launch_run(events) {
            LaunchStateView::Failed(error) => {
                &&& startup_error(events) == Some(error)
                &&& whole_teardown(torn_down(events))
                &&& torn_down(events).last() == ShutdownStep::RemoveProfile
            },
            LaunchStateView::Stopping { error, .. } => startup_error(events) == Some(error),
            _ => startup_error(events) is None && torn_down(events).len() == 0,
        },
{
    lemma_launch_run(events);
    if launch_run(events) is Failed {
        lemma_done_is_whole(torn_down(events));
    }
}

/// A startup fails in two ways only: the browser is unavailable, or it took too
/// long, and that only while it runs and has published nothing.
pub proof fn law_startup_errors(
    status: ChildStatus,
    contents: Option<Seq<char>>,
    deadline_passed: bool,
)
    ensures
        startup_step(status, contents, deadline_passed) matches StartupStepView::Fail(e) ==> {
            &&& e is ChromiumStartupTimeout || e is ChromiumUnavailable
            &&& e is ChromiumStartupTimeout <==> status is Running
            &&& e is ChromiumStartupTimeout ==> deadline_passed
        },
{
}

// ---------------------------------------------------------------------------
// Laws of identity, startup and teardown
// ---------------------------------------------------------------------------

/// No character is a line break.
pub open spec fn one_line(s: Seq<char>) -> bool {
    forall|i: int| 0 <= i < s.len() ==> s[i] != '\n'
}

proof fn lemma_written_is_solid(n: nat, zeros: nat, signed: bool)
    ensures
        solid(written(n, zeros, signed)),
        one_line(written(n, zeros, signed)),
{
    let s = written(n, zeros, signed);
    law_reading_undoes_writing(n, zeros, signed, n);
    law_only_digits_are_read(s, n);
    assert forall|i: int| 0 <= i < s.len() implies s[i] != '\n' && !white_space(s[i]) by {
        assert('0' as u32 <= s[i] as u32 <= '9' as u32 || (i == 0 && s[i] == '+'));
    }
    assert(!white_space(s[s.len() - 1]));
}

/// Two lines, each with white space around it, and whatever may follow.
pub open spec fn two_lines(
    first: (Seq<char>, Seq<char>, Seq<char>),
    second: (Seq<char>, Seq<char>, Seq<char>),
    rest: Option<Seq<char>>,
) -> Seq<char> {
    (first.0 + first.1 + first.2).push('\n') + match rest {
        Some(rest) => (second.0 + second.1 + second.2).push('\n') + rest,
        None => second.0 + second.1 + second.2,
    }
}

/// What the browser writes is found: a port other than 0 on the first line and a
/// path that begins with a slash on the second, whatever the path, give exactly
/// the URL of that port and of the whole path on the local host. White space
/// around the lines and further lines play no part.
pub proof fn law_endpoint_round_trip(
    port: nat,
    zeros: nat,
    signed: bool,
    path: Seq<char>,
    a: Seq<char>,
    b: Seq<char>,
    c: Seq<char>,
    d: Seq<char>,
    rest: Option<Seq<char>>,
)
    requires
        1 <= port <= 65535,
        solid(path) && path[0] == '/' && one_line(path),
        all_blank(a) && one_line(a),
        all_blank(b) && one_line(b),
        all_blank(c) && one_line(c),
        all_blank(d) && one_line(d),
    ensures
        published_endpoint(two_lines((a, written(port, zeros, signed), b), (c, path, d), rest))
            == Some("ws://127.0.0.1:"@ + decimal(port) + path),
{
    let number = written(port, zeros, signed);
    let first = a + number + b;
    let second = c + path + d;
    let tail = match rest {
        Some(rest) => second.push('\n') + rest,
        None => second,
    };
    lemma_written_is_solid(port, zeros, signed);
    law_before_and_behind(first, '\n', tail);
    law_trimmed(a, number, b);
    law_reading_undoes_writing(port, zeros, signed, 65535);
    match rest {
        Some(rest) => {
            law_before_and_behind(second, '\n', rest);
        },
        None => {
            law_before_and_behind(second, '\n', Seq::empty());
        },
    }
    law_trimmed(c, path, d);
    reveal_strlit("/");
    assert(path.subrange(0, 1) =~= "/"@);
}

/// Contents that do not hold such lines publish nothing: where there is an
/// endpoint, the contents begin with two lines, the first is a port from 1 to
/// 65535, the second a path that begins with a slash, and the endpoint is made
/// of these two.
pub proof fn law_endpoint_only_from_two_lines(contents: Seq<char>) -> (r: (
    Seq<char>,
    Seq<char>,
    Option<Seq<char>>,
    nat,
))
    requires
        published_endpoint(contents) is Some,
    ensures
        ({
            let (first, second, rest, port) = r;
            &&& one_line(first) && one_line(second)
            &&& contents == first.push('\n') + match rest {
                Some(rest) => second.push('\n') + rest,
                None => second,
            }
            &&& 1 <= port <= 65535
            &&& parsed(trimmed(first), 65535) == Ok::<nat, NumberError>(port)
            &&& trimmed(second).len() > 0 && trimmed(second)[0] == '/'
            &&& published_endpoint(contents) == Some(
                "ws://127.0.0.1:"@ + decimal(port) + trimmed(second),
            )
        }),
{
    let first = before(contents, '\n');
    let tail = behind(contents, '\n');
    let second = before(tail, '\n');
    lemma_find_bounds(contents, '\n');
    lemma_find_bounds(tail, '\n');
    law_only_digits_are_read(trimmed(first), 65535);
    let port = parsed(trimmed(first), 65535)->Ok_0;
    reveal_strlit("/");
    assert(trimmed(second)[0] == trimmed(second).subrange(0, 1)[0]);
    if find(contents, '\n') == contents.len() {
        assert(tail.len() == 0);
        assert(tail.take(0) =~= Seq::<char>::empty());
        assert(second =~= Seq::<char>::empty());
        assert(trimmed(second) =~= Seq::<char>::empty());
    }
    assert(contents =~= first.push('\n') + tail);
    let rest = if find(tail, '\n') < tail.len() {
        Some(tail.skip(find(tail, '\n') as int + 1))
    } else {
        None
    };
    assert(tail =~= match rest {
        Some(rest) => second.push('\n') + rest,
        None => second,
    });
    (first, second, rest, port)
}

/// A version is a number with dots: digits and dots only, a digit first and at
/// least one dot.
pub proof fn law_dotted_number(s: Seq<char>)
    ensures
        dotted_number(s) <==> s.len() > 0 && '0' as u32 <= s[0] as u32 <= '9' as u32 && (exists|i: int|
            0 <= i < s.len() && #[trigger] s[i] == '.') && forall|i: int|
            0 <= i < s.len() ==> '0' as u32 <= #[trigger] s[i] as u32 <= '9' as u32 || s[i] == '.',
{
    if dotted_number(s) {
        let k = choose|k: int| 0 <= k < s.len() && s[k] == '.';
        assert(s[k] == '.');
    }
}

proof fn lemma_position_bounds(list: Seq<Seq<char>>)
    ensures
        version_position(list) <= list.len(),
        forall|j: int| 0 <= j < version_position(list) ==> !dotted_number(#[trigger] list[j]),
        version_position(list) < list.len() ==> dotted_number(
            list[version_position(list) as int],
        ),
    decreases list.len(),
{
    if list.len() > 0 && !dotted_number(list.first()) {
        let rest = list.drop_first();
        lemma_position_bounds(rest);
        assert forall|j: int| 0 <= j < version_position(list) implies !dotted_number(
            #[trigger] list[j],
        ) by {
            if j > 0 {
                assert(!dotted_number(rest[j - 1]));
            }
        }
        let k = version_position(rest) as int;
        if k < rest.len() {
            assert(rest[k] == list[k + 1]);
        }
    }
}

/// The version is the first word that is a dotted number and the name is what
/// stands before it, word by word: with `k` words in front, the name is those
/// words with single spaces between them, and nothing without any.
pub proof fn law_version_is_first_dotted_number(output: Seq<char>) -> (k: nat)
    ensures
        k <= words(output).len(),
        forall|j: int| 0 <= j < k ==> !dotted_number(#[trigger] words(output)[j]),
        k < words(output).len() ==> dotted_number(words(output)[k as int]),
        name_and_version(output).1 == if k < words(output).len() {
            Some(words(output)[k as int])
        } else {
            None
        },
        name_and_version(output).0 == if k == 0 {
            None
        } else {
            Some(joined(words(output).take(k as int), " "@))
        },
{
    lemma_position_bounds(words(output));
    version_position(words(output))
}

/// A version query tells what was printed, without the white space around it,
/// exactly when it succeeded and printed anything else.
pub proof fn law_version_answer(a: Seq<char>, text: Seq<char>, b: Seq<char>)
    requires
        all_blank(a),
        all_blank(b),
        solid(text),
    ensures
        version_answer(true, a + text + b) == Some(text),
        version_answer(true, a) == None::<Seq<char>>,
        version_answer(false, a + text + b) == None::<Seq<char>>,
        version_answer(false, a) == None::<Seq<char>>,
{
    law_trimmed(a, text, b);
    law_trimmed(a, Seq::empty(), Seq::empty());
    assert(a + Seq::<char>::empty() + Seq::<char>::empty() =~= a);
}

/// One look at a starting browser: a process that is gone or cannot be asked
/// fails the startup and says how, an endpoint that is published completes it
/// even after the deadline, and without one the deadline decides.
pub proof fn law_startup_look(how: String, contents: Seq<char>, deadline_passed: bool)
    ensures
        forall|c: Option<Seq<char>>| #[trigger]
            startup_step(ChildStatus::Exited(how), c, deadline_passed) == StartupStepView::Fail(
                GatewayErrorView::ChromiumUnavailable(
                    "chromium exited during startup with "@ + how@,
                ),
            ),
        forall|c: Option<Seq<char>>| #[trigger]
            startup_step(ChildStatus::Unknown(how), c, deadline_passed) == StartupStepView::Fail(
                GatewayErrorView::ChromiumUnavailable("wait failed: "@ + how@),
            ),
        published_endpoint(contents) matches Some(url) ==> startup_step(
            ChildStatus::Running,
            Some(contents),
            deadline_passed,
        ) == StartupStepView::Ready(url),
        forall|c: Option<Seq<char>>|
            (c matches Some(text) ==> published_endpoint(text) is None) ==> #[trigger] startup_step(
                ChildStatus::Running,
                c,
                deadline_passed,
            ) == if deadline_passed {
                StartupStepView::Fail(GatewayErrorView::ChromiumStartupTimeout)
            } else {
                StartupStepView::Wait
            },
{
}

/// Looks and outcomes keep what they carry when they are viewed.
pub proof fn law_launch_views<'a>(
    url: String,
    e: GatewayError,
    status: ChildStatus,
    contents: Option<&'a str>,
    deadline_passed: bool,
    outcome: bool,
    step: ShutdownStep,
)
    ensures
        StartupStep::Ready(url)@ == StartupStepView::Ready(url@),
        StartupStep::Fail(e)@ == StartupStepView::Fail(e@),
        StartupStep::Wait@ == StartupStepView::Wait,
        LaunchState::Starting@ == LaunchStateView::Starting,
        (LaunchState::Stopping { step, error: e })@ == (LaunchStateView::Stopping {
            step,
            error: e@,
        }),
        LaunchState::Ready(url)@ == LaunchStateView::Ready(url@),
        LaunchState::Failed(e)@ == LaunchStateView::Failed(e@),
        (LaunchEvent::Looked { status, contents, deadline_passed })@ == LaunchEventView::Looked(
            startup_step(status, text_of_ref(contents), deadline_passed),
        ),
        LaunchEvent::<'a>::Performed(outcome)@ == LaunchEventView::Performed(outcome),
{
}

/// A launch goes on with every look and every step: an endpoint makes it ready,
/// a failure starts the teardown from its first step, each step carried out leads
/// to the next one, and behind the last the launch fails with the same error.
/// Nothing else moves it, and what is decided stays.
pub proof fn law_launch_goes_forward(
    url: Seq<char>,
    e: GatewayErrorView,
    step: ShutdownStep,
    outcome: bool,
    look: StartupStepView,
    event: LaunchEventView,
)
    ensures
        launch_next(
            LaunchStateView::Starting,
            LaunchEventView::Looked(StartupStepView::Ready(url)),
        ) == LaunchStateView::Ready(url),
        launch_next(LaunchStateView::Starting, LaunchEventView::Looked(StartupStepView::Fail(e)))
            == (LaunchStateView::Stopping { step: ShutdownStep::Probe, error: e }),
        launch_next(LaunchStateView::Starting, LaunchEventView::Looked(StartupStepView::Wait))
            == LaunchStateView::Starting,
        launch_next(LaunchStateView::Starting, LaunchEventView::Performed(outcome))
            == LaunchStateView::Starting,
        launch_next(
            LaunchStateView::Stopping { step, error: e },
            LaunchEventView::Performed(outcome),
        ) == if step == ShutdownStep::RemoveProfile || step == ShutdownStep::Done {
            LaunchStateView::Failed(e)
        } else {
            LaunchStateView::Stopping { step: step.next(outcome), error: e }
        },
        launch_next(LaunchStateView::Stopping { step, error: e }, LaunchEventView::Looked(look))
            == (LaunchStateView::Stopping { step, error: e }),
        launch_next(LaunchStateView::Ready(url), event) == LaunchStateView::Ready(url),
        launch_next(LaunchStateView::Failed(e), event) == LaunchStateView::Failed(e),
{
}

/// Only two outcomes matter to a teardown: a process that still runs is sent
/// SIGTERM first, and one that is still there after the grace period SIGKILL.
/// Every other step leads on whatever came of it.
pub proof fn law_outcomes_that_matter(outcome: bool)
    ensures
        ShutdownStep::Probe.next(outcome) == ShutdownStep::Terminate <==> outcome,
        ShutdownStep::Probe.next(outcome) == ShutdownStep::Sweep <==> !outcome,
        ShutdownStep::Terminate.next(outcome) == ShutdownStep::AwaitExit,
        ShutdownStep::AwaitExit.next(outcome) == ShutdownStep::Sweep <==> outcome,
        ShutdownStep::AwaitExit.next(outcome) == ShutdownStep::Kill <==> !outcome,
        ShutdownStep::Kill.next(outcome) == ShutdownStep::Reap,
        ShutdownStep::Reap.next(outcome) == ShutdownStep::Sweep,
        ShutdownStep::Sweep.next(outcome) == ShutdownStep::RemoveProfile,
        ShutdownStep::RemoveProfile.next(outcome) == ShutdownStep::Done,
        ShutdownStep::Done.next(outcome) == ShutdownStep::Done,
{
}

/// The endpoint is looked for in `DevToolsActivePort` every 50 milliseconds, a
/// browser has three seconds to exit, and five to tell its version.
pub proof fn law_browser_limits()
    ensures
        DEVTOOLS_PORT_FILE@ == "DevToolsActivePort"@,
        PORT_FILE_POLL_INTERVAL == 50,
        SIGTERM_GRACE == 3000,
        VERSION_TIMEOUT == 5000,
{
}

} // verus!
