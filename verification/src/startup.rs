//! Preparation of the browser at startup, and how the server exits.

use vstd::prelude::*;

use crate::config::BrowserArchive;
use crate::config::BrowserEngine;
use crate::config::Config;

verus! {

/// Milliseconds that sessions get on top of the grace period to clean up
/// before the server exits.
pub const DRAIN_MARGIN: u64 = 10_000;

/// What to do next to make the configured browser available.
#[derive(Clone, Copy, Debug, PartialEq, Eq, Structural)]
pub enum Preparation {
    /// Install the browser archive.
    Install,
    /// Find out whether the browser binary is a file.
    CheckBinary,
    /// Identify the binary, which confirms the browser.
    Identify,
    /// The browser cannot be had: mark the startup as failed and shut down.
    Fail,
}

/// The archive that has to be installed: the configured one, when it is the
/// browser that is launched.
pub open spec fn needed_archive(config: Config) -> Option<BrowserArchive> {
    if config.browser_engine == BrowserEngine::Downloaded {
        config.browser_archive
    } else {
        None
    }
}

/// The archive that has to be installed before the browser can be launched.
pub fn archive_to_install(config: &Config) -> (r: Option<&BrowserArchive>)
    ensures
        match r {
            Some(a) => needed_archive(*config) == Some(*a),
            None => needed_archive(*config) is None,
        },
{
    match config.browser_engine {
        BrowserEngine::Downloaded => config.browser_archive.as_ref(),
        BrowserEngine::Chromium | BrowserEngine::Custom => None,
    }
}

impl Preparation {
    /// The step that follows one that succeeded or failed.
    pub open spec fn next(self, ok: bool) -> Preparation {
        match self {
            Preparation::Install => if ok {
                Preparation::CheckBinary
            } else {
                Preparation::Fail
            },
            Preparation::CheckBinary => if ok {
                Preparation::Identify
            } else {
                Preparation::Fail
            },
            Preparation::Identify => Preparation::Identify,
            Preparation::Fail => Preparation::Fail,
        }
    }

    /// The first step for a configuration.
    pub fn prepare_browser(config: &Config) -> (r: Preparation)
        ensures
            r == if needed_archive(*config) is Some {
                Preparation::Install
            } else {
                Preparation::CheckBinary
            },
    {
        match archive_to_install(config) {
            Some(_) => Preparation::Install,
            None => Preparation::CheckBinary,
        }
    }

    /// The step that follows one that succeeded or failed.
    pub fn advance(self, ok: bool) -> (r: Preparation)
        ensures
            r == self.next(ok),
    {
        match self {
            Preparation::Install => {
                if ok {
                    Preparation::CheckBinary
                } else {
                    Preparation::Fail
                }
            },
            Preparation::CheckBinary => {
                if ok {
                    Preparation::Identify
                } else {
                    Preparation::Fail
                }
            },
            Preparation::Identify => Preparation::Identify,
            Preparation::Fail => Preparation::Fail,
        }
    }
}

/// Whether the server exits with success: it served without an error, all
/// sessions finished their clean-up in time, and the browser could be
/// prepared.
pub fn exits_with_success(served: bool, drained: bool, startup_failed: bool) -> (r: bool)
    ensures
        r == (served && drained && !startup_failed),
{
    served && drained && !startup_failed
}

/// The browser is confirmed only when its binary was found, after the archive
/// was installed where one is needed.
pub proof fn law_confirmed_browser_exists(installed: bool, is_file: bool)
    ensures
        Preparation::CheckBinary.next(is_file) == Preparation::Identify <==> is_file,
        Preparation::Install.next(installed).next(is_file) == Preparation::Identify <==> installed
            && is_file,
        Preparation::Install.next(installed).next(is_file) == Preparation::Fail <==> !installed
            || !is_file,
{
}

/// An archive is installed exactly when the downloaded browser is the one that
/// is launched, and it is the configured archive.
pub proof fn law_archive_needed(config: Config)
    ensures
        config.browser_engine == BrowserEngine::Downloaded ==> needed_archive(config)
            == config.browser_archive,
        config.browser_engine != BrowserEngine::Downloaded ==> needed_archive(config) is None,
{
}

/// A preparation that is decided stays so, and sessions get ten seconds on top
/// of the grace period.
pub proof fn law_preparation_is_final(ok: bool)
    ensures
        Preparation::Identify.next(ok) == Preparation::Identify,
        Preparation::Fail.next(ok) == Preparation::Fail,
        Preparation::Install.next(ok) == Preparation::CheckBinary <==> ok,
        Preparation::Install.next(ok) == Preparation::Fail <==> !ok,
        Preparation::CheckBinary.next(ok) == Preparation::Fail <==> !ok,
        DRAIN_MARGIN == 10_000,
{
}

} // verus!
