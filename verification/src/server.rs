//! What the HTTP endpoints decide.

use axum::http::HeaderMap;
use axum::http::HeaderValue;
use vstd::prelude::*;

use crate::auth::accepted;
use crate::auth::authorization_of;
use crate::auth::is_authorized;
use crate::chromium::BrowserInfo;
use crate::errors::GatewayError;
use crate::errors::GatewayErrorView;
use crate::launch::launch_options_fault;
use crate::launch::LaunchOptions;
use crate::queue::law_refused_when_full;
use crate::queue::Admission;
use crate::queue::Gate;
use crate::queue::GateView;
use crate::text::text_of_ref;

verus! {

// ---------------------------------------------------------------------------
// Readiness
// ---------------------------------------------------------------------------

/// Whether the server takes new sessions, and if not, why.
#[derive(Clone, Copy, Debug, PartialEq, Eq, Structural)]
pub enum Readiness {
    Ready,
    ShuttingDown,
    /// The browser binary has not been confirmed yet.
    BrowserPending,
    AtCapacity,
}

impl Readiness {
    /// The HTTP status of the answer.
    pub open spec fn status(self) -> u16 {
        if self == Readiness::Ready {
            200
        } else {
            503
        }
    }

    /// The reason in the answer of a server that is not ready.
    pub open spec fn text(self) -> Option<Seq<char>> {
        match self {
            Readiness::Ready => None,
            Readiness::ShuttingDown => Some("shutting_down"@),
            Readiness::BrowserPending => Some("browser_pending"@),
            Readiness::AtCapacity => Some("at_capacity"@),
        }
    }

    /// The HTTP status of the answer.
    pub fn status_code(self) -> (r: u16)
        ensures
            r == self.status(),
    {
        match self {
            Readiness::Ready => 200,
            Readiness::ShuttingDown | Readiness::BrowserPending | Readiness::AtCapacity => 503,
        }
    }

    /// The reason in the answer of a server that is not ready.
    pub fn reason(self) -> (r: Option<&'static str>)
        ensures
            text_of_ref(r) == self.text(),
    {
        match self {
            Readiness::Ready => None,
            Readiness::ShuttingDown => Some("shutting_down"),
            Readiness::BrowserPending => Some("browser_pending"),
            Readiness::AtCapacity => Some("at_capacity"),
        }
    }
}

/// The readiness of a server: it is ready when it does not shut down, its
/// browser is confirmed and its gate has room.
pub open spec fn readiness(
    shutting_down: bool,
    browser_confirmed: bool,
    has_capacity: bool,
) -> Readiness {
    if shutting_down {
        Readiness::ShuttingDown
    } else if !browser_confirmed {
        Readiness::BrowserPending
    } else if !has_capacity {
        Readiness::AtCapacity
    } else {
        Readiness::Ready
    }
}

/// The readiness of the server.
pub fn ready(shutting_down: bool, browser_confirmed: bool, gate: &Gate) -> (r: Readiness)
    requires
        gate.wf(),
    ensures
        r == readiness(shutting_down, browser_confirmed, gate@.has_capacity()),
{
    if shutting_down {
        Readiness::ShuttingDown
    } else if !browser_confirmed {
        Readiness::BrowserPending
    } else if !gate.has_capacity() {
        Readiness::AtCapacity
    } else {
        Readiness::Ready
    }
}

// ---------------------------------------------------------------------------
// Status
// ---------------------------------------------------------------------------

/// The counters of sessions against their limits, and the browser that serves
/// them, once it is known.
#[derive(Debug)]
pub struct StatusReport<'a> {
    pub active_sessions: usize,
    pub max_concurrent_sessions: usize,
    pub queued_sessions: usize,
    pub max_queue_length: usize,
    pub browser: Option<&'a BrowserInfo>,
}

/// The answer to a status request: the counters and the identity of the
/// browser, for a request that carries the token.
pub fn status<'a>(
    gate: &Gate,
    browser: Option<&'a BrowserInfo>,
    expected: Option<&str>,
    query_token: Option<&str>,
    headers: &HeaderMap<HeaderValue>,
) -> (r: Result<StatusReport<'a>, GatewayError>)
    requires
        gate.wf(),
    ensures
        match r {
            Ok(s) => {
                &&& accepted(
                    text_of_ref(expected),
                    text_of_ref(query_token),
                    authorization_of(*headers),
                )
                &&& s.active_sessions == gate@.active()
                &&& s.max_concurrent_sessions == gate@.max_sessions
                &&& s.queued_sessions == gate@.queue.len()
                &&& s.max_queue_length == gate@.max_queue
                &&& s.browser == browser
            },
            Err(e) => e@ == GatewayErrorView::Unauthorized && !accepted(
                text_of_ref(expected),
                text_of_ref(query_token),
                authorization_of(*headers),
            ),
        },
{
    if !is_authorized(expected, query_token, headers) {
        return Err(GatewayError::Unauthorized);
    }
    Ok(
        StatusReport {
            active_sessions: gate.active_sessions(),
            max_concurrent_sessions: gate.max_sessions(),
            queued_sessions: gate.queued_sessions(),
            max_queue_length: gate.max_queue(),
            browser,
        },
    )
}

// ---------------------------------------------------------------------------
// Admission
// ---------------------------------------------------------------------------

/// Why a session request is refused before it asks for a slot, if it is: a
/// wrong token, then a server that shuts down, then a browser that is not
/// confirmed yet.
pub open spec fn admission_fault(
    authorized: bool,
    shutting_down: bool,
    browser_confirmed: bool,
) -> Option<GatewayErrorView> {
    if !authorized {
        Some(GatewayErrorView::Unauthorized)
    } else if shutting_down {
        Some(GatewayErrorView::ShuttingDown)
    } else if !browser_confirmed {
        Some(GatewayErrorView::ChromiumUnavailable("browser is not ready"@))
    } else {
        None
    }
}

/// Decides whether a session request may go on to its launch options.
pub fn check_admission(
    expected: Option<&str>,
    query_token: Option<&str>,
    headers: &HeaderMap<HeaderValue>,
    shutting_down: bool,
    browser_confirmed: bool,
) -> (r: Result<(), GatewayError>)
    ensures
        ({
            let authorized = accepted(
                text_of_ref(expected),
                text_of_ref(query_token),
                authorization_of(*headers),
            );
            match r {
                Ok(_) => admission_fault(authorized, shutting_down, browser_confirmed) is None,
                Err(e) => admission_fault(authorized, shutting_down, browser_confirmed) == Some(e@),
            }
        }),
{
    if !is_authorized(expected, query_token, headers) {
        return Err(GatewayError::Unauthorized);
    }
    if shutting_down {
        return Err(GatewayError::ShuttingDown);
    }
    if !browser_confirmed {
        return Err(GatewayError::ChromiumUnavailable("browser is not ready".to_owned()));
    }
    Ok(())
}

/// What the `launch` parameter of a request came to.
pub enum LaunchParameter {
    /// The request has none.
    Absent,
    /// It is not a JSON object of launch options; why, in words.
    Malformed(String),
    Parsed(LaunchOptions),
}

/// The launch options of a request: those that it asks for, checked, or the
/// defaults.
pub fn launch_options(parameter: LaunchParameter) -> (r: Result<LaunchOptions, GatewayError>)
    ensures
        match parameter {
            LaunchParameter::Absent => r matches Ok(o) && o.proxy_server is None
                && o.proxy_bypass_list is None && o.disable_web_security is None
                && o.accept_language is None && o.user_agent is None && o.viewport is None,
            LaunchParameter::Malformed(why) => r matches Err(e) && e@
                == GatewayErrorView::InvalidLaunchOptions(why@),
            LaunchParameter::Parsed(o) => match launch_options_fault(o) {
                None => r matches Ok(v) && v == o,
                Some(reason) => r matches Err(e) && e@ == GatewayErrorView::InvalidLaunchOptions(
                    reason,
                ),
            },
        },
{
    match parameter {
        LaunchParameter::Absent => LaunchOptions::default().validate(),
        LaunchParameter::Malformed(why) => Err(GatewayError::InvalidLaunchOptions(why)),
        LaunchParameter::Parsed(options) => options.validate(),
    }
}

// ---------------------------------------------------------------------------
// Laws
// ---------------------------------------------------------------------------

/// A request with a wrong token learns nothing but that: it is answered 401
/// whatever the state of the server.
pub proof fn law_unauthorized_comes_first(shutting_down: bool, browser_confirmed: bool)
    ensures
        admission_fault(false, shutting_down, browser_confirmed) == Some(
            GatewayErrorView::Unauthorized,
        ),
        GatewayErrorView::Unauthorized.status() == 401,
{
}

/// A server that reports ready refuses no authorized request: neither before it
/// asks for a slot, nor when it does.
pub proof fn law_ready_server_admits(
    shutting_down: bool,
    browser_confirmed: bool,
    gate: GateView,
    id: u128,
)
    requires
        gate.wf(),
    ensures
        readiness(shutting_down, browser_confirmed, gate.has_capacity()) == Readiness::Ready
            <==> admission_fault(true, shutting_down, browser_confirmed) is None && gate.arrive(
            id,
        ).1 != Admission::QueueFull,
{
    law_refused_when_full(gate, id);
}

/// A server that is not ready answers 503, and a request that it
/// refuses on that account is answered 503 too.
pub proof fn law_unready_is_503(shutting_down: bool, browser_confirmed: bool, has_capacity: bool)
    ensures
        readiness(shutting_down, browser_confirmed, has_capacity).status() == 200
            || readiness(shutting_down, browser_confirmed, has_capacity).status() == 503,
        admission_fault(true, shutting_down, browser_confirmed) matches Some(e) ==> e.status()
            == 503 && readiness(shutting_down, browser_confirmed, has_capacity).status() == 503,
{
}

/// The one thing that keeps a server from being ready is the one it names, the
/// shutdown before the browser and the browser before the capacity; only a ready
/// server answers 200.
pub proof fn law_readiness(shutting_down: bool, browser_confirmed: bool, has_capacity: bool)
    ensures
        ({
            let r = readiness(shutting_down, browser_confirmed, has_capacity);
            &&& r == Readiness::Ready <==> !shutting_down && browser_confirmed && has_capacity
            &&& r == Readiness::ShuttingDown <==> shutting_down
            &&& r == Readiness::BrowserPending <==> !shutting_down && !browser_confirmed
            &&& r == Readiness::AtCapacity <==> !shutting_down && browser_confirmed && !has_capacity
            &&& r.status() == 200 <==> r == Readiness::Ready
            &&& r.status() == 503 <==> r != Readiness::Ready
        }),
        Readiness::Ready.text() == None::<Seq<char>>,
        Readiness::ShuttingDown.text() == Some("shutting_down"@),
        Readiness::BrowserPending.text() == Some("browser_pending"@),
        Readiness::AtCapacity.text() == Some("at_capacity"@),
{
}

/// A request is let through exactly when it is authorized, the server does not
/// shut down and the browser is confirmed; of several faults the token comes
/// first, then the shutdown.
pub proof fn law_admission(authorized: bool, shutting_down: bool, browser_confirmed: bool)
    ensures
        ({
            let fault = admission_fault(authorized, shutting_down, browser_confirmed);
            &&& fault is None <==> authorized && !shutting_down && browser_confirmed
            &&& !authorized ==> fault == Some(GatewayErrorView::Unauthorized)
            &&& authorized && shutting_down ==> fault == Some(GatewayErrorView::ShuttingDown)
            &&& authorized && !shutting_down && !browser_confirmed ==> fault == Some(
                GatewayErrorView::ChromiumUnavailable("browser is not ready"@),
            )
        }),
{
}

} // verus!
