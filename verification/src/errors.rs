//! Errors that a client sees before its WebSocket upgrade completes.

use vstd::prelude::*;

use crate::text::concat;

verus! {

/// Errors surfaced to clients before the WebSocket upgrade completes.
#[derive(Debug)]
pub enum GatewayError {
    Unauthorized,
    QueueFull,
    ShuttingDown,
    QueueTimeout,
    ChromiumStartupTimeout,
    ChromiumUnavailable(String),
    InvalidLaunchOptions(String),
}

/// A `GatewayError` with its text as characters.
pub enum GatewayErrorView {
    Unauthorized,
    QueueFull,
    ShuttingDown,
    QueueTimeout,
    ChromiumStartupTimeout,
    ChromiumUnavailable(Seq<char>),
    InvalidLaunchOptions(Seq<char>),
}

impl View for GatewayError {
    type V = GatewayErrorView;

    open spec fn view(&self) -> GatewayErrorView {
        match *self {
            GatewayError::Unauthorized => GatewayErrorView::Unauthorized,
            GatewayError::QueueFull => GatewayErrorView::QueueFull,
            GatewayError::ShuttingDown => GatewayErrorView::ShuttingDown,
            GatewayError::QueueTimeout => GatewayErrorView::QueueTimeout,
            GatewayError::ChromiumStartupTimeout => GatewayErrorView::ChromiumStartupTimeout,
            GatewayError::ChromiumUnavailable(s) => GatewayErrorView::ChromiumUnavailable(s@),
            GatewayError::InvalidLaunchOptions(s) => GatewayErrorView::InvalidLaunchOptions(s@),
        }
    }
}

impl GatewayErrorView {
    /// The HTTP status that the error is answered with.
    pub open spec fn status(self) -> u16 {
        match self {
            GatewayErrorView::InvalidLaunchOptions(_) => 400,
            GatewayErrorView::Unauthorized => 401,
            GatewayErrorView::QueueFull => 429,
            GatewayErrorView::ShuttingDown => 503,
            GatewayErrorView::ChromiumUnavailable(_) => 503,
            GatewayErrorView::QueueTimeout => 504,
            GatewayErrorView::ChromiumStartupTimeout => 504,
        }
    }

    /// The error in words.
    pub open spec fn text(self) -> Seq<char> {
        match self {
            GatewayErrorView::Unauthorized => "missing or invalid token"@,
            GatewayErrorView::QueueFull => "session queue is full"@,
            GatewayErrorView::ShuttingDown => "server is shutting down"@,
            GatewayErrorView::QueueTimeout => "timed out waiting for a session slot"@,
            GatewayErrorView::ChromiumStartupTimeout => "timed out waiting for Chromium to start"@,
            GatewayErrorView::ChromiumUnavailable(s) => "failed to start Chromium: "@ + s,
            GatewayErrorView::InvalidLaunchOptions(s) => "invalid launch options: "@ + s,
        }
    }
}

/// What a failed request is answered with: the HTTP status and the `error`
/// field of the JSON body.
pub struct ErrorResponse {
    pub status: u16,
    pub error: String,
}

impl GatewayError {
    /// The HTTP status that the error is answered with.
    pub fn status_code(&self) -> (r: u16)
        ensures
            r == self@.status(),
    {
        match self {
            GatewayError::InvalidLaunchOptions(_) => 400,
            GatewayError::Unauthorized => 401,
            GatewayError::QueueFull => 429,
            GatewayError::ShuttingDown | GatewayError::ChromiumUnavailable(_) => 503,
            GatewayError::QueueTimeout | GatewayError::ChromiumStartupTimeout => 504,
        }
    }

    /// The error in words.
    pub fn message(&self) -> (r: String)
        ensures
            r@ == self@.text(),
    {
        match self {
            GatewayError::Unauthorized => "missing or invalid token".to_owned(),
            GatewayError::QueueFull => "session queue is full".to_owned(),
            GatewayError::ShuttingDown => "server is shutting down".to_owned(),
            GatewayError::QueueTimeout => "timed out waiting for a session slot".to_owned(),
            GatewayError::ChromiumStartupTimeout => {
                "timed out waiting for Chromium to start".to_owned()
            },
            GatewayError::ChromiumUnavailable(s) => concat("failed to start Chromium: ", s.as_str()),
            GatewayError::InvalidLaunchOptions(s) => concat("invalid launch options: ", s.as_str()),
        }
    }

    /// What the failed request is answered with.
    pub fn into_response(self) -> (r: ErrorResponse)
        ensures
            r.status == self@.status(),
            r.error@ == self@.text(),
    {
        ErrorResponse { status: self.status_code(), error: self.message() }
    }
}

/// Each error has its own meaning by status: 400 for options that are refused,
/// 401 for a wrong token, 429 for a full queue, 503 for a server or a browser
/// that is not there, 504 for a wait that took too long.
pub proof fn law_statuses(e: GatewayErrorView)
    ensures
        e.status() == 400 <==> e is InvalidLaunchOptions,
        e.status() == 401 <==> e is Unauthorized,
        e.status() == 429 <==> e is QueueFull,
        e.status() == 503 <==> e is ShuttingDown || e is ChromiumUnavailable,
        e.status() == 504 <==> e is QueueTimeout || e is ChromiumStartupTimeout,
{
}

/// Errors keep their kind and their text when they are viewed, and each says in
/// words what went wrong, with the particulars last.
pub proof fn law_error_texts(s: String)
    ensures
        GatewayError::Unauthorized@ == GatewayErrorView::Unauthorized,
        GatewayError::QueueFull@ == GatewayErrorView::QueueFull,
        GatewayError::ShuttingDown@ == GatewayErrorView::ShuttingDown,
        GatewayError::QueueTimeout@ == GatewayErrorView::QueueTimeout,
        GatewayError::ChromiumStartupTimeout@ == GatewayErrorView::ChromiumStartupTimeout,
        GatewayError::ChromiumUnavailable(s)@ == GatewayErrorView::ChromiumUnavailable(s@),
        GatewayError::InvalidLaunchOptions(s)@ == GatewayErrorView::InvalidLaunchOptions(s@),
        GatewayError::Unauthorized@.text() == "missing or invalid token"@,
        GatewayError::QueueFull@.text() == "session queue is full"@,
        GatewayError::ShuttingDown@.text() == "server is shutting down"@,
        GatewayError::QueueTimeout@.text() == "timed out waiting for a session slot"@,
        GatewayError::ChromiumStartupTimeout@.text() == "timed out waiting for Chromium to start"@,
        GatewayError::ChromiumUnavailable(s)@.text() == "failed to start Chromium: "@ + s@,
        GatewayError::InvalidLaunchOptions(s)@.text() == "invalid launch options: "@ + s@,
{
}

} // verus!
