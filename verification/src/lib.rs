//! Verified core of a minimal Chromium gateway.

pub mod auth;
pub mod browser_archive;
pub mod chromium;
pub mod config;
pub mod errors;
pub mod hash;
pub mod language;
pub mod launch;
pub mod number;
pub mod proxy;
pub mod queue;
pub mod server;
pub mod session;
pub mod startup;
pub mod text;
