//! Verified core of a terminal monitor for an AdGuard Home instance.
pub mod fetch;
pub mod retry;
pub mod runtime;
pub mod setup;
pub mod text;
pub mod version;
