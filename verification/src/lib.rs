//! A verified core for a multi-account chat-platform scraper: mention
//! extraction out of message text, the contiguous history expander with
//! its adaptive forward budget, the frozen-session store, the
//! account-scoped resolution cache, and the stale-item scheduler.

pub mod cache;
pub mod deeplink;
pub mod extract;
pub mod history;
pub mod interop;
pub mod names;
pub mod schedule;
pub mod session;
pub mod text;
pub mod types;
