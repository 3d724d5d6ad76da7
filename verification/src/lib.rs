//! Verified core of a command-line mail client: how configuration values are
//! resolved, how IMAP requests are formed and how fetched messages are rendered.

pub mod decimal;
pub mod text;
pub mod ids;
pub mod config;
pub mod mail;
pub mod wizard;
pub mod outgoing;
