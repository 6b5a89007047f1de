//! A terminal password manager's core: the encrypted vault format, entry
//! search and ordering, time-based one-time passwords, settings, and the
//! key-driven state machine of the user interface.

pub mod app;
pub mod editing;
pub mod generator;
pub mod handler;
pub mod listing;
pub mod config;
pub mod crypto;
pub mod display;
pub mod order;
pub mod prompt;
pub mod stats;
pub mod totp;
pub mod text;
pub mod theme;
pub mod vault;
pub mod view;
