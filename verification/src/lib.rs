//! The core of a small language server, with machine-checked contracts.
//!
//! A [`session::Session`] takes the messages of one client, one after the
//! other, and answers each with the one [`message::Action`] that its
//! surroundings are to carry out: send a response or a notification, read a
//! file, or end the process. What a session remembers, and what every
//! message does to it, is written down in [`session::step`]; what holds of
//! all sessions is proved in [`laws`].
//!
//! Around the session stand
//! - [`document`], the table of open documents, and [`edit`], the changes
//!   that clients make to them;
//! - [`diagnostics`], the one rule of analysis, and [`provider`], the
//!   boundary behind which other analyses can stand;
//! - [`capabilities`], what the server advertises;
//! - [`frame`], [`codec`] and [`route`], which lead from the bytes of the
//!   wire to the messages that a session takes;
//! - [`protocol`], [`text`] and [`uri`], the vocabulary they share.

pub mod capabilities;
pub mod codec;
pub mod diagnostics;
pub mod document;
pub mod edit;
pub mod frame;
pub mod laws;
pub mod message;
pub mod protocol;
pub mod provider;
pub mod route;
pub mod session;
pub mod text;
pub mod uri;
