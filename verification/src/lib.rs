//! Quiz "learning modules" live as structured markup documents in a
//! directory. This library turns such documents into a typed in-memory
//! model — a strict grammar for version numbers, a schema-driven decoder
//! over structural parse events, and a whole-batch loader — and holds the
//! state machine of the terminal browser that lists the loaded modules.
//! Every function carries a contract saying exactly what it computes, with
//! the calls into the markup reader isolated behind a few trusted items.

pub mod document;
pub mod error;
pub mod events;
pub mod loader;
pub mod module_browser;
pub mod tree;
pub mod ui;
pub mod version;
