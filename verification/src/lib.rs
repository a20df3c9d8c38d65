//! Synchronisation and scheduling core of a grammar-checking language server.

pub mod buffer;
pub mod cache;
pub mod check;
pub mod diagnostic;
pub mod document;
pub mod fix;
pub mod language;
pub mod model;
pub mod options;
pub mod payload;
pub mod protocol;
pub mod schedule;
pub mod source;
pub mod state;
pub mod text;
