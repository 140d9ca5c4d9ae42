//! Clipboard history: the store of captured clippings, the transfer state
//! machine that receives clipboard content, and the wire protocol that serves
//! the store to local clients.

pub mod capture;
pub mod client;
pub mod clipboard;
pub mod clipping;
pub mod clippings_storage;
pub mod config;
pub mod daemon;
pub mod error;
pub mod event_loop;
pub mod server;
pub mod wire;
