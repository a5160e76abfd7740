//! The central api which handles websockets and file streams between uploaders and clients.
//!
//! This crate holds the decision logic of the server: the bookkeeping of connected agents and
//! waiting requests, the websocket session state machine, agent registration, the handling of
//! downloads and uploads, configuration parsing and the in-memory agent store.

pub mod common;
pub mod config;
pub mod db;
pub mod endpoints;
pub mod error;
pub mod models;
pub mod state;
pub mod structs;
pub mod text;
pub mod timelocked_hashmap;

pub use state::State;
