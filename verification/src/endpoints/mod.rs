//! The endpoints of the api: registration, websockets, downloads, uploads and information.

pub mod auth;
pub mod download;
pub mod info;
pub mod upload;
pub mod util;
pub mod websockets;
