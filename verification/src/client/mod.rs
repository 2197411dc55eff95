//! The decisions of stress-testing clients.

pub mod messaging;
pub mod pending;
pub mod websocket;
pub mod http;
pub mod manager;
