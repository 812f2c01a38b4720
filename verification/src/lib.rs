//! A room-based chat relay: the registry of connections and rooms, the
//! dispatcher that applies chat, login and termination events to it, and the
//! contracts of the stores it consults.

pub mod chat;
pub mod config;
pub mod http_server;
pub mod repository;
pub mod text;
