//! A SocketCluster protocol (version 1) server core.
//!
//! The library keeps the registry of connected sockets and of channel
//! subscriptions, and decides, for every frame a client sends, what the
//! server answers and to whom.  Transport (WebSocket I/O, timers, JSON
//! text) is driven by the embedding program, which hands the library
//! plain values and performs the deliveries the library returns.

pub mod collections;
pub mod config;
pub mod connection;
pub mod handlers;
pub mod laws;
pub mod middleware;
pub mod models;
pub mod state;

pub use config::ServerConfig;
pub use connection::{Connection, Frame, Phase, Step};
pub use handlers::{Delivery, PingAction};
pub use middleware::MiddlewareRun;
pub use models::{Event, JsonNumber, JsonValue, Packet};
pub use state::{AppState, Channel, SocketId, create_socketcluster_state};
