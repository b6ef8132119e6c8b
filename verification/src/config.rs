//! Server configuration.

use vstd::prelude::*;

verus! {

/// Server configuration.
#[derive(Debug)]
pub struct ServerConfig {
    /// Interval for sending ping messages to clients.
    pub ping_interval: std::time::Duration,
    /// Timeout duration for considering a client disconnected if no pong is received.
    pub ping_timeout: std::time::Duration,
    /// Port number on which the server will listen.
    pub port: u16,
    /// Host address on which the server will bind.
    pub host: String,
    /// Secret key for JWT authentication.
    pub jwt_secret: String,
}

impl Clone for ServerConfig {
    fn clone(&self) -> (r: ServerConfig)
        ensures
            r == *self,
    {
        ServerConfig {
            ping_interval: self.ping_interval.clone(),
            ping_timeout: self.ping_timeout.clone(),
            port: self.port,
            host: self.host.clone(),
            jwt_secret: self.jwt_secret.clone(),
        }
    }
}

/// `Duration` is `Copy`: its `clone` (std's `impl Clone for Duration`)
/// hands back the same value.
pub assume_specification[ <std::time::Duration as Clone>::clone ](d: &std::time::Duration) -> (r: std::time::Duration)
    ensures
        r == *d,
;

} // verus!
