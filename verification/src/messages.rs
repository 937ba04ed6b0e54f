//! Messages and bodies exchanged with the backend over the WebSocket and
//! the HTTP API.
use vstd::prelude::*;

verus! {

/// The main application WebSocket endpoint.
pub struct AppSocket;

impl AppSocket {
    /// The endpoint's path.
    pub fn path() -> (r: &'static str)
        ensures
            r@ == "/ws"@,
    {
        "/ws"
    }
}

/// Messages sent from the server to the client.
#[derive(Clone, Debug, PartialEq, Eq)]
pub enum ServerMsg {
    /// Heartbeat to keep the connection alive.
    Heartbeat,
    /// Error from the server.
    Error { message: String },
    /// The server is shutting down.
    ServerShutdown { reason: String, reconnect_delay_ms: u64 },
}

/// Messages sent from the client to the server.
#[derive(Clone, Copy, Debug, PartialEq, Eq, Structural)]
pub enum ClientMsg {
    /// Ping: the server answers with a heartbeat.
    Ping,
}

/// Health check response.
#[derive(Clone, Debug, PartialEq, Eq)]
pub struct HealthResponse {
    pub status: String,
}

/// Query of the score list: an optional piece count and row limit.
#[derive(Clone, Copy, Debug, PartialEq, Eq, Structural)]
pub struct ScoresQuery {
    pub n: Option<u32>,
    pub limit: Option<u32>,
}

/// JSON error body returned by API endpoints on failure.
#[derive(Clone, Debug, PartialEq, Eq)]
pub struct ApiError {
    pub error: String,
}

/// A snapshot to shorten: the existing bit-preserving share code and its n.
/// This accepts unfinished packings and does not create a leaderboard score.
#[derive(Clone, Debug, PartialEq, Eq)]
pub struct CreateShare {
    pub n: u32,
    pub code: String,
}

/// Permanent public URL of an immutable solution snapshot.
#[derive(Clone, Debug, PartialEq, Eq)]
pub struct ShortShare {
    pub url: String,
}

} // verus!
