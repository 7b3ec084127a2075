//! Player-session layer of a multiplayer game server.
//!
//! The crate tracks which players are connected, keeps every client's view of
//! the player list consistent through an incremental broadcast protocol, and
//! measures per-connection liveness with a keep-alive challenge/response.
//! All wire encoding, registry bookkeeping and per-tick decision logic lives
//! here with verified contracts; sockets, channels and the scheduler sit
//! outside and hand this crate plain values.

pub mod varint;
pub mod wire;
pub mod skins_cache;
pub mod player_info;
pub mod player_info_decode;
pub mod keepalive;
pub mod queue;
pub mod sessions;
pub mod registry;
pub mod outbound;
pub mod keep_alive;
pub mod new_connections;
pub mod connection_killer;
pub mod player_loaded;
