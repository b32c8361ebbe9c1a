//! Core of a small multiplayer server speaking the Classic block-game
//! protocol: wire framing, the table of live connections, the rules that
//! turn client messages into state changes and broadcasts, and the
//! presence record announced to server-list registries.

pub mod client_bound;
pub mod components;
pub mod decimal;
pub mod decoded;
pub mod heartbeat;
pub mod inbox;
pub mod publisher;
pub mod salt;
pub mod server;
pub mod server_bound;
pub mod store;
pub mod text;
pub mod wire;
pub mod world;
