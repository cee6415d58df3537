//! Client-side session core of a real-time multiplayer grid game with chat.
//!
//! The crate keeps a connection lifecycle state machine, a typed tagged wire
//! protocol with a verified codec, an authoritative-plus-optimistic table of
//! players, a pending-chat reconciliation index and a latency probe monitor.
//! Transport, canvas and DOM concerns live outside the library; the library
//! exposes data, events and intents for such a layer to drive.

pub mod client;
pub mod heartbeat;
pub mod json;
pub mod pending;
pub mod protocol;
pub mod text;
pub mod timefmt;
pub mod world;

pub use client::ChatSend;
pub use client::ConnectionState;
pub use client::Effect;
pub use client::IronVeinClient;
pub use client::JoinMode;
pub use client::Placeholder;
pub use protocol::ClientError;
pub use protocol::GRID_SIZE;
pub use protocol::Message;
pub use protocol::Player;
pub use text::normalize_key;
