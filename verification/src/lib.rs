//! The logic of a Minecraft server.
pub mod client;
pub mod codec;
pub mod crypto;
pub mod der;
pub mod double;
pub mod entity;
pub mod inventory;
pub mod level;
pub mod math;
pub mod natural;
pub mod nbt;
pub mod phase;
pub mod protocol;
pub mod proxy_protocol;
pub mod server;
pub mod stream;
pub mod system;
pub mod tick;
pub mod version_constants;
