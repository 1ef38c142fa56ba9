//! What travels between the peers of a game over the network, and the
//! decisions of the relay server.

pub mod addr;
pub mod protocol;
pub mod referee;

pub use protocol::NetMessage;
