pub mod wire;
pub mod protocol;
pub mod registry;
pub mod client;
pub mod transport;
