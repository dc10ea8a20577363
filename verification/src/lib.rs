pub mod client;
pub mod follower;
pub mod json;
pub mod lookup;
pub mod mirror;
pub mod monitor;
pub mod outbox;
pub mod protocol;
pub mod registry;
pub mod state;
pub mod text;
pub mod transport;
pub mod turns;
pub mod validate;
pub mod wire;
