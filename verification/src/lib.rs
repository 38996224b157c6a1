pub mod api;
pub mod codec;
pub mod config;
pub mod engine;
pub mod game;
pub mod handlers;
pub mod laws;
pub mod lg;
pub mod message;
pub mod routing;
pub mod systems;
pub mod table;
pub mod transport;
