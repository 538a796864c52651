//! The game world: graphics vocabulary, keyboard, entities, the server that
//! owns the world and the client that mirrors it.

pub mod client;
pub mod ecs;
pub mod graphics;
pub mod keyboard;
pub mod server;

pub use client::MyGame;
pub use server::{Server, ServerCommand, ServerContext, PLAYER1_HANDLE, PLAYER2_HANDLE};
