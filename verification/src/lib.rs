//! A turn-based multiplayer game server core: the board model with its
//! turn resolution, the agent that maps players onto it, and the framed
//! binary protocol that clients speak.

/// Numbers and bytes as text.
pub mod text;

/// The server's configuration.
pub mod config;

/// The game board, its units and the turn resolution.
pub mod game;

/// Communication with the clients.
pub mod comm;

/// The intermediary between the connections and the game.
pub mod agent;
