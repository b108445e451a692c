//! VoidQuest: the rules of a tile-based multiplayer RPG — world map, entities,
//! combat, procedural map generation, the single-player engine, the server's
//! session and tick logic, and the client's input state machine.

pub mod text;
pub mod rng;
pub mod arith;
pub mod world;
pub mod entity;
pub mod mapgen;
pub mod config;
pub mod protocol;
pub mod rules;
pub mod actions;
pub mod engine;
pub mod server;
pub mod client;
