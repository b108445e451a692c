//! The client's logic: the screens and their keys, what server messages do
//! to the client's picture of the world, and the single-player driver.

pub mod bridge;
pub mod state;
pub mod keys;
pub mod json;
pub mod app;
