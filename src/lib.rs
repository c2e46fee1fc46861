//! Turn and room coordination engine of a multiplayer word-battle game.
pub mod letters;
pub mod messages;
pub mod room;
pub mod room_manager;
pub mod services;
pub mod session;
pub mod user;
