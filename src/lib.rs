//! A gravity-drop four-in-a-row game engine, with small examples of enums, structs and
//! borrowed strings beside it.

pub mod enums;
pub mod game;
pub mod lifetimes;
pub mod structs;
