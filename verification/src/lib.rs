//! A multi-user dungeon: players, rooms, items, doors, fights and the
//! commands that act on them, with what each operation does stated and
//! proved.
pub mod attribute;
pub mod db;
pub mod describe;
pub mod error;
pub mod fight;
pub mod game;
pub mod hook;
pub mod interpreter;
pub mod item;
pub mod list;
pub mod location;
pub mod map;
pub mod obstacle;
pub mod player;
pub mod soul;
pub mod text;
