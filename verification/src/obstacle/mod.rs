pub mod door;
pub mod key;
