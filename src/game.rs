pub mod driver;
pub mod message;
pub mod tile;
