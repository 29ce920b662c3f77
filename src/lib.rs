pub mod address;
pub mod config;
pub mod manager;
pub mod poll;
pub mod round;
mod text;
pub mod types;
pub mod uint;
