pub mod args;
pub mod error;
pub mod hex;
pub mod input;
pub mod messages;
pub mod paint;
pub mod terminal;
pub mod title;
pub mod window;
