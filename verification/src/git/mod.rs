pub mod parse;
pub mod types;
pub mod patch;
pub mod todo;
pub mod client;
