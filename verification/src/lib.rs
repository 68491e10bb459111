pub mod date;
pub mod error;
pub mod parse;
pub mod resolve;
