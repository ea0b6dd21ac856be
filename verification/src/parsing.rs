//! Lexical scanning: the token alphabet and the location-tracking scanner
//! that feeds the upstream grammar stage.

pub mod scanner;
pub mod token;
