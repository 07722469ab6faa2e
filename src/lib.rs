//! A password generator: a length and the shares of lower case letters, upper
//! case letters, digits and symbols decide how each character is drawn.

pub mod config;
pub mod decimal;
pub mod generator;
pub mod laws;
pub mod palette;
