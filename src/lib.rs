//! Decoder for the MiniPNG container: a magic prefix followed by tagged,
//! length-prefixed Header, Comment and Data blocks.

pub mod mpng;
pub mod model;
pub mod parser;
pub mod laws;
