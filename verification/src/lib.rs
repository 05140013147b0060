//! Decoder for a three-character instruction language: a token filter turns
//! raw text into a stream of `Space` / `Tab` / `NewLine` tokens, and a
//! one-pass prefix-code decoder resolves that stream into a structured list
//! of instructions.

pub mod encode;
pub mod render;
pub mod lexer;
pub mod token;
