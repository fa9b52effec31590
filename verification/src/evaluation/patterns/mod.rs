//! The castle formations recognised by the engine.

pub mod mino;
pub mod anaguma;
pub mod yagura;
