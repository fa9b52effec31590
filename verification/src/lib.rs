//! A shogi engine library: board representation, move generation, evaluation
//! components, an evaluation cache, opening-book formats and record parsing.

pub mod types;
pub mod text;
pub mod clock;
pub mod bitboards;
pub mod sfen;
pub mod position_command;
pub mod moves;
pub mod evaluation;
pub mod opening_book;
pub mod kif_parser;
pub mod opening_book_converter;
