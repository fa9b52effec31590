//! Castle (king fortress) pattern data.

use vstd::prelude::*;
use crate::types::{PieceType, TaperedScore};

verus! {

/// One piece of a castle formation, placed relative to the king.
#[derive(Clone, Copy, Debug, PartialEq, Eq)]
pub struct CastlePiece {
    pub piece_type: PieceType,
    /// (row, column) offset from the king, seen from the owner's side.
    pub relative_pos: (i8, i8),
    /// Whether the formation needs this piece.
    pub required: bool,
    /// Importance of the piece in the formation.
    pub weight: u8,
}

/// A named variant of a castle formation.
#[derive(Clone, Debug)]
pub struct CastleVariant {
    pub id: &'static str,
    pub pieces: Vec<CastlePiece>,
}

/// A castle formation with its score and flexibility.
#[derive(Clone, Debug)]
pub struct CastlePattern {
    pub name: &'static str,
    pub pieces: Vec<CastlePiece>,
    pub score: TaperedScore,
    /// How many optional pieces may be missing.
    pub flexibility: u8,
}

/// A castle piece.
pub open spec fn cp(piece_type: PieceType, dr: int, dc: int, required: bool, weight: int) -> CastlePiece {
    CastlePiece { piece_type, relative_pos: (dr as i8, dc as i8), required, weight: weight as u8 }
}

/// A castle piece.
pub fn castle_piece(piece_type: PieceType, dr: i8, dc: i8, required: bool, weight: u8) -> (r: CastlePiece)
    ensures
        r == cp(piece_type, dr as int, dc as int, required, weight as int),
{
    CastlePiece { piece_type, relative_pos: (dr, dc), required, weight }
}

} // verus!
