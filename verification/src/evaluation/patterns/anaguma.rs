//! The Anaguma castle.

use vstd::prelude::*;
use crate::types::{PieceType, TaperedScore};
use crate::evaluation::castles::{castle_piece, cp, CastlePattern, CastlePiece};

verus! {

/// The pieces of the Anaguma castle: gold and silver required, four pawns optional.
pub open spec fn anaguma_pieces() -> Seq<CastlePiece> {
    seq![
        cp(PieceType::Gold, -1, 0, true, 10),
        cp(PieceType::Silver, -2, 0, true, 9),
        cp(PieceType::Pawn, -2, -1, false, 7),
        cp(PieceType::Pawn, -2, 1, false, 7),
        cp(PieceType::Pawn, -1, -1, false, 6),
        cp(PieceType::Pawn, -1, 1, false, 6),
    ]
}

/// The Anaguma castle pattern.
pub fn get_anaguma_castle() -> (r: CastlePattern)
    ensures
        r.name@ == "Anaguma"@,
        r.pieces@ == anaguma_pieces(),
        r.score == (TaperedScore { mg: 220, eg: 40 }),
        r.flexibility == 3,
{
    let mut pieces: Vec<CastlePiece> = Vec::new();
    pieces.push(castle_piece(PieceType::Gold, -1, 0, true, 10));
    pieces.push(castle_piece(PieceType::Silver, -2, 0, true, 9));
    pieces.push(castle_piece(PieceType::Pawn, -2, -1, false, 7));
    pieces.push(castle_piece(PieceType::Pawn, -2, 1, false, 7));
    pieces.push(castle_piece(PieceType::Pawn, -1, -1, false, 6));
    pieces.push(castle_piece(PieceType::Pawn, -1, 1, false, 6));
    assert(pieces@ == anaguma_pieces());
    CastlePattern { name: "Anaguma", pieces, score: TaperedScore::new_tapered(220, 40), flexibility: 3 }
}

} // verus!
