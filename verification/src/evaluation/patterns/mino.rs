//! The Mino castle.

use vstd::prelude::*;
use crate::types::{PieceType, TaperedScore};
use crate::evaluation::castles::{castle_piece, cp, CastlePattern, CastlePiece};

verus! {

/// The pieces of the Mino castle: gold and silver required, three pawns optional.
pub open spec fn mino_pieces() -> Seq<CastlePiece> {
    seq![
        cp(PieceType::Gold, -1, -1, true, 10),
        cp(PieceType::Silver, -2, -1, true, 9),
        cp(PieceType::Pawn, -2, -2, false, 6),
        cp(PieceType::Pawn, -1, -2, false, 6),
        cp(PieceType::Pawn, 0, -2, false, 6),
    ]
}

/// The Mino castle pattern.
pub fn get_mino_castle() -> (r: CastlePattern)
    ensures
        r.name@ == "Mino"@,
        r.pieces@ == mino_pieces(),
        r.score == (TaperedScore { mg: 180, eg: 60 }),
        r.flexibility == 2,
{
    let mut pieces: Vec<CastlePiece> = Vec::new();
    pieces.push(castle_piece(PieceType::Gold, -1, -1, true, 10));
    pieces.push(castle_piece(PieceType::Silver, -2, -1, true, 9));
    pieces.push(castle_piece(PieceType::Pawn, -2, -2, false, 6));
    pieces.push(castle_piece(PieceType::Pawn, -1, -2, false, 6));
    pieces.push(castle_piece(PieceType::Pawn, 0, -2, false, 6));
    assert(pieces@ == mino_pieces());
    CastlePattern { name: "Mino", pieces, score: TaperedScore::new_tapered(180, 60), flexibility: 2 }
}

} // verus!
