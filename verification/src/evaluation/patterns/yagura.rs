//! The Yagura castle.

use vstd::prelude::*;
use crate::types::{PieceType, TaperedScore};
use crate::evaluation::castles::{castle_piece, cp, CastlePattern, CastlePiece};

verus! {

/// The pieces of the Yagura castle: gold and silver required, a lance and two pawns optional.
pub open spec fn yagura_pieces() -> Seq<CastlePiece> {
    seq![
        cp(PieceType::Gold, -1, -1, true, 10),
        cp(PieceType::Silver, -2, -1, true, 9),
        cp(PieceType::Lance, 0, 3, false, 5),
        cp(PieceType::Pawn, -2, -2, false, 6),
        cp(PieceType::Pawn, -1, -2, false, 6),
    ]
}

/// The Yagura castle pattern.
pub fn get_yagura_castle() -> (r: CastlePattern)
    ensures
        r.name@ == "Yagura"@,
        r.pieces@ == yagura_pieces(),
        r.score == (TaperedScore { mg: 160, eg: 80 }),
        r.flexibility == 2,
{
    let mut pieces: Vec<CastlePiece> = Vec::new();
    pieces.push(castle_piece(PieceType::Gold, -1, -1, true, 10));
    pieces.push(castle_piece(PieceType::Silver, -2, -1, true, 9));
    pieces.push(castle_piece(PieceType::Lance, 0, 3, false, 5));
    pieces.push(castle_piece(PieceType::Pawn, -2, -2, false, 6));
    pieces.push(castle_piece(PieceType::Pawn, -1, -2, false, 6));
    assert(pieces@ == yagura_pieces());
    CastlePattern { name: "Yagura", pieces, score: TaperedScore::new_tapered(160, 80), flexibility: 2 }
}

} // verus!
