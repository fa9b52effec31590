//! Conversions between USI coordinates, squares and piece names.

use vstd::prelude::*;
use crate::opening_book::OpeningBookError;
use crate::text::{chars_to_string, decimal, push_decimal, push_str};
use crate::types::{PieceType, Position, piece_name, usi_square};

verus! {

/// The error text for a coordinate that is not a USI square.
pub open spec fn bad_coordinate_text(coord: Seq<char>, reason: Seq<char>) -> Seq<char> {
    "Invalid USI coordinate '"@ + coord + "': "@ + reason
}

/// The square of a USI coordinate such as "5e".
pub fn string_to_position(coord: &str) -> (r: Result<Position, OpeningBookError>)
    ensures
        usi_square(coord@) matches Some(p) ==> r == Ok::<Position, OpeningBookError>(p),
        usi_square(coord@) is None ==> (r matches Err(OpeningBookError::InvalidMove(m))
            && exists|reason: Seq<char>| m@ == bad_coordinate_text(coord@, reason)),
{
    match Position::from_usi_string(coord) {
        Ok(p) => Ok(p),
        Err(e) => {
            let mut text: Vec<char> = Vec::new();
            push_str(&mut text, "Invalid USI coordinate '");
            push_str(&mut text, coord);
            push_str(&mut text, "': ");
            push_str(&mut text, e.as_str());
            assert(text@ == bad_coordinate_text(coord@, e@));
            Err(OpeningBookError::InvalidMove(chars_to_string(&text)))
        },
    }
}

/// The USI coordinate of a square: file digit (9 minus the column) and rank letter.
pub open spec fn usi_text(pos: Position) -> Seq<char> {
    decimal((9 - pos.col) as nat) + seq![(97 + pos.row) as char]
}

/// The USI coordinate of a square.
pub fn position_to_string(pos: Position) -> (r: String)
    requires
        pos.col <= 9,
        pos.row <= 158,
    ensures
        r@ == usi_text(pos),
{
    let file: u8 = 9 - pos.col;
    let rank = (97u8 + pos.row) as char;
    let mut text: Vec<char> = Vec::new();
    push_decimal(&mut text, file as u128);
    text.push(rank);
    chars_to_string(&text)
}

/// Writing a square on the board as a USI coordinate and reading it back gives the square.
pub proof fn law_coordinate_round_trip(p: Position)
    requires
        p.valid(),
    ensures
        usi_square(usi_text(p)) == Some(p),
{
    let t = usi_text(p);
    assert(decimal((9 - p.col) as nat) == seq![crate::text::digit_char((9 - p.col) as nat)]);
    assert(t[0] == crate::text::digit_char((9 - p.col) as nat));
    assert(t[1] == (97 + p.row) as char);
    assert(t.len() == 2);
    assert(p.row < 9);
}

/// The error text for an unknown piece name.
pub open spec fn bad_piece_text(name: Seq<char>) -> Seq<char> {
    "Invalid piece type: "@ + name
}

/// The piece type of a piece name ("pawn", "promotedRook", ...).
pub fn parse_piece_type(piece_str: &str) -> (r: Result<PieceType, OpeningBookError>)
    ensures
        r matches Ok(pt) ==> piece_str@ == piece_name(pt),
        r is Err ==> (forall|pt: PieceType| piece_str@ != #[trigger] piece_name(pt)) && (r matches Err(
            OpeningBookError::InvalidMove(m),
        ) && m@ == bad_piece_text(piece_str@)),
{
    match PieceType::from_str(piece_str) {
        Some(pt) => Ok(pt),
        None => {
            let mut text: Vec<char> = Vec::new();
            push_str(&mut text, "Invalid piece type: ");
            push_str(&mut text, piece_str);
            Err(OpeningBookError::InvalidMove(chars_to_string(&text)))
        },
    }
}

} // verus!
