//! Core game types: players, pieces, squares, moves, hands and tapered scores.

use vstd::prelude::*;
use vstd::string::StrSliceExecFns;
use crate::text::{chars_to_string, str_eq, string_of};

verus! {

/// Maximum game phase (opening); 0 is the pure endgame.
pub const GAME_PHASE_MAX: i32 = 256;

/// The two sides. Black moves first and advances towards row 0.
#[derive(Clone, Copy, Debug, PartialEq, Eq, Hash, Structural)]
pub enum Player {
    Black,
    White,
}

impl Player {
    pub open spec fn opposite_spec(self) -> Player {
        match self {
            Player::Black => Player::White,
            Player::White => Player::Black,
        }
    }

    /// The other player.
    pub fn opposite(&self) -> (r: Player)
        ensures
            r == self.opposite_spec(),
    {
        match self {
            Player::Black => Player::White,
            Player::White => Player::Black,
        }
    }

    /// Numeric code of the player (0 for Black, 1 for White).
    pub fn to_u8(&self) -> (r: u8)
        ensures
            r == self.code(),
    {
        match self {
            Player::Black => 0,
            Player::White => 1,
        }
    }

    pub open spec fn code(self) -> u8 {
        match self {
            Player::Black => 0,
            Player::White => 1,
        }
    }
}

/// The fourteen kinds of shogi pieces (eight basic kinds and six promoted kinds).
#[derive(Clone, Copy, Debug, PartialEq, Eq, Hash, Structural)]
pub enum PieceType {
    Pawn,
    Lance,
    Knight,
    Silver,
    Gold,
    Bishop,
    Rook,
    King,
    PromotedPawn,
    PromotedLance,
    PromotedKnight,
    PromotedSilver,
    PromotedBishop,
    PromotedRook,
}

/// The name of a piece type as used in JSON data.
pub open spec fn piece_name(pt: PieceType) -> Seq<char> {
    match pt {
        PieceType::Pawn => "pawn"@,
        PieceType::Lance => "lance"@,
        PieceType::Knight => "knight"@,
        PieceType::Silver => "silver"@,
        PieceType::Gold => "gold"@,
        PieceType::Bishop => "bishop"@,
        PieceType::Rook => "rook"@,
        PieceType::King => "king"@,
        PieceType::PromotedPawn => "promotedPawn"@,
        PieceType::PromotedLance => "promotedLance"@,
        PieceType::PromotedKnight => "promotedKnight"@,
        PieceType::PromotedSilver => "promotedSilver"@,
        PieceType::PromotedBishop => "promotedBishop"@,
        PieceType::PromotedRook => "promotedRook"@,
    }
}

/// The index of each piece type, in declaration order.
pub open spec fn piece_index(pt: PieceType) -> nat {
    match pt {
        PieceType::Pawn => 0,
        PieceType::Lance => 1,
        PieceType::Knight => 2,
        PieceType::Silver => 3,
        PieceType::Gold => 4,
        PieceType::Bishop => 5,
        PieceType::Rook => 6,
        PieceType::King => 7,
        PieceType::PromotedPawn => 8,
        PieceType::PromotedLance => 9,
        PieceType::PromotedKnight => 10,
        PieceType::PromotedSilver => 11,
        PieceType::PromotedBishop => 12,
        PieceType::PromotedRook => 13,
    }
}

/// The piece type with a given index; indices of 14 and above denote a pawn.
pub open spec fn piece_from_index(i: int) -> PieceType {
    if i == 1 {
        PieceType::Lance
    } else if i == 2 {
        PieceType::Knight
    } else if i == 3 {
        PieceType::Silver
    } else if i == 4 {
        PieceType::Gold
    } else if i == 5 {
        PieceType::Bishop
    } else if i == 6 {
        PieceType::Rook
    } else if i == 7 {
        PieceType::King
    } else if i == 8 {
        PieceType::PromotedPawn
    } else if i == 9 {
        PieceType::PromotedLance
    } else if i == 10 {
        PieceType::PromotedKnight
    } else if i == 11 {
        PieceType::PromotedSilver
    } else if i == 12 {
        PieceType::PromotedBishop
    } else if i == 13 {
        PieceType::PromotedRook
    } else {
        PieceType::Pawn
    }
}

/// Whether a piece of this type may promote.
pub open spec fn can_promote_spec(pt: PieceType) -> bool {
    match pt {
        PieceType::Pawn | PieceType::Lance | PieceType::Knight | PieceType::Silver
        | PieceType::Bishop | PieceType::Rook => true,
        _ => false,
    }
}

/// The promoted form of a piece type (itself when it has none).
pub open spec fn promoted_spec(pt: PieceType) -> PieceType {
    match pt {
        PieceType::Pawn => PieceType::PromotedPawn,
        PieceType::Lance => PieceType::PromotedLance,
        PieceType::Knight => PieceType::PromotedKnight,
        PieceType::Silver => PieceType::PromotedSilver,
        PieceType::Bishop => PieceType::PromotedBishop,
        PieceType::Rook => PieceType::PromotedRook,
        _ => pt,
    }
}

/// The unpromoted form of a piece type (itself when it is not promoted).
pub open spec fn unpromoted_spec(pt: PieceType) -> PieceType {
    match pt {
        PieceType::PromotedPawn => PieceType::Pawn,
        PieceType::PromotedLance => PieceType::Lance,
        PieceType::PromotedKnight => PieceType::Knight,
        PieceType::PromotedSilver => PieceType::Silver,
        PieceType::PromotedBishop => PieceType::Bishop,
        PieceType::PromotedRook => PieceType::Rook,
        _ => pt,
    }
}

/// Nominal value of a piece type, used for move ordering.
pub open spec fn nominal_value(pt: PieceType) -> int {
    match pt {
        PieceType::Pawn => 100,
        PieceType::Lance => 300,
        PieceType::Knight => 350,
        PieceType::Silver => 450,
        PieceType::Gold => 500,
        PieceType::Bishop => 800,
        PieceType::Rook => 1000,
        PieceType::King => 20000,
        PieceType::PromotedPawn => 500,
        PieceType::PromotedLance => 500,
        PieceType::PromotedKnight => 520,
        PieceType::PromotedSilver => 520,
        PieceType::PromotedBishop => 1200,
        PieceType::PromotedRook => 1400,
    }
}

impl PieceType {
    /// Number of piece types.
    pub const COUNT: usize = 14;

    /// Index of this piece type (0 to 13).
    pub fn as_index(&self) -> (r: usize)
        ensures
            r == piece_index(*self),
            r < 14,
    {
        match self {
            PieceType::Pawn => 0,
            PieceType::Lance => 1,
            PieceType::Knight => 2,
            PieceType::Silver => 3,
            PieceType::Gold => 4,
            PieceType::Bishop => 5,
            PieceType::Rook => 6,
            PieceType::King => 7,
            PieceType::PromotedPawn => 8,
            PieceType::PromotedLance => 9,
            PieceType::PromotedKnight => 10,
            PieceType::PromotedSilver => 11,
            PieceType::PromotedBishop => 12,
            PieceType::PromotedRook => 13,
        }
    }

    /// Byte code of this piece type (its index).
    pub fn to_u8(&self) -> (r: u8)
        ensures
            r == piece_index(*self),
    {
        let i = self.as_index();
        i as u8
    }

    /// Piece type of a byte code; codes of 14 and above decode to a pawn.
    pub fn from_u8(b: u8) -> (r: PieceType)
        ensures
            r == piece_from_index(b as int),
    {
        match b {
            1 => PieceType::Lance,
            2 => PieceType::Knight,
            3 => PieceType::Silver,
            4 => PieceType::Gold,
            5 => PieceType::Bishop,
            6 => PieceType::Rook,
            7 => PieceType::King,
            8 => PieceType::PromotedPawn,
            9 => PieceType::PromotedLance,
            10 => PieceType::PromotedKnight,
            11 => PieceType::PromotedSilver,
            12 => PieceType::PromotedBishop,
            13 => PieceType::PromotedRook,
            _ => PieceType::Pawn,
        }
    }

    /// The piece type of its name ("pawn", "promotedRook", ...).
    pub fn from_str(s: &str) -> (r: Option<PieceType>)
        ensures
            r matches Some(pt) ==> s@ == piece_name(pt),
            r is None ==> forall|pt: PieceType| s@ != #[trigger] piece_name(pt),
    {
        let names: [&str; 14] = [
            "pawn",
            "lance",
            "knight",
            "silver",
            "gold",
            "bishop",
            "rook",
            "king",
            "promotedPawn",
            "promotedLance",
            "promotedKnight",
            "promotedSilver",
            "promotedBishop",
            "promotedRook",
        ];
        let mut i: usize = 0;
        while i < 14
            invariant
                i <= 14,
                forall|k: int| 0 <= k < 14 ==> #[trigger] names@[k]@ == piece_name(piece_from_index(k)),
                forall|k: int| 0 <= k < i ==> s@ != #[trigger] piece_name(piece_from_index(k)),
            decreases 14 - i,
        {
            if str_eq(s, names[i]) {
                return Some(PieceType::from_u8(i as u8));
            }
            i = i + 1;
        }
        assert forall|pt: PieceType| s@ != #[trigger] piece_name(pt) by {
            assert(piece_from_index(piece_index(pt) as int) == pt);
        }
        None
    }

    /// Whether this piece type may promote.
    pub fn can_promote(&self) -> (r: bool)
        ensures
            r == can_promote_spec(*self),
    {
        match self {
            PieceType::Pawn | PieceType::Lance | PieceType::Knight | PieceType::Silver
            | PieceType::Bishop | PieceType::Rook => true,
            _ => false,
        }
    }

    /// Whether this is a promoted piece type.
    pub fn is_promoted(&self) -> (r: bool)
        ensures
            r == (piece_index(*self) >= 8),
    {
        self.as_index() >= 8
    }

    /// The promoted form of this piece type, if it has one.
    pub fn promoted_version(&self) -> (r: Option<PieceType>)
        ensures
            r == (if can_promote_spec(*self) {
                Some(promoted_spec(*self))
            } else {
                None::<PieceType>
            }),
    {
        match self {
            PieceType::Pawn => Some(PieceType::PromotedPawn),
            PieceType::Lance => Some(PieceType::PromotedLance),
            PieceType::Knight => Some(PieceType::PromotedKnight),
            PieceType::Silver => Some(PieceType::PromotedSilver),
            PieceType::Bishop => Some(PieceType::PromotedBishop),
            PieceType::Rook => Some(PieceType::PromotedRook),
            _ => None,
        }
    }

    /// The unpromoted form of this piece type.
    pub fn unpromoted_version(&self) -> (r: PieceType)
        ensures
            r == unpromoted_spec(*self),
    {
        match self {
            PieceType::PromotedPawn => PieceType::Pawn,
            PieceType::PromotedLance => PieceType::Lance,
            PieceType::PromotedKnight => PieceType::Knight,
            PieceType::PromotedSilver => PieceType::Silver,
            PieceType::PromotedBishop => PieceType::Bishop,
            PieceType::PromotedRook => PieceType::Rook,
            _ => *self,
        }
    }

    /// Nominal value of this piece type.
    pub fn base_value(&self) -> (r: i32)
        ensures
            r == nominal_value(*self),
    {
        match self {
            PieceType::Pawn => 100,
            PieceType::Lance => 300,
            PieceType::Knight => 350,
            PieceType::Silver => 450,
            PieceType::Gold => 500,
            PieceType::Bishop => 800,
            PieceType::Rook => 1000,
            PieceType::King => 20000,
            PieceType::PromotedPawn => 500,
            PieceType::PromotedLance => 500,
            PieceType::PromotedKnight => 520,
            PieceType::PromotedSilver => 520,
            PieceType::PromotedBishop => 1200,
            PieceType::PromotedRook => 1400,
        }
    }
}

/// A square of the 9x9 board. Row 0 is the far rank for Black, column 0 is file 9.
#[derive(Clone, Copy, Debug, PartialEq, Eq, Hash, Structural)]
pub struct Position {
    pub row: u8,
    pub col: u8,
}

impl Position {
    /// Whether the square lies on the board.
    pub open spec fn valid(self) -> bool {
        self.row < 9 && self.col < 9
    }

    /// Row-major index of the square.
    pub open spec fn index_spec(self) -> int {
        self.row * 9 + self.col
    }

    /// Whether the square lies in the camp of `player` (its three home rows), which is
    /// the zone where the opponent of `player` promotes.
    pub open spec fn in_zone(self, player: Player) -> bool {
        match player {
            Player::Black => self.row >= 6,
            Player::White => self.row <= 2,
        }
    }

    pub fn new(row: u8, col: u8) -> (r: Position)
        ensures
            r.row == row,
            r.col == col,
    {
        Position { row, col }
    }

    /// The square with a given row-major index.
    pub fn from_index(index: u8) -> (r: Position)
        requires
            index < 81,
        ensures
            r.valid(),
            r.index_spec() == index,
            r.row == index / 9,
            r.col == index % 9,
    {
        Position { row: index / 9, col: index % 9 }
    }

    /// Whether the square lies on the board.
    pub fn is_valid(&self) -> (r: bool)
        ensures
            r == self.valid(),
    {
        self.row < 9 && self.col < 9
    }

    /// Row-major index of the square.
    pub fn to_index(&self) -> (r: u8)
        requires
            self.valid(),
        ensures
            r == self.index_spec(),
            r < 81,
    {
        self.row * 9 + self.col
    }

    /// Whether the square lies in the camp of `player`, the promotion zone of its opponent.
    pub fn is_in_promotion_zone(&self, player: Player) -> (r: bool)
        ensures
            r == self.in_zone(player),
    {
        match player {
            Player::Black => self.row >= 6,
            Player::White => self.row <= 2,
        }
    }
}

/// The square named by a USI coordinate: a file digit 1 to 9 (file 9 is column 0)
/// followed by a rank letter a to i (rank a is row 0).
pub open spec fn usi_square(s: Seq<char>) -> Option<Position> {
    if s.len() == 2 && '1' <= s[0] <= '9' && 'a' <= s[1] <= 'i' {
        Some(Position { row: (s[1] as int - 'a' as int) as u8, col: (9 - (s[0] as int - '0' as int)) as u8 })
    } else {
        None
    }
}

impl Position {
    /// The square of a USI coordinate such as "7g"; an error text otherwise.
    pub fn from_usi_string(s: &str) -> (r: Result<Position, String>)
        ensures
            r matches Ok(p) ==> usi_square(s@) == Some(p),
            r is Err ==> usi_square(s@) is None,
    {
        if s.unicode_len() != 2 {
            return Err(string_of("coordinate must have two characters"));
        }
        let f = s.get_char(0);
        let k = s.get_char(1);
        if !('1' <= f && f <= '9') {
            return Err(string_of("file must be a digit from 1 to 9"));
        }
        if !('a' <= k && k <= 'i') {
            return Err(string_of("rank must be a letter from a to i"));
        }
        let file = (f as u32 - '0' as u32) as u8;
        let row = (k as u32 - 'a' as u32) as u8;
        Ok(Position { row, col: 9 - file })
    }
}

/// A piece: its kind and its owner.
#[derive(Clone, Copy, Debug, PartialEq, Eq, Hash, Structural)]
pub struct Piece {
    pub piece_type: PieceType,
    pub player: Player,
}

impl Piece {
    pub fn new(piece_type: PieceType, player: Player) -> (r: Piece)
        ensures
            r.piece_type == piece_type,
            r.player == player,
    {
        Piece { piece_type, player }
    }
}

/// A score with separate middlegame and endgame values.
#[derive(Clone, Copy, Debug, PartialEq, Eq, Default, Structural)]
pub struct TaperedScore {
    pub mg: i32,
    pub eg: i32,
}

/// Division truncating towards zero, as Rust's integer division does.
pub open spec fn div_trunc(a: int, b: int) -> int {
    if a >= 0 {
        a / b
    } else {
        -((-a) / b)
    }
}

/// The numerator of the interpolation of (mg, eg) at `phase`.
pub open spec fn interp_numerator(mg: int, eg: int, phase: int) -> int {
    mg * phase + eg * (GAME_PHASE_MAX - phase)
}

/// The interpolated value of (mg, eg) at `phase`.
pub open spec fn interp_spec(mg: int, eg: int, phase: int) -> int {
    div_trunc(interp_numerator(mg, eg, phase), GAME_PHASE_MAX as int)
}

/// Whether the interpolation of (mg, eg) at `phase` fits in 32-bit arithmetic.
pub open spec fn interp_fits(mg: int, eg: int, phase: int) -> bool {
    &&& i32::MIN <= mg * phase <= i32::MAX
    &&& i32::MIN <= GAME_PHASE_MAX - phase <= i32::MAX
    &&& i32::MIN <= eg * (GAME_PHASE_MAX - phase) <= i32::MAX
    &&& i32::MIN <= interp_numerator(mg, eg, phase) <= i32::MAX
}

impl TaperedScore {
    /// A score with the same value in both phases.
    pub fn new(value: i32) -> (r: TaperedScore)
        ensures
            r.mg == value,
            r.eg == value,
    {
        TaperedScore { mg: value, eg: value }
    }

    /// A score with distinct middlegame and endgame values.
    pub fn new_tapered(mg: i32, eg: i32) -> (r: TaperedScore)
        ensures
            r.mg == mg,
            r.eg == eg,
    {
        TaperedScore { mg, eg }
    }

    /// Linear interpolation `(mg * phase + eg * (256 - phase)) / 256`, truncated towards zero.
    pub fn interpolate(&self, phase: i32) -> (r: i32)
        requires
            interp_fits(self.mg as int, self.eg as int, phase as int),
        ensures
            r == interp_spec(self.mg as int, self.eg as int, phase as int),
    {
        let a = self.mg * phase;
        let rest = GAME_PHASE_MAX - phase;
        let b = self.eg * rest;
        let num = a + b;
        if num >= 0 {
            num / GAME_PHASE_MAX
        } else {
            let pos: i64 = -(num as i64);
            let q: i64 = pos / 256;
            -(q as i32)
        }
    }
}

/// A move: a board move (with a source square) or a drop (without one).
#[derive(Clone, Copy, Debug, PartialEq, Eq, Hash, Structural)]
pub struct Move {
    pub from: Option<Position>,
    pub to: Position,
    pub piece_type: PieceType,
    pub player: Player,
    pub is_promotion: bool,
    pub is_capture: bool,
    pub captured_piece: Option<Piece>,
    pub gives_check: bool,
    pub is_recapture: bool,
}

impl Move {
    /// A board move from `from` to `to`.
    pub fn new_move(
        from: Position,
        to: Position,
        piece_type: PieceType,
        player: Player,
        promote: bool,
    ) -> (r: Move)
        ensures
            r == (Move {
                from: Some(from),
                to,
                piece_type,
                player,
                is_promotion: promote,
                is_capture: false,
                captured_piece: None,
                gives_check: false,
                is_recapture: false,
            }),
    {
        Move {
            from: Some(from),
            to,
            piece_type,
            player,
            is_promotion: promote,
            is_capture: false,
            captured_piece: None,
            gives_check: false,
            is_recapture: false,
        }
    }

    /// A drop of a piece from hand onto `to`.
    pub fn new_drop(piece_type: PieceType, to: Position, player: Player) -> (r: Move)
        ensures
            r == (Move {
                from: None,
                to,
                piece_type,
                player,
                is_promotion: false,
                is_capture: false,
                captured_piece: None,
                gives_check: false,
                is_recapture: false,
            }),
    {
        Move {
            from: None,
            to,
            piece_type,
            player,
            is_promotion: false,
            is_capture: false,
            captured_piece: None,
            gives_check: false,
            is_recapture: false,
        }
    }

    /// Nominal value of the moving piece.
    pub fn piece_value(&self) -> (r: i32)
        ensures
            r == nominal_value(self.piece_type),
    {
        self.piece_type.base_value()
    }

    /// Nominal value of the captured piece, 0 when nothing is captured.
    pub fn captured_piece_value(&self) -> (r: i32)
        ensures
            r == (match self.captured_piece {
                Some(p) => nominal_value(p.piece_type),
                None => 0,
            }),
    {
        match self.captured_piece {
            Some(p) => p.piece_type.base_value(),
            None => 0,
        }
    }

    /// Value gained by promoting, 0 when the move does not promote.
    pub fn promotion_value(&self) -> (r: i32)
        ensures
            r == (if self.is_promotion {
                nominal_value(promoted_spec(self.piece_type)) - nominal_value(self.piece_type)
            } else {
                0
            }),
    {
        if self.is_promotion {
            let promoted = match self.piece_type.promoted_version() {
                Some(p) => p,
                None => self.piece_type,
            };
            promoted.base_value() - self.piece_type.base_value()
        } else {
            0
        }
    }
}

/// The USI name of a square: its file digit (file 9 is column 0) and its rank letter (rank
/// a is row 0).
pub open spec fn square_usi(p: Position) -> Seq<char> {
    seq![((9 - p.col) + '0' as int) as char, (p.row + 'a' as int) as char]
}

/// The USI letter of a piece dropped: that of its unpromoted kind, in upper case.
pub open spec fn usi_piece_letter(pt: PieceType) -> char {
    match unpromoted_spec(pt) {
        PieceType::Pawn => 'P',
        PieceType::Lance => 'L',
        PieceType::Knight => 'N',
        PieceType::Silver => 'S',
        PieceType::Gold => 'G',
        PieceType::Bishop => 'B',
        PieceType::Rook => 'R',
        _ => 'K',
    }
}

/// The USI text of a move: source and destination squares, with `+` for a promotion; for
/// a drop, the piece letter, `*` and the destination.
pub open spec fn move_usi(m: Move) -> Seq<char> {
    match m.from {
        Some(f) => square_usi(f) + square_usi(m.to) + if m.is_promotion {
            seq!['+']
        } else {
            Seq::empty()
        },
        None => seq![usi_piece_letter(m.piece_type), '*'] + square_usi(m.to),
    }
}

fn push_square_usi(out: &mut Vec<char>, p: Position)
    requires
        p.valid(),
    ensures
        final(out)@ == old(out)@ + square_usi(p),
{
    out.push(((9 - p.col) + 48) as char);
    out.push((p.row + 97) as char);
}

impl Move {
    /// The USI text of the move (see `move_usi`).
    pub fn to_usi_string(&self) -> (r: String)
        requires
            self.to.valid(),
            self.from matches Some(f) ==> f.valid(),
        ensures
            r@ == move_usi(*self),
    {
        let mut out: Vec<char> = Vec::new();
        match self.from {
            Some(f) => {
                push_square_usi(&mut out, f);
                push_square_usi(&mut out, self.to);
                if self.is_promotion {
                    out.push('+');
                }
            },
            None => {
                let letter = match self.piece_type.unpromoted_version() {
                    PieceType::Pawn => 'P',
                    PieceType::Lance => 'L',
                    PieceType::Knight => 'N',
                    PieceType::Silver => 'S',
                    PieceType::Gold => 'G',
                    PieceType::Bishop => 'B',
                    PieceType::Rook => 'R',
                    _ => 'K',
                };
                out.push(letter);
                out.push('*');
                push_square_usi(&mut out, self.to);
            },
        }
        proof {
            match self.from {
                Some(f) => {
                    if self.is_promotion {
                        assert(out@ =~= square_usi(f) + square_usi(self.to) + seq!['+']);
                    } else {
                        assert(out@ =~= square_usi(f) + square_usi(self.to) + Seq::<char>::empty());
                    }
                },
                None => {
                    assert(out@ =~= seq![usi_piece_letter(self.piece_type), '*'] + square_usi(self.to));
                },
            }
        }
        chars_to_string(&out)
    }
}

/// Pieces in hand for each player.
#[derive(Clone, Debug, PartialEq, Eq)]
pub struct CapturedPieces {
    pub black: Vec<PieceType>,
    pub white: Vec<PieceType>,
}

impl CapturedPieces {
    /// Empty hands.
    pub fn new() -> (r: CapturedPieces)
        ensures
            r.black@ == Seq::<PieceType>::empty(),
            r.white@ == Seq::<PieceType>::empty(),
    {
        CapturedPieces { black: Vec::new(), white: Vec::new() }
    }

    /// The hand of a player.
    pub open spec fn hand(&self, player: Player) -> Seq<PieceType> {
        match player {
            Player::Black => self.black@,
            Player::White => self.white@,
        }
    }

    /// Add a piece to `player`'s hand.
    pub fn add_piece(&mut self, piece_type: PieceType, player: Player)
        ensures
            final(self).hand(player) == old(self).hand(player).push(piece_type),
            final(self).hand(player.opposite_spec()) == old(self).hand(player.opposite_spec()),
    {
        match player {
            Player::Black => self.black.push(piece_type),
            Player::White => self.white.push(piece_type),
        }
    }

    /// Remove the first piece of a type from `player`'s hand; false when there is none.
    pub fn remove_piece(&mut self, piece_type: PieceType, player: Player) -> (r: bool)
        ensures
            r == old(self).hand(player).contains(piece_type),
            r ==> removed_first(old(self).hand(player), final(self).hand(player), piece_type),
            !r ==> final(self).hand(player) == old(self).hand(player),
            final(self).hand(player.opposite_spec()) == old(self).hand(player.opposite_spec()),
    {
        match player {
            Player::Black => remove_first(&mut self.black, piece_type),
            Player::White => remove_first(&mut self.white, piece_type),
        }
    }

    /// Number of pieces of a type in `player`'s hand.
    pub fn count(&self, piece_type: PieceType, player: Player) -> (r: usize)
        ensures
            r == seq_count(self.hand(player), piece_type),
    {
        let v = match player {
            Player::Black => &self.black,
            Player::White => &self.white,
        };
        count_in(v, piece_type)
    }
}

/// Number of occurrences of `x` in `s`.
pub open spec fn seq_count(s: Seq<PieceType>, x: PieceType) -> nat
    decreases s.len(),
{
    if s.len() == 0 {
        0
    } else {
        seq_count(s.drop_last(), x) + (if s.last() == x { 1nat } else { 0nat })
    }
}

/// `after` is `before` with its first occurrence of `x` taken out.
pub open spec fn removed_first(before: Seq<PieceType>, after: Seq<PieceType>, x: PieceType) -> bool {
    exists|i: int|
        0 <= i < before.len() && before[i] == x && after == before.remove(i) && forall|j: int|
            0 <= j < i ==> before[j] != x
}

/// Number of occurrences of `x` in `v`.
fn count_in(v: &Vec<PieceType>, x: PieceType) -> (r: usize)
    ensures
        r == seq_count(v@, x),
{
    let mut n: usize = 0;
    let mut i: usize = 0;
    while i < v.len()
        invariant
            i <= v.len(),
            n == seq_count(v@.subrange(0, i as int), x),
            n <= i,
        decreases v.len() - i,
    {
        assert(v@.subrange(0, i + 1).drop_last() == v@.subrange(0, i as int));
        if v[i] == x {
            n = n + 1;
        }
        i = i + 1;
    }
    assert(v@.subrange(0, v.len() as int) == v@);
    n
}

/// Remove the first occurrence of `x` from `v`; false when there is none.
fn remove_first(v: &mut Vec<PieceType>, x: PieceType) -> (r: bool)
    ensures
        r == old(v)@.contains(x),
        r ==> removed_first(old(v)@, final(v)@, x),
        !r ==> final(v)@ == old(v)@,
{
    let mut i: usize = 0;
    while i < v.len()
        invariant
            i <= v.len(),
            v@ == old(v)@,
            forall|j: int| 0 <= j < i ==> v@[j] != x,
        decreases v.len() - i,
    {
        if v[i] == x {
            let ghost before = v@;
            v.remove(i);
            assert(before[i as int] == x);
            assert(removed_first(before, v@, x));
            return true;
        }
        i = i + 1;
    }
    false
}

} // verus!
