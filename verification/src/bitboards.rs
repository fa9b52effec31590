//! The board: 81 squares in row-major order, each empty or holding a piece.

use vstd::prelude::*;
use crate::types::{Move, Piece, PieceType, Player, Position, promoted_spec};

verus! {

/// Row-major index of (row, col).
pub open spec fn sq(row: int, col: int) -> int {
    row * 9 + col
}

/// Whether (row, col) lies on the board.
pub open spec fn on_board(row: int, col: int) -> bool {
    0 <= row < 9 && 0 <= col < 9
}

/// Piece type on the back rank at column `col`.
pub open spec fn back_rank_type(col: int) -> PieceType {
    if col == 0 || col == 8 {
        PieceType::Lance
    } else if col == 1 || col == 7 {
        PieceType::Knight
    } else if col == 2 || col == 6 {
        PieceType::Silver
    } else if col == 3 || col == 5 {
        PieceType::Gold
    } else {
        PieceType::King
    }
}

/// Content of square `i` in the standard starting position.
pub open spec fn start_square(i: int) -> Option<Piece> {
    let row = i / 9;
    let col = i % 9;
    if row == 0 {
        Some(Piece { piece_type: back_rank_type(col), player: Player::White })
    } else if row == 1 && col == 1 {
        Some(Piece { piece_type: PieceType::Rook, player: Player::White })
    } else if row == 1 && col == 7 {
        Some(Piece { piece_type: PieceType::Bishop, player: Player::White })
    } else if row == 2 {
        Some(Piece { piece_type: PieceType::Pawn, player: Player::White })
    } else if row == 6 {
        Some(Piece { piece_type: PieceType::Pawn, player: Player::Black })
    } else if row == 7 && col == 1 {
        Some(Piece { piece_type: PieceType::Bishop, player: Player::Black })
    } else if row == 7 && col == 7 {
        Some(Piece { piece_type: PieceType::Rook, player: Player::Black })
    } else if row == 8 {
        Some(Piece { piece_type: back_rank_type(col), player: Player::Black })
    } else {
        None
    }
}

/// The standard starting position.
pub open spec fn start_position() -> Seq<Option<Piece>> {
    Seq::new(81, |i: int| start_square(i))
}

fn back_rank_exec(col: u8) -> (r: PieceType)
    ensures
        r == back_rank_type(col as int),
{
    if col == 0 || col == 8 {
        PieceType::Lance
    } else if col == 1 || col == 7 {
        PieceType::Knight
    } else if col == 2 || col == 6 {
        PieceType::Silver
    } else if col == 3 || col == 5 {
        PieceType::Gold
    } else {
        PieceType::King
    }
}

fn start_square_exec(i: u8) -> (r: Option<Piece>)
    requires
        i < 81,
    ensures
        r == start_square(i as int),
{
    let row = i / 9;
    let col = i % 9;
    if row == 0 {
        Some(Piece { piece_type: back_rank_exec(col), player: Player::White })
    } else if row == 1 && col == 1 {
        Some(Piece { piece_type: PieceType::Rook, player: Player::White })
    } else if row == 1 && col == 7 {
        Some(Piece { piece_type: PieceType::Bishop, player: Player::White })
    } else if row == 2 {
        Some(Piece { piece_type: PieceType::Pawn, player: Player::White })
    } else if row == 6 {
        Some(Piece { piece_type: PieceType::Pawn, player: Player::Black })
    } else if row == 7 && col == 1 {
        Some(Piece { piece_type: PieceType::Bishop, player: Player::Black })
    } else if row == 7 && col == 7 {
        Some(Piece { piece_type: PieceType::Rook, player: Player::Black })
    } else if row == 8 {
        Some(Piece { piece_type: back_rank_exec(col), player: Player::Black })
    } else {
        None
    }
}

/// The shogi board.
#[derive(Clone, Debug, PartialEq, Eq)]
pub struct BitboardBoard {
    squares: Vec<Option<Piece>>,
}

impl View for BitboardBoard {
    type V = Seq<Option<Piece>>;

    closed spec fn view(&self) -> Seq<Option<Piece>> {
        self.squares@
    }
}

impl BitboardBoard {
    /// The board has exactly 81 squares.
    pub open spec fn wf(&self) -> bool {
        self@.len() == 81
    }

    /// Content of a square.
    pub open spec fn at(&self, pos: Position) -> Option<Piece> {
        self@[pos.index_spec()]
    }

    /// The board with the given 81 squares in row-major order.
    pub(crate) fn from_squares(squares: Vec<Option<Piece>>) -> (r: BitboardBoard)
        requires
            squares@.len() == 81,
        ensures
            r@ == squares@,
            r.wf(),
    {
        BitboardBoard { squares }
    }

    /// A board with no pieces.
    pub fn empty() -> (r: BitboardBoard)
        ensures
            r.wf(),
            forall|i: int| 0 <= i < 81 ==> r@[i] is None,
    {
        let mut squares: Vec<Option<Piece>> = Vec::new();
        let mut i: usize = 0;
        while i < 81
            invariant
                i <= 81,
                squares@.len() == i,
                forall|j: int| 0 <= j < i ==> squares@[j] is None,
            decreases 81 - i,
        {
            squares.push(None);
            i = i + 1;
        }
        BitboardBoard { squares }
    }

    /// The standard starting position.
    pub fn new() -> (r: BitboardBoard)
        ensures
            r.wf(),
            r@ == start_position(),
    {
        let mut squares: Vec<Option<Piece>> = Vec::new();
        let mut i: u8 = 0;
        while i < 81
            invariant
                i <= 81,
                squares@.len() == i,
                forall|j: int| 0 <= j < i ==> squares@[j] == start_square(j),
            decreases 81 - i,
        {
            squares.push(start_square_exec(i));
            i = i + 1;
        }
        let r = BitboardBoard { squares };
        assert(r@ =~= start_position());
        r
    }

    /// Content of a square.
    pub fn get_piece(&self, pos: Position) -> (r: Option<Piece>)
        requires
            self.wf(),
            pos.valid(),
        ensures
            r == self.at(pos),
    {
        let i = pos.row as usize * 9 + pos.col as usize;
        self.squares[i]
    }

    /// Content of the square with a given row-major index.
    pub fn get_piece_at_index(&self, index: usize) -> (r: Option<Piece>)
        requires
            self.wf(),
            index < 81,
        ensures
            r == self@[index as int],
    {
        self.squares[index]
    }

    /// Put a piece on a square, replacing whatever was there.
    pub fn place_piece(&mut self, piece: Piece, pos: Position)
        requires
            old(self).wf(),
            pos.valid(),
        ensures
            final(self)@ == old(self)@.update(pos.index_spec(), Some(piece)),
            final(self).wf(),
    {
        let i = pos.row as usize * 9 + pos.col as usize;
        self.squares.set(i, Some(piece));
    }

    /// Empty a square, returning what it held.
    pub fn remove_piece(&mut self, pos: Position) -> (r: Option<Piece>)
        requires
            old(self).wf(),
            pos.valid(),
        ensures
            r == old(self).at(pos),
            final(self)@ == old(self)@.update(pos.index_spec(), None),
            final(self).wf(),
    {
        let i = pos.row as usize * 9 + pos.col as usize;
        let p = self.squares[i];
        self.squares.set(i, None);
        p
    }

    /// Whether a square holds a piece.
    pub fn is_square_occupied(&self, pos: Position) -> (r: bool)
        requires
            self.wf(),
            pos.valid(),
        ensures
            r == self.at(pos) is Some,
    {
        self.get_piece(pos).is_some()
    }

    /// Whether a square holds a piece of `player`.
    pub fn is_square_occupied_by(&self, pos: Position, player: Player) -> (r: bool)
        requires
            self.wf(),
            pos.valid(),
        ensures
            r == (self.at(pos) is Some && self.at(pos)->0.player == player),
    {
        match self.get_piece(pos) {
            Some(p) => p.player == player,
            None => false,
        }
    }
}

/// The sum of `f(i, b[i])` over the squares `i` below `n`.
pub open spec fn board_sum(b: Seq<Option<Piece>>, f: spec_fn(int, Option<Piece>) -> int, n: int) -> int
    decreases n,
{
    if n <= 0 {
        0
    } else {
        board_sum(b, f, n - 1) + f(n - 1, b[n - 1])
    }
}

/// A sum of per-square terms lies between the sums of their bounds.
pub proof fn lemma_board_sum_bounds(
    b: Seq<Option<Piece>>,
    f: spec_fn(int, Option<Piece>) -> int,
    n: int,
    lo: int,
    hi: int,
)
    requires
        0 <= n,
        forall|i: int| 0 <= i < n ==> lo <= #[trigger] f(i, b[i]) <= hi,
    ensures
        n * lo <= board_sum(b, f, n) <= n * hi,
    decreases n,
{
    if n > 0 {
        lemma_board_sum_bounds(b, f, n - 1, lo, hi);
        assert(lo <= f(n - 1, b[n - 1]) <= hi);
        assert((n - 1) * lo + lo == n * lo) by (nonlinear_arith);
        assert((n - 1) * hi + hi == n * hi) by (nonlinear_arith);
    } else {
        assert(0 * lo == 0 && 0 * hi == 0) by (nonlinear_arith);
    }
}

/// The square of a row-major index.
pub open spec fn square_of(i: int) -> Position {
    Position { row: (i / 9) as u8, col: (i % 9) as u8 }
}

/// The first square at index `i` or later that holds the king of `player`.
pub open spec fn king_index_from(b: Seq<Option<Piece>>, player: Player, i: int) -> Option<int>
    decreases 81 - i,
{
    if i < 0 || i >= 81 {
        None
    } else if b[i] == Some(Piece { piece_type: PieceType::King, player }) {
        Some(i)
    } else {
        king_index_from(b, player, i + 1)
    }
}

/// The square of the king of `player`, the first one in row-major order.
pub open spec fn king_square(b: Seq<Option<Piece>>, player: Player) -> Option<Position> {
    match king_index_from(b, player, 0) {
        Some(i) => Some(square_of(i)),
        None => None,
    }
}

proof fn lemma_king_index_from_range(b: Seq<Option<Piece>>, player: Player, i: int)
    ensures
        king_index_from(b, player, i) matches Some(k) ==> i <= k < 81 && b[k] == Some(
            Piece { piece_type: PieceType::King, player },
        ),
    decreases 81 - i,
{
    if 0 <= i < 81 {
        lemma_king_index_from_range(b, player, i + 1);
    }
}

impl BitboardBoard {
    /// The square of the king of `player` (the first in row-major order), if any.
    pub fn find_king(&self, player: Player) -> (r: Option<Position>)
        requires
            self.wf(),
        ensures
            r == king_square(self@, player),
            r matches Some(p) ==> p.valid() && self.at(p) == Some(
                Piece { piece_type: PieceType::King, player },
            ),
    {
        let mut i: usize = 0;
        while i < 81
            invariant
                self.wf(),
                i <= 81,
                king_index_from(self@, player, 0) == king_index_from(self@, player, i as int),
            decreases 81 - i,
        {
            match self.squares[i] {
                Some(p) => {
                    if p.piece_type == PieceType::King && p.player == player {
                        proof {
                            assert(self@[i as int] == Some(Piece { piece_type: PieceType::King, player }));
                        }
                        let pos = Position::from_index(i as u8);
                        return Some(pos);
                    }
                },
                None => {},
            }
            i = i + 1;
        }
        None
    }
}

// ----- how pieces move -----

/// The row step of a forward move for `player`: Black advances towards row 0.
pub open spec fn forward(player: Player) -> int {
    match player {
        Player::Black => -1,
        Player::White => 1,
    }
}

/// Whether a piece of kind `pt` owned by `player` moves by exactly (dr, dc) in one step.
pub open spec fn step_move(pt: PieceType, player: Player, dr: int, dc: int) -> bool {
    let f = forward(player);
    match pt {
        PieceType::Pawn => dr == f && dc == 0,
        PieceType::Knight => dr == 2 * f && (dc == 1 || dc == -1),
        PieceType::Silver => (dr == f && -1 <= dc <= 1) || (dr == -f && (dc == 1 || dc == -1)),
        PieceType::Gold | PieceType::PromotedPawn | PieceType::PromotedLance
        | PieceType::PromotedKnight | PieceType::PromotedSilver => (dr == f && -1 <= dc <= 1) || (dr
            == 0 && (dc == 1 || dc == -1)) || (dr == -f && dc == 0),
        PieceType::King => -1 <= dr <= 1 && -1 <= dc <= 1 && !(dr == 0 && dc == 0),
        PieceType::PromotedRook => (dr == 1 || dr == -1) && (dc == 1 || dc == -1),
        PieceType::PromotedBishop => (dr == 0 && (dc == 1 || dc == -1)) || (dc == 0 && (dr == 1
            || dr == -1)),
        _ => false,
    }
}

/// Whether a piece of kind `pt` owned by `player` slides along direction (sr, sc).
pub open spec fn slide_direction(pt: PieceType, player: Player, sr: int, sc: int) -> bool {
    match pt {
        PieceType::Lance => sr == forward(player) && sc == 0,
        PieceType::Rook | PieceType::PromotedRook => (sr == 0 && (sc == 1 || sc == -1)) || (sc == 0
            && (sr == 1 || sr == -1)),
        PieceType::Bishop | PieceType::PromotedBishop => (sr == 1 || sr == -1) && (sc == 1 || sc
            == -1),
        _ => false,
    }
}

pub open spec fn sign(x: int) -> int {
    if x > 0 {
        1
    } else if x < 0 {
        -1
    } else {
        0
    }
}

pub open spec fn abs_int(x: int) -> int {
    if x < 0 {
        -x
    } else {
        x
    }
}

/// Whether the squares strictly between `from` and the square `k` steps along (sr, sc) are
/// all empty.
pub open spec fn path_clear(b: Seq<Option<Piece>>, from: Position, sr: int, sc: int, k: int) -> bool {
    forall|t: int| 1 <= t < k ==> #[trigger] b[sq(from.row + t * sr, from.col + t * sc)] is None
}

/// Whether a piece of kind `pt` owned by `player` standing on `from` slides to `to`.
pub open spec fn slides_to(b: Seq<Option<Piece>>, pt: PieceType, player: Player, from: Position, to: Position) -> bool {
    let dr = to.row - from.row;
    let dc = to.col - from.col;
    let k = if abs_int(dr) > abs_int(dc) {
        abs_int(dr)
    } else {
        abs_int(dc)
    };
    &&& (dr == 0 || dc == 0 || abs_int(dr) == abs_int(dc))
    &&& !(dr == 0 && dc == 0)
    &&& slide_direction(pt, player, sign(dr), sign(dc))
    &&& path_clear(b, from, sign(dr), sign(dc), k)
}

/// Whether a piece of kind `pt` owned by `player` standing on `from` reaches `to` in one
/// move, whatever stands on `to`.
pub open spec fn reaches(b: Seq<Option<Piece>>, pt: PieceType, player: Player, from: Position, to: Position) -> bool {
    &&& from.valid()
    &&& to.valid()
    &&& (step_move(pt, player, to.row - from.row, to.col - from.col) || slides_to(b, pt, player, from, to))
}

/// 1 when square `i` holds a piece of the opponent of `player` that reaches `target`.
pub open spec fn attacker_of_at(b: Seq<Option<Piece>>, player: Player, target: Position, i: int, s: Option<Piece>) -> int {
    match s {
        Some(q) => if q.player != player && reaches(b, q.piece_type, q.player, square_of(i), target) {
            1
        } else {
            0
        },
        None => 0,
    }
}

pub open spec fn attacker_of_terms(b: Seq<Option<Piece>>, player: Player, target: Position) -> spec_fn(int, Option<Piece>) -> int {
    |i: int, s: Option<Piece>| attacker_of_at(b, player, target, i, s)
}

/// Whether the king of `player` is attacked by an opposing piece.
pub open spec fn in_check(b: Seq<Option<Piece>>, player: Player) -> bool {
    match king_square(b, player) {
        Some(k) => board_sum(b, attacker_of_terms(b, player, k), 81) > 0,
        None => false,
    }
}

/// The board after a move: a drop puts the piece on its square; a board move empties the
/// source square and puts the (possibly promoted) piece on the destination.
pub open spec fn after_move(b: Seq<Option<Piece>>, m: Move) -> Seq<Option<Piece>> {
    match m.from {
        None => b.update(m.to.index_spec(), Some(Piece { piece_type: m.piece_type, player: m.player })),
        Some(f) => b.update(f.index_spec(), None).update(
            m.to.index_spec(),
            Some(
                Piece {
                    piece_type: if m.is_promotion {
                        promoted_spec(m.piece_type)
                    } else {
                        m.piece_type
                    },
                    player: m.player,
                },
            ),
        ),
    }
}

fn forward_exec(player: Player) -> (r: i32)
    ensures
        r == forward(player),
{
    match player {
        Player::Black => -1,
        Player::White => 1,
    }
}

fn step_move_exec(pt: PieceType, player: Player, dr: i32, dc: i32) -> (r: bool)
    requires
        -9 <= dr <= 9,
        -9 <= dc <= 9,
    ensures
        r == step_move(pt, player, dr as int, dc as int),
{
    let f = forward_exec(player);
    match pt {
        PieceType::Pawn => dr == f && dc == 0,
        PieceType::Knight => dr == 2 * f && (dc == 1 || dc == -1),
        PieceType::Silver => (dr == f && -1 <= dc && dc <= 1) || (dr == -f && (dc == 1 || dc == -1)),
        PieceType::Gold | PieceType::PromotedPawn | PieceType::PromotedLance
        | PieceType::PromotedKnight | PieceType::PromotedSilver => (dr == f && -1 <= dc && dc <= 1)
            || (dr == 0 && (dc == 1 || dc == -1)) || (dr == -f && dc == 0),
        PieceType::King => -1 <= dr && dr <= 1 && -1 <= dc && dc <= 1 && !(dr == 0 && dc == 0),
        PieceType::PromotedRook => (dr == 1 || dr == -1) && (dc == 1 || dc == -1),
        PieceType::PromotedBishop => (dr == 0 && (dc == 1 || dc == -1)) || (dc == 0 && (dr == 1
            || dr == -1)),
        _ => false,
    }
}

fn slide_direction_exec(pt: PieceType, player: Player, sr: i32, sc: i32) -> (r: bool)
    ensures
        r == slide_direction(pt, player, sr as int, sc as int),
{
    match pt {
        PieceType::Lance => sr == forward_exec(player) && sc == 0,
        PieceType::Rook | PieceType::PromotedRook => (sr == 0 && (sc == 1 || sc == -1)) || (sc == 0
            && (sr == 1 || sr == -1)),
        PieceType::Bishop | PieceType::PromotedBishop => (sr == 1 || sr == -1) && (sc == 1 || sc
            == -1),
        _ => false,
    }
}

impl BitboardBoard {
    /// Whether a piece of kind `pt` owned by `player` on `from` reaches `to` in one move.
    pub fn piece_reaches(&self, pt: PieceType, player: Player, from: Position, to: Position) -> (r: bool)
        requires
            self.wf(),
            from.valid(),
            to.valid(),
        ensures
            r == reaches(self@, pt, player, from, to),
    {
        let dr = to.row as i32 - from.row as i32;
        let dc = to.col as i32 - from.col as i32;
        if step_move_exec(pt, player, dr, dc) {
            return true;
        }
        let adr = if dr < 0 { -dr } else { dr };
        let adc = if dc < 0 { -dc } else { dc };
        if !(dr == 0 || dc == 0 || adr == adc) || (dr == 0 && dc == 0) {
            return false;
        }
        let sr: i32 = if dr > 0 { 1 } else if dr < 0 { -1 } else { 0 };
        let sc: i32 = if dc > 0 { 1 } else if dc < 0 { -1 } else { 0 };
        if !slide_direction_exec(pt, player, sr, sc) {
            return false;
        }
        let k = if adr > adc { adr } else { adc };
        self.ray_clear(from, sr, sc, k)
    }

    /// Whether the squares strictly between `from` and the square `k` steps along (sr, sc)
    /// are empty.
    pub fn ray_is_clear(&self, from: Position, sr: i32, sc: i32, k: i32) -> (r: bool)
        requires
            self.wf(),
            from.valid(),
            1 <= k <= 8,
            -1 <= sr <= 1,
            -1 <= sc <= 1,
            0 <= from.row + sr * k < 9,
            0 <= from.col + sc * k < 9,
        ensures
            r == path_clear(self@, from, sr as int, sc as int, k as int),
    {
        self.ray_clear(from, sr, sc, k)
    }

    /// Whether the squares strictly between `from` and the square `k` steps along (sr, sc)
    /// are empty.
    fn ray_clear(&self, from: Position, sr: i32, sc: i32, k: i32) -> (r: bool)
        requires
            self.wf(),
            from.valid(),
            1 <= k <= 8,
            -1 <= sr <= 1,
            -1 <= sc <= 1,
            0 <= from.row + sr * k < 9,
            0 <= from.col + sc * k < 9,
        ensures
            r == path_clear(self@, from, sr as int, sc as int, k as int),
    {
        let mut t: i32 = 1;
        while t < k
            invariant
                self.wf(),
                from.valid(),
                1 <= t <= k,
                k <= 8,
                -1 <= sr <= 1,
                -1 <= sc <= 1,
                0 <= from.row + sr * k < 9,
                0 <= from.col + sc * k < 9,
                forall|u: int| 1 <= u < t ==> #[trigger] self@[sq(from.row + u * sr, from.col + u * sc)] is None,
            decreases k - t,
        {
            assert(-8 <= t * sr <= 8 && -8 <= t * sc <= 8) by (nonlinear_arith)
                requires
                    1 <= t <= 8,
                    -1 <= sr <= 1,
                    -1 <= sc <= 1,
            ;
            let r = from.row as i32 + t * sr;
            let c = from.col as i32 + t * sc;
            assert(0 <= r < 9 && 0 <= c < 9) by (nonlinear_arith)
                requires
                    r == from.row + t * sr,
                    c == from.col + t * sc,
                    1 <= t < k,
                    from.row < 9,
                    from.col < 9,
                    0 <= from.row + sr * k < 9,
                    0 <= from.col + sc * k < 9,
                    -1 <= sr <= 1,
                    -1 <= sc <= 1,
            ;
            let idx = (r * 9 + c) as usize;
            if self.squares[idx].is_some() {
                assert(self@[sq(from.row + t * sr, from.col + t * sc)] is Some);
                return false;
            }
            t = t + 1;
        }
        true
    }
}

impl BitboardBoard {
    /// A copy of this board.
    pub fn duplicate(&self) -> (r: BitboardBoard)
        requires
            self.wf(),
        ensures
            r@ == self@,
            r.wf(),
    {
        let mut squares: Vec<Option<Piece>> = Vec::new();
        let mut i: usize = 0;
        while i < 81
            invariant
                self.wf(),
                i <= 81,
                squares@ == self@.subrange(0, i as int),
            decreases 81 - i,
        {
            squares.push(self.squares[i]);
            assert(self@.subrange(0, i + 1) == self@.subrange(0, i as int).push(self@[i as int]));
            i = i + 1;
        }
        assert(self@.subrange(0, 81) == self@);
        BitboardBoard { squares }
    }

    /// The contents of the squares, in row-major order.
    pub fn squares_vec(&self) -> (r: Vec<Option<Piece>>)
        requires
            self.wf(),
        ensures
            r@ == self@,
    {
        let copy = self.duplicate();
        copy.squares
    }

    /// The number of pieces of the opponent of `player` that reach `target`.
    pub fn count_attackers(&self, player: Player, target: Position) -> (r: u32)
        requires
            self.wf(),
            target.valid(),
        ensures
            r == board_sum(self@, attacker_of_terms(self@, player, target), 81),
    {
        let mut count: u32 = 0;
        let mut i: usize = 0;
        while i < 81
            invariant
                self.wf(),
                target.valid(),
                i <= 81,
                count == board_sum(self@, attacker_of_terms(self@, player, target), i as int),
                count <= i,
            decreases 81 - i,
        {
            match self.squares[i] {
                Some(q) => {
                    let from = Position::from_index(i as u8);
                    if q.player != player && self.piece_reaches(q.piece_type, q.player, from, target) {
                        count = count + 1;
                    }
                },
                None => {},
            }
            i = i + 1;
        }
        count
    }

    /// Whether the king of `player` is attacked by an opposing piece (false without a king).
    pub fn is_king_in_check(&self, player: Player) -> (r: bool)
        requires
            self.wf(),
        ensures
            r == in_check(self@, player),
    {
        match self.find_king(player) {
            Some(k) => self.count_attackers(player, k) > 0,
            None => false,
        }
    }

    /// Play a move: a drop puts the piece on its square; a board move empties the source and
    /// puts the piece, promoted when the move promotes, on the destination. Returns the piece
    /// captured by a board move.
    pub fn make_move(&mut self, m: &Move) -> (r: Option<Piece>)
        requires
            old(self).wf(),
            m.to.valid(),
            m.from matches Some(f) ==> f.valid(),
        ensures
            final(self).wf(),
            final(self)@ == after_move(old(self)@, *m),
            r == match m.from {
                Some(f) => if f == m.to {
                    None
                } else {
                    old(self).at(m.to)
                },
                None => None,
            },
    {
        match m.from {
            None => {
                self.place_piece(Piece { piece_type: m.piece_type, player: m.player }, m.to);
                None
            },
            Some(f) => {
                let captured = if f.row == m.to.row && f.col == m.to.col {
                    None
                } else {
                    self.get_piece(m.to)
                };
                self.remove_piece(f);
                let pt = if m.is_promotion {
                    match m.piece_type.promoted_version() {
                        Some(p) => p,
                        None => m.piece_type,
                    }
                } else {
                    m.piece_type
                };
                self.place_piece(Piece { piece_type: pt, player: m.player }, m.to);
                proof {
                    assert(self@ =~= after_move(old(self)@, *m));
                }
                captured
            },
        }
    }
}

} // verus!
