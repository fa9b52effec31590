//! Positions in SFEN: the board (ranks from a to i separated by `/`, digits for runs of
//! empty squares, upper-case letters for Black and lower-case for White, `+` before a
//! promoted piece), the side to move (`b` or `w`), the pieces in hand (`-` or counted
//! letters), and a move number that is not read.

use vstd::prelude::*;
use crate::bitboards::BitboardBoard;
use crate::kif_parser::{chars_of, nth_word, words};
use crate::text::string_of;
use crate::types::{CapturedPieces, Piece, PieceType, Player, can_promote_spec, promoted_spec};

verus! {

/// The kind of piece an SFEN letter names, in either case.
pub open spec fn sfen_kind(c: char) -> Option<PieceType> {
    if c == 'p' || c == 'P' {
        Some(PieceType::Pawn)
    } else if c == 'l' || c == 'L' {
        Some(PieceType::Lance)
    } else if c == 'n' || c == 'N' {
        Some(PieceType::Knight)
    } else if c == 's' || c == 'S' {
        Some(PieceType::Silver)
    } else if c == 'g' || c == 'G' {
        Some(PieceType::Gold)
    } else if c == 'b' || c == 'B' {
        Some(PieceType::Bishop)
    } else if c == 'r' || c == 'R' {
        Some(PieceType::Rook)
    } else if c == 'k' || c == 'K' {
        Some(PieceType::King)
    } else {
        None
    }
}

/// The owner of a piece letter: White for lower case, Black for upper case.
pub open spec fn sfen_owner(c: char) -> Player {
    if 'a' <= c <= 'z' {
        Player::White
    } else {
        Player::Black
    }
}

/// Reading the board: the squares so far in row-major order, the rank and file reached,
/// whether a `+` waits for its piece, and whether the text is still well formed.
pub struct SfenBoardState {
    pub squares: Seq<Option<Piece>>,
    pub row: int,
    pub col: int,
    pub plus: bool,
    pub ok: bool,
}

/// The board state after one more character.
pub open spec fn sfen_step(st: SfenBoardState, c: char) -> SfenBoardState {
    if !st.ok {
        st
    } else if st.plus {
        match sfen_kind(c) {
            Some(k) => if can_promote_spec(k) && st.col < 9 {
                SfenBoardState {
                    squares: st.squares.push(Some(Piece { piece_type: promoted_spec(k), player: sfen_owner(c) })),
                    col: st.col + 1,
                    plus: false,
                    ..st
                }
            } else {
                SfenBoardState { ok: false, ..st }
            },
            None => SfenBoardState { ok: false, ..st },
        }
    } else if c == '/' {
        if st.col == 9 && st.row < 8 {
            SfenBoardState { row: st.row + 1, col: 0, ..st }
        } else {
            SfenBoardState { ok: false, ..st }
        }
    } else if '1' <= c <= '9' {
        let d = c as int - '0' as int;
        if st.col + d <= 9 {
            SfenBoardState { squares: st.squares + Seq::new(d as nat, |i: int| None::<Piece>), col: st.col + d, ..st }
        } else {
            SfenBoardState { ok: false, ..st }
        }
    } else if c == '+' {
        SfenBoardState { plus: true, ..st }
    } else {
        match sfen_kind(c) {
            Some(k) => if st.col < 9 {
                SfenBoardState {
                    squares: st.squares.push(Some(Piece { piece_type: k, player: sfen_owner(c) })),
                    col: st.col + 1,
                    ..st
                }
            } else {
                SfenBoardState { ok: false, ..st }
            },
            None => SfenBoardState { ok: false, ..st },
        }
    }
}

/// The board state after the first `n` characters of `s`.
pub open spec fn sfen_fold(s: Seq<char>, n: int) -> SfenBoardState
    decreases n,
{
    if n <= 0 {
        SfenBoardState { squares: Seq::empty(), row: 0, col: 0, plus: false, ok: true }
    } else {
        sfen_step(sfen_fold(s, n - 1), s[n - 1])
    }
}

/// The squares of an SFEN board: nine full ranks and no dangling `+`.
pub open spec fn sfen_board(s: Seq<char>) -> Option<Seq<Option<Piece>>> {
    let st = sfen_fold(s, s.len() as int);
    if st.ok && st.row == 8 && st.col == 9 && !st.plus {
        Some(st.squares)
    } else {
        None
    }
}

/// The side to move.
pub open spec fn sfen_side(s: Seq<char>) -> Option<Player> {
    if s == seq!['b'] {
        Some(Player::Black)
    } else if s == seq!['w'] {
        Some(Player::White)
    } else {
        None
    }
}

/// Reading the pieces in hand: the hands so far, the pending count, and whether the text
/// is still well formed.
pub struct SfenHandState {
    pub black: Seq<PieceType>,
    pub white: Seq<PieceType>,
    pub count: int,
    pub ok: bool,
}

/// A kind that can be held in hand.
pub open spec fn hand_kind(c: char) -> Option<PieceType> {
    match sfen_kind(c) {
        Some(k) => if k == PieceType::King {
            None
        } else {
            Some(k)
        },
        None => None,
    }
}

/// The hand state after one more character: a digit extends the count (at most 18), a
/// letter adds that many pieces (one without a count) to the hand of its owner.
pub open spec fn hand_step(st: SfenHandState, c: char) -> SfenHandState {
    if !st.ok {
        st
    } else if '0' <= c <= '9' {
        let n = st.count * 10 + (c as int - '0' as int);
        if n <= 18 {
            SfenHandState { count: n, ..st }
        } else {
            SfenHandState { ok: false, ..st }
        }
    } else {
        match hand_kind(c) {
            Some(k) => {
                let n = if st.count == 0 { 1 } else { st.count };
                let more = Seq::new(n as nat, |i: int| k);
                match sfen_owner(c) {
                    Player::Black => SfenHandState { black: st.black + more, count: 0, ..st },
                    Player::White => SfenHandState { white: st.white + more, count: 0, ..st },
                }
            },
            None => SfenHandState { ok: false, ..st },
        }
    }
}

pub open spec fn hand_fold(s: Seq<char>, n: int) -> SfenHandState
    decreases n,
{
    if n <= 0 {
        SfenHandState { black: Seq::empty(), white: Seq::empty(), count: 0, ok: true }
    } else {
        hand_step(hand_fold(s, n - 1), s[n - 1])
    }
}

/// The hands of Black and White: none for `-`, else the counted letters with no count
/// left over.
pub open spec fn sfen_hand(s: Seq<char>) -> Option<(Seq<PieceType>, Seq<PieceType>)> {
    if s == seq!['-'] {
        Some((Seq::empty(), Seq::empty()))
    } else {
        let st = hand_fold(s, s.len() as int);
        if st.ok && st.count == 0 {
            Some((st.black, st.white))
        } else {
            None
        }
    }
}

/// A position in SFEN: board, side to move and hands (the fields after the third are not
/// read).
pub open spec fn sfen_position(fen: Seq<char>) -> Option<(Seq<Option<Piece>>, Player, Seq<PieceType>, Seq<PieceType>)> {
    let w = words(fen);
    if w.len() < 3 {
        None
    } else {
        match (sfen_board(w[0]), sfen_side(w[1]), sfen_hand(w[2])) {
            (Some(b), Some(p), Some((hb, hw))) => Some((b, p, hb, hw)),
            _ => None,
        }
    }
}

proof fn lemma_fold_fails(s: Seq<char>, i: int, n: int)
    requires
        0 <= i <= n,
        !sfen_fold(s, i).ok,
    ensures
        !sfen_fold(s, n).ok,
    decreases n - i,
{
    if i < n {
        lemma_fold_fails(s, i, n - 1);
    }
}

proof fn lemma_fold_shape(s: Seq<char>, n: int)
    requires
        0 <= n,
        sfen_fold(s, n).ok,
    ensures
        sfen_fold(s, n).squares.len() == 9 * sfen_fold(s, n).row + sfen_fold(s, n).col,
        0 <= sfen_fold(s, n).row <= 8,
        0 <= sfen_fold(s, n).col <= 9,
    decreases n,
{
    if n > 0 {
        if sfen_fold(s, n - 1).ok {
            lemma_fold_shape(s, n - 1);
        }
    }
}

proof fn lemma_hand_fails(s: Seq<char>, i: int, n: int)
    requires
        0 <= i <= n,
        !hand_fold(s, i).ok,
    ensures
        !hand_fold(s, n).ok,
    decreases n - i,
{
    if i < n {
        lemma_hand_fails(s, i, n - 1);
    }
}

fn kind_of_letter(c: char) -> (r: Option<PieceType>)
    ensures
        r == sfen_kind(c),
{
    if c == 'p' || c == 'P' {
        Some(PieceType::Pawn)
    } else if c == 'l' || c == 'L' {
        Some(PieceType::Lance)
    } else if c == 'n' || c == 'N' {
        Some(PieceType::Knight)
    } else if c == 's' || c == 'S' {
        Some(PieceType::Silver)
    } else if c == 'g' || c == 'G' {
        Some(PieceType::Gold)
    } else if c == 'b' || c == 'B' {
        Some(PieceType::Bishop)
    } else if c == 'r' || c == 'R' {
        Some(PieceType::Rook)
    } else if c == 'k' || c == 'K' {
        Some(PieceType::King)
    } else {
        None
    }
}

fn owner_of_letter(c: char) -> (r: Player)
    ensures
        r == sfen_owner(c),
{
    if 'a' <= c && c <= 'z' {
        Player::White
    } else {
        Player::Black
    }
}

/// The squares of the SFEN board in `s[a..b]`.
fn parse_board(s: &Vec<char>, a: usize, b: usize) -> (r: Option<Vec<Option<Piece>>>)
    requires
        a <= b <= s@.len(),
    ensures
        match r {
            Some(v) => sfen_board(s@.subrange(a as int, b as int)) == Some(v@),
            None => sfen_board(s@.subrange(a as int, b as int)) is None,
        },
{
    let ghost t = s@.subrange(a as int, b as int);
    let mut squares: Vec<Option<Piece>> = Vec::new();
    let mut row: usize = 0;
    let mut col: usize = 0;
    let mut plus = false;
    let mut i: usize = a;
    while i < b
        invariant
            a <= i <= b <= s@.len(),
            t == s@.subrange(a as int, b as int),
            ({
                let st = sfen_fold(t, i - a);
                &&& st.ok
                &&& st.squares == squares@
                &&& st.row == row
                &&& st.col == col
                &&& st.plus == plus
            }),
            row <= 8,
            col <= 9,
            squares@.len() == 9 * row + col,
        decreases b - i,
    {
        let c = s[i];
        assert(t[i - a] == c);
        let ghost before = sfen_fold(t, i - a);
        let ghost k = (i - a + 1) as int;
        assert(sfen_fold(t, k) == sfen_step(before, c));
        if plus {
            match kind_of_letter(c) {
                Some(kind) => {
                    let promotable = match kind {
                        PieceType::Pawn | PieceType::Lance | PieceType::Knight | PieceType::Silver
                        | PieceType::Bishop | PieceType::Rook => true,
                        _ => false,
                    };
                    if promotable && col < 9 {
                        let pt = match kind.promoted_version() {
                            Some(p) => p,
                            None => kind,
                        };
                        assert(pt == promoted_spec(kind));
                        squares.push(Some(Piece::new(pt, owner_of_letter(c))));
                        col = col + 1;
                        plus = false;
                    } else {
                        proof {
                            lemma_fold_fails(t, k, t.len() as int);
                        }
                        return None;
                    }
                },
                None => {
                    proof {
                        lemma_fold_fails(t, k, t.len() as int);
                    }
                    return None;
                },
            }
        } else if c == '/' {
            if col == 9 && row < 8 {
                row = row + 1;
                col = 0;
            } else {
                proof {
                    lemma_fold_fails(t, k, t.len() as int);
                }
                return None;
            }
        } else if '1' <= c && c <= '9' {
            let d = (c as u32 - '0' as u32) as usize;
            if col + d <= 9 {
                let ghost old_squares = squares@;
                let mut j: usize = 0;
                while j < d
                    invariant
                        j <= d,
                        squares@ == old_squares + Seq::new(j as nat, |x: int| None::<Piece>),
                    decreases d - j,
                {
                    squares.push(None);
                    j = j + 1;
                    assert(squares@ == old_squares + Seq::new(j as nat, |x: int| None::<Piece>));
                }
                col = col + d;
            } else {
                proof {
                    lemma_fold_fails(t, k, t.len() as int);
                }
                return None;
            }
        } else if c == '+' {
            plus = true;
        } else {
            match kind_of_letter(c) {
                Some(kind) => {
                    if col < 9 {
                        squares.push(Some(Piece::new(kind, owner_of_letter(c))));
                        col = col + 1;
                    } else {
                        proof {
                            lemma_fold_fails(t, k, t.len() as int);
                        }
                        return None;
                    }
                },
                None => {
                    proof {
                        lemma_fold_fails(t, k, t.len() as int);
                    }
                    return None;
                },
            }
        }
        i = i + 1;
    }
    if row == 8 && col == 9 && !plus {
        Some(squares)
    } else {
        None
    }
}

/// The hands of Black and White read from `s[a..b]`.
fn parse_hand(s: &Vec<char>, a: usize, b: usize) -> (r: Option<(Vec<PieceType>, Vec<PieceType>)>)
    requires
        a <= b <= s@.len(),
    ensures
        match r {
            Some((hb, hw)) => sfen_hand(s@.subrange(a as int, b as int)) == Some((hb@, hw@)),
            None => sfen_hand(s@.subrange(a as int, b as int)) is None,
        },
{
    let ghost t = s@.subrange(a as int, b as int);
    if b - a == 1 && s[a] == '-' {
        assert(t =~= seq!['-']);
        return Some((Vec::new(), Vec::new()));
    }
    proof {
        if t.len() == 1 {
            assert(t[0] == s@[a as int]);
        }
        assert(t != seq!['-']);
    }
    let mut black: Vec<PieceType> = Vec::new();
    let mut white: Vec<PieceType> = Vec::new();
    let mut count: usize = 0;
    let mut i: usize = a;
    while i < b
        invariant
            a <= i <= b <= s@.len(),
            t == s@.subrange(a as int, b as int),
            t != seq!['-'],
            ({
                let st = hand_fold(t, i - a);
                &&& st.ok
                &&& st.black == black@
                &&& st.white == white@
                &&& st.count == count
            }),
            count <= 18,
        decreases b - i,
    {
        let c = s[i];
        assert(t[i - a] == c);
        let ghost k = (i - a + 1) as int;
        assert(hand_fold(t, k) == hand_step(hand_fold(t, i - a), c));
        if '0' <= c && c <= '9' {
            let n = count * 10 + (c as u32 - '0' as u32) as usize;
            if n <= 18 {
                count = n;
            } else {
                proof {
                    lemma_hand_fails(t, k, t.len() as int);
                }
                return None;
            }
        } else {
            let kind = match kind_of_letter(c) {
                Some(PieceType::King) => None,
                Some(p) => Some(p),
                None => None,
            };
            match kind {
                Some(p) => {
                    let n = if count == 0 {
                        1
                    } else {
                        count
                    };
                    let owner = owner_of_letter(c);
                    let ghost old_b = black@;
                    let ghost old_w = white@;
                    let mut j: usize = 0;
                    while j < n
                        invariant
                            j <= n,
                            owner == sfen_owner(c),
                            owner == Player::Black ==> black@ == old_b + Seq::new(j as nat, |x: int| p) && white@ == old_w,
                            owner == Player::White ==> white@ == old_w + Seq::new(j as nat, |x: int| p) && black@ == old_b,
                        decreases n - j,
                    {
                        match owner {
                            Player::Black => {
                                black.push(p);
                            },
                            Player::White => {
                                white.push(p);
                            },
                        }
                        j = j + 1;
                        assert(owner == Player::Black ==> black@ == old_b + Seq::new(j as nat, |x: int| p));
                        assert(owner == Player::White ==> white@ == old_w + Seq::new(j as nat, |x: int| p));
                    }
                    count = 0;
                },
                None => {
                    proof {
                        lemma_hand_fails(t, k, t.len() as int);
                    }
                    return None;
                },
            }
        }
        i = i + 1;
    }
    if count == 0 {
        Some((black, white))
    } else {
        None
    }
}

impl BitboardBoard {
    /// The board, side to move and pieces in hand of an SFEN position (see
    /// `sfen_position`); an error text when it is not well formed.
    pub fn from_fen(fen: &str) -> (r: Result<(BitboardBoard, Player, CapturedPieces), String>)
        ensures
            match r {
                Ok((board, player, captured)) => sfen_position(fen@) == Some(
                    (board@, player, captured.black@, captured.white@),
                ) && board.wf(),
                Err(_) => sfen_position(fen@) is None,
            },
    {
        let s = chars_of(fen);
        let (a0, b0) = match nth_word(&s, 0) {
            Some(w) => w,
            None => {
                return Err(string_of("SFEN needs a board, a side to move and pieces in hand"));
            },
        };
        let (a1, b1) = match nth_word(&s, 1) {
            Some(w) => w,
            None => {
                return Err(string_of("SFEN needs a board, a side to move and pieces in hand"));
            },
        };
        let (a2, b2) = match nth_word(&s, 2) {
            Some(w) => w,
            None => {
                return Err(string_of("SFEN needs a board, a side to move and pieces in hand"));
            },
        };
        let squares = match parse_board(&s, a0, b0) {
            Some(v) => v,
            None => {
                return Err(string_of("invalid SFEN board"));
            },
        };
        let ghost side = s@.subrange(a1 as int, b1 as int);
        let player = if b1 - a1 == 1 && s[a1] == 'b' {
            assert(side =~= seq!['b']);
            Player::Black
        } else if b1 - a1 == 1 && s[a1] == 'w' {
            assert(side =~= seq!['w']);
            Player::White
        } else {
            proof {
                if side.len() == 1 {
                    assert(side[0] == s@[a1 as int]);
                }
                assert(side != seq!['b']);
                assert(side != seq!['w']);
            }
            return Err(string_of("invalid side to move"));
        };
        let (black, white) = match parse_hand(&s, a2, b2) {
            Some(h) => h,
            None => {
                return Err(string_of("invalid pieces in hand"));
            },
        };
        proof {
            lemma_fold_shape(s@.subrange(a0 as int, b0 as int), (b0 - a0) as int);
        }
        let board = BitboardBoard::from_squares(squares);
        Ok((board, player, CapturedPieces { black, white }))
    }
}

} // verus!
