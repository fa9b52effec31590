//! The USI `position` command: a start position (the standard one or an SFEN) and the
//! moves played from it, read against the board they are played on.

use vstd::prelude::*;
use crate::bitboards::{BitboardBoard, after_move};
use crate::kif_parser::chars_of;
use crate::sfen::sfen_position;
use crate::text::{chars_to_string, str_eq};
use crate::types::{CapturedPieces, Move, Piece, PieceType, Player, Position, usi_square};

verus! {

/// The SFEN of the standard start position.
pub open spec fn start_sfen() -> Seq<char> {
    "lnsgkgsnl/1r5b1/ppppppppp/9/9/9/PPPPPPPPP/1B5R1/LNSGKGSNL b - 1"@
}

/// The piece that a USI drop letter names (upper case, unpromoted kinds but the king).
pub open spec fn drop_piece(c: char) -> Option<PieceType> {
    if c == 'P' {
        Some(PieceType::Pawn)
    } else if c == 'L' {
        Some(PieceType::Lance)
    } else if c == 'N' {
        Some(PieceType::Knight)
    } else if c == 'S' {
        Some(PieceType::Silver)
    } else if c == 'G' {
        Some(PieceType::Gold)
    } else if c == 'B' {
        Some(PieceType::Bishop)
    } else if c == 'R' {
        Some(PieceType::Rook)
    } else {
        None
    }
}

/// The move that the USI text `s` names on the squares `b` for `player`: "P*5e" drops the
/// piece of the letter on the square; "7g7f" moves what stands on the first square to the
/// second ("7g7f+" promoting it), which must not be empty.
pub open spec fn usi_move(s: Seq<char>, b: Seq<Option<Piece>>, player: Player) -> Option<Move> {
    if s.len() == 4 && s[1] == '*' {
        match (drop_piece(s[0]), usi_square(s.subrange(2, 4))) {
            (Some(pt), Some(to)) => Some(
                Move {
                    from: None,
                    to,
                    piece_type: pt,
                    player,
                    is_promotion: false,
                    is_capture: false,
                    captured_piece: None,
                    gives_check: false,
                    is_recapture: false,
                },
            ),
            _ => None,
        }
    } else if s.len() == 4 || (s.len() == 5 && s[4] == '+') {
        match (usi_square(s.subrange(0, 2)), usi_square(s.subrange(2, 4))) {
            (Some(f), Some(t)) => match b[f.index_spec()] {
                Some(pc) => Some(
                    Move {
                        from: Some(f),
                        to: t,
                        piece_type: pc.piece_type,
                        player,
                        is_promotion: s.len() == 5,
                        is_capture: b[t.index_spec()] is Some,
                        captured_piece: b[t.index_spec()],
                        gives_check: false,
                        is_recapture: false,
                    },
                ),
                None => None,
            },
            _ => None,
        }
    } else {
        None
    }
}

/// A position being set up: the squares, the side to move and the two hands.
pub type SetupView = (Seq<Option<Piece>>, Player, Seq<PieceType>, Seq<PieceType>);

/// The piece that move `m` takes from the squares `b`.
pub open spec fn taken_by(b: Seq<Option<Piece>>, m: Move) -> Option<Piece> {
    match m.from {
        Some(f) => if f == m.to {
            None
        } else {
            b[m.to.index_spec()]
        },
        None => None,
    }
}

/// The position after the side to move plays `m`: the taken piece goes, as it was on the
/// board, into the mover's hand, and the other side is to move.
pub open spec fn played(st: SetupView, m: Move) -> SetupView {
    let t = taken_by(st.0, m);
    (
        after_move(st.0, m),
        st.1.opposite_spec(),
        if t is Some && st.1 == Player::Black {
            st.2.push(t->0.piece_type)
        } else {
            st.2
        },
        if t is Some && st.1 == Player::White {
            st.3.push(t->0.piece_type)
        } else {
            st.3
        },
    )
}

/// The position after the USI moves `ms` are played in turn, or the first move that names
/// no move on the board it is played on.
pub open spec fn play_usi(st: SetupView, ms: Seq<Seq<char>>) -> Result<SetupView, Seq<char>>
    decreases ms.len(),
{
    if ms.len() == 0 {
        Ok(st)
    } else {
        match usi_move(ms[0], st.0, st.1) {
            Some(m) => play_usi(played(st, m), ms.drop_first()),
            None => Err(ms[0]),
        }
    }
}

/// The index of the first word "moves" at or after `i`, or the number of words.
pub open spec fn moves_index(parts: Seq<Seq<char>>, i: int) -> int
    decreases parts.len() - i,
{
    if i >= parts.len() {
        parts.len() as int
    } else if parts[i] == "moves"@ {
        i
    } else {
        moves_index(parts, i + 1)
    }
}

/// The words `ws` separated by single spaces.
pub open spec fn joined(ws: Seq<Seq<char>>) -> Seq<char>
    decreases ws.len(),
{
    if ws.len() == 0 {
        Seq::empty()
    } else if ws.len() == 1 {
        ws[0]
    } else {
        joined(ws.drop_last()) + seq![' '] + ws.last()
    }
}

/// What a `position` command comes to.
pub enum PositionOutcome {
    /// The command has no words.
    NoArguments,
    /// The first word is neither "startpos" nor "sfen".
    UnknownStart,
    /// The SFEN is not one.
    SfenRejected,
    /// This move names no move on the board it is played on.
    MoveRejected(Seq<char>),
    /// The position set up.
    Ready(SetupView),
}

/// The SFEN of a command and the index of its first move: "startpos" stands for the start
/// position, whose moves follow a second word "moves"; "sfen" takes the words up to
/// "moves", and the moves follow that word.
pub open spec fn command_start(parts: Seq<Seq<char>>) -> (Seq<char>, int) {
    if parts[0] == "startpos"@ {
        (start_sfen(), if parts.len() > 1 && parts[1] == "moves"@ { 2 } else { parts.len() as int })
    } else {
        let k = moves_index(parts, 1);
        (joined(parts.subrange(1, k)), if k < parts.len() { k + 1 } else { parts.len() as int })
    }
}

/// What the command of the words `parts` comes to.
pub open spec fn position_outcome(parts: Seq<Seq<char>>) -> PositionOutcome {
    if parts.len() == 0 {
        PositionOutcome::NoArguments
    } else if parts[0] != "startpos"@ && parts[0] != "sfen"@ {
        PositionOutcome::UnknownStart
    } else {
        let (fen, start) = command_start(parts);
        match sfen_position(fen) {
            None => PositionOutcome::SfenRejected,
            Some(st) => match play_usi(st, parts.subrange(start, parts.len() as int)) {
                Ok(end) => PositionOutcome::Ready(end),
                Err(m) => PositionOutcome::MoveRejected(m),
            },
        }
    }
}

/// Why a `position` command was refused.
#[derive(Clone, Debug, PartialEq, Eq)]
pub enum PositionCommandError {
    /// The command has no words.
    NoArguments,
    /// The first word is neither "startpos" nor "sfen".
    UnknownStart,
    /// The SFEN is not one; the text says why.
    BadSfen(String),
    /// This move names no move on the board it is played on.
    BadMove(String),
}

/// The words of a command, as character sequences.
pub open spec fn words_view(parts: Seq<String>) -> Seq<Seq<char>> {
    parts.map_values(|s: String| s@)
}

/// Whether `r` is what the outcome `o` describes.
pub open spec fn outcome_result(
    o: PositionOutcome,
    r: Result<(BitboardBoard, Player, CapturedPieces), PositionCommandError>,
) -> bool {
    match o {
        PositionOutcome::NoArguments => r matches Err(PositionCommandError::NoArguments),
        PositionOutcome::UnknownStart => r matches Err(PositionCommandError::UnknownStart),
        PositionOutcome::SfenRejected => r matches Err(PositionCommandError::BadSfen(_)),
        PositionOutcome::MoveRejected(m) => r matches Err(PositionCommandError::BadMove(t)) && t@ == m,
        PositionOutcome::Ready(st) => r matches Ok((board, player, captured)) && board.wf() && board@ == st.0
            && player == st.1 && captured.black@ == st.2 && captured.white@ == st.3,
    }
}

fn drop_piece_exec(c: char) -> (r: Option<PieceType>)
    ensures
        r == drop_piece(c),
{
    if c == 'P' {
        Some(PieceType::Pawn)
    } else if c == 'L' {
        Some(PieceType::Lance)
    } else if c == 'N' {
        Some(PieceType::Knight)
    } else if c == 'S' {
        Some(PieceType::Silver)
    } else if c == 'G' {
        Some(PieceType::Gold)
    } else if c == 'B' {
        Some(PieceType::Bishop)
    } else if c == 'R' {
        Some(PieceType::Rook)
    } else {
        None
    }
}

/// The square of the two characters of `s` at `i`.
fn square_in(s: &Vec<char>, i: usize) -> (r: Option<Position>)
    requires
        i + 2 <= s@.len(),
    ensures
        r == usi_square(s@.subrange(i as int, i + 2)),
{
    let n = s.len();
    assert(i + 1 < n);
    let f = s[i];
    let k = s[i + 1];
    let ghost w = s@.subrange(i as int, i + 2);
    assert(w.len() == 2 && w[0] == f && w[1] == k);
    if '1' <= f && f <= '9' && 'a' <= k && k <= 'i' {
        let file = (f as u32 - '0' as u32) as u8;
        let row = (k as u32 - 'a' as u32) as u8;
        Some(Position { row, col: 9 - file })
    } else {
        None
    }
}

/// The move that the USI text `s` names on `board` for `player` (see `usi_move`).
pub fn parse_usi_move(s: &str, board: &BitboardBoard, player: Player) -> (r: Option<Move>)
    requires
        board.wf(),
    ensures
        r == usi_move(s@, board@, player),
        r matches Some(m) ==> m.to.valid() && (m.from matches Some(f) ==> f.valid()),
{
    let c = chars_of(s);
    let n = c.len();
    if n == 4 && c[1] == '*' {
        match (drop_piece_exec(c[0]), square_in(&c, 2)) {
            (Some(pt), Some(to)) => Some(Move::new_drop(pt, to, player)),
            _ => None,
        }
    } else if n == 4 || (n == 5 && c[4] == '+') {
        match (square_in(&c, 0), square_in(&c, 2)) {
            (Some(f), Some(t)) => match board.get_piece(f) {
                Some(pc) => {
                    let taken = board.get_piece(t);
                    Some(
                        Move {
                            from: Some(f),
                            to: t,
                            piece_type: pc.piece_type,
                            player,
                            is_promotion: n == 5,
                            is_capture: taken.is_some(),
                            captured_piece: taken,
                            gives_check: false,
                            is_recapture: false,
                        },
                    )
                },
                None => None,
            },
            _ => None,
        }
    } else {
        None
    }
}

/// The words of `parts` from `i` on, up to the first "moves", separated by single spaces;
/// and the index of that "moves" (or the number of words).
fn sfen_words(parts: &Vec<String>, i: usize) -> (r: (String, usize))
    requires
        1 <= i <= parts@.len(),
    ensures
        r.1 == moves_index(words_view(parts@), i as int),
        r.0@ == joined(words_view(parts@).subrange(i as int, r.1 as int)),
{
    let ghost w = words_view(parts@);
    let mut out: Vec<char> = Vec::new();
    let mut j: usize = i;
    while j < parts.len() && !str_eq(parts[j].as_str(), "moves")
        invariant
            i <= j <= parts@.len(),
            w == words_view(parts@),
            moves_index(w, j as int) == moves_index(w, i as int),
            out@ == joined(w.subrange(i as int, j as int)),
        decreases parts@.len() - j,
    {
        let ghost before = out@;
        if j > i {
            out.push(' ');
        }
        let word = chars_of(parts[j].as_str());
        let mut k: usize = 0;
        while k < word.len()
            invariant
                k <= word@.len(),
                out@ == (if j > i { before + seq![' '] } else { before }) + word@.subrange(0, k as int),
            decreases word@.len() - k,
        {
            out.push(word[k]);
            k = k + 1;
            assert(word@.subrange(0, k as int) == word@.subrange(0, k - 1).push(word@[k - 1]));
        }
        proof {
            assert(word@.subrange(0, word@.len() as int) == word@);
            assert(w[j as int] == parts@[j as int]@);
            let ws = w.subrange(i as int, j + 1);
            assert(ws.drop_last() == w.subrange(i as int, j as int));
            assert(ws.last() == w[j as int]);
            if j == i {
                assert(ws.len() == 1);
                assert(before == Seq::<char>::empty());
                assert(out@ == ws[0]);
            }
        }
        j = j + 1;
    }
    proof {
        if j < parts@.len() {
            assert(w[j as int] == parts@[j as int]@);
        }
    }
    (chars_to_string(&out), j)
}

/// Play the USI moves `parts[start..]` in turn on the position set up (see `play_usi`).
fn play_moves(
    parts: &Vec<String>,
    start: usize,
    board0: BitboardBoard,
    player0: Player,
    captured0: CapturedPieces,
) -> (r: Result<(BitboardBoard, Player, CapturedPieces), PositionCommandError>)
    requires
        start <= parts@.len(),
        board0.wf(),
    ensures
        match play_usi(
            (board0@, player0, captured0.black@, captured0.white@),
            words_view(parts@).subrange(start as int, parts@.len() as int),
        ) {
            Ok(end) => r matches Ok((b, p, c)) && b.wf() && b@ == end.0 && p == end.1 && c.black@ == end.2 && c.white@
                == end.3,
            Err(m) => r matches Err(PositionCommandError::BadMove(t)) && t@ == m,
        },
{
    let ghost w = words_view(parts@);
    let ghost goal = play_usi(
        (board0@, player0, captured0.black@, captured0.white@),
        w.subrange(start as int, w.len() as int),
    );
    let mut board = board0;
    let mut player = player0;
    let mut captured = captured0;
    let mut i: usize = start;
    while i < parts.len()
        invariant
            start <= i <= parts@.len(),
            w == words_view(parts@),
            board.wf(),
            goal == play_usi(
                (board0@, player0, captured0.black@, captured0.white@),
                w.subrange(start as int, w.len() as int),
            ),
            goal == play_usi((board@, player, captured.black@, captured.white@), w.subrange(i as int, w.len() as int)),
        decreases parts@.len() - i,
    {
        let ghost st = (board@, player, captured.black@, captured.white@);
        let ghost rest = w.subrange(i as int, w.len() as int);
        assert(rest[0] == parts@[i as int]@);
        assert(rest.drop_first() == w.subrange(i + 1, w.len() as int));
        match parse_usi_move(parts[i].as_str(), &board, player) {
            Some(m) => {
                let taken = board.make_move(&m);
                match taken {
                    Some(t) => captured.add_piece(t.piece_type, player),
                    None => {},
                }
                proof {
                    assert(taken == taken_by(st.0, m));
                    let next = played(st, m);
                    assert(board@ == next.0);
                    assert(captured.black@ == next.2 && captured.white@ == next.3) by {
                        match player {
                            Player::Black => {},
                            Player::White => {},
                        }
                    }
                }
                player = player.opposite();
                i = i + 1;
            },
            None => {
                let text = chars_to_string(&chars_of(parts[i].as_str()));
                assert(rest.len() > 0);
                assert(usi_move(rest[0], st.0, st.1) is None);
                assert(goal == Err::<SetupView, Seq<char>>(rest[0]));
                assert(text@ == rest[0]);
                return Err(PositionCommandError::BadMove(text));
            },
        }
    }
    assert(w.subrange(i as int, w.len() as int).len() == 0);
    Ok((board, player, captured))
}

/// Set up the position of a USI `position` command given as its words (without the word
/// "position"): the start position or an SFEN, then the moves that follow "moves".
pub fn apply_position_command(parts: &Vec<String>) -> (r: Result<
    (BitboardBoard, Player, CapturedPieces),
    PositionCommandError,
>)
    ensures
        outcome_result(position_outcome(words_view(parts@)), r),
{
    let ghost w = words_view(parts@);
    if parts.len() == 0 {
        return Err(PositionCommandError::NoArguments);
    }
    assert(w[0] == parts@[0]@);
    let is_start = str_eq(parts[0].as_str(), "startpos");
    let is_sfen = str_eq(parts[0].as_str(), "sfen");
    if !is_start && !is_sfen {
        return Err(PositionCommandError::UnknownStart);
    }
    let (fen, start): (String, usize) = if is_start {
        let mut start: usize = parts.len();
        if parts.len() > 1 {
            assert(w[1] == parts@[1]@);
            if str_eq(parts[1].as_str(), "moves") {
                start = 2;
            }
        }
        (chars_to_string(&chars_of("lnsgkgsnl/1r5b1/ppppppppp/9/9/9/PPPPPPPPP/1B5R1/LNSGKGSNL b - 1")), start)
    } else {
        let (text, k) = sfen_words(parts, 1);
        (text, if k < parts.len() { k + 1 } else { parts.len() })
    };
    assert(fen@ == command_start(w).0 && start == command_start(w).1);
    match BitboardBoard::from_fen(fen.as_str()) {
        Ok((board, player, captured)) => play_moves(parts, start, board, player, captured),
        Err(e) => Err(PositionCommandError::BadSfen(e)),
    }
}

} // verus!
