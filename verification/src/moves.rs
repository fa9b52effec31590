//! Move generation: board moves and drops, legality (the mover's king is not left in
//! check), captures, checks, promotions, threats and the ordering of quiescence moves.

use vstd::prelude::*;
use crate::bitboards::{
    BitboardBoard, abs_int, after_move, board_sum, in_check, reaches, sign, slides_to, square_of, sq, step_move,
};
use core::cmp::Ordering;
use vstd::wrapping::u64_specs::{wrapping_add, wrapping_mul};
use crate::types::{
    nominal_value,
    promoted_spec,
    CapturedPieces,
    Move,
    Piece,
    PieceType,
    Player,
    Position,
    can_promote_spec,
    piece_from_index,
    piece_index,
};

verus! {

// ----- what a move is -----

/// Whether square `i` holds a piece of `player`.
pub open spec fn owns(b: Seq<Option<Piece>>, player: Player, i: int) -> bool {
    b[i] is Some && b[i]->0.player == player
}

/// Whether a piece of kind `pt` moving from `from` to `to` may promote: it can promote and
/// one of the squares lies in the promotion zone of `player`.
pub open spec fn may_promote(pt: PieceType, player: Player, from: Position, to: Position) -> bool {
    can_promote_spec(pt) && (from.in_zone(player.opposite_spec()) || to.in_zone(
        player.opposite_spec(),
    ))
}

/// The move of the piece on `from` to `to`, promoting or not.
pub open spec fn board_move_of(
    b: Seq<Option<Piece>>,
    player: Player,
    from: Position,
    to: Position,
    promote: bool,
) -> Move {
    Move {
        from: Some(from),
        to,
        piece_type: b[from.index_spec()]->0.piece_type,
        player,
        is_promotion: promote,
        is_capture: b[to.index_spec()] is Some,
        captured_piece: b[to.index_spec()],
        gives_check: false,
        is_recapture: false,
    }
}

/// `m` moves a piece of `player` to a square it reaches that holds no piece of `player`,
/// promoting only where allowed.
pub open spec fn pseudo_board_move(b: Seq<Option<Piece>>, player: Player, m: Move) -> bool {
    &&& m.from matches Some(from) && {
        &&& from.valid()
        &&& m.to.valid()
        &&& owns(b, player, from.index_spec())
        &&& reaches(b, b[from.index_spec()]->0.piece_type, player, from, m.to)
        &&& !owns(b, player, m.to.index_spec())
        &&& (m.is_promotion ==> may_promote(b[from.index_spec()]->0.piece_type, player, from, m.to))
        &&& m == board_move_of(b, player, from, m.to, m.is_promotion)
    }
}

/// The last rank of `player` (where its pawns and lances could never move again).
pub open spec fn last_rank(player: Player) -> int {
    match player {
        Player::Black => 0,
        Player::White => 8,
    }
}

/// The rank before the last one of `player`.
pub open spec fn second_last_rank(player: Player) -> int {
    match player {
        Player::Black => 1,
        Player::White => 7,
    }
}

/// Whether the file `col` holds an unpromoted pawn of `player`.
pub open spec fn pawn_on_file(b: Seq<Option<Piece>>, player: Player, col: int) -> bool {
    exists|r: int| 0 <= r < 9 && #[trigger] b[sq(r, col)] == Some(Piece { piece_type: PieceType::Pawn, player })
}

/// Whether a piece of kind `pt` may be dropped by `player` on the empty square `to`: no
/// second unpromoted pawn on a file, and no pawn, lance or knight where it could never move.
pub open spec fn drop_allowed(b: Seq<Option<Piece>>, pt: PieceType, to: Position, player: Player) -> bool {
    &&& (pt == PieceType::Pawn ==> !pawn_on_file(b, player, to.col as int))
    &&& !((pt == PieceType::Pawn || pt == PieceType::Lance) && to.row == last_rank(player))
    &&& !(pt == PieceType::Knight && (to.row == last_rank(player) || to.row == second_last_rank(player)))
}

/// The drop of a piece of kind `pt` by `player` on `to`.
pub open spec fn drop_of(pt: PieceType, to: Position, player: Player) -> Move {
    Move {
        from: None,
        to,
        piece_type: pt,
        player,
        is_promotion: false,
        is_capture: false,
        captured_piece: None,
        gives_check: false,
        is_recapture: false,
    }
}

/// `m` drops a piece from the hand of `player` on an empty square where it is allowed.
pub open spec fn pseudo_drop(b: Seq<Option<Piece>>, hand: Seq<PieceType>, player: Player, m: Move) -> bool {
    &&& m.from is None
    &&& hand.contains(m.piece_type)
    &&& m.to.valid()
    &&& b[m.to.index_spec()] is None
    &&& drop_allowed(b, m.piece_type, m.to, player)
    &&& m == drop_of(m.piece_type, m.to, player)
}

/// A pseudo-legal move: a board move or a drop.
pub open spec fn pseudo_legal(b: Seq<Option<Piece>>, hand: Seq<PieceType>, player: Player, m: Move) -> bool {
    pseudo_board_move(b, player, m) || pseudo_drop(b, hand, player, m)
}

/// A legal move: pseudo-legal and not leaving the own king in check.
pub open spec fn legal(b: Seq<Option<Piece>>, hand: Seq<PieceType>, player: Player, m: Move) -> bool {
    pseudo_legal(b, hand, player, m) && !in_check(after_move(b, m), player)
}

/// The number of captures in `l`.
pub open spec fn capture_count(l: Seq<Move>) -> int
    decreases l.len(),
{
    if l.len() == 0 {
        0
    } else {
        capture_count(l.drop_last()) + if l.last().is_capture {
            1int
        } else {
            0int
        }
    }
}

/// Order key of a board move: source index, then destination index.
pub open spec fn board_key(m: Move) -> int {
    m.from->0.index_spec() * 81 + m.to.index_spec()
}

/// Whether pieces of kind `pt` are listed ray by ray: lances, rooks and bishops.
pub open spec fn listed_by_ray(pt: PieceType) -> bool {
    pt == PieceType::Lance || pt == PieceType::Rook || pt == PieceType::Bishop
}

/// The place of direction (`sr`, `sc`) among the rays of a rook ((1, 0), (-1, 0), (0, 1),
/// (0, -1)) or of a bishop ((1, 1), (1, -1), (-1, 1), (-1, -1)); a lance has one ray.
pub open spec fn ray_rank(pt: PieceType, sr: int, sc: int) -> int {
    if pt == PieceType::Rook {
        if sr == 1 && sc == 0 {
            0
        } else if sr == -1 && sc == 0 {
            1
        } else if sr == 0 && sc == 1 {
            2
        } else {
            3
        }
    } else if pt == PieceType::Bishop {
        if sr == 1 && sc == 1 {
            0
        } else if sr == 1 && sc == -1 {
            1
        } else if sr == -1 && sc == 1 {
            2
        } else {
            3
        }
    } else {
        0
    }
}

/// Place of a board move in the order of generation: the origin square first; then, for
/// a lance, rook or bishop, the ray and the distance along it, for any other piece the
/// destination square; the promoting move right after the plain one.
pub open spec fn generation_key(m: Move) -> int {
    let f = m.from->0;
    let dr = m.to.row - f.row;
    let dc = m.to.col - f.col;
    let within = if listed_by_ray(m.piece_type) {
        ray_rank(m.piece_type, sign(dr), sign(dc)) * 9 + if abs_int(dr) > abs_int(dc) {
            abs_int(dr)
        } else {
            abs_int(dc)
        }
    } else {
        m.to.index_spec()
    };
    f.index_spec() * 200 + within * 2 + if m.is_promotion {
        1int
    } else {
        0int
    }
}

/// Generation keys never decrease along `s`.
pub open spec fn sorted_by_generation(s: Seq<Move>) -> bool {
    forall|i: int, j: int| 0 <= i < j < s.len() ==> generation_key(#[trigger] s[i]) <= generation_key(#[trigger] s[j])
}

/// The order of generation is strict: two board moves of the same position with the same
/// generation key are the same move. So the order that `generate_all_piece_moves` promises
/// fixes its result entirely.
pub proof fn law_generation_keys_distinct(b: Seq<Option<Piece>>, player: Player, m1: Move, m2: Move)
    requires
        pseudo_board_move(b, player, m1),
        pseudo_board_move(b, player, m2),
        generation_key(m1) == generation_key(m2),
    ensures
        m1 == m2,
{
    let f1 = m1.from->0;
    let f2 = m2.from->0;
    let w1 = generation_key(m1) - f1.index_spec() * 200;
    let w2 = generation_key(m2) - f2.index_spec() * 200;
    assert(0 <= w1 < 200 && 0 <= w2 < 200);
    assert(f1.index_spec() == f2.index_spec());
    assert(f1 == f2);
    assert(m1.is_promotion == m2.is_promotion);
    let pt = b[f1.index_spec()]->0.piece_type;
    assert(m1.piece_type == pt && m2.piece_type == pt);
    if listed_by_ray(pt) {
        let dr1 = m1.to.row - f1.row;
        let dc1 = m1.to.col - f1.col;
        let dr2 = m2.to.row - f1.row;
        let dc2 = m2.to.col - f1.col;
        assert(!step_move(pt, player, dr1, dc1) && !step_move(pt, player, dr2, dc2));
        assert(slides_to(b, pt, player, f1, m1.to) && slides_to(b, pt, player, f1, m2.to));
        assert(sign(dr1) == sign(dr2) && sign(dc1) == sign(dc2));
        assert(m1.to == m2.to);
    } else {
        assert(m1.to.index_spec() == m2.to.index_spec());
        assert(m1.to == m2.to);
    }
}

/// What every legal move of `player` is: a move of its own piece or a drop, by `player`,
/// after which its king is not in check; and a promoting move starts or ends in the
/// opponent's camp, the promotion zone of `player`.
pub proof fn law_legal_move_shape(b: Seq<Option<Piece>>, hand: Seq<PieceType>, player: Player, m: Move)
    requires
        legal(b, hand, player, m),
    ensures
        m.player == player,
        m.from matches Some(f) ==> owns(b, player, f.index_spec()),
        m.from is None ==> hand.contains(m.piece_type) && !m.is_promotion,
        !in_check(after_move(b, m), player),
        m.is_promotion ==> (m.from matches Some(f) && (f.in_zone(player.opposite_spec()) || m.to.in_zone(
            player.opposite_spec(),
        ))),
{
}

/// The priorities of the quiescence order: a check comes before a move that gives none;
/// between moves alike in that, a capture comes before a quiet move; between two captures,
/// the one that gains more (value of the piece taken minus value of the piece moved, most
/// valuable victim and least valuable attacker first) comes first; and between moves alike
/// in all of that, a promotion comes before a move that does not promote.
pub proof fn law_quiescence_priorities(a: Move, b: Move)
    ensures
        a.gives_check && !b.gives_check ==> quiescence_order(a, b) < 0,
        a.gives_check == b.gives_check && a.is_capture && !b.is_capture ==> quiescence_order(a, b) < 0,
        ({
            let gain_a = (match a.captured_piece {
                Some(p) => nominal_value(p.piece_type),
                None => 0,
            }) - nominal_value(a.piece_type);
            let gain_b = (match b.captured_piece {
                Some(p) => nominal_value(p.piece_type),
                None => 0,
            }) - nominal_value(b.piece_type);
            a.gives_check == b.gives_check && a.is_capture && b.is_capture && gain_a > gain_b
                ==> quiescence_order(a, b) < 0
        }),
        ({
            let gain_a = (match a.captured_piece {
                Some(p) => nominal_value(p.piece_type),
                None => 0,
            }) - nominal_value(a.piece_type);
            let gain_b = (match b.captured_piece {
                Some(p) => nominal_value(p.piece_type),
                None => 0,
            }) - nominal_value(b.piece_type);
            a.gives_check == b.gives_check && a.is_capture == b.is_capture && (a.is_capture ==> gain_a == gain_b)
                && a.is_promotion && !b.is_promotion ==> quiescence_order(a, b) < 0
        }),
{
}

/// The generation key of a board move between valid squares.
fn generation_key_of(m: &Move) -> (r: u32)
    requires
        m.from is Some,
        m.from->0.valid(),
        m.to.valid(),
    ensures
        r == generation_key(*m),
{
    let f = match m.from {
        Some(f) => f,
        None => Position { row: 0, col: 0 },
    };
    let dr: i32 = m.to.row as i32 - f.row as i32;
    let dc: i32 = m.to.col as i32 - f.col as i32;
    let adr: i32 = if dr < 0 { -dr } else { dr };
    let adc: i32 = if dc < 0 { -dc } else { dc };
    let sr: i32 = if dr > 0 { 1 } else if dr < 0 { -1 } else { 0 };
    let sc: i32 = if dc > 0 { 1 } else if dc < 0 { -1 } else { 0 };
    let pt = m.piece_type;
    let within: u32 = if pt == PieceType::Lance || pt == PieceType::Rook || pt == PieceType::Bishop {
        let rank: u32 = if pt == PieceType::Rook {
            if sr == 1 && sc == 0 {
                0
            } else if sr == -1 && sc == 0 {
                1
            } else if sr == 0 && sc == 1 {
                2
            } else {
                3
            }
        } else if pt == PieceType::Bishop {
            if sr == 1 && sc == 1 {
                0
            } else if sr == 1 && sc == -1 {
                1
            } else if sr == -1 && sc == 1 {
                2
            } else {
                3
            }
        } else {
            0
        };
        let dist: u32 = if adr > adc { adr as u32 } else { adc as u32 };
        rank * 9 + dist
    } else {
        (m.to.row as u32) * 9 + m.to.col as u32
    };
    let from_index: u32 = (f.row as u32) * 9 + f.col as u32;
    let promo: u32 = if m.is_promotion { 1 } else { 0 };
    from_index * 200 + within * 2 + promo
}

/// The moves `v` reordered stably by generation key.
fn sort_by_generation(v: Vec<Move>) -> (r: Vec<Move>)
    requires
        forall|i: int| 0 <= i < v@.len() ==> #[trigger] v@[i].from is Some && v@[i].from->0.valid() && v@[i].to.valid(),
    ensures
        r@.to_multiset() == v@.to_multiset(),
        r@.len() == v@.len(),
        sorted_by_generation(r@),
{
    broadcast use vstd::seq_lib::group_to_multiset_ensures;

    let mut out: Vec<Move> = Vec::new();
    let mut i: usize = 0;
    while i < v.len()
        invariant
            i <= v@.len(),
            forall|j: int| 0 <= j < v@.len() ==> #[trigger] v@[j].from is Some && v@[j].from->0.valid() && v@[j].to.valid(),
            out@.to_multiset() == v@.take(i as int).to_multiset(),
            out@.len() == i,
            sorted_by_generation(out@),
            forall|j: int| 0 <= j < out@.len() ==> #[trigger] out@[j].from is Some && out@[j].from->0.valid()
                && out@[j].to.valid(),
        decreases v@.len() - i,
    {
        let m = v[i];
        let key = generation_key_of(&m);
        let mut k: usize = out.len();
        let mut found = false;
        while k > 0 && !found
            invariant
                k <= out@.len(),
                forall|j: int| k <= j < out@.len() ==> generation_key(#[trigger] out@[j]) > key,
                found ==> k > 0 && generation_key(out@[k - 1]) <= key,
                forall|j: int| 0 <= j < out@.len() ==> #[trigger] out@[j].from is Some && out@[j].from->0.valid()
                    && out@[j].to.valid(),
            decreases k + if found { 0int } else { 1int },
        {
            if generation_key_of(&out[k - 1]) <= key {
                found = true;
            } else {
                k = k - 1;
            }
        }
        proof {
            assert(v@.take(i + 1) == v@.take(i as int).push(m));
            assert(forall|j: int| 0 <= j < k ==> generation_key(#[trigger] out@[j]) <= key) by {
                assert forall|j: int| 0 <= j < k implies generation_key(#[trigger] out@[j]) <= key by {
                    if found {
                        assert(generation_key(out@[j]) <= generation_key(out@[k - 1]));
                    }
                }
            }
        }
        let ghost before = out@;
        out.insert(k, m);
        proof {
            vstd::seq_lib::to_multiset_insert(before, k as int, m);
            vstd::seq_lib::to_multiset_build(v@.take(i as int), m);
            assert(out@ == before.insert(k as int, m));
            assert(out@.to_multiset() == v@.take(i + 1).to_multiset());
            assert forall|a: int, b: int| 0 <= a < b < out@.len() implies generation_key(#[trigger] out@[a])
                <= generation_key(#[trigger] out@[b]) by {
                if a < k && b < k {
                    assert(out@[a] == before[a] && out@[b] == before[b]);
                } else if a < k && b == k {
                    assert(out@[a] == before[a]);
                } else if a < k {
                    assert(out@[a] == before[a] && out@[b] == before[b - 1]);
                } else if a == k {
                    assert(out@[b] == before[b - 1]);
                } else {
                    assert(out@[a] == before[a - 1] && out@[b] == before[b - 1]);
                }
            }
            assert forall|j: int| 0 <= j < out@.len() implies #[trigger] out@[j].from is Some && out@[j].from->0.valid()
                && out@[j].to.valid() by {
                if j < k {
                    assert(out@[j] == before[j]);
                } else if j > k {
                    assert(out@[j] == before[j - 1]);
                }
            }
        }
        i = i + 1;
    }
    assert(v@.take(v@.len() as int) == v@);
    out
}

/// Order key of a drop: piece index, then destination index.
pub open spec fn drop_key(m: Move) -> int {
    piece_index(m.piece_type) * 81 + m.to.index_spec()
}

proof fn lemma_square_of_index(p: Position)
    requires
        p.valid(),
    ensures
        square_of(p.index_spec()) == p,
        0 <= p.index_spec() < 81,
{
}

/// The move with its check flag set.
pub open spec fn checking(m: Move) -> Move {
    Move { gives_check: true, ..m }
}

/// The move with its check flag cleared.
pub open spec fn unchecked(m: Move) -> Move {
    Move { gives_check: false, ..m }
}

/// 1 when square `i` holds a piece of the opponent of `player`.
pub open spec fn opponent_at(player: Player, i: int, s: Option<Piece>) -> int {
    match s {
        Some(p) => if p.player != player {
            1
        } else {
            0
        },
        None => 0,
    }
}

pub open spec fn opponent_terms(player: Player) -> spec_fn(int, Option<Piece>) -> int {
    |i: int, s: Option<Piece>| opponent_at(player, i, s)
}

/// Whether a move of `player` counts as a tactical threat: a capture, or a board move
/// (of a piece that is on the board) while the opponent has a piece on the board.
pub open spec fn tactical_threat(b: Seq<Option<Piece>>, player: Player, m: Move) -> bool {
    m.is_capture || (m.from matches Some(f) && b[f.index_spec()] is Some && board_sum(
        b,
        opponent_terms(player),
        81,
    ) > 0)
}

/// Nominal value of the captured piece of `m` (0 without one).
pub open spec fn captured_value(m: Move) -> int {
    match m.captured_piece {
        Some(p) => nominal_value(p.piece_type),
        None => 0,
    }
}

/// Tactical value of a move for ordering: captured value, 1000 for a check, the promotion
/// gain, 500 for a recapture.
pub open spec fn threat_score(m: Move) -> int {
    (if m.is_capture {
        captured_value(m)
    } else {
        0
    }) + (if m.gives_check {
        1000int
    } else {
        0int
    }) + (if m.is_promotion {
        nominal_value(promoted_spec(m.piece_type)) - nominal_value(m.piece_type)
    } else {
        0
    }) + (if m.is_recapture {
        500int
    } else {
        0int
    })
}

/// `h * 31 + x` in wrapping 64-bit arithmetic.
pub open spec fn mix(h: u64, x: u64) -> u64 {
    wrapping_add(wrapping_mul(h, 31), x)
}

/// The ordering hash of a move: destination, source (if any), piece and player mixed in.
pub open spec fn move_hash_spec(m: Move) -> u64 {
    let h = mix(mix(0, m.to.row as u64), m.to.col as u64);
    let h = match m.from {
        Some(f) => mix(mix(h, f.row as u64), f.col as u64),
        None => h,
    };
    mix(mix(h, piece_index(m.piece_type) as u64), m.player.code() as u64)
}

/// Quiescence ordering of two moves as -1, 0 or 1: checks first, then captures (the larger
/// captured-minus-moving value first), then promotions, then larger tactical value, then
/// larger moving piece, then smaller hash.
pub open spec fn quiescence_order(a: Move, b: Move) -> int {
    if a.gives_check && !b.gives_check {
        -1
    } else if !a.gives_check && b.gives_check {
        1
    } else if a.is_capture && !b.is_capture {
        -1
    } else if !a.is_capture && b.is_capture {
        1
    } else if a.is_capture && b.is_capture && captured_value(b) - nominal_value(b.piece_type)
        < captured_value(a) - nominal_value(a.piece_type) {
        -1
    } else if a.is_capture && b.is_capture && captured_value(b) - nominal_value(b.piece_type)
        > captured_value(a) - nominal_value(a.piece_type) {
        1
    } else if a.is_promotion && !b.is_promotion {
        -1
    } else if !a.is_promotion && b.is_promotion {
        1
    } else if threat_score(b) < threat_score(a) {
        -1
    } else if threat_score(b) > threat_score(a) {
        1
    } else if nominal_value(b.piece_type) < nominal_value(a.piece_type) {
        -1
    } else if nominal_value(b.piece_type) > nominal_value(a.piece_type) {
        1
    } else if move_hash_spec(a) < move_hash_spec(b) {
        -1
    } else if move_hash_spec(a) > move_hash_spec(b) {
        1
    } else {
        0
    }
}

/// `m` placed into `s` after every move it does not precede (a stable insertion).
pub open spec fn insert_by_order(s: Seq<Move>, m: Move) -> Seq<Move>
    decreases s.len(),
{
    if s.len() == 0 {
        seq![m]
    } else if quiescence_order(m, s.last()) >= 0 {
        s.push(m)
    } else {
        insert_by_order(s.drop_last(), m).push(s.last())
    }
}

/// The moves sorted stably by the quiescence ordering.
pub open spec fn sort_by_order(s: Seq<Move>) -> Seq<Move>
    decreases s.len(),
{
    if s.len() == 0 {
        Seq::empty()
    } else {
        insert_by_order(sort_by_order(s.drop_last()), s.last())
    }
}

/// Two moves with the same source, destination, piece and player.
pub open spec fn same_move(a: Move, b: Move) -> bool {
    a.from == b.from && a.to == b.to && a.piece_type == b.piece_type && a.player == b.player
}

/// The moves with each run of consecutive same moves reduced to its first.
pub open spec fn dedup_moves(s: Seq<Move>) -> Seq<Move>
    decreases s.len(),
{
    if s.len() == 0 {
        Seq::empty()
    } else {
        let d = dedup_moves(s.drop_last());
        if d.len() > 0 && same_move(d.last(), s.last()) {
            d
        } else {
            d.push(s.last())
        }
    }
}

/// `c` lists the legal captures of `player` without repetition.
pub open spec fn captures_list(b: Seq<Option<Piece>>, player: Player, c: Seq<Move>) -> bool {
    c.no_duplicates() && forall|m: Move| c.contains(m) <==> (pseudo_board_move(b, player, m)
        && m.is_capture && !in_check(after_move(b, m), player))
}

/// `k` lists the checking moves of `player` without repetition.
pub open spec fn checks_list(b: Seq<Option<Piece>>, hand: Seq<PieceType>, player: Player, k: Seq<Move>) -> bool {
    k.no_duplicates() && forall|m: Move| k.contains(m) <==> (m.gives_check && pseudo_legal(b, hand, player, unchecked(m))
        && in_check(after_move(b, m), player.opposite_spec()))
}

/// `p` lists the promoting moves of `player` without repetition.
pub open spec fn promotions_list(b: Seq<Option<Piece>>, hand: Seq<PieceType>, player: Player, p: Seq<Move>) -> bool {
    p.no_duplicates() && forall|m: Move| p.contains(m) <==> (pseudo_legal(b, hand, player, m) && m.is_promotion)
}

/// `t` lists the tactical threats of `player` without repetition.
pub open spec fn threats_list(b: Seq<Option<Piece>>, hand: Seq<PieceType>, player: Player, t: Seq<Move>) -> bool {
    t.no_duplicates() && forall|m: Move| t.contains(m) <==> (pseudo_legal(b, hand, player, m) && tactical_threat(b, player, m))
}

/// The parts of the quiescence move list: captures, checks, promotions, and threats only
/// when the first three hold fewer than 16 moves.
pub open spec fn quiescence_parts(
    b: Seq<Option<Piece>>,
    hand: Seq<PieceType>,
    player: Player,
    c: Seq<Move>,
    k: Seq<Move>,
    p: Seq<Move>,
    t: Seq<Move>,
) -> bool {
    &&& captures_list(b, player, c)
    &&& checks_list(b, hand, player, k)
    &&& promotions_list(b, hand, player, p)
    &&& if c.len() + k.len() + p.len() < 16 {
        threats_list(b, hand, player, t)
    } else {
        t.len() == 0
    }
}

/// `r` is a quiescence move list of `player`: its parts in order, sorted stably by the
/// quiescence ordering, with repeated moves dropped.
#[verifier::opaque]
pub open spec fn quiescence_result(b: Seq<Option<Piece>>, hand: Seq<PieceType>, player: Player, r: Seq<Move>) -> bool {
    exists|c: Seq<Move>, k: Seq<Move>, p: Seq<Move>, t: Seq<Move>|
        #[trigger] quiescence_parts(b, hand, player, c, k, p, t) && r == dedup_moves(sort_by_order(c + k + p + t))
}

/// Counters and settings of move generation. Generation times are in nanoseconds.
#[derive(Clone, Debug)]
pub struct MoveGenerationMetrics {
    pub magic_move_count: u64,
    pub raycast_move_count: u64,
    pub magic_generation_time: u128,
    pub raycast_generation_time: u128,
    pub magic_bitboard_enabled: bool,
    pub batch_processing_enabled: bool,
}

/// The hand of `player` in a cached key.
pub open spec fn entry_hand(e: CachedMoves) -> Seq<PieceType> {
    match e.player {
        Player::Black => e.black_hand@,
        Player::White => e.white_hand@,
    }
}

/// A cache entry holds a quiescence move list of its position.
pub open spec fn entry_sound(e: CachedMoves) -> bool {
    quiescence_result(e.board@, entry_hand(e), e.player, e.moves@)
}

/// The cache entry for a position.
pub open spec fn entry_matches(
    e: CachedMoves,
    b: Seq<Option<Piece>>,
    player: Player,
    black: Seq<PieceType>,
    white: Seq<PieceType>,
) -> bool {
    e.board@ == b && e.player == player && e.black_hand@ == black && e.white_hand@ == white
}

impl MoveGenerationMetrics {
    /// Average generation time per move with magic bitboards (0 without moves).
    pub fn magic_avg_time_per_move(&self) -> (r: u128)
        requires
            self.magic_move_count > 0 ==> (self.magic_move_count as u32) > 0,
        ensures
            r == (if self.magic_move_count > 0 {
                self.magic_generation_time / ((self.magic_move_count as u32) as u128)
            } else {
                0
            }),
    {
        if self.magic_move_count > 0 {
            let n = self.magic_move_count as u32;
            self.magic_generation_time / (n as u128)
        } else {
            0
        }
    }

    /// Average generation time per move with ray casting (0 without moves).
    pub fn raycast_avg_time_per_move(&self) -> (r: u128)
        requires
            self.raycast_move_count > 0 ==> (self.raycast_move_count as u32) > 0,
        ensures
            r == (if self.raycast_move_count > 0 {
                self.raycast_generation_time / ((self.raycast_move_count as u32) as u128)
            } else {
                0
            }),
    {
        if self.raycast_move_count > 0 {
            let n = self.raycast_move_count as u32;
            self.raycast_generation_time / (n as u128)
        } else {
            0
        }
    }
}

/// A cached result of quiescence move generation.
#[derive(Clone, Debug)]
pub struct CachedMoves {
    pub board: Vec<Option<Piece>>,
    pub player: Player,
    pub black_hand: Vec<PieceType>,
    pub white_hand: Vec<PieceType>,
    pub moves: Vec<Move>,
}

/// Generates moves.
pub struct MoveGenerator {
    move_cache: Vec<CachedMoves>,
    cache_hits: u64,
    cache_misses: u64,
    magic_bitboard_enabled: bool,
    batch_processing_enabled: bool,
    magic_move_count: u64,
    raycast_move_count: u64,
    magic_generation_time: u128,
    raycast_generation_time: u128,
}

fn board_move_exec(board: &BitboardBoard, player: Player, from: Position, to: Position, promote: bool) -> (r: Move)
    requires
        board.wf(),
        from.valid(),
        to.valid(),
        board@[from.index_spec()] is Some,
    ensures
        r == board_move_of(board@, player, from, to, promote),
{
    let piece = board.get_piece(from);
    let target = board.get_piece(to);
    let pt = match piece {
        Some(p) => p.piece_type,
        None => PieceType::Pawn,
    };
    Move {
        from: Some(from),
        to,
        piece_type: pt,
        player,
        is_promotion: promote,
        is_capture: target.is_some(),
        captured_piece: target,
        gives_check: false,
        is_recapture: false,
    }
}

fn may_promote_exec(pt: PieceType, player: Player, from: Position, to: Position) -> (r: bool)
    ensures
        r == may_promote(pt, player, from, to),
{
    pt.can_promote() && (from.is_in_promotion_zone(player.opposite()) || to.is_in_promotion_zone(
        player.opposite(),
    ))
}

impl MoveGenerator {
    /// All pseudo-legal board moves of `player`: every piece to every square it reaches
    /// that holds no own piece, with a promoting variant where promotion is allowed. They
    /// come piece by piece in square order; a lance, rook or bishop lists its moves
    /// direction by direction, nearest square first, any other piece by destination square;
    /// a promoting move follows the plain move to the same square.
    pub fn generate_all_piece_moves(&self, board: &BitboardBoard, player: Player) -> (r: Vec<Move>)
        requires
            board.wf(),
        ensures
            r@.no_duplicates(),
            forall|m: Move| r@.contains(m) <==> pseudo_board_move(board@, player, m),
            r@.len() <= 13122,
            sorted_by_generation(r@),
    {
        let by_square = self.board_moves_by_square(board, player);
        let ghost a = by_square@;
        proof {
            assert forall|i: int| 0 <= i < a.len() implies #[trigger] a[i].from is Some && a[i].from->0.valid()
                && a[i].to.valid() by {
                assert(a.contains(a[i]));
            }
        }
        let r = sort_by_generation(by_square);
        proof {
            broadcast use vstd::seq_lib::group_to_multiset_ensures;

            a.lemma_multiset_has_no_duplicates();
            r@.lemma_multiset_has_no_duplicates_conv();
            assert forall|m: Move| #[trigger] r@.contains(m) <==> pseudo_board_move(board@, player, m) by {
                vstd::seq_lib::to_multiset_contains(r@, m);
                vstd::seq_lib::to_multiset_contains(a, m);
                assert(r@.to_multiset().count(m) == a.to_multiset().count(m));
                assert(a.contains(m) <==> pseudo_board_move(board@, player, m));
            }
        }
        r
    }

    /// The pseudo-legal board moves of `player` in order of origin, then destination square.
    fn board_moves_by_square(&self, board: &BitboardBoard, player: Player) -> (r: Vec<Move>)
        requires
            board.wf(),
        ensures
            r@.no_duplicates(),
            forall|m: Move| r@.contains(m) <==> pseudo_board_move(board@, player, m),
            r@.len() <= 13122,
    {
        let mut out: Vec<Move> = Vec::new();
        let mut k: usize = 0;
        while k < 6561
            invariant
                board.wf(),
                k <= 6561,
                out@.len() <= 2 * k,
                out@.no_duplicates(),
                forall|m: Move| #[trigger] out@.contains(m) <==> (pseudo_board_move(board@, player, m)
                    && board_key(m) < k),
            decreases 6561 - k,
        {
            let i = k / 81;
            let j = k % 81;
            let from = Position::from_index(i as u8);
            let to = Position::from_index(j as u8);
            let ghost before = out@;
            let mut added_plain = false;
            let mut added_promo = false;
            match board.get_piece_at_index(i) {
                Some(p) => {
                    if p.player == player && board.piece_reaches(p.piece_type, player, from, to) {
                        let own_target = match board.get_piece_at_index(j) {
                            Some(q) => q.player == player,
                            None => false,
                        };
                        if !own_target {
                            let m = board_move_exec(board, player, from, to, false);
                            out.push(m);
                            added_plain = true;
                            if may_promote_exec(p.piece_type, player, from, to) {
                                let pm = board_move_exec(board, player, from, to, true);
                                out.push(pm);
                                added_promo = true;
                            }
                        }
                    }
                },
                None => {},
            }
            proof {
                let b = board@;
                let m1 = board_move_of(b, player, from, to, false);
                let m2 = board_move_of(b, player, from, to, true);
                assert(from.index_spec() == i && to.index_spec() == j);
                assert(board_key(m1) == k && board_key(m2) == k);
                if added_plain {
                    assert(pseudo_board_move(b, player, m1));
                }
                if added_promo {
                    assert(pseudo_board_move(b, player, m2));
                    assert(out@ == before.push(m1).push(m2));
                } else if added_plain {
                    assert(out@ == before.push(m1));
                } else {
                    assert(out@ == before);
                }
                assert forall|m: Move| out@.contains(m) implies pseudo_board_move(b, player, m)
                    && board_key(m) < k + 1 by {
                    let idx = choose|idx: int| 0 <= idx < out@.len() && out@[idx] == m;
                    if idx < before.len() {
                        assert(before[idx] == m);
                        assert(before.contains(m));
                    } else if idx == before.len() {
                        assert(m == m1);
                    } else {
                        assert(m == m2);
                    }
                }
                assert forall|m: Move| pseudo_board_move(b, player, m) && board_key(m) < k + 1 implies #[trigger] out@.contains(m) by {
                    if board_key(m) < k {
                        assert(before.contains(m));
                        let idx = choose|idx: int| 0 <= idx < before.len() && before[idx] == m;
                        assert(out@[idx] == m);
                    } else {
                        let f = m.from->0;
                        assert(f.index_spec() == i && m.to.index_spec() == j) by (nonlinear_arith)
                            requires
                                f.index_spec() * 81 + m.to.index_spec() == i * 81 + j,
                                0 <= f.index_spec() < 81,
                                0 <= m.to.index_spec() < 81,
                                0 <= i < 81,
                                0 <= j < 81,
                        ;
                        lemma_square_of_index(f);
                        lemma_square_of_index(m.to);
                        assert(f == from && m.to == to);
                        if m.is_promotion {
                            assert(m == m2);
                            assert(out@[before.len() as int + 1] == m2);
                        } else {
                            assert(m == m1);
                            assert(out@[before.len() as int] == m1);
                        }
                    }
                }
                assert forall|x: int, y: int| 0 <= x < out@.len() && 0 <= y < out@.len() && x != y implies out@[x] != out@[y] by {
                    if x >= before.len() || y >= before.len() {
                        if x < before.len() {
                            assert(before.contains(out@[x]));
                            assert(board_key(out@[x]) < k);
                        } else if y < before.len() {
                            assert(before.contains(out@[y]));
                            assert(board_key(out@[y]) < k);
                        }
                    } else {
                        assert(before[x] == out@[x] && before[y] == out@[y]);
                    }
                }
            }
            k = k + 1;
        }
        out
    }

    fn hand_holds(hand: &Vec<PieceType>, pt: PieceType) -> (r: bool)
        ensures
            r == hand@.contains(pt),
    {
        let mut i: usize = 0;
        while i < hand.len()
            invariant
                i <= hand@.len(),
                forall|j: int| 0 <= j < i ==> hand@[j] != pt,
            decreases hand@.len() - i,
        {
            if hand[i] == pt {
                return true;
            }
            i = i + 1;
        }
        false
    }

    fn drop_allowed_exec(board: &BitboardBoard, pt: PieceType, to: Position, player: Player) -> (r: bool)
        requires
            board.wf(),
            to.valid(),
        ensures
            r == drop_allowed(board@, pt, to, player),
    {
        if pt == PieceType::Pawn {
            let mut row: u8 = 0;
            while row < 9
                invariant
                    board.wf(),
                    to.valid(),
                    pt == PieceType::Pawn,
                    row <= 9,
                    forall|r: int| 0 <= r < row ==> #[trigger] board@[sq(r, to.col as int)] != Some(
                        Piece { piece_type: PieceType::Pawn, player },
                    ),
                decreases 9 - row,
            {
                match board.get_piece(Position::new(row, to.col)) {
                    Some(p) => {
                        if p.piece_type == PieceType::Pawn && p.player == player {
                            assert(board@[sq(row as int, to.col as int)] == Some(
                                Piece { piece_type: PieceType::Pawn, player },
                            ));
                            return false;
                        }
                    },
                    None => {},
                }
                row = row + 1;
            }
        }
        let last: u8 = match player {
            Player::Black => 0,
            Player::White => 8,
        };
        let second: u8 = match player {
            Player::Black => 1,
            Player::White => 7,
        };
        if (pt == PieceType::Pawn || pt == PieceType::Lance) && to.row == last {
            return false;
        }
        if pt == PieceType::Knight && (to.row == last || to.row == second) {
            return false;
        }
        true
    }

    /// Drops of every kind of piece in the hand of `player` on every empty square where
    /// the drop is allowed.
    fn generate_drop_moves(&self, board: &BitboardBoard, player: Player, captured_pieces: &CapturedPieces) -> (r: Vec<Move>)
        requires
            board.wf(),
        ensures
            r@.no_duplicates(),
            forall|m: Move| r@.contains(m) <==> pseudo_drop(board@, captured_pieces.hand(player), player, m),
            r@.len() <= 1134,
    {
        let hand = match player {
            Player::Black => &captured_pieces.black,
            Player::White => &captured_pieces.white,
        };
        let ghost h = captured_pieces.hand(player);
        assert(hand@ == h);
        let mut out: Vec<Move> = Vec::new();
        let mut k: usize = 0;
        while k < 1134
            invariant
                board.wf(),
                hand@ == h,
                k <= 1134,
                out@.len() <= k,
                out@.no_duplicates(),
                forall|m: Move| #[trigger] out@.contains(m) <==> (pseudo_drop(board@, h, player, m)
                    && drop_key(m) < k),
            decreases 1134 - k,
        {
            let t = k / 81;
            let j = k % 81;
            let pt = PieceType::from_u8(t as u8);
            let to = Position::from_index(j as u8);
            let ghost before = out@;
            let mut added = false;
            if board.get_piece_at_index(j).is_none() && Self::hand_holds(hand, pt)
                && Self::drop_allowed_exec(board, pt, to, player) {
                out.push(Move::new_drop(pt, to, player));
                added = true;
            }
            proof {
                let b = board@;
                let d = drop_of(pt, to, player);
                assert(piece_index(pt) == t);
                assert(to.index_spec() == j);
                assert(drop_key(d) == k);
                if added {
                    assert(pseudo_drop(b, h, player, d));
                    assert(out@ == before.push(d));
                } else {
                    assert(out@ == before);
                }
                assert forall|m: Move| out@.contains(m) implies pseudo_drop(b, h, player, m) && drop_key(m) < k + 1 by {
                    let idx = choose|idx: int| 0 <= idx < out@.len() && out@[idx] == m;
                    if idx < before.len() {
                        assert(before[idx] == m);
                        assert(before.contains(m));
                    } else {
                        assert(m == d);
                    }
                }
                assert forall|m: Move| pseudo_drop(b, h, player, m) && drop_key(m) < k + 1 implies #[trigger] out@.contains(m) by {
                    if drop_key(m) < k {
                        assert(before.contains(m));
                        let idx = choose|idx: int| 0 <= idx < before.len() && before[idx] == m;
                        assert(out@[idx] == m);
                    } else {
                        let pi = piece_index(m.piece_type);
                        assert(pi == t && m.to.index_spec() == j) by (nonlinear_arith)
                            requires
                                pi * 81 + m.to.index_spec() == t * 81 + j,
                                0 <= pi < 14,
                                0 <= m.to.index_spec() < 81,
                                0 <= t < 14,
                                0 <= j < 81,
                        ;
                        lemma_square_of_index(m.to);
                        assert(m.to == to);
                        assert(piece_from_index(piece_index(m.piece_type) as int) == m.piece_type);
                        assert(m.piece_type == pt);
                        assert(m == d);
                        assert(out@[before.len() as int] == d);
                    }
                }
                assert forall|x: int, y: int| 0 <= x < out@.len() && 0 <= y < out@.len() && x != y implies out@[x] != out@[y] by {
                    if x < before.len() && y < before.len() {
                        assert(before[x] == out@[x] && before[y] == out@[y]);
                    } else if x < before.len() {
                        assert(before.contains(out@[x]));
                    } else if y < before.len() {
                        assert(before.contains(out@[y]));
                    }
                }
            }
            k = k + 1;
        }
        out
    }

    /// All pseudo-legal moves of `player`: board moves, then drops.
    fn generate_pseudo_legal_moves(&self, board: &BitboardBoard, player: Player, captured_pieces: &CapturedPieces) -> (r: Vec<Move>)
        requires
            board.wf(),
        ensures
            r@.no_duplicates(),
            forall|m: Move| r@.contains(m) <==> pseudo_legal(board@, captured_pieces.hand(player), player, m),
            r@.len() <= 14256,
    {
        let mut moves = self.generate_all_piece_moves(board, player);
        let mut drops = self.generate_drop_moves(board, player, captured_pieces);
        let ghost a = moves@;
        let ghost d = drops@;
        moves.append(&mut drops);
        proof {
            let h = captured_pieces.hand(player);
            assert(moves@ == a + d);
            assert forall|m: Move| moves@.contains(m) implies pseudo_legal(board@, h, player, m) by {
                let idx = choose|idx: int| 0 <= idx < moves@.len() && moves@[idx] == m;
                if idx < a.len() {
                    assert(a[idx] == m);
                    assert(a.contains(m));
                } else {
                    assert(d[idx - a.len()] == m);
                    assert(d.contains(m));
                }
            }
            assert forall|m: Move| pseudo_legal(board@, h, player, m) implies #[trigger] moves@.contains(m) by {
                if pseudo_board_move(board@, player, m) {
                    assert(a.contains(m));
                    let idx = choose|idx: int| 0 <= idx < a.len() && a[idx] == m;
                    assert(moves@[idx] == m);
                } else {
                    assert(d.contains(m));
                    let idx = choose|idx: int| 0 <= idx < d.len() && d[idx] == m;
                    assert(moves@[a.len() + idx] == m);
                }
            }
            assert forall|x: int, y: int| 0 <= x < moves@.len() && 0 <= y < moves@.len() && x != y implies moves@[x] != moves@[y] by {
                if x < a.len() && y < a.len() {
                    assert(a[x] == moves@[x] && a[y] == moves@[y]);
                } else if x >= a.len() && y >= a.len() {
                    assert(d[x - a.len()] == moves@[x] && d[y - a.len()] == moves@[y]);
                } else if x < a.len() {
                    assert(a.contains(moves@[x]));
                    assert(d.contains(moves@[y])) by {
                        assert(d[y - a.len()] == moves@[y]);
                    }
                } else {
                    assert(a.contains(moves@[y]));
                    assert(d.contains(moves@[x])) by {
                        assert(d[x - a.len()] == moves@[x]);
                    }
                }
            }
        }
        moves
    }

    /// Whether playing `m` leaves the king of `player` in check.
    fn leaves_in_check(board: &BitboardBoard, m: &Move, player: Player) -> (r: bool)
        requires
            board.wf(),
            m.to.valid(),
            m.from matches Some(f) ==> f.valid(),
        ensures
            r == in_check(after_move(board@, *m), player),
    {
        let mut temp = board.duplicate();
        let _captured = temp.make_move(m);
        temp.is_king_in_check(player)
    }

    /// The legal moves of `player`: pseudo-legal moves that do not leave its king in check.
    pub fn generate_legal_moves(&self, board: &BitboardBoard, player: Player, captured_pieces: &CapturedPieces) -> (r: Vec<Move>)
        requires
            board.wf(),
        ensures
            r@.no_duplicates(),
            forall|m: Move| r@.contains(m) <==> legal(board@, captured_pieces.hand(player), player, m),
            r@.len() <= 14256,
    {
        let pseudo = self.generate_pseudo_legal_moves(board, player, captured_pieces);
        let ghost h = captured_pieces.hand(player);
        let mut out: Vec<Move> = Vec::new();
        let mut i: usize = 0;
        while i < pseudo.len()
            invariant
                board.wf(),
                i <= pseudo@.len(),
                pseudo@.len() <= 14256,
                out@.len() <= i,
                pseudo@.no_duplicates(),
                forall|m: Move| pseudo@.contains(m) <==> pseudo_legal(board@, h, player, m),
                out@.no_duplicates(),
                forall|m: Move| #[trigger] out@.contains(m) <==> (pseudo@.subrange(0, i as int).contains(m)
                    && !in_check(after_move(board@, m), player)),
            decreases pseudo@.len() - i,
        {
            let m = pseudo[i];
            assert(pseudo@.contains(m));
            let ghost before = out@;
            let keep = !Self::leaves_in_check(board, &m, player);
            if keep {
                out.push(m);
            }
            proof {
                let pre = pseudo@.subrange(0, i as int);
                let post = pseudo@.subrange(0, i + 1);
                assert(post == pre.push(m));
                assert(!pre.contains(m)) by {
                    if pre.contains(m) {
                        let idx = choose|idx: int| 0 <= idx < pre.len() && pre[idx] == m;
                        assert(pseudo@[idx] == pseudo@[i as int]);
                    }
                }
                lemma_filter_step(before, out@, pre, m, keep, |x: Move| !in_check(after_move(board@, x), player));
            }
            i = i + 1;
        }
        assert(pseudo@.subrange(0, pseudo@.len() as int) == pseudo@);
        out
    }

    /// The legal captures of `player` by board moves.
    pub fn generate_legal_captures(&self, board: &BitboardBoard, player: Player, captured_pieces: &CapturedPieces) -> (r: Vec<Move>)
        requires
            board.wf(),
        ensures
            r@.no_duplicates(),
            forall|m: Move| r@.contains(m) <==> (pseudo_board_move(board@, player, m) && m.is_capture
                && !in_check(after_move(board@, m), player)),
    {
        let source = self.generate_all_piece_moves(board, player);
        let mut out: Vec<Move> = Vec::new();
        let mut i: usize = 0;
        while i < source.len()
            invariant
                board.wf(),
                i <= source@.len(),
                source@.no_duplicates(),
                forall|m: Move| source@.contains(m) <==> pseudo_board_move(board@, player, m),
                out@.no_duplicates(),
                forall|m: Move| #[trigger] out@.contains(m) <==> (source@.subrange(0, i as int).contains(m)
                    && (m.is_capture && !in_check(after_move(board@, m), player))),
            decreases source@.len() - i,
        {
            let m = source[i];
            assert(source@.contains(m));
            let ghost before = out@;
            let keep = m.is_capture && !Self::leaves_in_check(board, &m, player);
            if keep {
                out.push(m);
            }
            proof {
                let pre = source@.subrange(0, i as int);
                assert(source@.subrange(0, i + 1) == pre.push(m));
                assert(!pre.contains(m)) by {
                    if pre.contains(m) {
                        let idx = choose|idx: int| 0 <= idx < pre.len() && pre[idx] == m;
                        assert(source@[idx] == source@[i as int]);
                    }
                }
                lemma_filter_step(before, out@, pre, m, keep, |x: Move| x.is_capture && !in_check(after_move(board@, x), player));
            }
            i = i + 1;
        }
        assert(source@.subrange(0, source@.len() as int) == source@);
        out
    }

    /// The pseudo-legal moves of `player` that promote.
    pub fn generate_promotions(&self, board: &BitboardBoard, player: Player, captured_pieces: &CapturedPieces) -> (r: Vec<Move>)
        requires
            board.wf(),
        ensures
            r@.no_duplicates(),
            forall|m: Move| r@.contains(m) <==> (pseudo_legal(board@, captured_pieces.hand(player), player, m)
                && m.is_promotion),
    {
        let source = self.generate_pseudo_legal_moves(board, player, captured_pieces);
        let ghost h = captured_pieces.hand(player);
        let mut out: Vec<Move> = Vec::new();
        let mut i: usize = 0;
        while i < source.len()
            invariant
                board.wf(),
                i <= source@.len(),
                source@.no_duplicates(),
                forall|m: Move| source@.contains(m) <==> pseudo_legal(board@, h, player, m),
                out@.no_duplicates(),
                forall|m: Move| #[trigger] out@.contains(m) <==> (source@.subrange(0, i as int).contains(m)
                    && m.is_promotion),
            decreases source@.len() - i,
        {
            let m = source[i];
            let ghost before = out@;
            let keep = m.is_promotion;
            if keep {
                out.push(m);
            }
            proof {
                let pre = source@.subrange(0, i as int);
                assert(source@.subrange(0, i + 1) == pre.push(m));
                assert(!pre.contains(m)) by {
                    if pre.contains(m) {
                        let idx = choose|idx: int| 0 <= idx < pre.len() && pre[idx] == m;
                        assert(source@[idx] == source@[i as int]);
                    }
                }
                lemma_filter_step(before, out@, pre, m, keep, |x: Move| x.is_promotion);
            }
            i = i + 1;
        }
        assert(source@.subrange(0, source@.len() as int) == source@);
        out
    }

    /// The number of pieces of the opponent of `player` on the board.
    fn count_opponent_pieces(board: &BitboardBoard, player: Player) -> (r: u32)
        requires
            board.wf(),
        ensures
            r == board_sum(board@, opponent_terms(player), 81),
    {
        let mut count: u32 = 0;
        let mut i: usize = 0;
        while i < 81
            invariant
                board.wf(),
                i <= 81,
                count == board_sum(board@, opponent_terms(player), i as int),
                count <= i,
            decreases 81 - i,
        {
            match board.get_piece_at_index(i) {
                Some(p) => {
                    if p.player != player {
                        count = count + 1;
                    }
                },
                None => {},
            }
            i = i + 1;
        }
        count
    }

    /// Whether a move of `player` counts as a tactical threat: a capture, or a board move
    /// while the opponent has any piece on the board.
    pub fn is_tactical_threat(&self, move_: &Move, board: &BitboardBoard, player: Player) -> (r: bool)
        requires
            board.wf(),
            move_.from matches Some(f) ==> f.valid(),
        ensures
            r == tactical_threat(board@, player, *move_),
    {
        if move_.is_capture {
            return true;
        }
        match move_.from {
            Some(f) => board.get_piece(f).is_some() && Self::count_opponent_pieces(board, player) > 0,
            None => false,
        }
    }

    /// The pseudo-legal moves of `player` that are tactical threats.
    pub fn generate_tactical_threats(&self, board: &BitboardBoard, player: Player, captured_pieces: &CapturedPieces) -> (r: Vec<Move>)
        requires
            board.wf(),
        ensures
            r@.no_duplicates(),
            forall|m: Move| r@.contains(m) <==> (pseudo_legal(board@, captured_pieces.hand(player), player, m)
                && tactical_threat(board@, player, m)),
    {
        let source = self.generate_pseudo_legal_moves(board, player, captured_pieces);
        let ghost h = captured_pieces.hand(player);
        let mut out: Vec<Move> = Vec::new();
        let mut i: usize = 0;
        while i < source.len()
            invariant
                board.wf(),
                i <= source@.len(),
                source@.no_duplicates(),
                forall|m: Move| source@.contains(m) <==> pseudo_legal(board@, h, player, m),
                out@.no_duplicates(),
                forall|m: Move| #[trigger] out@.contains(m) <==> (source@.subrange(0, i as int).contains(m)
                    && tactical_threat(board@, player, m)),
            decreases source@.len() - i,
        {
            let m = source[i];
            assert(source@.contains(m));
            let ghost before = out@;
            let keep = self.is_tactical_threat(&m, board, player);
            if keep {
                out.push(m);
            }
            proof {
                let pre = source@.subrange(0, i as int);
                assert(source@.subrange(0, i + 1) == pre.push(m));
                assert(!pre.contains(m)) by {
                    if pre.contains(m) {
                        let idx = choose|idx: int| 0 <= idx < pre.len() && pre[idx] == m;
                        assert(source@[idx] == source@[i as int]);
                    }
                }
                lemma_filter_step(before, out@, pre, m, keep, |x: Move| tactical_threat(board@, player, x));
            }
            i = i + 1;
        }
        assert(source@.subrange(0, source@.len() as int) == source@);
        out
    }

    /// The pseudo-legal moves of `player` after which the opponent's king is in check,
    /// marked as giving check.
    pub fn generate_checks(&self, board: &BitboardBoard, player: Player, captured_pieces: &CapturedPieces) -> (r: Vec<Move>)
        requires
            board.wf(),
        ensures
            r@.no_duplicates(),
            forall|m: Move| r@.contains(m) <==> (m.gives_check && pseudo_legal(board@, captured_pieces.hand(player), player, unchecked(m))
                && in_check(after_move(board@, m), player.opposite_spec())),
    {
        let source = self.generate_pseudo_legal_moves(board, player, captured_pieces);
        let ghost h = captured_pieces.hand(player);
        let opponent = player.opposite();
        let mut out: Vec<Move> = Vec::new();
        let mut i: usize = 0;
        while i < source.len()
            invariant
                board.wf(),
                opponent == player.opposite_spec(),
                i <= source@.len(),
                source@.no_duplicates(),
                forall|m: Move| source@.contains(m) <==> pseudo_legal(board@, h, player, m),
                out@.no_duplicates(),
                forall|m: Move| #[trigger] out@.contains(m) <==> (m.gives_check && source@.subrange(0, i as int).contains(unchecked(m))
                    && in_check(after_move(board@, m), opponent)),
            decreases source@.len() - i,
        {
            let m = source[i];
            assert(source@.contains(m));
            let ghost before = out@;
            let gives = Self::leaves_in_check(board, &m, opponent);
            let mut cm = m;
            cm.gives_check = true;
            if gives {
                out.push(cm);
            }
            proof {
                let pre = source@.subrange(0, i as int);
                assert(source@.subrange(0, i + 1) == pre.push(m));
                assert(!pre.contains(m)) by {
                    if pre.contains(m) {
                        let idx = choose|idx: int| 0 <= idx < pre.len() && pre[idx] == m;
                        assert(source@[idx] == source@[i as int]);
                    }
                }
                assert(!m.gives_check);
                assert(cm == checking(m) && unchecked(cm) == m);
                assert(after_move(board@, cm) == after_move(board@, m));
                assert forall|x: Move| #[trigger] out@.contains(x) <==> (x.gives_check && pre.push(m).contains(unchecked(x))
                    && in_check(after_move(board@, x), opponent)) by {
                    if out@.contains(x) {
                        let idx = choose|idx: int| 0 <= idx < out@.len() && out@[idx] == x;
                        if idx < before.len() {
                            assert(before[idx] == x);
                            assert(before.contains(x));
                            let j = choose|j: int| 0 <= j < pre.len() && pre[j] == unchecked(x);
                            assert(pre.push(m)[j] == unchecked(x));
                        } else {
                            assert(x == cm);
                            assert(pre.push(m)[pre.len() as int] == m);
                        }
                    }
                    if x.gives_check && pre.push(m).contains(unchecked(x)) && in_check(after_move(board@, x), opponent) {
                        let j = choose|j: int| 0 <= j < pre.push(m).len() && pre.push(m)[j] == unchecked(x);
                        assert(after_move(board@, x) == after_move(board@, unchecked(x)));
                        if j < pre.len() {
                            assert(pre[j] == unchecked(x));
                            assert(pre.contains(unchecked(x)));
                            assert(before.contains(x));
                            let idx = choose|idx: int| 0 <= idx < before.len() && before[idx] == x;
                            assert(out@[idx] == x);
                        } else {
                            assert(unchecked(x) == m);
                            assert(x == cm);
                            assert(out@[before.len() as int] == cm);
                        }
                    }
                }
                if gives {
                    assert forall|a: int, c: int| 0 <= a < out@.len() && 0 <= c < out@.len() && a != c implies out@[a] != out@[c] by {
                        if a < before.len() && c < before.len() {
                            assert(before[a] == out@[a] && before[c] == out@[c]);
                        } else if a < before.len() {
                            assert(before.contains(out@[a]));
                        } else if c < before.len() {
                            assert(before.contains(out@[c]));
                        }
                    }
                }
            }
            i = i + 1;
        }
        assert(source@.subrange(0, source@.len() as int) == source@);
        out
    }
}

/// One step of filtering: `after` extends `before` with `m` exactly when `keep`.
proof fn lemma_filter_step(
    before: Seq<Move>,
    after: Seq<Move>,
    pre: Seq<Move>,
    m: Move,
    keep: bool,
    pred: spec_fn(Move) -> bool,
)
    requires
        before.no_duplicates(),
        forall|x: Move| #[trigger] before.contains(x) <==> (pre.contains(x) && pred(x)),
        !pre.contains(m),
        keep == pred(m),
        keep ==> after == before.push(m),
        !keep ==> after == before,
    ensures
        after.no_duplicates(),
        forall|x: Move| #[trigger] after.contains(x) <==> (pre.push(m).contains(x) && pred(x)),
{
    assert forall|x: Move| after.contains(x) <==> (pre.push(m).contains(x) && pred(x)) by {
        if after.contains(x) {
            let idx = choose|idx: int| 0 <= idx < after.len() && after[idx] == x;
            if idx < before.len() {
                assert(before[idx] == x);
                assert(before.contains(x));
                let j = choose|j: int| 0 <= j < pre.len() && pre[j] == x;
                assert(pre.push(m)[j] == x);
            } else {
                assert(x == m);
                assert(pre.push(m)[pre.len() as int] == m);
            }
        }
        if pre.push(m).contains(x) && pred(x) {
            let j = choose|j: int| 0 <= j < pre.push(m).len() && pre.push(m)[j] == x;
            if j < pre.len() {
                assert(pre[j] == x);
                assert(pre.contains(x));
                assert(before.contains(x));
                let idx = choose|idx: int| 0 <= idx < before.len() && before[idx] == x;
                assert(after[idx] == x);
            } else {
                assert(x == m);
                assert(after[before.len() as int] == m);
            }
        }
    }
    if keep {
        assert forall|a: int, c: int| 0 <= a < after.len() && 0 <= c < after.len() && a != c implies after[a] != after[c] by {
            if a < before.len() && c < before.len() {
                assert(before[a] == after[a] && before[c] == after[c]);
            } else if a < before.len() {
                assert(before.contains(after[a]));
            } else if c < before.len() {
                assert(before.contains(after[c]));
            }
        }
    }
}

fn mix_exec(h: u64, x: u64) -> (r: u64)
    ensures
        r == mix(h, x),
{
    h.wrapping_mul(31).wrapping_add(x)
}

/// The ordering hash of a move.
pub fn move_hash(move_: &Move) -> (r: u64)
    ensures
        r == move_hash_spec(*move_),
{
    let mut h = mix_exec(0, move_.to.row as u64);
    h = mix_exec(h, move_.to.col as u64);
    match move_.from {
        Some(f) => {
            h = mix_exec(h, f.row as u64);
            h = mix_exec(h, f.col as u64);
        },
        None => {},
    }
    h = mix_exec(h, move_.piece_type.to_u8() as u64);
    mix_exec(h, move_.player.to_u8() as u64)
}

impl MoveGenerator {
    #[verifier::type_invariant]
    spec fn cache_sound(self) -> bool {
        forall|i: int| 0 <= i < self.move_cache@.len() ==> entry_sound(#[trigger] self.move_cache@[i])
    }

    /// Whether the cache holds an entry for the position.
    pub closed spec fn is_cached(&self, b: Seq<Option<Piece>>, player: Player, black: Seq<PieceType>, white: Seq<PieceType>) -> bool {
        exists|i: int| 0 <= i < self.move_cache@.len() && entry_matches(#[trigger] self.move_cache@[i], b, player, black, white)
    }

    pub closed spec fn cache_hits_spec(&self) -> u64 {
        self.cache_hits
    }

    pub closed spec fn cache_misses_spec(&self) -> u64 {
        self.cache_misses
    }

    /// A generator with magic bitboards and batch processing enabled and zeroed counters.
    pub fn new() -> (r: Self)
        ensures
            r.magic_bitboard_enabled_spec() && r.batch_processing_enabled_spec(),
            r.cache_len() == 0,
            r.fresh(),
    {
        MoveGenerator {
            move_cache: Vec::new(),
            cache_hits: 0,
            cache_misses: 0,
            magic_bitboard_enabled: true,
            batch_processing_enabled: true,
            magic_move_count: 0,
            raycast_move_count: 0,
            magic_generation_time: 0,
            raycast_generation_time: 0,
        }
    }

    /// A generator with the given settings and zeroed counters.
    pub fn with_settings(magic_enabled: bool, batch_processing: bool) -> (r: Self)
        ensures
            r.magic_bitboard_enabled_spec() == magic_enabled,
            r.batch_processing_enabled_spec() == batch_processing,
            r.cache_len() == 0,
            r.fresh(),
    {
        MoveGenerator {
            move_cache: Vec::new(),
            cache_hits: 0,
            cache_misses: 0,
            magic_bitboard_enabled: magic_enabled,
            batch_processing_enabled: batch_processing,
            magic_move_count: 0,
            raycast_move_count: 0,
            magic_generation_time: 0,
            raycast_generation_time: 0,
        }
    }

    /// An empty cache, no cache hits or misses, and zero move counters and times.
    pub open spec fn fresh(&self) -> bool {
        &&& self.cache_len() == 0
        &&& self.cache_hits_spec() == 0
        &&& self.cache_misses_spec() == 0
        &&& self.metrics_spec().magic_move_count == 0
        &&& self.metrics_spec().raycast_move_count == 0
        &&& self.metrics_spec().magic_generation_time == 0
        &&& self.metrics_spec().raycast_generation_time == 0
    }

    pub closed spec fn magic_bitboard_enabled_spec(&self) -> bool {
        self.magic_bitboard_enabled
    }

    pub closed spec fn batch_processing_enabled_spec(&self) -> bool {
        self.batch_processing_enabled
    }

    pub closed spec fn cache_len(&self) -> nat {
        self.move_cache@.len()
    }

    pub closed spec fn metrics_spec(&self) -> MoveGenerationMetrics {
        MoveGenerationMetrics {
            magic_move_count: self.magic_move_count,
            raycast_move_count: self.raycast_move_count,
            magic_generation_time: self.magic_generation_time,
            raycast_generation_time: self.raycast_generation_time,
            magic_bitboard_enabled: self.magic_bitboard_enabled,
            batch_processing_enabled: self.batch_processing_enabled,
        }
    }

    pub fn set_magic_bitboard_enabled(&mut self, enabled: bool)
        ensures
            final(self).magic_bitboard_enabled_spec() == enabled,
            final(self).batch_processing_enabled_spec() == old(self).batch_processing_enabled_spec(),
    {
        proof {
            use_type_invariant(&*self);
        }
        self.magic_bitboard_enabled = enabled;
    }

    pub fn is_magic_bitboard_enabled(&self) -> (r: bool)
        ensures
            r == self.magic_bitboard_enabled_spec(),
    {
        self.magic_bitboard_enabled
    }

    pub fn set_batch_processing_enabled(&mut self, enabled: bool)
        ensures
            final(self).batch_processing_enabled_spec() == enabled,
            final(self).magic_bitboard_enabled_spec() == old(self).magic_bitboard_enabled_spec(),
    {
        proof {
            use_type_invariant(&*self);
        }
        self.batch_processing_enabled = enabled;
    }

    pub fn is_batch_processing_enabled(&self) -> (r: bool)
        ensures
            r == self.batch_processing_enabled_spec(),
    {
        self.batch_processing_enabled
    }

    /// The counters and settings.
    pub fn get_performance_metrics(&self) -> (r: MoveGenerationMetrics)
        ensures
            r == self.metrics_spec(),
    {
        MoveGenerationMetrics {
            magic_move_count: self.magic_move_count,
            raycast_move_count: self.raycast_move_count,
            magic_generation_time: self.magic_generation_time,
            raycast_generation_time: self.raycast_generation_time,
            magic_bitboard_enabled: self.magic_bitboard_enabled,
            batch_processing_enabled: self.batch_processing_enabled,
        }
    }

    /// Zero the move counters and generation times.
    pub fn reset_metrics(&mut self)
        ensures
            final(self).metrics_spec() == (MoveGenerationMetrics {
                magic_move_count: 0,
                raycast_move_count: 0,
                magic_generation_time: 0,
                raycast_generation_time: 0,
                ..old(self).metrics_spec()
            }),
            final(self).cache_len() == old(self).cache_len(),
    {
        proof {
            use_type_invariant(&*self);
        }
        self.magic_move_count = 0;
        self.raycast_move_count = 0;
        self.magic_generation_time = 0;
        self.raycast_generation_time = 0;
    }

    /// The tactical value of a move for ordering: the captured piece, 1000 for a check, the
    /// promotion gain and 500 for a recapture.
    fn assess_tactical_threat_value(&self, move_: &Move) -> (r: i32)
        ensures
            r == threat_score(*move_),
    {
        let mut v: i32 = 0;
        if move_.is_capture {
            v = v + move_.captured_piece_value();
        }
        if move_.gives_check {
            v = v + 1000;
        }
        if move_.is_promotion {
            v = v + move_.promotion_value();
        }
        if move_.is_recapture {
            v = v + 500;
        }
        v
    }

    /// Quiescence ordering of two moves (see `quiescence_order`).
    pub fn compare_quiescence_moves_simple(&self, a: &Move, b: &Move) -> (r: Ordering)
        ensures
            (r == Ordering::Less) == (quiescence_order(*a, *b) < 0),
            (r == Ordering::Greater) == (quiescence_order(*a, *b) > 0),
            (r == Ordering::Equal) == (quiescence_order(*a, *b) == 0),
    {
        if a.gives_check && !b.gives_check {
            return Ordering::Less;
        }
        if !a.gives_check && b.gives_check {
            return Ordering::Greater;
        }
        if a.is_capture && !b.is_capture {
            return Ordering::Less;
        }
        if !a.is_capture && b.is_capture {
            return Ordering::Greater;
        }
        if a.is_capture && b.is_capture {
            let a_value = a.captured_piece_value() - a.piece_value();
            let b_value = b.captured_piece_value() - b.piece_value();
            if b_value < a_value {
                return Ordering::Less;
            }
            if b_value > a_value {
                return Ordering::Greater;
            }
        }
        if a.is_promotion && !b.is_promotion {
            return Ordering::Less;
        }
        if !a.is_promotion && b.is_promotion {
            return Ordering::Greater;
        }
        let a_threat = self.assess_tactical_threat_value(a);
        let b_threat = self.assess_tactical_threat_value(b);
        if b_threat < a_threat {
            return Ordering::Less;
        }
        if b_threat > a_threat {
            return Ordering::Greater;
        }
        let a_piece = a.piece_value();
        let b_piece = b.piece_value();
        if b_piece < a_piece {
            return Ordering::Less;
        }
        if b_piece > a_piece {
            return Ordering::Greater;
        }
        let a_hash = move_hash(a);
        let b_hash = move_hash(b);
        if a_hash < b_hash {
            Ordering::Less
        } else if a_hash > b_hash {
            Ordering::Greater
        } else {
            Ordering::Equal
        }
    }
}

impl MoveGenerator {
    /// Whether `a` comes strictly before `b` in the quiescence ordering.
    fn quiescence_precedes(&self, a: &Move, b: &Move) -> (r: bool)
        ensures
            r == (quiescence_order(*a, *b) < 0),
    {
        match self.compare_quiescence_moves_simple(a, b) {
            Ordering::Less => true,
            Ordering::Equal => false,
            Ordering::Greater => false,
        }
    }
}

/// The quiescence ordering is antisymmetric: swapping the moves reverses the order.
pub proof fn law_quiescence_order_antisymmetric(a: Move, b: Move)
    ensures
        quiescence_order(a, b) == -quiescence_order(b, a),
{
}

proof fn lemma_insert_by_order_len(s: Seq<Move>, m: Move)
    ensures
        insert_by_order(s, m).len() == s.len() + 1,
    decreases s.len(),
{
    if s.len() > 0 && quiescence_order(m, s.last()) < 0 {
        lemma_insert_by_order_len(s.drop_last(), m);
    }
}

proof fn lemma_sort_by_order_len(s: Seq<Move>)
    ensures
        sort_by_order(s).len() == s.len(),
    decreases s.len(),
{
    if s.len() > 0 {
        lemma_sort_by_order_len(s.drop_last());
        lemma_insert_by_order_len(sort_by_order(s.drop_last()), s.last());
    }
}

#[verifier::spinoff_prover]
#[verifier::rlimit(30)]
proof fn lemma_insert_by_order_at(s: Seq<Move>, m: Move, k: int)
    requires
        0 <= k <= s.len(),
        k > 0 ==> quiescence_order(m, s[k - 1]) >= 0,
        forall|j: int| k <= j < s.len() ==> quiescence_order(m, #[trigger] s[j]) < 0,
    ensures
        insert_by_order(s, m) == s.insert(k, m),
    decreases s.len(),
{
    if s.len() == 0 {
        assert(s.insert(k, m) =~= seq![m]);
    } else if k == s.len() {
        assert(s.insert(k, m) =~= s.push(m));
    } else {
        assert(quiescence_order(m, s.last()) < 0);
        lemma_insert_by_order_at(s.drop_last(), m, k);
        assert(s.drop_last().insert(k, m).push(s.last()) =~= s.insert(k, m));
    }
}

impl MoveGenerator {
    /// Sort the moves stably by the quiescence ordering, then drop each move equal (same
    /// source, destination, piece and player) to the move kept before it.
    /// Whether two moves have the same source, destination, piece and player.
    fn moves_equal(&self, a: &Move, b: &Move) -> (r: bool)
        ensures
            r == same_move(*a, *b),
    {
        a.from == b.from && a.to == b.to && a.piece_type == b.piece_type && a.player == b.player
    }

    pub fn deduplicate_and_sort_quiescence_moves(&self, moves: &mut Vec<Move>)
        ensures
            final(moves)@ == dedup_moves(sort_by_order(old(moves)@)),
    {
        let n = moves.len();
        let mut sorted: Vec<Move> = Vec::new();
        let mut i: usize = 0;
        while i < n
            invariant
                n == moves@.len(),
                moves@ == old(moves)@,
                i <= n,
                sorted@ == sort_by_order(moves@.take(i as int)),
            decreases n - i,
        {
            let m = moves[i];
            let mut k = sorted.len();
            let mut found = false;
            while k > 0 && !found
                invariant
                    k <= sorted@.len(),
                    forall|j: int| k <= j < sorted@.len() ==> quiescence_order(m, #[trigger] sorted@[j]) < 0,
                    found ==> k > 0 && quiescence_order(m, sorted@[k - 1]) >= 0,
                decreases k + (if found {
                    0int
                } else {
                    1int
                }),
            {
                if self.quiescence_precedes(&m, &sorted[k - 1]) {
                    k = k - 1;
                } else {
                    found = true;
                }
            }
            proof {
                assert(moves@.take(i + 1).drop_last() =~= moves@.take(i as int));
                assert(moves@.take(i + 1).last() == m);
                lemma_insert_by_order_at(sorted@, m, k as int);
            }
            sorted.insert(k, m);
            i = i + 1;
        }
        assert(moves@.take(n as int) =~= moves@);
        proof {
            lemma_sort_by_order_len(moves@);
        }
        let mut out: Vec<Move> = Vec::new();
        let mut j: usize = 0;
        while j < n
            invariant
                n == sorted@.len(),
                j <= n,
                out@ == dedup_moves(sorted@.take(j as int)),
            decreases n - j,
        {
            let m = sorted[j];
            proof {
                assert(sorted@.take(j + 1).drop_last() =~= sorted@.take(j as int));
                assert(sorted@.take(j + 1).last() == m);
            }
            let keep = if out.len() == 0 {
                true
            } else {
                let last = out[out.len() - 1];
                !self.moves_equal(&last, &m)
            };
            if keep {
                out.push(m);
            }
            j = j + 1;
        }
        assert(sorted@.take(n as int) =~= sorted@);
        *moves = out;
    }
}

impl MoveGenerator {
    /// The quiescence moves of `player`: legal captures, checks, promotions and, when these
    /// are fewer than 16, tactical threats; sorted by the quiescence ordering with repeated
    /// moves dropped.
    pub fn generate_quiescence_moves(&self, board: &BitboardBoard, player: Player, captured_pieces: &CapturedPieces) -> (r: Vec<Move>)
        requires
            board.wf(),
        ensures
            quiescence_result(board@, captured_pieces.hand(player), player, r@),
    {
        let ghost b = board@;
        let ghost h = captured_pieces.hand(player);
        let mut moves = self.generate_legal_captures(board, player, captured_pieces);
        let ghost c = moves@;
        let mut checks = self.generate_checks(board, player, captured_pieces);
        let ghost k = checks@;
        let mut promotions = self.generate_promotions(board, player, captured_pieces);
        let ghost p = promotions@;
        moves.append(&mut checks);
        moves.append(&mut promotions);
        let ghost t: Seq<Move> = Seq::empty();
        if moves.len() < 16 {
            let mut threats = self.generate_tactical_threats(board, player, captured_pieces);
            proof {
                t = threats@;
            }
            moves.append(&mut threats);
        }
        proof {
            assert(moves@ == c + k + p + t);
            assert(quiescence_parts(b, h, player, c, k, p, t));
        }
        let ghost s = moves@;
        self.deduplicate_and_sort_quiescence_moves(&mut moves);
        proof {
            assert(moves@ == dedup_moves(sort_by_order(c + k + p + t)));
            reveal(quiescence_result);
        }
        moves
    }
}

fn same_squares(a: &Vec<Option<Piece>>, b: &Vec<Option<Piece>>) -> (r: bool)
    ensures
        r == (a@ == b@),
{
    if a.len() != b.len() {
        return false;
    }
    let mut i: usize = 0;
    while i < a.len()
        invariant
            a@.len() == b@.len(),
            i <= a@.len(),
            forall|j: int| 0 <= j < i ==> a@[j] == b@[j],
        decreases a@.len() - i,
    {
        let x = a[i];
        let y = b[i];
        let same = match (x, y) {
            (None, None) => true,
            (Some(p), Some(q)) => p.piece_type == q.piece_type && p.player == q.player,
            _ => false,
        };
        if !same {
            return false;
        }
        i = i + 1;
    }
    assert(a@ =~= b@);
    true
}

fn same_hand(a: &Vec<PieceType>, b: &Vec<PieceType>) -> (r: bool)
    ensures
        r == (a@ == b@),
{
    if a.len() != b.len() {
        return false;
    }
    let mut i: usize = 0;
    while i < a.len()
        invariant
            a@.len() == b@.len(),
            i <= a@.len(),
            forall|j: int| 0 <= j < i ==> a@[j] == b@[j],
        decreases a@.len() - i,
    {
        if a[i] != b[i] {
            return false;
        }
        i = i + 1;
    }
    assert(a@ =~= b@);
    true
}

fn copy_moves(v: &Vec<Move>) -> (r: Vec<Move>)
    ensures
        r@ == v@,
{
    let mut out: Vec<Move> = Vec::new();
    let mut i: usize = 0;
    while i < v.len()
        invariant
            i <= v@.len(),
            out@ == v@.subrange(0, i as int),
        decreases v@.len() - i,
    {
        out.push(v[i]);
        assert(v@.subrange(0, i + 1) == v@.subrange(0, i as int).push(v@[i as int]));
        i = i + 1;
    }
    assert(v@.subrange(0, v@.len() as int) == v@);
    out
}

fn copy_hand(v: &Vec<PieceType>) -> (r: Vec<PieceType>)
    ensures
        r@ == v@,
{
    let mut out: Vec<PieceType> = Vec::new();
    let mut i: usize = 0;
    while i < v.len()
        invariant
            i <= v@.len(),
            out@ == v@.subrange(0, i as int),
        decreases v@.len() - i,
    {
        out.push(v[i]);
        assert(v@.subrange(0, i + 1) == v@.subrange(0, i as int).push(v@[i as int]));
        i = i + 1;
    }
    assert(v@.subrange(0, v@.len() as int) == v@);
    out
}

impl MoveGenerator {
    /// Quiescence moves, remembered per position (board, side to move and both hands) in a
    /// cache of at most 1000 positions; counts hits and misses.
    pub fn generate_quiescence_moves_cached(&mut self, board: &BitboardBoard, player: Player, captured_pieces: &CapturedPieces) -> (r: Vec<Move>)
        requires
            board.wf(),
            old(self).cache_hits_spec() < u64::MAX,
            old(self).cache_misses_spec() < u64::MAX,
        ensures
            quiescence_result(board@, captured_pieces.hand(player), player, r@),
            old(self).is_cached(board@, player, captured_pieces.black@, captured_pieces.white@) ==> final(self).cache_hits_spec()
                == old(self).cache_hits_spec() + 1 && final(self).cache_misses_spec() == old(self).cache_misses_spec(),
            !old(self).is_cached(board@, player, captured_pieces.black@, captured_pieces.white@) ==> final(self).cache_misses_spec()
                == old(self).cache_misses_spec() + 1 && final(self).cache_hits_spec() == old(self).cache_hits_spec(),
            final(self).magic_bitboard_enabled_spec() == old(self).magic_bitboard_enabled_spec(),
            final(self).batch_processing_enabled_spec() == old(self).batch_processing_enabled_spec(),
    {
        proof {
            use_type_invariant(&*self);
        }
        let squares = board.squares_vec();
        let n = self.move_cache.len();
        let mut i: usize = 0;
        while i < n
            invariant
                n == self.move_cache@.len(),
                i <= n,
                squares@ == board@,
                self.move_cache@ == old(self).move_cache@,
                self.cache_hits == old(self).cache_hits,
                self.cache_misses == old(self).cache_misses,
                self.magic_bitboard_enabled == old(self).magic_bitboard_enabled,
                self.batch_processing_enabled == old(self).batch_processing_enabled,
                old(self).cache_hits < u64::MAX,
                old(self).cache_misses < u64::MAX,
                forall|j: int| 0 <= j < self.move_cache@.len() ==> entry_sound(#[trigger] self.move_cache@[j]),
                forall|j: int| 0 <= j < i ==> !entry_matches(#[trigger] self.move_cache@[j], board@, player, captured_pieces.black@, captured_pieces.white@),
            decreases n - i,
        {
            let e = &self.move_cache[i];
            if e.player == player && same_squares(&e.board, &squares) && same_hand(&e.black_hand, &captured_pieces.black)
                && same_hand(&e.white_hand, &captured_pieces.white) {
                let moves = copy_moves(&e.moves);
                proof {
                    assert(entry_matches(self.move_cache@[i as int], board@, player, captured_pieces.black@, captured_pieces.white@));
                    assert(entry_sound(self.move_cache@[i as int]));
                    assert(entry_hand(self.move_cache@[i as int]) == captured_pieces.hand(player));
                }
                self.cache_hits = self.cache_hits + 1;
                return moves;
            }
            i = i + 1;
        }
        self.cache_misses = self.cache_misses + 1;
        let moves = self.generate_quiescence_moves(board, player, captured_pieces);
        if self.move_cache.len() < 1000 {
            let entry = CachedMoves {
                board: squares,
                player,
                black_hand: copy_hand(&captured_pieces.black),
                white_hand: copy_hand(&captured_pieces.white),
                moves: copy_moves(&moves),
            };
            proof {
                assert(entry_hand(entry) == captured_pieces.hand(player));
                assert(entry_sound(entry));
            }
            let mut cache: Vec<CachedMoves> = Vec::new();
            std::mem::swap(&mut cache, &mut self.move_cache);
            cache.push(entry);
            self.move_cache = cache;
        }
        moves
    }

    /// Empty the cache and zero its counters.
    pub fn clear_cache(&mut self)
        ensures
            final(self).cache_len() == 0,
            final(self).cache_hits_spec() == 0,
            final(self).cache_misses_spec() == 0,
            final(self).magic_bitboard_enabled_spec() == old(self).magic_bitboard_enabled_spec(),
            final(self).batch_processing_enabled_spec() == old(self).batch_processing_enabled_spec(),
    {
        proof {
            use_type_invariant(&*self);
        }
        self.move_cache = Vec::new();
        self.cache_hits = 0;
        self.cache_misses = 0;
    }
}

} // verus!
