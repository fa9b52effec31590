//! Opening book data: book moves with weights and evaluations, positions with their
//! moves, a builder for moves, and the binary book format.

use rand::Rng;
use vstd::prelude::*;
use crate::types::{Move, PieceType, Player, Position};
use crate::text::string_of;

pub mod binary_format;
pub mod coordinate_utils;
pub mod book;
pub mod round_trip;
pub use book::{OpeningBook, OpeningBookBuilder};

verus! {

/// A book move with its metadata.
#[derive(Clone, Debug, PartialEq, Eq, Hash)]
pub struct BookMove {
    /// Source square (None for drops).
    pub from: Option<Position>,
    pub to: Position,
    pub piece_type: PieceType,
    pub is_drop: bool,
    pub is_promotion: bool,
    /// Frequency weight (higher is more common).
    pub weight: u32,
    /// Evaluation in centipawns after the move.
    pub evaluation: i32,
    pub opening_name: Option<String>,
    /// USI notation of the move.
    pub move_notation: Option<String>,
}

/// The mathematical value of a book move (strings as character sequences).
pub struct BookMoveView {
    pub from: Option<Position>,
    pub to: Position,
    pub piece_type: PieceType,
    pub is_drop: bool,
    pub is_promotion: bool,
    pub weight: u32,
    pub evaluation: i32,
    pub opening_name: Option<Seq<char>>,
    pub move_notation: Option<Seq<char>>,
}

/// The characters of an optional string.
pub open spec fn opt_text(s: Option<String>) -> Option<Seq<char>> {
    match s {
        Some(t) => Some(t@),
        None => None,
    }
}

impl View for BookMove {
    type V = BookMoveView;

    open spec fn view(&self) -> BookMoveView {
        BookMoveView {
            from: self.from,
            to: self.to,
            piece_type: self.piece_type,
            is_drop: self.is_drop,
            is_promotion: self.is_promotion,
            weight: self.weight,
            evaluation: self.evaluation,
            opening_name: opt_text(self.opening_name),
            move_notation: opt_text(self.move_notation),
        }
    }
}

/// Errors of opening-book operations.
#[derive(Clone, Debug, PartialEq, Eq)]
pub enum OpeningBookError {
    InvalidFen(String),
    InvalidMove(String),
    BinaryFormatError(String),
    JsonParseError(String),
    IoError(String),
    HashCollision(String),
}

/// Header of a streaming chunk.
#[derive(Clone, Copy, Debug, PartialEq, Eq, Structural)]
pub struct ChunkHeader {
    pub position_count: usize,
    pub chunk_offset: u64,
    pub chunk_size: usize,
}

/// A position whose moves stay encoded until needed.
#[derive(Clone, Debug)]
pub struct LazyPositionEntry {
    pub fen: String,
    pub moves_data: Vec<u8>,
    pub move_count: u32,
    pub loaded: bool,
}

/// What a memory optimisation pass did.
#[derive(Clone, Debug)]
pub struct MemoryOptimizationResult {
    pub optimizations_applied: usize,
    pub optimizations: Vec<String>,
    pub memory_saved: usize,
}

/// Facts about an opening book.
#[derive(Clone, Debug)]
pub struct OpeningBookMetadata {
    pub version: u32,
    pub position_count: usize,
    pub move_count: usize,
    pub created_at: Option<String>,
    pub updated_at: Option<String>,
    pub streaming_enabled: bool,
    pub chunk_size: usize,
}

/// A book move chosen for a position, used to seed a transposition table.
#[derive(Clone, Debug)]
pub struct OpeningBookPrefillEntry {
    pub fen: String,
    pub book_move: BookMove,
    pub player: Player,
}

impl BookMove {
    /// A book move without opening name or notation.
    pub fn new(
        from: Option<Position>,
        to: Position,
        piece_type: PieceType,
        is_drop: bool,
        is_promotion: bool,
        weight: u32,
        evaluation: i32,
    ) -> (r: Self)
        ensures
            r@ == (BookMoveView {
                from,
                to,
                piece_type,
                is_drop,
                is_promotion,
                weight,
                evaluation,
                opening_name: None,
                move_notation: None,
            }),
    {
        BookMove {
            from,
            to,
            piece_type,
            is_drop,
            is_promotion,
            weight,
            evaluation,
            opening_name: None,
            move_notation: None,
        }
    }

    /// A book move with opening name and notation.
    pub fn new_with_metadata(
        from: Option<Position>,
        to: Position,
        piece_type: PieceType,
        is_drop: bool,
        is_promotion: bool,
        weight: u32,
        evaluation: i32,
        opening_name: Option<String>,
        move_notation: Option<String>,
    ) -> (r: Self)
        ensures
            r@ == (BookMoveView {
                from,
                to,
                piece_type,
                is_drop,
                is_promotion,
                weight,
                evaluation,
                opening_name: opt_text(opening_name),
                move_notation: opt_text(move_notation),
            }),
    {
        BookMove {
            from,
            to,
            piece_type,
            is_drop,
            is_promotion,
            weight,
            evaluation,
            opening_name,
            move_notation,
        }
    }

    /// The engine move of this book move for `player` (capture, check and recapture
    /// flags are left for the engine to determine).
    pub fn to_engine_move(&self, player: Player) -> (r: Move)
        ensures
            r == (Move {
                from: self.from,
                to: self.to,
                piece_type: self.piece_type,
                player,
                is_promotion: self.is_promotion,
                is_capture: false,
                captured_piece: None,
                gives_check: false,
                is_recapture: false,
            }),
    {
        Move {
            from: self.from,
            to: self.to,
            piece_type: self.piece_type,
            player,
            is_promotion: self.is_promotion,
            is_capture: false,
            captured_piece: None,
            gives_check: false,
            is_recapture: false,
        }
    }
}

/// Whether book move `a` ranks at least as high as `b`: by weight, then evaluation.
pub open spec fn ranks_at_least(a: BookMove, b: BookMove) -> bool {
    a.weight > b.weight || (a.weight == b.weight && a.evaluation >= b.evaluation)
}

/// Index `i` is the last position of a best-ranked move in `s`.
pub open spec fn is_last_best(s: Seq<BookMove>, i: int) -> bool {
    &&& 0 <= i < s.len()
    &&& forall|j: int| 0 <= j < s.len() ==> ranks_at_least(s[i], #[trigger] s[j])
    &&& forall|j: int| i < j < s.len() ==> !ranks_at_least(#[trigger] s[j], s[i])
}

/// Index `i` is the last position of a move of greatest evaluation in `s`.
pub open spec fn is_last_best_eval(s: Seq<BookMove>, i: int) -> bool {
    &&& 0 <= i < s.len()
    &&& forall|j: int| 0 <= j < s.len() ==> s[i].evaluation >= #[trigger] s[j].evaluation
    &&& forall|j: int| i < j < s.len() ==> #[trigger] s[j].evaluation < s[i].evaluation
}

/// A position (in FEN) with its book moves.
#[derive(Clone, Debug, PartialEq, Eq)]
pub struct PositionEntry {
    pub fen: String,
    pub moves: Vec<BookMove>,
}

impl PositionEntry {
    pub fn new(fen: String, moves: Vec<BookMove>) -> (r: Self)
        ensures
            r.fen == fen,
            r.moves@ == moves@,
    {
        PositionEntry { fen, moves }
    }

    /// Append a move.
    pub fn add_move(&mut self, book_move: BookMove)
        ensures
            final(self).moves@ == old(self).moves@.push(book_move),
            final(self).fen == old(self).fen,
    {
        self.moves.push(book_move);
    }

    /// The best move by weight, then evaluation; among equals the last one.
    pub fn get_best_move(&self) -> (r: Option<&BookMove>)
        ensures
            r is None <==> self.moves@.len() == 0,
            r matches Some(m) ==> exists|i: int| is_last_best(self.moves@, i) && *m == self.moves@[i],
    {
        if self.moves.len() == 0 {
            return None;
        }
        let mut best: usize = 0;
        let mut i: usize = 1;
        while i < self.moves.len()
            invariant
                1 <= i <= self.moves@.len(),
                best < i,
                forall|j: int| 0 <= j < i ==> ranks_at_least(self.moves@[best as int], #[trigger] self.moves@[j]),
                forall|j: int| best < j < i ==> !ranks_at_least(#[trigger] self.moves@[j], self.moves@[best as int]),
            decreases self.moves@.len() - i,
        {
            let a = &self.moves[i];
            let b = &self.moves[best];
            if a.weight > b.weight || (a.weight == b.weight && a.evaluation >= b.evaluation) {
                best = i;
            }
            i = i + 1;
        }
        assert(is_last_best(self.moves@, best as int));
        Some(&self.moves[best])
    }

    /// The move of greatest evaluation; among equals the last one.
    pub fn get_best_move_by_evaluation(&self) -> (r: Option<&BookMove>)
        ensures
            r is None <==> self.moves@.len() == 0,
            r matches Some(m) ==> exists|i: int| is_last_best_eval(self.moves@, i) && *m == self.moves@[i],
    {
        if self.moves.len() == 0 {
            return None;
        }
        let mut best: usize = 0;
        let mut i: usize = 1;
        while i < self.moves.len()
            invariant
                1 <= i <= self.moves@.len(),
                best < i,
                forall|j: int| 0 <= j < i ==> self.moves@[best as int].evaluation >= #[trigger] self.moves@[j].evaluation,
                forall|j: int| best < j < i ==> #[trigger] self.moves@[j].evaluation < self.moves@[best as int].evaluation,
            decreases self.moves@.len() - i,
        {
            if self.moves[i].evaluation >= self.moves[best].evaluation {
                best = i;
            }
            i = i + 1;
        }
        assert(is_last_best_eval(self.moves@, best as int));
        Some(&self.moves[best])
    }
}

/// The key by which moves are ranked: the evaluation or the weight.
pub open spec fn move_key(m: BookMove, by_evaluation: bool) -> int {
    if by_evaluation {
        m.evaluation as int
    } else {
        m.weight as int
    }
}

/// `m` placed into `s` after every move whose key is at least its own.
pub open spec fn insert_ranked(s: Seq<BookMove>, m: BookMove, by_evaluation: bool) -> Seq<BookMove>
    decreases s.len(),
{
    if s.len() == 0 {
        seq![m]
    } else if move_key(s.last(), by_evaluation) >= move_key(m, by_evaluation) {
        s.push(m)
    } else {
        insert_ranked(s.drop_last(), m, by_evaluation).push(s.last())
    }
}

/// The moves ordered by decreasing key, moves of equal key in their original order
/// (a stable sort).
pub open spec fn ranked(s: Seq<BookMove>, by_evaluation: bool) -> Seq<BookMove>
    decreases s.len(),
{
    if s.len() == 0 {
        Seq::empty()
    } else {
        insert_ranked(ranked(s.drop_last(), by_evaluation), s.last(), by_evaluation)
    }
}

/// The moves behind a vector of references.
pub open spec fn derefs(v: Seq<&BookMove>) -> Seq<BookMove> {
    v.map_values(|m: &BookMove| *m)
}

/// Keys never increase along `s`.
pub open spec fn keys_descending(s: Seq<BookMove>, by_evaluation: bool) -> bool {
    forall|i: int, j: int|
        0 <= i < j < s.len() ==> move_key(#[trigger] s[i], by_evaluation) >= move_key(
            #[trigger] s[j],
            by_evaluation,
        )
}

proof fn lemma_insert_ranked_at(s: Seq<BookMove>, m: BookMove, by_evaluation: bool, k: int)
    requires
        0 <= k <= s.len(),
        k > 0 ==> move_key(s[k - 1], by_evaluation) >= move_key(m, by_evaluation),
        forall|j: int| k <= j < s.len() ==> move_key(#[trigger] s[j], by_evaluation) < move_key(
            m,
            by_evaluation,
        ),
    ensures
        insert_ranked(s, m, by_evaluation) == s.insert(k, m),
    decreases s.len(),
{
    if s.len() == 0 {
        assert(s.insert(k, m) =~= seq![m]);
    } else if k == s.len() {
        assert(s.insert(k, m) =~= s.push(m));
    } else {
        assert(move_key(s.last(), by_evaluation) < move_key(m, by_evaluation));
        lemma_insert_ranked_at(s.drop_last(), m, by_evaluation, k);
        assert(s.drop_last().insert(k, m).push(s.last()) =~= s.insert(k, m));
    }
}

/// Inserting into a descending sequence keeps it descending and adds exactly the move.
proof fn lemma_insert_ranked_props(s: Seq<BookMove>, m: BookMove, by_evaluation: bool)
    requires
        keys_descending(s, by_evaluation),
    ensures
        keys_descending(insert_ranked(s, m, by_evaluation), by_evaluation),
        insert_ranked(s, m, by_evaluation).to_multiset() == s.to_multiset().insert(m),
    decreases s.len(),
{
    broadcast use vstd::seq_lib::group_to_multiset_ensures;

    if s.len() == 0 {
        assert(seq![m] =~= Seq::<BookMove>::empty().push(m));
    } else if move_key(s.last(), by_evaluation) >= move_key(m, by_evaluation) {
    } else {
        let t = s.drop_last();
        assert(keys_descending(t, by_evaluation));
        lemma_insert_ranked_props(t, m, by_evaluation);
        let u = insert_ranked(t, m, by_evaluation);
        assert(s == t.push(s.last()));
        assert(u.to_multiset() == t.to_multiset().insert(m));
        assert(u.push(s.last()).to_multiset() == u.to_multiset().insert(s.last()));
        assert(s.to_multiset() == t.to_multiset().insert(s.last()));
        assert(u.to_multiset().insert(s.last()) =~= s.to_multiset().insert(m));
        assert forall|x: BookMove| u.to_multiset().count(x) > 0 implies move_key(x, by_evaluation)
            >= move_key(s.last(), by_evaluation) by {
            assert(t.to_multiset().insert(m).count(x) > 0);
            if x != m {
                assert(t.to_multiset().count(x) > 0);
                assert(t.contains(x));
                let j = choose|j: int| 0 <= j < t.len() && t[j] == x;
                assert(s[j] == x);
            }
        }
        assert forall|i: int, j: int|
            0 <= i < j < u.push(s.last()).len() implies move_key(
            #[trigger] u.push(s.last())[i],
            by_evaluation,
        ) >= move_key(#[trigger] u.push(s.last())[j], by_evaluation) by {
            if j == u.len() {
                assert(u.to_multiset().count(u[i]) > 0);
            }
        }
    }
}

/// The moves of `s` whose key is `k`, in their order in `s`.
pub open spec fn with_key(s: Seq<BookMove>, by_evaluation: bool, k: int) -> Seq<BookMove> {
    s.filter(|m: BookMove| move_key(m, by_evaluation) == k)
}

proof fn lemma_with_key_push(s: Seq<BookMove>, x: BookMove, by_evaluation: bool, k: int)
    ensures
        with_key(s.push(x), by_evaluation, k) == if move_key(x, by_evaluation) == k {
            with_key(s, by_evaluation, k).push(x)
        } else {
            with_key(s, by_evaluation, k)
        },
{
    reveal(Seq::filter);
    assert(s.push(x).drop_last() == s);
}

proof fn lemma_insert_ranked_with_key(s: Seq<BookMove>, m: BookMove, by_evaluation: bool, k: int)
    ensures
        with_key(insert_ranked(s, m, by_evaluation), by_evaluation, k) == if move_key(m, by_evaluation) == k {
            with_key(s, by_evaluation, k).push(m)
        } else {
            with_key(s, by_evaluation, k)
        },
    decreases s.len(),
{
    if s.len() == 0 {
        assert(seq![m] == s.push(m));
        lemma_with_key_push(s, m, by_evaluation, k);
    } else if move_key(s.last(), by_evaluation) >= move_key(m, by_evaluation) {
        lemma_with_key_push(s, m, by_evaluation, k);
    } else {
        let t = s.drop_last();
        lemma_insert_ranked_with_key(t, m, by_evaluation, k);
        lemma_with_key_push(insert_ranked(t, m, by_evaluation), s.last(), by_evaluation, k);
        lemma_with_key_push(t, s.last(), by_evaluation, k);
        assert(t.push(s.last()) == s);
    }
}

/// The ranking is stable: the moves that share a key come out in the order they were
/// stored in.
pub proof fn law_ranked_is_stable(s: Seq<BookMove>, by_evaluation: bool, k: int)
    ensures
        with_key(ranked(s, by_evaluation), by_evaluation, k) == with_key(s, by_evaluation, k),
    decreases s.len(),
{
    if s.len() == 0 {
        reveal(Seq::filter);
    } else {
        let t = s.drop_last();
        law_ranked_is_stable(t, by_evaluation, k);
        lemma_insert_ranked_with_key(ranked(t, by_evaluation), s.last(), by_evaluation, k);
        lemma_with_key_push(t, s.last(), by_evaluation, k);
        assert(t.push(s.last()) == s);
    }
}

/// The stable ranking is ordered by decreasing key and holds exactly the original moves.
pub proof fn law_ranked_is_sorted_permutation(s: Seq<BookMove>, by_evaluation: bool)
    ensures
        keys_descending(ranked(s, by_evaluation), by_evaluation),
        ranked(s, by_evaluation).to_multiset() == s.to_multiset(),
    decreases s.len(),
{
    broadcast use vstd::seq_lib::group_to_multiset_ensures;

    if s.len() == 0 {
    } else {
        law_ranked_is_sorted_permutation(s.drop_last(), by_evaluation);
        lemma_insert_ranked_props(ranked(s.drop_last(), by_evaluation), s.last(), by_evaluation);
        assert(s == s.drop_last().push(s.last()));
    }
}

/// The sum of the weights of `s`.
pub open spec fn total_weight(s: Seq<BookMove>) -> int
    decreases s.len(),
{
    if s.len() == 0 {
        0
    } else {
        total_weight(s.drop_last()) + s.last().weight
    }
}

proof fn lemma_total_weight_monotone(s: Seq<BookMove>, i: int, j: int)
    requires
        0 <= i <= j <= s.len(),
    ensures
        total_weight(s.take(i)) <= total_weight(s.take(j)),
    decreases j - i,
{
    if i < j {
        lemma_total_weight_monotone(s, i, j - 1);
        assert(s.take(j).drop_last() =~= s.take(j - 1));
    }
}

/// A uniformly drawn number below `bound`.
#[verifier::external_body]
fn random_below(bound: u32) -> (r: u32)
    requires
        bound > 0,
    ensures
        r < bound,
{
    rand::thread_rng().gen_range(0..bound)
}

impl PositionEntry {
    fn ranked_refs(&self, by_evaluation: bool) -> (r: Vec<&BookMove>)
        ensures
            derefs(r@) == ranked(self.moves@, by_evaluation),
    {
        let n = self.moves.len();
        let mut out: Vec<&BookMove> = Vec::new();
        let mut i: usize = 0;
        while i < n
            invariant
                n == self.moves@.len(),
                i <= n,
                derefs(out@) == ranked(self.moves@.take(i as int), by_evaluation),
            decreases n - i,
        {
            let m = &self.moves[i];
            let key_m: i64 = if by_evaluation {
                m.evaluation as i64
            } else {
                m.weight as i64
            };
            let mut k = out.len();
            let mut found = false;
            while k > 0 && !found
                invariant
                    k <= out@.len(),
                    forall|j: int|
                        k <= j < out@.len() ==> move_key(*#[trigger] out@[j], by_evaluation)
                            < key_m,
                    found ==> k > 0 && move_key(*out@[k - 1], by_evaluation) >= key_m,
                    key_m == move_key(*m, by_evaluation),
                decreases k + (if found {
                    0int
                } else {
                    1int
                }),
            {
                let prev = out[k - 1];
                let key_prev: i64 = if by_evaluation {
                    prev.evaluation as i64
                } else {
                    prev.weight as i64
                };
                if key_prev >= key_m {
                    found = true;
                } else {
                    k = k - 1;
                }
            }
            proof {
                let s = derefs(out@);
                assert(self.moves@.take(i + 1).drop_last() =~= self.moves@.take(i as int));
                assert(self.moves@.take(i + 1).last() == *m);
                lemma_insert_ranked_at(s, *m, by_evaluation, k as int);
                assert(derefs(out@.insert(k as int, m)) =~= s.insert(k as int, *m));
            }
            out.insert(k, m);
            i = i + 1;
        }
        assert(self.moves@.take(n as int) =~= self.moves@);
        out
    }

    /// The moves by decreasing weight, equal weights in their original order.
    pub fn get_moves_by_weight(&self) -> (r: Vec<&BookMove>)
        ensures
            derefs(r@) == ranked(self.moves@, false),
    {
        self.ranked_refs(false)
    }

    /// The moves by decreasing evaluation, equal evaluations in their original order.
    pub fn get_moves_by_evaluation(&self) -> (r: Vec<&BookMove>)
        ensures
            derefs(r@) == ranked(self.moves@, true),
    {
        self.ranked_refs(true)
    }

    /// The move selected by `value` among the moves laid end to end by weight: the move
    /// whose weight interval holds `value`, or the first move when `value` lies beyond them all.
    pub fn select_weighted_move(&self, value: u32) -> (r: Option<&BookMove>)
        ensures
            value < total_weight(self.moves@) ==> (r matches Some(m) && exists|i: int|
                0 <= i < self.moves@.len() && total_weight(self.moves@.take(i)) <= value
                    < total_weight(self.moves@.take(i + 1)) && *m == self.moves@[i]),
            value >= total_weight(self.moves@) ==> (if self.moves@.len() == 0 {
                r is None
            } else {
                r matches Some(m) && *m == self.moves@[0]
            }),
    {
        let n = self.moves.len();
        let mut v = value;
        let mut i: usize = 0;
        while i < n
            invariant
                n == self.moves@.len(),
                i <= n,
                v as int == value - total_weight(self.moves@.take(i as int)),
                total_weight(self.moves@.take(i as int)) <= value,
            decreases n - i,
        {
            assert(self.moves@.take(i + 1).drop_last() =~= self.moves@.take(i as int));
            if v < self.moves[i].weight {
                proof {
                    lemma_total_weight_monotone(self.moves@, i + 1, n as int);
                    assert(self.moves@.take(n as int) =~= self.moves@);
                }
                return Some(&self.moves[i]);
            }
            v = v - self.moves[i].weight;
            i = i + 1;
        }
        assert(self.moves@.take(n as int) =~= self.moves@);
        if n == 0 {
            None
        } else {
            Some(&self.moves[0])
        }
    }

    /// Whether the weights add up to at most `u32::MAX`, so that a weighted draw can be made.
    pub fn weights_fit(&self) -> (r: bool)
        ensures
            r == (total_weight(self.moves@) <= u32::MAX),
    {
        let n = self.moves.len();
        let mut total: u64 = 0;
        let mut i: usize = 0;
        while i < n
            invariant
                n == self.moves@.len(),
                i <= n,
                total == total_weight(self.moves@.take(i as int)),
                total <= u32::MAX,
            decreases n - i,
        {
            assert(self.moves@.take(i + 1).drop_last() =~= self.moves@.take(i as int));
            total = total + self.moves[i].weight as u64;
            if total > u32::MAX as u64 {
                proof {
                    lemma_total_weight_monotone(self.moves@, i + 1, n as int);
                    assert(self.moves@.take(n as int) =~= self.moves@);
                }
                return false;
            }
            i = i + 1;
        }
        assert(self.moves@.take(n as int) =~= self.moves@);
        true
    }

    /// A move drawn at random with probability proportional to its weight; `None` when
    /// all weights are zero.
    pub fn get_random_move(&self) -> (r: Option<&BookMove>)
        requires
            total_weight(self.moves@) <= u32::MAX,
        ensures
            total_weight(self.moves@) == 0 ==> r is None,
            total_weight(self.moves@) > 0 ==> (r matches Some(m) && exists|i: int|
                0 <= i < self.moves@.len() && *m == self.moves@[i] && m.weight > 0),
    {
        let n = self.moves.len();
        let mut total: u32 = 0;
        let mut i: usize = 0;
        while i < n
            invariant
                n == self.moves@.len(),
                i <= n,
                total == total_weight(self.moves@.take(i as int)),
                total_weight(self.moves@) <= u32::MAX,
            decreases n - i,
        {
            assert(self.moves@.take(i + 1).drop_last() =~= self.moves@.take(i as int));
            proof {
                lemma_total_weight_monotone(self.moves@, i + 1, n as int);
                assert(self.moves@.take(n as int) =~= self.moves@);
            }
            total = total + self.moves[i].weight;
            i = i + 1;
        }
        assert(self.moves@.take(n as int) =~= self.moves@);
        if total == 0 || n == 0 {
            return None;
        }
        let value = random_below(total);
        let r = self.select_weighted_move(value);
        proof {
            if let Some(m) = r {
                let i = choose|i: int|
                    0 <= i < self.moves@.len() && total_weight(self.moves@.take(i)) <= value
                        < total_weight(self.moves@.take(i + 1)) && *m == self.moves@[i];
                assert(self.moves@.take(i + 1).drop_last() =~= self.moves@.take(i));
            }
        }
        r
    }
}

/// Builder for book moves.
pub struct BookMoveBuilder {
    from: Option<Position>,
    to: Option<Position>,
    piece_type: Option<PieceType>,
    is_drop: bool,
    is_promotion: bool,
    weight: u32,
    evaluation: i32,
    opening_name: Option<String>,
    move_notation: Option<String>,
}

/// The state of a book-move builder.
pub struct BuilderView {
    pub from: Option<Position>,
    pub to: Option<Position>,
    pub piece_type: Option<PieceType>,
    pub is_drop: bool,
    pub is_promotion: bool,
    pub weight: u32,
    pub evaluation: i32,
    pub opening_name: Option<Seq<char>>,
    pub move_notation: Option<Seq<char>>,
}

impl View for BookMoveBuilder {
    type V = BuilderView;

    closed spec fn view(&self) -> BuilderView {
        BuilderView {
            from: self.from,
            to: self.to,
            piece_type: self.piece_type,
            is_drop: self.is_drop,
            is_promotion: self.is_promotion,
            weight: self.weight,
            evaluation: self.evaluation,
            opening_name: opt_text(self.opening_name),
            move_notation: opt_text(self.move_notation),
        }
    }
}

impl BookMoveBuilder {
    /// Nothing set, weight 100, evaluation 0.
    pub fn new() -> (r: Self)
        ensures
            r@ == (BuilderView {
                from: None,
                to: None,
                piece_type: None,
                is_drop: false,
                is_promotion: false,
                weight: 100,
                evaluation: 0,
                opening_name: None,
                move_notation: None,
            }),
    {
        BookMoveBuilder {
            from: None,
            to: None,
            piece_type: None,
            is_drop: false,
            is_promotion: false,
            weight: 100,
            evaluation: 0,
            opening_name: None,
            move_notation: None,
        }
    }

    /// Set the source square (a board move, not a drop).
    pub fn from(self, from: Position) -> (r: Self)
        ensures
            r@ == (BuilderView { from: Some(from), is_drop: false, ..self@ }),
    {
        let mut b = self;
        b.from = Some(from);
        b.is_drop = false;
        b
    }

    /// Make the move a drop (no source square).
    pub fn as_drop(self) -> (r: Self)
        ensures
            r@ == (BuilderView { from: None, is_drop: true, ..self@ }),
    {
        let mut b = self;
        b.from = None;
        b.is_drop = true;
        b
    }

    pub fn to(self, to: Position) -> (r: Self)
        ensures
            r@ == (BuilderView { to: Some(to), ..self@ }),
    {
        let mut b = self;
        b.to = Some(to);
        b
    }

    pub fn piece_type(self, piece_type: PieceType) -> (r: Self)
        ensures
            r@ == (BuilderView { piece_type: Some(piece_type), ..self@ }),
    {
        let mut b = self;
        b.piece_type = Some(piece_type);
        b
    }

    pub fn promote(self) -> (r: Self)
        ensures
            r@ == (BuilderView { is_promotion: true, ..self@ }),
    {
        let mut b = self;
        b.is_promotion = true;
        b
    }

    pub fn weight(self, weight: u32) -> (r: Self)
        ensures
            r@ == (BuilderView { weight, ..self@ }),
    {
        let mut b = self;
        b.weight = weight;
        b
    }

    pub fn evaluation(self, evaluation: i32) -> (r: Self)
        ensures
            r@ == (BuilderView { evaluation, ..self@ }),
    {
        let mut b = self;
        b.evaluation = evaluation;
        b
    }

    pub fn opening_name(self, opening_name: String) -> (r: Self)
        ensures
            r@ == (BuilderView { opening_name: Some(opening_name@), ..self@ }),
    {
        let mut b = self;
        b.opening_name = Some(opening_name);
        b
    }

    pub fn move_notation(self, move_notation: String) -> (r: Self)
        ensures
            r@ == (BuilderView { move_notation: Some(move_notation@), ..self@ }),
    {
        let mut b = self;
        b.move_notation = Some(move_notation);
        b
    }

    /// The book move; an invalid-move error when the destination or the piece type is unset.
    pub fn build(self) -> (r: Result<BookMove, OpeningBookError>)
        ensures
            self@.to is None ==> (r matches Err(OpeningBookError::InvalidMove(msg)) && msg@ == "Missing destination position"@),
            self@.to is Some && self@.piece_type is None ==> (r matches Err(OpeningBookError::InvalidMove(msg)) && msg@ == "Missing piece type"@),
            self@.to is Some && self@.piece_type is Some ==> (r matches Ok(m) && m@ == (BookMoveView {
                from: self@.from,
                to: self@.to->0,
                piece_type: self@.piece_type->0,
                is_drop: self@.is_drop,
                is_promotion: self@.is_promotion,
                weight: self@.weight,
                evaluation: self@.evaluation,
                opening_name: self@.opening_name,
                move_notation: self@.move_notation,
            })),
    {
        let to = match self.to {
            Some(t) => t,
            None => {
                return Err(OpeningBookError::InvalidMove(string_of("Missing destination position")));
            },
        };
        let piece_type = match self.piece_type {
            Some(p) => p,
            None => {
                return Err(OpeningBookError::InvalidMove(string_of("Missing piece type")));
            },
        };
        Ok(BookMove {
            from: self.from,
            to,
            piece_type,
            is_drop: self.is_drop,
            is_promotion: self.is_promotion,
            weight: self.weight,
            evaluation: self.evaluation,
            opening_name: self.opening_name,
            move_notation: self.move_notation,
        })
    }
}

} // verus!
