//! The opening book: positions keyed by the FNV-1a hash of their FEN, positions kept
//! encoded until first use, and a least-recently-used cache of looked-up positions.

use std::collections::HashMap;
use std::num::NonZeroUsize;
use lru::LruCache;
use vstd::prelude::*;
use vstd::string::StringSliceAdditionalSpecFns;
use vstd::std_specs::iter::IteratorSpec;
use crate::opening_book::{
    BookMove, BookMoveView, LazyPositionEntry, OpeningBookError, OpeningBookMetadata, PositionEntry, opt_text,
};
use crate::opening_book::binary_format::{
    read_entry, decode_header, unsupported_version_text, BinaryHeader, HashTableEntry, BinaryReader, BinaryWriter, FORMAT_VERSION, HeaderView, ReadFailure, book_move_bytes, header_bytes,
    le32, le64, magic_bytes, move_views, read_moves, reports, u32_at, u64_at,
};
use crate::types::Player;

verus! {

broadcast use vstd::std_specs::hash::group_hash_axioms;

// ----- the position cache -----

#[verifier::external_type_specification]
#[verifier::external_body]
#[verifier::reject_recursive_types(K)]
#[verifier::reject_recursive_types(V)]
#[verifier::reject_recursive_types(S)]
pub struct ExLruCache<K, V, S>(LruCache<K, V, S>);

#[verifier::external_type_specification]
#[verifier::external_body]
pub struct ExLruHasher(lru::DefaultHasher);

/// A least-recently-used cache of positions by hash.
pub type PositionCache = LruCache<u64, PositionEntry>;

/// The mathematical value of a position entry.
pub struct PositionEntryView {
    pub fen: Seq<char>,
    pub moves: Seq<BookMoveView>,
}

impl View for PositionEntry {
    type V = PositionEntryView;

    open spec fn view(&self) -> PositionEntryView {
        PositionEntryView { fen: self.fen@, moves: move_views(self.moves@) }
    }
}

/// The entries held by a position cache.
pub uninterp spec fn cache_entries(c: PositionCache) -> Map<u64, PositionEntryView>;

/// The number of entries a position cache was made to hold.
pub uninterp spec fn cache_capacity(c: PositionCache) -> nat;

/// What putting `k` with `v` into a cache holding `old` (at most `cap` entries) leaves in
/// it: the old entries with `k` now mapped to `v`, where a new key added to a full cache
/// pushes out one old entry (the least recently used).
pub open spec fn put_result(
    old: Map<u64, PositionEntryView>,
    cap: nat,
    k: u64,
    v: PositionEntryView,
    new: Map<u64, PositionEntryView>,
) -> bool {
    if old.contains_key(k) || old.len() < cap {
        new == old.insert(k, v)
    } else {
        exists|j: u64| old.contains_key(j) && new == old.remove(j).insert(k, v)
    }
}

/// `LruCache::new`: an empty cache holding at most `cap` entries.
#[verifier::external_body]
fn cache_new(cap: usize) -> (r: PositionCache)
    requires
        cap > 0,
    ensures
        cache_capacity(r) == cap,
        cache_entries(r).dom().is_empty(),
{
    LruCache::new(NonZeroUsize::new(cap).unwrap())
}

/// `LruCache::get`: the entry of `k`, if held (it becomes the most recently used; the
/// entries stay the same).
#[verifier::external_body]
fn cache_get<'a>(c: &'a mut PositionCache, k: u64) -> (r: Option<&'a PositionEntry>)
    ensures
        cache_entries(*final(c)) == cache_entries(*old(c)),
        cache_capacity(*final(c)) == cache_capacity(*old(c)),
        match r {
            Some(e) => cache_entries(*old(c)).contains_key(k) && e@ == cache_entries(*old(c))[k],
            None => !cache_entries(*old(c)).contains_key(k),
        },
{
    c.get(&k)
}

/// `LruCache::put`: `k` now holds `v`; a new key in a full cache pushes out the least
/// recently used entry (see `put_result`).
#[verifier::external_body]
fn cache_put(c: &mut PositionCache, k: u64, v: PositionEntry)
    ensures
        cache_capacity(*final(c)) == cache_capacity(*old(c)),
        put_result(cache_entries(*old(c)), cache_capacity(*old(c)), k, v@, cache_entries(*final(c))),
        cache_entries(*final(c)).len() <= cache_capacity(*final(c)),
{
    c.put(k, v);
}

/// `LruCache::len`: the number of entries held.
#[verifier::external_body]
fn cache_len(c: &PositionCache) -> (r: usize)
    ensures
        r == cache_entries(*c).len(),
{
    c.len()
}

/// `LruCache::cap`: the number of entries the cache was made to hold.
#[verifier::external_body]
fn cache_cap(c: &PositionCache) -> (r: usize)
    ensures
        r == cache_capacity(*c),
{
    c.cap().get()
}

/// `LruCache::clear`: no entries left.
#[verifier::external_body]
fn cache_clear(c: &mut PositionCache)
    ensures
        cache_entries(*final(c)).dom().is_empty(),
        cache_capacity(*final(c)) == cache_capacity(*old(c)),
{
    c.clear()
}


// ----- copying -----

impl BookMove {
    /// A copy of this move.
    pub fn duplicate(&self) -> (r: BookMove)
        ensures
            r@ == self@,
    {
        BookMove {
            from: self.from,
            to: self.to,
            piece_type: self.piece_type,
            is_drop: self.is_drop,
            is_promotion: self.is_promotion,
            weight: self.weight,
            evaluation: self.evaluation,
            opening_name: match &self.opening_name {
                Some(t) => Some(t.clone()),
                None => None,
            },
            move_notation: match &self.move_notation {
                Some(t) => Some(t.clone()),
                None => None,
            },
        }
    }
}

/// A copy of a list of moves.
pub fn copy_moves(v: &Vec<BookMove>) -> (r: Vec<BookMove>)
    ensures
        move_views(r@) == move_views(v@),
{
    let mut out: Vec<BookMove> = Vec::new();
    let mut i: usize = 0;
    while i < v.len()
        invariant
            i <= v@.len(),
            out@.len() == i,
            forall|k: int| 0 <= k < i ==> #[trigger] out@[k]@ == v@[k]@,
        decreases v@.len() - i,
    {
        out.push(v[i].duplicate());
        i = i + 1;
    }
    assert(move_views(out@) =~= move_views(v@));
    out
}

impl PositionEntry {
    /// A copy of this entry.
    pub fn duplicate(&self) -> (r: PositionEntry)
        ensures
            r@ == self@,
    {
        PositionEntry { fen: self.fen.clone(), moves: copy_moves(&self.moves) }
    }
}

// ----- hashing -----

/// The FNV-1a hash of a byte string.
pub open spec fn fnv1a(bytes: Seq<u8>) -> u64
    decreases bytes.len(),
{
    if bytes.len() == 0 {
        0xcbf29ce484222325u64
    } else {
        (fnv1a(bytes.drop_last()) ^ (bytes.last() as u64)).wrapping_mul(0x100000001b3u64)
    }
}

/// The djb2 hash of a byte string.
pub open spec fn djb2(bytes: Seq<u8>) -> u64
    decreases bytes.len(),
{
    if bytes.len() == 0 {
        5381u64
    } else {
        djb2(bytes.drop_last()).wrapping_mul(33u64).wrapping_add(bytes.last() as u64)
    }
}

/// The xor of every byte shifted left by its index modulo 56.
pub open spec fn shift_xor(bytes: Seq<u8>) -> u64
    decreases bytes.len(),
{
    if bytes.len() == 0 {
        0u64
    } else {
        shift_xor(bytes.drop_last()) ^ ((bytes.last() as u64) << (((bytes.len() - 1) % 56) as u64))
    }
}

/// The key of a FEN: the FNV-1a hash of its UTF-8 bytes.
pub open spec fn fen_key(fen: Seq<char>) -> u64 {
    fnv1a(vstd::utf8::encode_utf8(fen))
}

// ----- the side to move -----

/// The side to move of a FEN: its side-to-move field (the second one) "w"/"W" gives
/// White; "b"/"B", any other text or a missing field gives Black.
pub open spec fn fen_player(fen: Seq<char>) -> Player {
    let parts = crate::kif_parser::words(fen);
    if parts.len() >= 2 && (parts[1] == seq!['w'] || parts[1] == seq!['W']) {
        Player::White
    } else {
        Player::Black
    }
}

// ----- decoding stored moves -----

/// The moves of an encoded move list: a count, then that many move records.
pub open spec fn decode_moves(d: Seq<u8>) -> Option<Seq<BookMoveView>> {
    if d.len() < 4 {
        None
    } else {
        match read_moves(d, 4, u32_at(d, 0) as nat) {
            Ok((ms, _)) => Some(ms),
            Err(_) => None,
        }
    }
}

/// The records of a list of moves, one after another.
pub open spec fn moves_bytes(ms: Seq<BookMoveView>) -> Seq<u8>
    decreases ms.len(),
{
    if ms.len() == 0 {
        Seq::empty()
    } else {
        moves_bytes(ms.drop_last()) + book_move_bytes(ms.last())
    }
}

/// The encoding of a list of moves: its count, then the records.
pub open spec fn encode_moves(ms: Seq<BookMoveView>) -> Seq<u8> {
    le32(ms.len() as u32) + moves_bytes(ms)
}

/// The mathematical value of a lazily stored position.
pub struct LazyEntryView {
    pub fen: Seq<char>,
    pub data: Seq<u8>,
    pub move_count: u32,
    pub loaded: bool,
}

impl View for LazyPositionEntry {
    type V = LazyEntryView;

    open spec fn view(&self) -> LazyEntryView {
        LazyEntryView { fen: self.fen@, data: self.moves_data@, move_count: self.move_count, loaded: self.loaded }
    }
}

// ----- lookups -----

/// The end of a lookup of `h` once the cache has not answered: the positions are asked
/// (their entry is then cached, giving `c_mid`), then the lazy positions (their entry is
/// removed, decoded, stored with the positions and cached).
pub open spec fn probe_tail(
    c0: Map<u64, PositionEntryView>,
    cap: nat,
    p0: Map<u64, PositionEntryView>,
    l0: Map<u64, LazyEntryView>,
    h: u64,
    accept: spec_fn(PositionEntryView) -> bool,
    c_mid: Map<u64, PositionEntryView>,
    c1: Map<u64, PositionEntryView>,
    p1: Map<u64, PositionEntryView>,
    l1: Map<u64, LazyEntryView>,
    found: Option<PositionEntryView>,
) -> bool {
    &&& (if p0.contains_key(h) {
        put_result(c0, cap, h, p0[h], c_mid)
    } else {
        c_mid == c0
    })
    &&& if p0.contains_key(h) && accept(p0[h]) {
        c1 == c_mid && p1 == p0 && l1 == l0 && found == Some(p0[h])
    } else if l0.contains_key(h) {
        &&& l1 == l0.remove(h)
        &&& match decode_moves(l0[h].data) {
            Some(ms) => {
                let e = PositionEntryView { fen: l0[h].fen, moves: ms };
                &&& p1 == p0.insert(h, e)
                &&& put_result(c_mid, cap, h, e, c1)
                &&& found == (if accept(e) {
                    Some(e)
                } else {
                    None
                })
            },
            None => p1 == p0 && c1 == c_mid && found is None,
        }
    } else {
        c1 == c_mid && p1 == p0 && l1 == l0 && found is None
    }
}

/// The entry a lookup of `h` finds, and the cache, positions and lazy positions it leaves.
/// The cache is asked first, then the positions, then the lazy positions (see
/// `probe_tail`); an entry counts as found only when `accept` holds of it, else the search
/// goes on.
#[verifier::opaque]
pub open spec fn probe(
    c0: Map<u64, PositionEntryView>,
    cap: nat,
    p0: Map<u64, PositionEntryView>,
    l0: Map<u64, LazyEntryView>,
    h: u64,
    accept: spec_fn(PositionEntryView) -> bool,
    c1: Map<u64, PositionEntryView>,
    p1: Map<u64, PositionEntryView>,
    l1: Map<u64, LazyEntryView>,
    found: Option<PositionEntryView>,
) -> bool {
    if c0.contains_key(h) && accept(c0[h]) {
        c1 == c0 && p1 == p0 && l1 == l0 && found == Some(c0[h])
    } else {
        exists|c_mid: Map<u64, PositionEntryView>| probe_tail(c0, cap, p0, l0, h, accept, c_mid, c1, p1, l1, found)
    }
}

/// `e` is the entry of `h` in the cache or the positions, or the decoded lazy entry of `h`.
pub open spec fn entry_source(
    c: Map<u64, PositionEntryView>,
    p: Map<u64, PositionEntryView>,
    l: Map<u64, LazyEntryView>,
    h: u64,
    e: PositionEntryView,
) -> bool {
    ||| c.contains_key(h) && e == c[h]
    ||| p.contains_key(h) && e == p[h]
    ||| l.contains_key(h) && decode_moves(l[h].data) == Some(e.moves)
}

/// The engine move of a book move for `player`.
pub open spec fn engine_move(m: BookMoveView, player: Player) -> crate::types::Move {
    crate::types::Move {
        from: m.from,
        to: m.to,
        piece_type: m.piece_type,
        player,
        is_promotion: m.is_promotion,
        is_capture: false,
        captured_piece: None,
        gives_check: false,
        is_recapture: false,
    }
}

/// Index `i` holds the last of the best-ranked moves (weight, then evaluation).
pub open spec fn best_at(s: Seq<BookMoveView>, i: int) -> bool {
    &&& 0 <= i < s.len()
    &&& forall|j: int|
        0 <= j < s.len() ==> s[i].weight > #[trigger] s[j].weight || (s[i].weight == s[j].weight && s[i].evaluation
            >= s[j].evaluation)
    &&& forall|j: int|
        i < j < s.len() ==> !(#[trigger] s[j].weight > s[i].weight || (s[j].weight == s[i].weight
            && s[j].evaluation >= s[i].evaluation))
}

proof fn lemma_best_at(s: Seq<BookMove>, i: int)
    requires
        crate::opening_book::is_last_best(s, i),
    ensures
        best_at(move_views(s), i),
{
    let v = move_views(s);
    assert forall|j: int| 0 <= j < v.len() implies v[i].weight > #[trigger] v[j].weight || (v[i].weight == v[j].weight
        && v[i].evaluation >= v[j].evaluation) by {
        assert(crate::opening_book::ranks_at_least(s[i], s[j]));
    }
    assert forall|j: int| i < j < v.len() implies !(#[trigger] v[j].weight > v[i].weight || (v[j].weight == v[i].weight
        && v[j].evaluation >= v[i].evaluation)) by {
        assert(!crate::opening_book::ranks_at_least(s[j], s[i]));
    }
}

pub open spec fn has_moves(e: PositionEntryView) -> bool {
    e.moves.len() > 0
}

// ----- the book -----

/// An opening book.
pub struct OpeningBook {
    positions: HashMap<u64, PositionEntry>,
    lazy_positions: HashMap<u64, LazyPositionEntry>,
    position_cache: PositionCache,
    temp_buffer: Vec<u8>,
    total_moves: usize,
    loaded: bool,
    metadata: OpeningBookMetadata,
}

/// The metadata of a new book.
pub open spec fn fresh_metadata(m: OpeningBookMetadata) -> bool {
    &&& m.version == 1
    &&& m.position_count == 0
    &&& m.move_count == 0
    &&& m.created_at is None
    &&& m.updated_at is None
    &&& !m.streaming_enabled
    &&& m.chunk_size == 0
}

impl OpeningBook {
    /// The loaded positions by key.
    pub closed spec fn positions(&self) -> Map<u64, PositionEntryView> {
        self.positions@.map_values(|e: PositionEntry| e@)
    }

    /// The positions kept encoded, by key.
    pub closed spec fn lazy(&self) -> Map<u64, LazyEntryView> {
        self.lazy_positions@.map_values(|e: LazyPositionEntry| e@)
    }

    /// The positions held by the cache, by key.
    pub closed spec fn cached(&self) -> Map<u64, PositionEntryView> {
        cache_entries(self.position_cache)
    }

    /// The number of positions the cache holds at most.
    pub closed spec fn cache_size(&self) -> nat {
        cache_capacity(self.position_cache)
    }

    /// The number of moves added to the book.
    pub closed spec fn total(&self) -> nat {
        self.total_moves as nat
    }

    pub closed spec fn loaded_flag(&self) -> bool {
        self.loaded
    }

    pub closed spec fn meta(&self) -> OpeningBookMetadata {
        self.metadata
    }

    /// The reusable byte buffer.
    pub closed spec fn buffer(&self) -> Seq<u8> {
        self.temp_buffer@
    }

    /// An empty book, not loaded, with a cache of 100 positions.
    pub fn new() -> (r: Self)
        ensures
            r.positions().dom().is_empty(),
            r.lazy().dom().is_empty(),
            r.cached().dom().is_empty(),
            r.cache_size() == 100,
            r.total() == 0,
            !r.loaded_flag(),
            fresh_metadata(r.meta()),
            r.buffer().len() == 0,
    {
        let r = OpeningBook {
            positions: HashMap::new(),
            lazy_positions: HashMap::new(),
            position_cache: cache_new(100),
            temp_buffer: Vec::new(),
            total_moves: 0,
            loaded: false,
            metadata: OpeningBookMetadata {
                version: 1,
                position_count: 0,
                move_count: 0,
                created_at: None,
                updated_at: None,
                streaming_enabled: false,
                chunk_size: 0,
            },
        };
        assert(r.positions().dom() =~= Set::empty());
        assert(r.lazy().dom() =~= Set::empty());
        r
    }

    /// The key of a FEN (see `fen_key`).
    fn hash_fen(&self, fen: &str) -> (r: u64)
        ensures
            r == fen_key(fen@),
    {
        self.hash_fen_fnv1a(fen)
    }

    /// The FNV-1a hash of the bytes of a FEN.
    pub fn hash_fen_fnv1a(&self, fen: &str) -> (r: u64)
        ensures
            r == fnv1a(fen.spec_bytes()),
    {
        let bytes = fen.as_bytes();
        let mut hash: u64 = 0xcbf29ce484222325;
        let mut i: usize = 0;
        while i < bytes.len()
            invariant
                i <= bytes@.len(),
                bytes@ == fen.spec_bytes(),
                hash == fnv1a(bytes@.subrange(0, i as int)),
            decreases bytes@.len() - i,
        {
            assert(bytes@.subrange(0, i + 1).drop_last() == bytes@.subrange(0, i as int));
            assert(bytes@.subrange(0, i + 1).last() == bytes@[i as int]);
            hash = (hash ^ (bytes[i] as u64)).wrapping_mul(0x100000001b3);
            i = i + 1;
        }
        assert(bytes@.subrange(0, bytes@.len() as int) == bytes@);
        hash
    }

    /// The djb2 hash of the bytes of a FEN.
    pub fn hash_fen_simple(&self, fen: &str) -> (r: u64)
        ensures
            r == djb2(fen.spec_bytes()),
    {
        let bytes = fen.as_bytes();
        let mut hash: u64 = 5381;
        let mut i: usize = 0;
        while i < bytes.len()
            invariant
                i <= bytes@.len(),
                bytes@ == fen.spec_bytes(),
                hash == djb2(bytes@.subrange(0, i as int)),
            decreases bytes@.len() - i,
        {
            assert(bytes@.subrange(0, i + 1).drop_last() == bytes@.subrange(0, i as int));
            hash = hash.wrapping_mul(33).wrapping_add(bytes[i] as u64);
            i = i + 1;
        }
        assert(bytes@.subrange(0, bytes@.len() as int) == bytes@);
        hash
    }

    /// The shift-and-xor hash of the bytes of a FEN.
    pub fn hash_fen_bitwise(&self, fen: &str) -> (r: u64)
        ensures
            r == shift_xor(fen.spec_bytes()),
    {
        let bytes = fen.as_bytes();
        let mut hash: u64 = 0;
        let mut i: usize = 0;
        while i < bytes.len()
            invariant
                i <= bytes@.len(),
                bytes@ == fen.spec_bytes(),
                hash == shift_xor(bytes@.subrange(0, i as int)),
            decreases bytes@.len() - i,
        {
            assert(bytes@.subrange(0, i + 1).drop_last() == bytes@.subrange(0, i as int));
            assert(bytes@.subrange(0, i + 1).len() - 1 == i);
            hash = hash ^ ((bytes[i] as u64) << ((i % 56) as u64));
            i = i + 1;
        }
        assert(bytes@.subrange(0, bytes@.len() as int) == bytes@);
        hash
    }

    /// The side to move of a FEN (see `fen_player`).
    pub fn determine_player_from_fen(fen: &str) -> (r: Player)
        ensures
            r == fen_player(fen@),
    {
        let s = crate::kif_parser::chars_of(fen);
        match crate::kif_parser::nth_word(&s, 1) {
            Some((a, b)) => {
                if b > a && b - a == 1 && (s[a] == 'w' || s[a] == 'W') {
                    assert(s@.subrange(a as int, b as int) =~= seq![s@[a as int]]);
                    Player::White
                } else {
                    proof {
                        let w = s@.subrange(a as int, b as int);
                        if w == seq!['w'] || w == seq!['W'] {
                            assert(w.len() == 1);
                            assert(w[0] == s@[a as int]);
                        }
                    }
                    Player::Black
                }
            },
            None => Player::Black,
        }
    }
}

proof fn lemma_read_moves_err_grows(d: Seq<u8>, p: int, n: nat, m: nat)
    requires
        n <= m,
        read_moves(d, p, n) is Err,
    ensures
        read_moves(d, p, m) is Err,
    decreases m - n,
{
    if n < m {
        lemma_read_moves_err_grows(d, p, n, (m - 1) as nat);
    }
}

/// The metadata `b` equals `a` but for the position and move counts.
pub open spec fn same_meta_but_counts(a: OpeningBookMetadata, b: OpeningBookMetadata) -> bool {
    &&& b.version == a.version
    &&& b.created_at == a.created_at
    &&& b.updated_at == a.updated_at
    &&& b.streaming_enabled == a.streaming_enabled
    &&& b.chunk_size == a.chunk_size
}

/// The view of an optional entry.
pub open spec fn opt_entry(e: Option<PositionEntry>) -> Option<PositionEntryView> {
    match e {
        Some(x) => Some(x@),
        None => None,
    }
}

/// Whether some move of an entry has a positive weight.
pub open spec fn has_weight(e: PositionEntryView) -> bool {
    exists|i: int| 0 <= i < e.moves.len() && #[trigger] e.moves[i].weight > 0
}

/// The entries a lookup accepts: every entry (kind 0), entries with moves (kind 1), or
/// entries with a move of positive weight (any other kind).
pub open spec fn accept_entry(kind: u8) -> spec_fn(PositionEntryView) -> bool {
    |e: PositionEntryView| if kind == 0 {
        true
    } else if kind == 1 {
        has_moves(e)
    } else {
        has_weight(e)
    }
}

fn entry_accepted(e: &PositionEntry, kind: u8) -> (r: bool)
    ensures
        r == accept_entry(kind)(e@),
{
    if kind == 0 {
        true
    } else if kind == 1 {
        e.moves.len() > 0
    } else {
        let mut i: usize = 0;
        while i < e.moves.len()
            invariant
                i <= e.moves@.len(),
                forall|k: int| 0 <= k < i ==> e.moves@[k].weight == 0,
            decreases e.moves@.len() - i,
        {
            if e.moves[i].weight > 0 {
                assert(e@.moves[i as int].weight > 0);
                return true;
            }
            i = i + 1;
        }
        assert forall|k: int| 0 <= k < e@.moves.len() implies !(#[trigger] e@.moves[k].weight > 0) by {
            assert(e@.moves[k] == e.moves@[k]@);
        }
        false
    }
}

impl OpeningBook {
    /// The moves of `data`: a count, then that many move records (see `decode_moves`).
    fn parse_moves_from_binary(&self, data: &Vec<u8>) -> (r: Result<Vec<BookMove>, OpeningBookError>)
        ensures
            match decode_moves(data@) {
                Some(ms) => r matches Ok(v) && move_views(v@) == ms,
                None => r is Err,
            },
    {
        let mut reader = BinaryReader::new(vstd::slice::slice_to_vec(data.as_slice()));
        let ghost d = data@;
        let count = match reader.read_u32() {
            Ok(c) => c,
            Err(e) => return Err(e),
        };
        let mut moves: Vec<BookMove> = Vec::new();
        let mut k: u32 = 0;
        while k < count
            invariant
                d == data@,
                d.len() >= 4,
                count == u32_at(d, 0),
                reader.bytes() == d,
                k <= count,
                read_moves(d, 4, k as nat) matches Ok((ms, q)) && move_views(moves@) == ms && reader.offset() == q,
            decreases count - k,
        {
            let ghost q = reader.offset();
            match reader.read_book_move() {
                Ok(m) => {
                    moves.push(m);
                    assert(move_views(moves@) =~= read_moves(d, 4, (k + 1) as nat)->Ok_0.0);
                },
                Err(e) => {
                    proof {
                        lemma_read_moves_err_grows(d, 4, (k + 1) as nat, count as nat);
                    }
                    return Err(e);
                },
            }
            k = k + 1;
        }
        Ok(moves)
    }

    /// The encoding of a list of moves: its count, then the move records.
    fn serialize_moves_to_binary(&self, moves: &Vec<BookMove>) -> (r: Result<Vec<u8>, OpeningBookError>)
        ensures
            r matches Ok(b) && b@ == encode_moves(move_views(moves@)),
    {
        let writer = BinaryWriter::new();
        let mut bytes: Vec<u8> = Vec::new();
        crate::opening_book::binary_format::push_u32(&mut bytes, moves.len() as u32);
        let mut i: usize = 0;
        while i < moves.len()
            invariant
                i <= moves@.len(),
                bytes@ == le32(moves@.len() as u32) + moves_bytes(move_views(moves@).subrange(0, i as int)),
            decreases moves@.len() - i,
        {
            match writer.write_book_move(&moves[i]) {
                Ok(b) => crate::opening_book::binary_format::push_bytes(&mut bytes, b.as_slice()),
                Err(e) => return Err(e),
            }
            assert(move_views(moves@).subrange(0, i + 1).drop_last() == move_views(moves@).subrange(0, i as int));
            i = i + 1;
        }
        assert(move_views(moves@).subrange(0, moves@.len() as int) == move_views(moves@));
        Ok(bytes)
    }

    /// Adds a position with its moves under the key of its FEN, replacing any entry with
    /// that key; the counts in the metadata follow.
    pub fn add_position(&mut self, fen: String, moves: Vec<BookMove>)
        requires
            old(self).total() + moves@.len() <= usize::MAX,
        ensures
            final(self).positions() == old(self).positions().insert(
                fen_key(fen@),
                PositionEntryView { fen: fen@, moves: move_views(moves@) },
            ),
            final(self).lazy() == old(self).lazy(),
            final(self).cached() == old(self).cached(),
            final(self).cache_size() == old(self).cache_size(),
            final(self).total() == old(self).total() + moves@.len(),
            final(self).loaded_flag() == old(self).loaded_flag(),
            final(self).buffer() == old(self).buffer(),
            final(self).meta().position_count == final(self).positions().len(),
            final(self).meta().move_count == final(self).total(),
            same_meta_but_counts(old(self).meta(), final(self).meta()),
    {
        let hash = self.hash_fen(fen.as_str());
        let entry = PositionEntry::new(fen, moves);
        self.total_moves = self.total_moves + entry.moves.len();
        let ghost e = entry;
        self.positions.insert(hash, entry);
        self.metadata.position_count = self.positions.len();
        self.metadata.move_count = self.total_moves;
        assert(self.positions() =~= old(self).positions().insert(hash, e@));
        assert(self.positions().dom() =~= self.positions@.dom());
    }

    /// Adds a position whose moves stay encoded until first looked up.
    pub fn add_lazy_position(&mut self, fen: String, moves: Vec<BookMove>) -> (r: Result<(), OpeningBookError>)
        requires
            old(self).total() + moves@.len() <= usize::MAX,
            old(self).positions().len() + old(self).lazy().len() < usize::MAX,
        ensures
            r is Ok,
            final(self).lazy() == old(self).lazy().insert(
                fen_key(fen@),
                LazyEntryView {
                    fen: fen@,
                    data: encode_moves(move_views(moves@)),
                    move_count: moves@.len() as u32,
                    loaded: false,
                },
            ),
            final(self).positions() == old(self).positions(),
            final(self).cached() == old(self).cached(),
            final(self).cache_size() == old(self).cache_size(),
            final(self).total() == old(self).total() + moves@.len(),
            final(self).loaded_flag() == old(self).loaded_flag(),
            final(self).buffer() == old(self).buffer(),
            final(self).meta().position_count == final(self).positions().len() + final(self).lazy().len(),
            final(self).meta().move_count == final(self).total(),
            same_meta_but_counts(old(self).meta(), final(self).meta()),
    {
        let hash = self.hash_fen(fen.as_str());
        let moves_data = match self.serialize_moves_to_binary(&moves) {
            Ok(d) => d,
            Err(e) => return Err(e),
        };
        let lazy_entry = LazyPositionEntry { fen, moves_data, move_count: moves.len() as u32, loaded: false };
        self.total_moves = self.total_moves + moves.len();
        let ghost e = lazy_entry;
        proof {
            assert(old(self).lazy().dom() =~= self.lazy_positions@.dom());
            assert(old(self).positions().dom() =~= self.positions@.dom());
        }
        self.lazy_positions.insert(hash, lazy_entry);
        proof {
            assert(self.lazy().dom() =~= self.lazy_positions@.dom());
            lemma_insert_len_bound(old(self).lazy_positions@, hash, e);
        }
        self.metadata.position_count = self.positions.len() + self.lazy_positions.len();
        self.metadata.move_count = self.total_moves;
        assert(self.lazy() =~= old(self).lazy().insert(hash, e@));
        Ok(())
    }

    /// Moves the lazily stored position `hash`, decoded, to the loaded positions; an error
    /// when its moves do not decode (the lazy entry is gone either way).
    fn load_lazy_position(&mut self, hash: u64) -> (r: Result<(), OpeningBookError>)
        ensures
            final(self).cached() == old(self).cached(),
            final(self).cache_size() == old(self).cache_size(),
            final(self).total() == old(self).total(),
            final(self).loaded_flag() == old(self).loaded_flag(),
            final(self).meta() == old(self).meta(),
            final(self).buffer() == old(self).buffer(),
            old(self).lazy().contains_key(hash) ==> {
                &&& final(self).lazy() == old(self).lazy().remove(hash)
                &&& match decode_moves(old(self).lazy()[hash].data) {
                    Some(ms) => r is Ok && final(self).positions() == old(self).positions().insert(
                        hash,
                        PositionEntryView { fen: old(self).lazy()[hash].fen, moves: ms },
                    ),
                    None => r is Err && final(self).positions() == old(self).positions(),
                }
            },
            !old(self).lazy().contains_key(hash) ==> r is Ok && final(self).lazy() == old(self).lazy()
                && final(self).positions() == old(self).positions(),
    {
        match self.lazy_positions.remove(&hash) {
            Some(lazy_entry) => {
                assert(self.lazy() =~= old(self).lazy().remove(hash));
                let moves = match self.parse_moves_from_binary(&lazy_entry.moves_data) {
                    Ok(m) => m,
                    Err(e) => return Err(e),
                };
                let entry = PositionEntry { fen: lazy_entry.fen, moves };
                let ghost e = entry;
                self.positions.insert(hash, entry);
                assert(self.positions() =~= old(self).positions().insert(hash, e@));
                Ok(())
            },
            None => {
                assert(self.lazy() =~= old(self).lazy());
                Ok(())
            },
        }
    }

    /// Looks `hash` up (see `probe`) and gives a copy of the entry found.
    fn probe_entry(&mut self, hash: u64, kind: u8) -> (r: Option<PositionEntry>)
        ensures
            probe(
                old(self).cached(),
                old(self).cache_size(),
                old(self).positions(),
                old(self).lazy(),
                hash,
                accept_entry(kind),
                final(self).cached(),
                final(self).positions(),
                final(self).lazy(),
                opt_entry(r),
            ),
            r matches Some(e) ==> accept_entry(kind)(e@),
            r matches Some(e) ==> entry_source(old(self).cached(), old(self).positions(), old(self).lazy(), hash, e@),
            final(self).cache_size() == old(self).cache_size(),
            final(self).total() == old(self).total(),
            final(self).loaded_flag() == old(self).loaded_flag(),
            final(self).meta() == old(self).meta(),
            final(self).buffer() == old(self).buffer(),
    {
        reveal(probe);
        let ghost accept = accept_entry(kind);
        match cache_get(&mut self.position_cache, hash) {
            Some(entry) => {
                if entry_accepted(entry, kind) {
                    return Some(entry.duplicate());
                }
            },
            None => {},
        }
        let ghost c0 = self.cached();
        let ghost p0 = self.positions();
        let ghost l0 = self.lazy();
        let ghost cap = self.cache_size();
        match self.positions.get(&hash) {
            Some(entry) => {
                let copy = entry.duplicate();
                cache_put(&mut self.position_cache, hash, entry.duplicate());
                if entry_accepted(entry, kind) {
                    assert(probe_tail(c0, cap, p0, l0, hash, accept, self.cached(), self.cached(), self.positions(), self.lazy(), Some(copy@)));
                    return Some(copy);
                }
            },
            None => {},
        }
        let ghost c_mid = self.cached();
        if self.lazy_positions.contains_key(&hash) {
            match self.load_lazy_position(hash) {
                Ok(()) => {
                    match self.positions.get(&hash) {
                        Some(entry) => {
                            let copy = entry.duplicate();
                            let ghost ms = decode_moves(l0[hash].data);
                            assert(ms is Some);
                            assert(self.positions()[hash] == PositionEntryView { fen: l0[hash].fen, moves: ms->0 });
                            assert(entry@ == self.positions()[hash]);
                            cache_put(&mut self.position_cache, hash, entry.duplicate());
                            assert(self.lazy() == l0.remove(hash));
                            assert(!(p0.contains_key(hash) && accept(p0[hash])));
                            if entry_accepted(entry, kind) {
                                assert(probe_tail(c0, cap, p0, l0, hash, accept, c_mid, self.cached(), self.positions(), self.lazy(), Some(copy@)));
                                return Some(copy);
                            }
                            assert(probe_tail(c0, cap, p0, l0, hash, accept, c_mid, self.cached(), self.positions(), self.lazy(), None));
                            return None;
                        },
                        None => {
                            proof {
                                assert(self.positions().contains_key(hash));
                                assert(self.positions().dom() =~= self.positions@.dom());
                            }
                            return None;
                        },
                    }
                },
                Err(_) => {
                    assert(probe_tail(c0, cap, p0, l0, hash, accept, c_mid, self.cached(), self.positions(), self.lazy(), None));
                    return None;
                },
            }
        }
        assert(probe_tail(c0, cap, p0, l0, hash, accept, c_mid, self.cached(), self.positions(), self.lazy(), None));
        None
    }

    /// The moves of the position of `fen` (see `probe`; every entry is accepted).
    pub fn get_moves(&mut self, fen: &str) -> (r: Option<Vec<BookMove>>)
        ensures
            exists|found: Option<PositionEntryView>|
                {
                    &&& probe(
                        old(self).cached(),
                        old(self).cache_size(),
                        old(self).positions(),
                        old(self).lazy(),
                        fen_key(fen@),
                        accept_entry(0),
                        final(self).cached(),
                        final(self).positions(),
                        final(self).lazy(),
                        found,
                    )
                    &&& match found {
                        Some(e) => r matches Some(v) && move_views(v@) == e.moves,
                        None => r is None,
                    }
                },
            final(self).cache_size() == old(self).cache_size(),
            final(self).total() == old(self).total(),
            final(self).loaded_flag() == old(self).loaded_flag(),
            final(self).meta() == old(self).meta(),
            final(self).buffer() == old(self).buffer(),
    {
        let hash = self.hash_fen(fen);
        let r = self.probe_entry(hash, 0);
        match r {
            Some(e) => Some(e.moves),
            None => None,
        }
    }
}

/// The engine move of the last best-ranked move of the found entry, if any.
pub open spec fn best_result(found: Option<PositionEntryView>, r: Option<crate::types::Move>, player: Player) -> bool {
    match found {
        Some(e) => r matches Some(mv) && exists|i: int| #[trigger] best_at(e.moves, i) && mv == engine_move(e.moves[i], player),
        None => r is None,
    }
}

/// The engine move of some move of positive weight of the found entry, if any.
pub open spec fn random_result(found: Option<PositionEntryView>, r: Option<crate::types::Move>, player: Player) -> bool {
    match found {
        Some(e) => r matches Some(mv) && exists|i: int|
            0 <= i < e.moves.len() && #[trigger] e.moves[i].weight > 0 && mv == engine_move(e.moves[i], player),
        None => r is None,
    }
}

/// As `random_result`, except that an entry whose moves weigh more than `u32::MAX` in
/// all gives `None`.
pub open spec fn checked_random_result(found: Option<PositionEntryView>, r: Option<crate::types::Move>, player: Player) -> bool {
    match found {
        Some(e) => if view_weight(e.moves) > u32::MAX {
            r is None
        } else {
            random_result(found, r, player)
        },
        None => r is None,
    }
}

/// The total weight of some moves.
pub open spec fn view_weight(s: Seq<BookMoveView>) -> int
    decreases s.len(),
{
    if s.len() == 0 {
        0
    } else {
        view_weight(s.drop_last()) + s.last().weight
    }
}

/// The total weight of the entry a lookup of `h` may pick from fits in 32 bits.
pub open spec fn lookup_weights_fit(
    c: Map<u64, PositionEntryView>,
    p: Map<u64, PositionEntryView>,
    l: Map<u64, LazyEntryView>,
    h: u64,
) -> bool {
    &&& c.contains_key(h) ==> view_weight(c[h].moves) <= u32::MAX
    &&& p.contains_key(h) ==> view_weight(p[h].moves) <= u32::MAX
    &&& l.contains_key(h) ==> (decode_moves(l[h].data) matches Some(ms) ==> view_weight(ms) <= u32::MAX)
}

proof fn lemma_view_weight(s: Seq<BookMove>)
    ensures
        crate::opening_book::total_weight(s) == view_weight(move_views(s)),
    decreases s.len(),
{
    if s.len() > 0 {
        lemma_view_weight(s.drop_last());
        assert(move_views(s.drop_last()) =~= move_views(s).drop_last());
    }
}

proof fn lemma_positive_weight(s: Seq<BookMoveView>, i: int)
    requires
        0 <= i < s.len(),
        s[i].weight > 0,
    ensures
        view_weight(s) > 0,
    decreases s.len(),
{
    lemma_weight_nonneg(s.drop_last());
    if i < s.len() - 1 {
        lemma_positive_weight(s.drop_last(), i);
    }
}

proof fn lemma_weight_nonneg(s: Seq<BookMoveView>)
    ensures
        view_weight(s) >= 0,
    decreases s.len(),
{
    if s.len() > 0 {
        lemma_weight_nonneg(s.drop_last());
    }
}

impl OpeningBook {
    /// The best move of the position of `fen` (see `probe`; entries without moves are
    /// passed over) as an engine move of the side to move in `fen`: the last of its
    /// best-ranked moves.
    pub fn get_best_move(&mut self, fen: &str) -> (r: Option<crate::types::Move>)
        ensures
            exists|found: Option<PositionEntryView>|
                {
                    &&& probe(
                        old(self).cached(),
                        old(self).cache_size(),
                        old(self).positions(),
                        old(self).lazy(),
                        fen_key(fen@),
                        accept_entry(1),
                        final(self).cached(),
                        final(self).positions(),
                        final(self).lazy(),
                        found,
                    )
                    &&& best_result(found, r, fen_player(fen@))
                },
            final(self).cache_size() == old(self).cache_size(),
            final(self).total() == old(self).total(),
            final(self).loaded_flag() == old(self).loaded_flag(),
            final(self).meta() == old(self).meta(),
            final(self).buffer() == old(self).buffer(),
    {
        let hash = self.hash_fen(fen);
        let player = Self::determine_player_from_fen(fen);
        let probed = self.probe_entry(hash, 1);
        let ghost found = opt_entry(probed);
        proof {
            if probed is Some {
                assert(has_moves(probed->0@));
                assert(probed->0.moves@.len() > 0);
            }
        }
        proof {
            assert(probe(
                old(self).cached(),
                old(self).cache_size(),
                old(self).positions(),
                old(self).lazy(),
                fen_key(fen@),
                accept_entry(1),
                self.cached(),
                self.positions(),
                self.lazy(),
                found,
            ));
        }
        let result = match probed {
            Some(e) => match e.get_best_move() {
                Some(bm) => {
                    let mv = bm.to_engine_move(player);
                    proof {
                        let i = choose|i: int| crate::opening_book::is_last_best(e.moves@, i) && *bm == e.moves@[i];
                        lemma_best_at(e.moves@, i);
                        assert(e@.moves[i] == bm@);
                        assert(best_at(e@.moves, i) && mv == engine_move(e@.moves[i], fen_player(fen@)));
                    }
                    Some(mv)
                },
                None => None,
            },
            None => None,
        };
        assert(best_result(found, result, fen_player(fen@)));
        result
    }

    /// The same as `get_best_move`.
    pub fn get_move(&mut self, fen: &str) -> (r: Option<crate::types::Move>)
        ensures
            exists|found: Option<PositionEntryView>|
                {
                    &&& probe(
                        old(self).cached(),
                        old(self).cache_size(),
                        old(self).positions(),
                        old(self).lazy(),
                        fen_key(fen@),
                        accept_entry(1),
                        final(self).cached(),
                        final(self).positions(),
                        final(self).lazy(),
                        found,
                    )
                    &&& best_result(found, r, fen_player(fen@))
                },
            final(self).cache_size() == old(self).cache_size(),
            final(self).total() == old(self).total(),
            final(self).loaded_flag() == old(self).loaded_flag(),
            final(self).meta() == old(self).meta(),
            final(self).buffer() == old(self).buffer(),
    {
        self.get_best_move(fen)
    }

    /// A move of the position of `fen` drawn with probability proportional to its weight
    /// (see `probe`; entries without a move of positive weight are passed over), as an
    /// engine move of the side to move in `fen`.
    pub fn get_random_move(&mut self, fen: &str) -> (r: Option<crate::types::Move>)
        requires
            lookup_weights_fit(old(self).cached(), old(self).positions(), old(self).lazy(), fen_key(fen@)),
        ensures
            exists|found: Option<PositionEntryView>|
                {
                    &&& probe(
                        old(self).cached(),
                        old(self).cache_size(),
                        old(self).positions(),
                        old(self).lazy(),
                        fen_key(fen@),
                        accept_entry(2),
                        final(self).cached(),
                        final(self).positions(),
                        final(self).lazy(),
                        found,
                    )
                    &&& random_result(found, r, fen_player(fen@))
                },
            final(self).cache_size() == old(self).cache_size(),
            final(self).total() == old(self).total(),
            final(self).loaded_flag() == old(self).loaded_flag(),
            final(self).meta() == old(self).meta(),
            final(self).buffer() == old(self).buffer(),
    {
        let r = self.get_random_move_checked(fen);
        proof {
            let found = choose|found: Option<PositionEntryView>|
                {
                    &&& probe(
                        old(self).cached(),
                        old(self).cache_size(),
                        old(self).positions(),
                        old(self).lazy(),
                        fen_key(fen@),
                        accept_entry(2),
                        self.cached(),
                        self.positions(),
                        self.lazy(),
                        found,
                    )
                    &&& (found matches Some(e) ==> entry_source(
                        old(self).cached(),
                        old(self).positions(),
                        old(self).lazy(),
                        fen_key(fen@),
                        e,
                    ))
                    &&& checked_random_result(found, r, fen_player(fen@))
                };
            assert(random_result(found, r, fen_player(fen@)));
        }
        r
    }

    /// As `get_random_move`, for any book: when the moves of the entry found weigh more
    /// than `u32::MAX` in all, no draw is made and the result is `None`.
    pub fn get_random_move_checked(&mut self, fen: &str) -> (r: Option<crate::types::Move>)
        ensures
            exists|found: Option<PositionEntryView>|
                {
                    &&& probe(
                        old(self).cached(),
                        old(self).cache_size(),
                        old(self).positions(),
                        old(self).lazy(),
                        fen_key(fen@),
                        accept_entry(2),
                        final(self).cached(),
                        final(self).positions(),
                        final(self).lazy(),
                        found,
                    )
                    &&& (found matches Some(e) ==> entry_source(
                        old(self).cached(),
                        old(self).positions(),
                        old(self).lazy(),
                        fen_key(fen@),
                        e,
                    ))
                    &&& checked_random_result(found, r, fen_player(fen@))
                },
            final(self).cache_size() == old(self).cache_size(),
            final(self).total() == old(self).total(),
            final(self).loaded_flag() == old(self).loaded_flag(),
            final(self).meta() == old(self).meta(),
            final(self).buffer() == old(self).buffer(),
    {
        let hash = self.hash_fen(fen);
        let player = Self::determine_player_from_fen(fen);
        let probed = self.probe_entry(hash, 2);
        let ghost found = opt_entry(probed);
        let result = match probed {
            Some(e) => {
                proof {
                    lemma_view_weight(e.moves@);
                }
                if !e.weights_fit() {
                    None
                } else {
                    proof {
                        assert(has_weight(e@));
                        let k = choose|k: int| 0 <= k < e@.moves.len() && #[trigger] e@.moves[k].weight > 0;
                        lemma_positive_weight(e@.moves, k);
                    }
                    match e.get_random_move() {
                        Some(bm) => {
                            let mv = bm.to_engine_move(player);
                            proof {
                                let i = choose|i: int| 0 <= i < e.moves@.len() && *bm == e.moves@[i] && bm.weight > 0;
                                assert(e@.moves[i] == bm@);
                                assert(0 <= i < e@.moves.len() && e@.moves[i].weight > 0 && mv == engine_move(e@.moves[i], player));
                            }
                            Some(mv)
                        },
                        None => None,
                    }
                }
            },
            None => None,
        };
        assert(checked_random_result(found, result, fen_player(fen@)));
        result
    }

    /// Every move of the loaded position of `fen` with its engine move for the side to
    /// move in `fen`; `None` when the position is not loaded.
    pub fn get_moves_with_metadata(&self, fen: &str) -> (r: Option<Vec<(BookMove, crate::types::Move)>>)
        ensures
            match r {
                Some(v) => self.positions().contains_key(fen_key(fen@)) && v@.len() == self.positions()[fen_key(
                    fen@,
                )].moves.len() && forall|i: int|
                    0 <= i < v@.len() ==> (#[trigger] v@[i]).0@ == self.positions()[fen_key(fen@)].moves[i] && v@[i].1
                        == engine_move(v@[i].0@, fen_player(fen@)),
                None => !self.positions().contains_key(fen_key(fen@)),
            },
    {
        let hash = self.hash_fen(fen);
        match self.positions.get(&hash) {
            Some(entry) => {
                let player = Self::determine_player_from_fen(fen);
                let mut out: Vec<(BookMove, crate::types::Move)> = Vec::new();
                let mut i: usize = 0;
                while i < entry.moves.len()
                    invariant
                        i <= entry.moves@.len(),
                        out@.len() == i,
                        player == fen_player(fen@),
                        forall|k: int|
                            0 <= k < i ==> (#[trigger] out@[k]).0@ == entry.moves@[k]@ && out@[k].1 == engine_move(
                                out@[k].0@,
                                player,
                            ),
                    decreases entry.moves@.len() - i,
                {
                    let m = entry.moves[i].duplicate();
                    let mv = m.to_engine_move(player);
                    out.push((m, mv));
                    i = i + 1;
                }
                Some(out)
            },
            None => None,
        }
    }
}

/// The entries of a streaming chunk: `count` position entries one after another from `p`,
/// and the offset after them; `None` when one of them cannot be read.
pub open spec fn chunk_entries(d: Seq<u8>, p: int, count: nat) -> Option<(Seq<(Seq<char>, Seq<BookMoveView>)>, int)>
    decreases count,
{
    if count == 0 {
        Some((Seq::empty(), p))
    } else {
        match chunk_entries(d, p, (count - 1) as nat) {
            None => None,
            Some((es, q)) => match crate::opening_book::binary_format::read_entry(d, q) {
                Ok((fen, ms, e)) => Some((es.push((fen, ms)), e)),
                Err(_) => None,
            },
        }
    }
}

/// The lazy entry stored for a position read from a chunk.
pub open spec fn lazy_entry_of(fen: Seq<char>, ms: Seq<BookMoveView>) -> LazyEntryView {
    LazyEntryView { fen, data: encode_moves(ms), move_count: ms.len() as u32, loaded: false }
}

/// The lazy positions after storing some read entries in order.
pub open spec fn with_lazy_entries(l: Map<u64, LazyEntryView>, es: Seq<(Seq<char>, Seq<BookMoveView>)>) -> Map<
    u64,
    LazyEntryView,
>
    decreases es.len(),
{
    if es.len() == 0 {
        l
    } else {
        with_lazy_entries(l, es.drop_last()).insert(fen_key(es.last().0), lazy_entry_of(es.last().0, es.last().1))
    }
}

proof fn lemma_chunk_step(
    d: Seq<u8>,
    k: nat,
    es: Seq<(Seq<char>, Seq<BookMoveView>)>,
    q: int,
    x: (Seq<char>, Seq<BookMoveView>),
    e: int,
)
    requires
        chunk_entries(d, 16, k) == Some((es, q)),
        crate::opening_book::binary_format::read_entry(d, q) == Ok::<(Seq<char>, Seq<BookMoveView>, int), ReadFailure>((x.0, x.1, e)),
    ensures
        chunk_entries(d, 16, k + 1) == Some((es.push(x), e)),
{
}

proof fn lemma_with_lazy_push(l: Map<u64, LazyEntryView>, es: Seq<(Seq<char>, Seq<BookMoveView>)>, x: (Seq<char>, Seq<BookMoveView>))
    ensures
        with_lazy_entries(l, es.push(x)) == with_lazy_entries(l, es).insert(fen_key(x.0), lazy_entry_of(x.0, x.1)),
{
    assert(es.push(x).drop_last() =~= es);
}

impl OpeningBook {
    /// Whether the book is marked loaded.
    pub fn is_loaded(&self) -> (r: bool)
        ensures
            r == self.loaded_flag(),
    {
        self.loaded
    }

    /// The book, marked loaded.
    pub fn mark_loaded(self) -> (r: Self)
        ensures
            r.loaded_flag(),
            r.positions() == self.positions(),
            r.lazy() == self.lazy(),
            r.cached() == self.cached(),
            r.cache_size() == self.cache_size(),
            r.total() == self.total(),
            r.meta() == self.meta(),
            r.buffer() == self.buffer(),
    {
        let mut book = self;
        book.loaded = true;
        book
    }

    /// The metadata of the book.
    pub fn get_stats(&self) -> (r: &OpeningBookMetadata)
        ensures
            *r == self.meta(),
    {
        &self.metadata
    }

    /// The number of cached positions and the cache's capacity.
    pub fn get_cache_stats(&self) -> (r: (usize, usize))
        ensures
            r.0 == self.cached().len(),
            r.1 == self.cache_size(),
    {
        (cache_len(&self.position_cache), cache_cap(&self.position_cache))
    }

    /// Empties the position cache.
    pub fn clear_cache(&mut self)
        ensures
            final(self).cached().dom().is_empty(),
            final(self).cache_size() == old(self).cache_size(),
            final(self).positions() == old(self).positions(),
            final(self).lazy() == old(self).lazy(),
            final(self).total() == old(self).total(),
            final(self).loaded_flag() == old(self).loaded_flag(),
            final(self).meta() == old(self).meta(),
            final(self).buffer() == old(self).buffer(),
    {
        cache_clear(&mut self.position_cache);
    }

    /// The reusable byte buffer, emptied.
    pub fn get_temp_buffer(&mut self) -> (r: &mut Vec<u8>)
        ensures
            r@.len() == 0,
            final(self).buffer() == final(r)@,
            final(self).positions() == old(self).positions(),
            final(self).lazy() == old(self).lazy(),
            final(self).cached() == old(self).cached(),
            final(self).cache_size() == old(self).cache_size(),
            final(self).total() == old(self).total(),
            final(self).loaded_flag() == old(self).loaded_flag(),
            final(self).meta() == old(self).meta(),
    {
        self.temp_buffer.clear();
        &mut self.temp_buffer
    }

    /// Switches to streaming: the loaded positions and the cache are emptied and the chunk
    /// size is recorded.
    pub fn enable_streaming_mode(&mut self, chunk_size: usize)
        ensures
            final(self).positions().dom().is_empty(),
            final(self).cached().dom().is_empty(),
            final(self).cache_size() == old(self).cache_size(),
            final(self).lazy() == old(self).lazy(),
            final(self).total() == old(self).total(),
            final(self).loaded_flag() == old(self).loaded_flag(),
            final(self).buffer() == old(self).buffer(),
            final(self).meta() == (OpeningBookMetadata { streaming_enabled: true, chunk_size, ..old(self).meta() }),
    {
        self.positions.clear();
        cache_clear(&mut self.position_cache);
        self.metadata.streaming_enabled = true;
        self.metadata.chunk_size = chunk_size;
        assert(self.positions().dom() =~= Set::empty());
    }

    /// The numbers of loaded, lazily stored and cached positions.
    pub fn get_streaming_stats(&self) -> (r: (usize, usize, usize))
        ensures
            r.0 == self.positions().len(),
            r.1 == self.lazy().len(),
            r.2 == self.cached().len(),
    {
        assert(self.positions().dom() =~= self.positions@.dom());
        assert(self.lazy().dom() =~= self.lazy_positions@.dom());
        (self.positions.len(), self.lazy_positions.len(), cache_len(&self.position_cache))
    }

    /// Stores a position read from a chunk as a lazy position.
    fn store_lazy_entry(&mut self, fen: String, moves: Vec<BookMove>)
        ensures
            final(self).lazy() == old(self).lazy().insert(fen_key(fen@), lazy_entry_of(fen@, move_views(moves@))),
            final(self).positions() == old(self).positions(),
            final(self).cached() == old(self).cached(),
            final(self).cache_size() == old(self).cache_size(),
            final(self).total() == old(self).total(),
            final(self).loaded_flag() == old(self).loaded_flag(),
            final(self).meta() == old(self).meta(),
            final(self).buffer() == old(self).buffer(),
    {
        let hash = self.hash_fen(fen.as_str());
        let data = match self.serialize_moves_to_binary(&moves) {
            Ok(b) => b,
            Err(_) => return,
        };
        let entry = LazyPositionEntry { fen, moves_data: data, move_count: moves.len() as u32, loaded: false };
        let ghost ev = entry@;
        assert(ev == lazy_entry_of(ev.fen, move_views(moves@)));
        self.lazy_positions.insert(hash, entry);
        assert(self.lazy() =~= old(self).lazy().insert(hash, ev));
    }

    /// Reads a streaming chunk: its header, then as many position entries as it announces,
    /// each stored as a lazy position; gives the number stored. An error when the header
    /// cannot be read.
    pub fn load_chunk(&mut self, chunk_data: &[u8], chunk_offset: u64) -> (r: Result<usize, OpeningBookError>)
        ensures
            r is Err <==> chunk_data@.len() < 16,
            r matches Ok(n) ==> n <= u32_at(chunk_data@, 0),
            chunk_data@.len() >= 16 ==> (chunk_entries(chunk_data@, 16, u32_at(chunk_data@, 0) as nat) matches Some((es, _))
                ==> r == Ok::<usize, OpeningBookError>(es.len() as usize) && final(self).lazy() == with_lazy_entries(
                old(self).lazy(),
                es,
            )),
            final(self).positions() == old(self).positions(),
            final(self).cached() == old(self).cached(),
            final(self).cache_size() == old(self).cache_size(),
            final(self).total() == old(self).total(),
            final(self).loaded_flag() == old(self).loaded_flag(),
            final(self).meta() == old(self).meta(),
            final(self).buffer() == old(self).buffer(),
    {
        let ghost d = chunk_data@;
        let mut reader = BinaryReader::new(vstd::slice::slice_to_vec(chunk_data));
        let header = match reader.read_chunk_header() {
            Ok(h) => h,
            Err(e) => return Err(e),
        };
        let count = header.position_count;
        let mut loaded_count: usize = 0;
        let ghost mut intact = true;
        let ghost mut es: Seq<(Seq<char>, Seq<BookMoveView>)> = Seq::empty();
        let mut k: usize = 0;
        while k < count
            invariant
                d == chunk_data@,
                d.len() >= 16,
                count == u32_at(d, 0),
                reader.bytes() == d,
                k <= count,
                loaded_count <= k,
                self.positions() == old(self).positions(),
                self.cached() == old(self).cached(),
                self.cache_size() == old(self).cache_size(),
                self.total() == old(self).total(),
                self.loaded_flag() == old(self).loaded_flag(),
                self.meta() == old(self).meta(),
                self.buffer() == old(self).buffer(),
                intact ==> chunk_entries(d, 16, k as nat) == Some((es, reader.offset())) && self.lazy()
                    == with_lazy_entries(old(self).lazy(), es) && loaded_count == k && es.len() == k,
                !intact ==> chunk_entries(d, 16, k as nat) is None,
            decreases count - k,
        {
            let ghost q = reader.offset();
            match reader.read_position_entry() {
                Ok((fen, moves)) => {
                    let ghost x = (fen@, move_views(moves@));
                    self.store_lazy_entry(fen, moves);
                    proof {
                        if intact {
                            lemma_chunk_step(d, k as nat, es, q, x, reader.offset());
                            lemma_with_lazy_push(old(self).lazy(), es, x);
                            es = es.push(x);
                        }
                    }
                    loaded_count = loaded_count + 1;
                },
                Err(_) => {
                    proof {
                        intact = false;
                    }
                },
            }
            k = k + 1;
        }
        Ok(loaded_count)
    }
}

impl Default for OpeningBook {
    fn default() -> (r: Self)
        ensures
            r.positions().dom().is_empty(),
            r.lazy().dom().is_empty(),
            r.cached().dom().is_empty(),
            r.cache_size() == 100,
            r.total() == 0,
            !r.loaded_flag(),
            fresh_metadata(r.meta()),
            r.buffer().len() == 0,
    {
        OpeningBook::new()
    }
}

/// The keys of a map, each once.
fn key_list<V>(m: &HashMap<u64, V>) -> (r: Vec<u64>)
    ensures
        r@.to_set() == m@.dom(),
        r@.no_duplicates(),
        r@.len() == m@.dom().len(),
{
    let mut out: Vec<u64> = Vec::new();
    let keys = m.keys();
    let ghost ks = vstd::std_specs::hash::spec_keys_iter(m).remaining();
    proof {
        vstd::std_specs::hash::axiom_spec_keys_iter(m);
    }
    for k in it: keys
        invariant
            it.seq() == ks,
            out@ == ks.take(it.index()).unref(),
            ks.unref().to_set() == m@.dom(),
            ks.no_duplicates(),
            ks.len() == m@.dom().len(),
    {
        out.push(*k);
        assert(ks.take(it.index() + 1).unref() =~= ks.take(it.index()).unref().push(*k));
    }
    assert(out@ =~= ks.unref());
    proof {
        assert forall|i: int, j: int| 0 <= i < out@.len() && 0 <= j < out@.len() && i != j implies out@[i] != out@[j] by {
            assert(ks[i] != ks[j]);
        }
    }
    out
}

// ----- validation -----

/// The text of a square as its fields: "Position { row: 1, col: 2 }".
pub open spec fn position_text(p: crate::types::Position) -> Seq<char> {
    "Position { row: "@ + crate::text::decimal(p.row as nat) + ", col: "@ + crate::text::decimal(p.col as nat) + " }"@
}

/// Whether a move has squares on the board, a weight of at most 10000 and an evaluation of
/// at most 10000 either way.
pub open spec fn move_ok(m: BookMoveView) -> bool {
    &&& (m.from matches Some(f) ==> f.valid())
    &&& m.to.valid()
    &&& m.weight <= 10000
    &&& -10000 <= m.evaluation <= 10000
}

/// The error reported for the invalid move `m` at index `i`.
pub open spec fn move_error(i: nat, m: BookMoveView) -> Seq<char> {
    if m.from matches Some(f) && !f.valid() {
        "Invalid from position in move "@ + crate::text::decimal(i) + ": "@ + position_text(m.from->0)
    } else if !m.to.valid() {
        "Invalid to position in move "@ + crate::text::decimal(i) + ": "@ + position_text(m.to)
    } else if m.weight > 10000 {
        "Weight too high in move "@ + crate::text::decimal(i) + ": "@ + crate::text::decimal(m.weight as nat)
    } else {
        "Evaluation too extreme in move "@ + crate::text::decimal(i) + ": "@ + crate::text::signed_decimal(
            m.evaluation as int,
        )
    }
}

/// Whether an entry has a FEN and valid moves.
pub open spec fn entry_ok(e: PositionEntryView) -> bool {
    e.fen.len() > 0 && forall|i: int| 0 <= i < e.moves.len() ==> move_ok(#[trigger] e.moves[i])
}

/// `err` is the error reported for the invalid entry `e`: an empty FEN, else its first
/// invalid move.
pub open spec fn entry_error(e: PositionEntryView, err: OpeningBookError) -> bool {
    if e.fen.len() == 0 {
        err matches OpeningBookError::InvalidFen(m) && m@ == "Empty FEN string"@
    } else {
        exists|i: int|
            0 <= i < e.moves.len() && !move_ok(#[trigger] e.moves[i]) && (forall|j: int|
                0 <= j < i ==> move_ok(#[trigger] e.moves[j])) && (err matches OpeningBookError::InvalidMove(m) && m@
                == move_error(i as nat, e.moves[i]))
    }
}

/// Whether no move of the book has the evaluation `i32::MIN`, whose magnitude has no `i32`.
pub open spec fn evaluations_bounded(p: Map<u64, PositionEntryView>) -> bool {
    forall|h: u64, i: int|
        p.contains_key(h) && 0 <= i < p[h].moves.len() ==> #[trigger] p[h].moves[i].evaluation != i32::MIN
}

/// The error text of a count that disagrees with the metadata.
pub open spec fn mismatch_text(what: Seq<char>, recorded: nat, actual: nat) -> Seq<char> {
    what + " count mismatch: metadata="@ + crate::text::decimal(recorded) + ", actual="@ + crate::text::decimal(actual)
}

fn push_position(out: &mut Vec<char>, p: crate::types::Position)
    ensures
        final(out)@ == old(out)@ + position_text(p),
{
    crate::text::push_str(out, "Position { row: ");
    crate::text::push_decimal(out, p.row as u128);
    crate::text::push_str(out, ", col: ");
    crate::text::push_decimal(out, p.col as u128);
    crate::text::push_str(out, " }");
}

fn move_error_text(i: usize, m: &BookMove) -> (r: String)
    requires
        !move_ok(m@),
        m.evaluation != i32::MIN,
    ensures
        r@ == move_error(i as nat, m@),
{
    let mut out: Vec<char> = Vec::new();
    match m.from {
        Some(f) => {
            if !f.is_valid() {
                crate::text::push_str(&mut out, "Invalid from position in move ");
                crate::text::push_decimal(&mut out, i as u128);
                crate::text::push_str(&mut out, ": ");
                push_position(&mut out, f);
                return crate::text::chars_to_string(&out);
            }
        },
        None => {},
    }
    if !m.to.is_valid() {
        crate::text::push_str(&mut out, "Invalid to position in move ");
        crate::text::push_decimal(&mut out, i as u128);
        crate::text::push_str(&mut out, ": ");
        push_position(&mut out, m.to);
    } else if m.weight > 10000 {
        crate::text::push_str(&mut out, "Weight too high in move ");
        crate::text::push_decimal(&mut out, i as u128);
        crate::text::push_str(&mut out, ": ");
        crate::text::push_decimal(&mut out, m.weight as u128);
    } else {
        crate::text::push_str(&mut out, "Evaluation too extreme in move ");
        crate::text::push_decimal(&mut out, i as u128);
        crate::text::push_str(&mut out, ": ");
        crate::text::push_signed(&mut out, m.evaluation as i64);
    }
    crate::text::chars_to_string(&out)
}

fn check_entry(e: &PositionEntry) -> (r: Result<(), OpeningBookError>)
    requires
        forall|i: int| 0 <= i < e.moves@.len() ==> #[trigger] e.moves@[i].evaluation != i32::MIN,
    ensures
        r is Ok <==> entry_ok(e@),
        r matches Err(err) ==> entry_error(e@, err),
{
    if e.fen.as_str().unicode_len() == 0 {
        return Err(OpeningBookError::InvalidFen(crate::text::string_of("Empty FEN string")));
    }
    let mut i: usize = 0;
    while i < e.moves.len()
        invariant
            i <= e.moves@.len(),
            e.fen@.len() > 0,
            forall|k: int| 0 <= k < e.moves@.len() ==> #[trigger] e.moves@[k].evaluation != i32::MIN,
            forall|j: int| 0 <= j < i ==> move_ok(#[trigger] e@.moves[j]),
        decreases e.moves@.len() - i,
    {
        let m = &e.moves[i];
        let from_ok = match m.from {
            Some(f) => f.is_valid(),
            None => true,
        };
        let eval_ok = m.evaluation >= -10000 && m.evaluation <= 10000;
        if !from_ok || !m.to.is_valid() || m.weight > 10000 || !eval_ok {
            assert(e@.moves[i as int] == m@);
            let text = move_error_text(i, m);
            return Err(OpeningBookError::InvalidMove(text));
        }
        assert(e@.moves[i as int] == m@);
        i = i + 1;
    }
    Ok(())
}

impl OpeningBook {
    /// Checks the book: loaded, counts that agree with the metadata, and every position
    /// with a FEN and valid moves; the error names the first failing check (for an
    /// invalid position, that of some invalid position).
    pub fn validate(&self) -> (r: Result<(), OpeningBookError>)
        requires
            evaluations_bounded(self.positions()),
        ensures
            !self.loaded_flag() ==> (r matches Err(OpeningBookError::BinaryFormatError(m)) && m@ == "Opening book not loaded"@),
            self.loaded_flag() && self.meta().position_count != self.positions().len() ==> (r matches Err(
                OpeningBookError::BinaryFormatError(m),
            ) && m@ == mismatch_text("Position"@, self.meta().position_count as nat, self.positions().len())),
            self.loaded_flag() && self.meta().position_count == self.positions().len() && self.meta().move_count
                != self.total() ==> (r matches Err(OpeningBookError::BinaryFormatError(m)) && m@ == mismatch_text(
                "Move"@,
                self.meta().move_count as nat,
                self.total(),
            )),
            self.loaded_flag() && self.meta().position_count == self.positions().len() && self.meta().move_count
                == self.total() ==> ((r is Ok <==> forall|h: u64| #[trigger] self.positions().contains_key(h) ==> entry_ok(self.positions()[h])) && (r matches Err(err) ==> exists|h: u64|
                    #[trigger] self.positions().contains_key(h) && entry_error(self.positions()[h], err))),
    {
        if !self.loaded {
            return Err(OpeningBookError::BinaryFormatError(crate::text::string_of("Opening book not loaded")));
        }
        assert(self.positions().dom() =~= self.positions@.dom());
        let count = self.positions.len();
        if self.metadata.position_count != count {
            let mut out: Vec<char> = Vec::new();
            crate::text::push_str(&mut out, "Position count mismatch: metadata=");
            crate::text::push_decimal(&mut out, self.metadata.position_count as u128);
            crate::text::push_str(&mut out, ", actual=");
            crate::text::push_decimal(&mut out, count as u128);
            proof {
                reveal_strlit("Position");
                reveal_strlit(" count mismatch: metadata=");
                reveal_strlit("Position count mismatch: metadata=");
            }
            assert(out@ =~= mismatch_text("Position"@, self.meta().position_count as nat, self.positions().len()));
            return Err(OpeningBookError::BinaryFormatError(crate::text::chars_to_string(&out)));
        }
        if self.metadata.move_count != self.total_moves {
            let mut out: Vec<char> = Vec::new();
            crate::text::push_str(&mut out, "Move count mismatch: metadata=");
            crate::text::push_decimal(&mut out, self.metadata.move_count as u128);
            crate::text::push_str(&mut out, ", actual=");
            crate::text::push_decimal(&mut out, self.total_moves as u128);
            proof {
                reveal_strlit("Move");
                reveal_strlit(" count mismatch: metadata=");
                reveal_strlit("Move count mismatch: metadata=");
            }
            assert(out@ =~= mismatch_text("Move"@, self.meta().move_count as nat, self.total()));
            return Err(OpeningBookError::BinaryFormatError(crate::text::chars_to_string(&out)));
        }
        let keys = key_list(&self.positions);
        let mut i: usize = 0;
        while i < keys.len()
            invariant
                i <= keys@.len(),
                keys@.to_set() == self.positions@.dom(),
                self.positions().dom() == self.positions@.dom(),
                evaluations_bounded(self.positions()),
                self.loaded_flag(),
                self.meta().position_count == self.positions().len(),
                self.meta().move_count == self.total(),
                forall|j: int| 0 <= j < i ==> entry_ok(self.positions()[#[trigger] keys@[j]]),
            decreases keys@.len() - i,
        {
            let k = keys[i];
            assert(keys@.to_set().contains(k));
            match self.positions.get(&k) {
                Some(entry) => {
                    assert(self.positions()[k] == entry@);
                    proof {
                        assert forall|m: int| 0 <= m < entry.moves@.len() implies #[trigger] entry.moves@[m].evaluation
                            != i32::MIN by {
                            assert(self.positions().contains_key(k));
                            assert(self.positions()[k].moves[m] == entry.moves@[m]@);
                            assert(self.positions()[k].moves[m].evaluation != i32::MIN);
                        }
                    }
                    match check_entry(entry) {
                        Ok(()) => {},
                        Err(e) => {
                            assert(self.positions().contains_key(k));
                            return Err(e);
                        },
                    }
                },
                None => {},
            }
            i = i + 1;
        }
        proof {
            assert forall|h: u64| #[trigger] self.positions().contains_key(h) implies entry_ok(self.positions()[h]) by {
                assert(keys@.to_set().contains(h));
                let j = keys@.index_of(h);
                assert(keys@[j] == h);
            }
        }
        Ok(())
    }
}

// ----- prefill -----

/// The positions after the lazy positions with keys in `done` are decoded into them (those
/// that do not decode are dropped).
pub open spec fn merged(p: Map<u64, PositionEntryView>, l: Map<u64, LazyEntryView>, done: Set<u64>) -> Map<
    u64,
    PositionEntryView,
> {
    Map::new(
        |h: u64| p.contains_key(h) || (done.contains(h) && l.contains_key(h) && decode_moves(l[h].data) is Some),
        |h: u64|
            if done.contains(h) && l.contains_key(h) && decode_moves(l[h].data) is Some {
                PositionEntryView { fen: l[h].fen, moves: decode_moves(l[h].data)->0 }
            } else {
                p[h]
            },
    )
}

/// `pe` holds the FEN of `e`, its last best-ranked move and the side to move of the FEN.
pub open spec fn prefill_of(e: PositionEntryView, pe: crate::opening_book::OpeningBookPrefillEntry) -> bool {
    &&& pe.fen@ == e.fen
    &&& exists|j: int| #[trigger] best_at(e.moves, j) && pe.book_move@ == e.moves[j]
    &&& pe.player == fen_player(e.fen)
}

/// `pe` is the prefill entry of some position of `p`.
pub open spec fn prefill_source(p: Map<u64, PositionEntryView>, pe: crate::opening_book::OpeningBookPrefillEntry) -> bool {
    exists|h: u64| #[trigger] p.contains_key(h) && prefill_of(p[h], pe)
}

impl OpeningBook {
    /// Decodes every lazy position into the loaded positions (dropping those that do not
    /// decode), then gives, for every loaded position with moves, its FEN, its best move
    /// and its side to move.
    pub fn collect_prefill_entries(&mut self) -> (r: Vec<crate::opening_book::OpeningBookPrefillEntry>)
        ensures
            final(self).positions() == merged(old(self).positions(), old(self).lazy(), old(self).lazy().dom()),
            final(self).lazy().dom().is_empty(),
            final(self).cached() == old(self).cached(),
            final(self).cache_size() == old(self).cache_size(),
            final(self).total() == old(self).total(),
            final(self).loaded_flag() == old(self).loaded_flag(),
            final(self).meta() == old(self).meta(),
            final(self).buffer() == old(self).buffer(),
            forall|i: int| 0 <= i < r@.len() ==> prefill_source(final(self).positions(), #[trigger] r@[i]),
            forall|h: u64|
                #[trigger] final(self).positions().contains_key(h) && has_moves(final(self).positions()[h]) ==> exists|i: int|
                    0 <= i < r@.len() && prefill_of(final(self).positions()[h], #[trigger] r@[i]),
    {
        let lazy_keys = key_list(&self.lazy_positions);
        let ghost p0 = self.positions();
        let ghost l0 = self.lazy();
        assert(l0.dom() =~= self.lazy_positions@.dom());
        let mut i: usize = 0;
        while i < lazy_keys.len()
            invariant
                i <= lazy_keys@.len(),
                lazy_keys@.to_set() == l0.dom(),
                lazy_keys@.no_duplicates(),
                self.positions() == merged(p0, l0, lazy_keys@.take(i as int).to_set()),
                self.lazy() == l0.remove_keys(lazy_keys@.take(i as int).to_set()),
                self.cached() == old(self).cached(),
                self.cache_size() == old(self).cache_size(),
                self.total() == old(self).total(),
                self.loaded_flag() == old(self).loaded_flag(),
                self.meta() == old(self).meta(),
                self.buffer() == old(self).buffer(),
            decreases lazy_keys@.len() - i,
        {
            let h = lazy_keys[i];
            let ghost done = lazy_keys@.take(i as int).to_set();
            let ghost done2 = lazy_keys@.take(i + 1).to_set();
            proof {
                assert(lazy_keys@.take(i + 1) =~= lazy_keys@.take(i as int).push(h));
                broadcast use vstd::seq_lib::group_seq_properties;
                assert(done2 =~= done.insert(h));
                assert(lazy_keys@.to_set().contains(h));
                if done.contains(h) {
                    let j = lazy_keys@.take(i as int).index_of(h);
                    assert(lazy_keys@[j] == h);
                }
                assert(!done.contains(h));
                assert(self.lazy().contains_key(h));
                assert(self.lazy()[h] == l0[h]);
            }
            let _ = self.load_lazy_position(h);
            proof {
                assert(self.lazy() =~= l0.remove_keys(done2));
                assert(self.positions() =~= merged(p0, l0, done2));
            }
            i = i + 1;
        }
        proof {
            assert(lazy_keys@.take(lazy_keys@.len() as int) =~= lazy_keys@);
            assert(self.lazy().dom() =~= Set::empty());
        }
        let keys = key_list(&self.positions);
        let mut out: Vec<crate::opening_book::OpeningBookPrefillEntry> = Vec::new();
        let ghost pf = self.positions();
        assert(pf.dom() =~= self.positions@.dom());
        let mut k: usize = 0;
        while k < keys.len()
            invariant
                k <= keys@.len(),
                keys@.to_set() == pf.dom(),
                pf == self.positions(),
                forall|a: int| 0 <= a < out@.len() ==> prefill_source(pf, #[trigger] out@[a]),
                forall|b: int|
                    0 <= b < k && has_moves(pf[keys@[b]]) ==> exists|a: int|
                        0 <= a < out@.len() && prefill_of(pf[#[trigger] keys@[b]], out@[a]),
            decreases keys@.len() - k,
        {
            let h = keys[k];
            assert(keys@.to_set().contains(h));
            match self.positions.get(&h) {
                Some(entry) => {
                    assert(pf[h] == entry@);
                    match entry.get_best_move() {
                        Some(best) => {
                            let player = Self::determine_player_from_fen(entry.fen.as_str());
                            let pe = crate::opening_book::OpeningBookPrefillEntry {
                                fen: entry.fen.clone(),
                                book_move: best.duplicate(),
                                player,
                            };
                            proof {
                                let j = choose|j: int| crate::opening_book::is_last_best(entry.moves@, j) && *best == entry.moves@[j];
                                lemma_best_at(entry.moves@, j);
                                assert(entry@.moves[j] == best@);
                                assert(prefill_of(pf[h], pe));
                            }
                            let ghost old_out = out@;
                            out.push(pe);
                            proof {
                                assert(out@[out@.len() - 1] == pe);
                                assert forall|a: int| 0 <= a < out@.len() implies prefill_source(pf, #[trigger] out@[a]) by {
                                    if a == out@.len() - 1 {
                                        assert(pf.contains_key(h) && prefill_of(pf[h], out@[a]));
                                    }
                                }
                                assert forall|b: int| 0 <= b < k + 1 && has_moves(pf[keys@[b]]) implies exists|a: int|
                                    0 <= a < out@.len() && prefill_of(pf[#[trigger] keys@[b]], out@[a]) by {
                                    if b == k {
                                        assert(prefill_of(pf[keys@[b]], out@[out@.len() - 1]));
                                    } else {
                                        let a = choose|a: int| 0 <= a < old_out.len() && prefill_of(pf[keys@[b]], old_out[a]);
                                        assert(out@[a] == old_out[a]);
                                    }
                                }
                            }
                        },
                        None => {
                            assert(!has_moves(pf[h]));
                        },
                    }
                },
                None => {},
            }
            k = k + 1;
        }
        proof {
            assert forall|h: u64| #[trigger] pf.contains_key(h) && has_moves(pf[h]) implies exists|a: int|
                0 <= a < out@.len() && prefill_of(pf[h], #[trigger] out@[a]) by {
                assert(keys@.to_set().contains(h));
                let b = keys@.index_of(h);
                assert(keys@[b] == h);
            }
        }
        out
    }

    /// The engine move of a book move for `player` on `board`: a capture when it moves a
    /// piece onto an occupied square; never a check.
    pub fn convert_book_move_to_engine_move(
        &self,
        book_move: &BookMove,
        player: Player,
        board: &crate::bitboards::BitboardBoard,
    ) -> (r: crate::types::Move)
        requires
            board.wf(),
            book_move.from is Some ==> book_move.to.valid(),
        ensures
            r == (crate::types::Move {
                is_capture: book_move.from is Some && board.at(book_move.to) is Some,
                captured_piece: if book_move.from is Some {
                    board.at(book_move.to)
                } else {
                    None
                },
                ..engine_move(book_move@, player)
            }),
    {
        let mut engine_move = book_move.to_engine_move(player);
        match book_move.from {
            Some(_) => {
                match board.get_piece(book_move.to) {
                    Some(piece) => {
                        engine_move.is_capture = true;
                        engine_move.captured_piece = Some(piece);
                    },
                    None => {},
                }
            },
            None => {},
        }
        engine_move.gives_check = false;
        engine_move
    }
}

// ----- building books -----

/// Builds an opening book step by step.
pub struct OpeningBookBuilder {
    book: OpeningBook,
}

impl OpeningBookBuilder {
    /// The book built so far.
    pub closed spec fn built(&self) -> OpeningBook {
        self.book
    }

    /// A builder of an empty book.
    pub fn new() -> (r: Self)
        ensures
            r.built().positions().dom().is_empty(),
            r.built().lazy().dom().is_empty(),
            r.built().cached().dom().is_empty(),
            r.built().cache_size() == 100,
            r.built().total() == 0,
            !r.built().loaded_flag(),
            fresh_metadata(r.built().meta()),
    {
        OpeningBookBuilder { book: OpeningBook::new() }
    }

    /// Adds a position with its moves (see `OpeningBook::add_position`).
    pub fn add_position(self, fen: String, moves: Vec<BookMove>) -> (r: Self)
        requires
            self.built().total() + moves@.len() <= usize::MAX,
        ensures
            r.built().positions() == self.built().positions().insert(
                fen_key(fen@),
                PositionEntryView { fen: fen@, moves: move_views(moves@) },
            ),
            r.built().lazy() == self.built().lazy(),
            r.built().cached() == self.built().cached(),
            r.built().cache_size() == self.built().cache_size(),
            r.built().total() == self.built().total() + moves@.len(),
            r.built().loaded_flag() == self.built().loaded_flag(),
            r.built().meta().position_count == r.built().positions().len(),
            r.built().meta().move_count == r.built().total(),
            same_meta_but_counts(self.built().meta(), r.built().meta()),
    {
        let mut b = self;
        b.book.add_position(fen, moves);
        b
    }

    /// Adds one move to the position of `fen`: appended to its entry when there is one
    /// under that key, else a new entry with that move.
    pub fn add_move_to_position(self, fen: String, book_move: BookMove) -> (r: Self)
        requires
            self.built().total() < usize::MAX,
        ensures
            r.built().positions() == self.built().positions().insert(
                fen_key(fen@),
                if self.built().positions().contains_key(fen_key(fen@)) {
                    PositionEntryView {
                        moves: self.built().positions()[fen_key(fen@)].moves.push(book_move@),
                        ..self.built().positions()[fen_key(fen@)]
                    }
                } else {
                    PositionEntryView { fen: fen@, moves: seq![book_move@] }
                },
            ),
            r.built().lazy() == self.built().lazy(),
            r.built().cached() == self.built().cached(),
            r.built().cache_size() == self.built().cache_size(),
            r.built().total() == self.built().total() + 1,
            r.built().loaded_flag() == self.built().loaded_flag(),
            r.built().meta().move_count == r.built().total(),
            !self.built().positions().contains_key(fen_key(fen@)) ==> r.built().meta().position_count
                == r.built().positions().len(),
            self.built().positions().contains_key(fen_key(fen@)) ==> r.built().meta().position_count
                == self.built().meta().position_count,
            same_meta_but_counts(self.built().meta(), r.built().meta()),
    {
        let mut b = self;
        let hash = b.book.hash_fen(fen.as_str());
        let ghost p0 = b.book.positions();
        match b.book.positions.remove(&hash) {
            Some(entry) => {
                let mut entry = entry;
                let ghost before = entry@;
                entry.add_move(book_move);
                assert(entry@.moves =~= before.moves.push(book_move@));
                let ghost after = entry@;
                b.book.positions.insert(hash, entry);
                b.book.total_moves = b.book.total_moves + 1;
                b.book.metadata.move_count = b.book.total_moves;
                assert(b.book.positions() =~= p0.insert(hash, after));
            },
            None => {
                let mut moves: Vec<BookMove> = Vec::new();
                moves.push(book_move);
                let entry = PositionEntry::new(fen, moves);
                let ghost e = entry@;
                assert(e.moves =~= seq![book_move@]);
                b.book.total_moves = b.book.total_moves + 1;
                b.book.positions.insert(hash, entry);
                b.book.metadata.position_count = b.book.positions.len();
                b.book.metadata.move_count = b.book.total_moves;
                assert(b.book.positions() =~= p0.insert(hash, e));
                assert(b.book.positions().dom() =~= b.book.positions@.dom());
            },
        }
        b
    }

    /// Sets the version and the creation and update times.
    pub fn with_metadata(self, version: u32, created_at: Option<String>, updated_at: Option<String>) -> (r: Self)
        ensures
            r.built().meta() == (OpeningBookMetadata { version, created_at, updated_at, ..self.built().meta() }),
            r.built().positions() == self.built().positions(),
            r.built().lazy() == self.built().lazy(),
            r.built().cached() == self.built().cached(),
            r.built().cache_size() == self.built().cache_size(),
            r.built().total() == self.built().total(),
            r.built().loaded_flag() == self.built().loaded_flag(),
    {
        let mut b = self;
        b.book.metadata.version = version;
        b.book.metadata.created_at = created_at;
        b.book.metadata.updated_at = updated_at;
        b
    }

    /// Marks the book loaded.
    pub fn mark_loaded(self) -> (r: Self)
        ensures
            r.built().loaded_flag(),
            r.built().meta() == self.built().meta(),
            r.built().positions() == self.built().positions(),
            r.built().lazy() == self.built().lazy(),
            r.built().cached() == self.built().cached(),
            r.built().cache_size() == self.built().cache_size(),
            r.built().total() == self.built().total(),
    {
        let mut b = self;
        b.book.loaded = true;
        b
    }

    /// The book.
    pub fn build(self) -> (r: OpeningBook)
        ensures
            r == self.built(),
    {
        self.book
    }
}

impl Default for OpeningBookBuilder {
    fn default() -> (r: Self)
        ensures
            r.built().positions().dom().is_empty(),
            r.built().lazy().dom().is_empty(),
            r.built().cached().dom().is_empty(),
            r.built().cache_size() == 100,
            r.built().total() == 0,
            !r.built().loaded_flag(),
            fresh_metadata(r.built().meta()),
    {
        OpeningBookBuilder::new()
    }
}

// ----- the binary book -----

/// The keys of `dom` in increasing order.
pub open spec fn keys_in_order(ks: Seq<u64>, dom: Set<u64>) -> bool {
    &&& ks.to_set() == dom
    &&& forall|i: int, j: int| 0 <= i < j < ks.len() ==> ks[i] < ks[j]
}

/// The record of a position: its FEN (length-prefixed UTF-8), its move count and its moves.
pub open spec fn entry_bytes(e: PositionEntryView) -> Seq<u8> {
    le32(vstd::utf8::encode_utf8(e.fen).len() as u32) + vstd::utf8::encode_utf8(e.fen) + le32(e.moves.len() as u32)
        + moves_bytes(e.moves)
}

/// The records of the positions `ks` of `p`, one after another.
pub open spec fn entries_bytes(p: Map<u64, PositionEntryView>, ks: Seq<u64>) -> Seq<u8>
    decreases ks.len(),
{
    if ks.len() == 0 {
        Seq::empty()
    } else {
        entries_bytes(p, ks.drop_last()) + entry_bytes(p[ks.last()])
    }
}

/// The hash table of the positions `ks` of `p`: each key with the offset of its record,
/// the records starting at `base`.
pub open spec fn table_bytes(p: Map<u64, PositionEntryView>, ks: Seq<u64>, base: int) -> Seq<u8>
    decreases ks.len(),
{
    if ks.len() == 0 {
        Seq::empty()
    } else {
        table_bytes(p, ks.drop_last(), base) + le64(ks.last()) + le64(
            (base + entries_bytes(p, ks.drop_last()).len()) as u64,
        )
    }
}

/// `n` zero bytes.
pub open spec fn zeros(n: nat) -> Seq<u8> {
    Seq::new(n, |i: int| 0u8)
}

/// The smallest power of two from `p` on (doubling) that is at least `n`.
pub open spec fn next_pow2_from(p: nat, n: nat) -> nat
    decreases if p < n { n - p } else { 0 },
{
    if p == 0 || p >= n {
        p
    } else {
        next_pow2_from(2 * p, n)
    }
}

/// The size of the hash table for `n` positions: 0 without positions, else the smallest
/// power of two at least `n`.
pub open spec fn table_size(n: nat) -> nat {
    if n == 0 {
        0
    } else {
        next_pow2_from(1, n)
    }
}

/// The header of a written book.
pub open spec fn written_header(n: nat, tsize: nat, total: nat, time: u64) -> HeaderView {
    HeaderView {
        magic: magic_bytes(),
        version: FORMAT_VERSION,
        entry_count: n as u64,
        hash_table_size: tsize as u64,
        total_moves: total as u64,
        created_at: time,
        updated_at: time,
    }
}

/// A book in binary: the header, then (with positions) the hash table padded with zero
/// slots to its size, then the position records.
pub open spec fn book_bytes(h: HeaderView, p: Map<u64, PositionEntryView>, ks: Seq<u64>, tsize: nat) -> Seq<u8> {
    if ks.len() == 0 {
        header_bytes(h)
    } else {
        header_bytes(h) + table_bytes(p, ks, (48 + 16 * tsize) as int) + zeros((16 * (tsize - ks.len())) as nat) + entries_bytes(
            p,
            ks,
        )
    }
}

pub(crate) proof fn lemma_next_pow2(p: nat, n: nat)
    requires
        p >= 1,
    ensures
        next_pow2_from(p, n) >= n,
        next_pow2_from(p, n) >= p,
        p < n ==> next_pow2_from(p, n) < 2 * n,
    decreases if p < n { n - p } else { 0 },
{
    if p < n {
        lemma_next_pow2(2 * p, n);
    }
}

pub(crate) proof fn lemma_table_len(p: Map<u64, PositionEntryView>, ks: Seq<u64>, base: int)
    ensures
        table_bytes(p, ks, base).len() == 16 * ks.len(),
    decreases ks.len(),
{
    if ks.len() > 0 {
        lemma_table_len(p, ks.drop_last(), base);
    }
}

/// Sorts distinct keys into increasing order.
fn sort_keys(v: &Vec<u64>) -> (r: Vec<u64>)
    requires
        v@.no_duplicates(),
    ensures
        r@.to_set() == v@.to_set(),
        r@.len() == v@.len(),
        forall|i: int, j: int| 0 <= i < j < r@.len() ==> r@[i] < r@[j],
{
    let mut out: Vec<u64> = Vec::new();
    let mut i: usize = 0;
    while i < v.len()
        invariant
            i <= v@.len(),
            v@.no_duplicates(),
            out@.to_set() == v@.take(i as int).to_set(),
            out@.len() == i,
            forall|a: int, b: int| 0 <= a < b < out@.len() ==> out@[a] < out@[b],
        decreases v@.len() - i,
    {
        let x = v[i];
        proof {
            if out@.contains(x) {
                assert(out@.to_set().contains(x));
                assert(v@.take(i as int).to_set().contains(x));
                let j = v@.take(i as int).index_of(x);
                assert(v@[j] == x);
            }
        }
        let mut k = out.len();
        while k > 0 && out[k - 1] > x
            invariant
                k <= out@.len(),
                forall|a: int| k <= a < out@.len() ==> out@[a] > x,
            decreases k,
        {
            k = k - 1;
        }
        let ghost before = out@;
        proof {
            if k > 0 {
                assert(out@[k - 1] != x);
            }
        }
        out.insert(k, x);
        proof {
            assert(v@.take(i + 1) =~= v@.take(i as int).push(x));
            broadcast use vstd::seq_lib::group_seq_properties;
            assert(out@.to_set() =~= before.to_set().insert(x)) by {
                assert forall|y: u64| out@.to_set().contains(y) <==> before.to_set().insert(x).contains(y) by {
                    if out@.contains(y) {
                        let j = out@.index_of(y);
                        if j < k {
                            assert(before[j] == y);
                        } else if j > k {
                            assert(before[j - 1] == y);
                        }
                    }
                    if before.contains(y) {
                        let j = before.index_of(y);
                        if j < k {
                            assert(out@[j] == y);
                        } else {
                            assert(out@[j + 1] == y);
                        }
                    }
                    if y == x {
                        assert(out@[k as int] == x);
                    }
                }
            }
            assert forall|a: int, b: int| 0 <= a < b < out@.len() implies out@[a] < out@[b] by {
                if b < k {
                    assert(out@[a] == before[a] && out@[b] == before[b]);
                } else if b == k {
                    assert(out@[a] == before[a]);
                    if a < k - 1 {
                        assert(before[a] < before[k - 1]);
                    }
                } else if a == k {
                    assert(out@[b] == before[b - 1]);
                } else if a < k {
                    assert(out@[a] == before[a] && out@[b] == before[b - 1]);
                    if k < before.len() {
                        assert(before[a] < before[k as int] || a == k);
                    }
                } else {
                    assert(out@[a] == before[a - 1] && out@[b] == before[b - 1]);
                }
            }
        }
        i = i + 1;
    }
    assert(v@.take(v@.len() as int) =~= v@);
    out
}

/// The encoded size of a book fits in memory offsets.
pub open spec fn book_size_fits(p: Map<u64, PositionEntryView>) -> bool {
    &&& p.len() <= 0x0800_0000_0000_0000
    &&& forall|ks: Seq<u64>| #[trigger] keys_in_order(ks, p.dom()) ==> 48 + 16 * table_size(p.len()) + entries_bytes(p, ks).len() <= isize::MAX
}

impl BinaryWriter {
    /// The record of a position (see `entry_bytes`).
    fn write_position_entry(&self, entry: &PositionEntry) -> (r: Result<Vec<u8>, OpeningBookError>)
        ensures
            r matches Ok(b) && b@ == entry_bytes(entry@),
    {
        let mut bytes: Vec<u8> = Vec::new();
        let fen_bytes = entry.fen.as_str().as_bytes();
        crate::opening_book::binary_format::push_u32(&mut bytes, fen_bytes.len() as u32);
        crate::opening_book::binary_format::push_bytes(&mut bytes, fen_bytes);
        crate::opening_book::binary_format::push_u32(&mut bytes, entry.moves.len() as u32);
        let ghost head = bytes@;
        let mut i: usize = 0;
        while i < entry.moves.len()
            invariant
                i <= entry.moves@.len(),
                bytes@ == head + moves_bytes(move_views(entry.moves@).subrange(0, i as int)),
            decreases entry.moves@.len() - i,
        {
            match self.write_book_move(&entry.moves[i]) {
                Ok(b) => crate::opening_book::binary_format::push_bytes(&mut bytes, b.as_slice()),
                Err(e) => return Err(e),
            }
            assert(move_views(entry.moves@).subrange(0, i + 1).drop_last() == move_views(entry.moves@).subrange(0, i as int));
            i = i + 1;
        }
        assert(move_views(entry.moves@).subrange(0, entry.moves@.len() as int) == move_views(entry.moves@));
        assert(bytes@ =~= entry_bytes(entry@));
        Ok(bytes)
    }

    /// The records of the positions `keys` of `book`, and their offsets from `base`.
    fn encode_entries(&self, book: &OpeningBook, keys: &Vec<u64>, base: usize) -> (r: (Vec<Vec<u8>>, Vec<u64>))
        requires
            keys_in_order(keys@, book.positions().dom()),
            base as int + entries_bytes(book.positions(), keys@).len() <= usize::MAX,
        ensures
            r.0@.len() == keys@.len(),
            r.1@.len() == keys@.len(),
            forall|j: int| 0 <= j < keys@.len() ==> #[trigger] r.0@[j]@ == entry_bytes(book.positions()[keys@[j]]),
            forall|j: int| 0 <= j < keys@.len() ==> #[trigger] r.1@[j] == base + entries_bytes(book.positions(), keys@.take(j)).len(),
    {
        let ghost pv = book.positions();
        let ghost ks = keys@;
        let mut parts: Vec<Vec<u8>> = Vec::new();
        let mut offsets: Vec<u64> = Vec::new();
        let mut current: usize = base;
        let mut k: usize = 0;
        while k < keys.len()
            invariant
                ks == keys@,
                keys_in_order(ks, pv.dom()),
                pv == book.positions(),
                base as int + entries_bytes(pv, ks).len() <= usize::MAX,
                k <= ks.len(),
                parts@.len() == k,
                offsets@.len() == k,
                current == base + entries_bytes(pv, ks.take(k as int)).len(),
                forall|j: int| 0 <= j < k ==> #[trigger] parts@[j]@ == entry_bytes(pv[ks[j]]),
                forall|j: int| 0 <= j < k ==> #[trigger] offsets@[j] == base + entries_bytes(pv, ks.take(j)).len(),
            decreases ks.len() - k,
        {
            let key = keys[k];
            assert(ks.to_set().contains(key));
            assert(pv.dom() =~= book.positions@.dom());
            let entry = match book.positions.get(&key) {
                Some(e) => e,
                None => {
                    return (parts, offsets);
                },
            };
            assert(entry@ == pv[key]);
            let bytes = match self.write_position_entry(entry) {
                Ok(b) => b,
                Err(_) => {
                    return (parts, offsets);
                },
            };
            proof {
                assert(ks.take(k + 1).drop_last() =~= ks.take(k as int));
                assert(ks.take(k + 1).last() == key);
                assert(entries_bytes(pv, ks.take(k + 1)) == entries_bytes(pv, ks.take(k as int)) + entry_bytes(pv[key]));
                lemma_entries_prefix_le(pv, ks, k + 1);
            }
            offsets.push(current as u64);
            current = current + bytes.len();
            parts.push(bytes);
            k = k + 1;
        }
        (parts, offsets)
    }

    /// A book in binary (see `book_bytes`): the header (stamped with the current time),
    /// the hash table of the positions in increasing key order, padded with zero slots to
    /// a power of two, and the position records.
    pub fn write_opening_book(&mut self, book: &OpeningBook) -> (r: Result<Vec<u8>, OpeningBookError>)
        requires
            book_size_fits(book.positions()),
        ensures
            r matches Ok(b) && final(self).buffer_spec() == b@ && exists|time: u64, ks: Seq<u64>|
                keys_in_order(ks, book.positions().dom()) && b@ == book_bytes(
                    written_header(book.positions().len(), table_size(book.positions().len()), book.total(), time),
                    book.positions(),
                    ks,
                    table_size(book.positions().len()),
                ),
    {
        let ghost pv = book.positions();
        assert(pv.dom() =~= book.positions@.dom());
        let n = book.positions.len();
        let entry_count = n as u64;
        let tsize = table_size_of(entry_count);
        let header = BinaryHeader::new(entry_count, tsize, book.total_moves as u64);
        let ghost h = header@;
        let hb = header.to_bytes();
        let mut out: Vec<u8> = Vec::new();
        crate::opening_book::binary_format::push_bytes(&mut out, hb.as_slice());
        assert(h == written_header(n as nat, tsize as nat, book.total(), h.created_at));
        if entry_count == 0 {
            proof {
                let ks = Seq::<u64>::empty();
                assert(keys_in_order(ks, pv.dom())) by {
                    assert(ks.to_set() =~= pv.dom());
                }
                assert(out@ =~= book_bytes(h, pv, ks, 0));
                assert(keys_in_order(ks, book.positions().dom()) && out@ == book_bytes(
                    written_header(book.positions().len(), table_size(book.positions().len()), book.total(), h.created_at),
                    book.positions(),
                    ks,
                    table_size(book.positions().len()),
                ));
            }
            self.buffer = copy_bytes(&out);
            proof {
                self.lemma_buffer_spec();
            }
            return Ok(out);
        }
        let keys = sort_keys(&key_list(&book.positions));
        let ghost ks = keys@;
        assert(keys_in_order(ks, pv.dom()));
        proof {
            lemma_next_pow2(1, n as nat);
        }
        let base: usize = 48 + (tsize * 16) as usize;
        let (parts, offsets) = self.encode_entries(book, &keys, base);
        write_table(&mut out, &keys, &offsets, Ghost(pv), base);
        let ghost table_end = out@;
        write_padding(&mut out, entry_count, tsize);
        let ghost pad_end = out@;
        write_parts(&mut out, &parts, Ghost(pv), Ghost(ks));
        assert(out@ =~= book_bytes(h, pv, ks, tsize as nat));
        assert(keys_in_order(ks, book.positions().dom()) && out@ == book_bytes(
            written_header(book.positions().len(), table_size(book.positions().len()), book.total(), h.created_at),
            book.positions(),
            ks,
            table_size(book.positions().len()),
        ));
        self.buffer = copy_bytes(&out);
        proof {
            self.lemma_buffer_spec();
        }
        Ok(out)
    }
}

fn table_size_of(n: u64) -> (r: u64)
    requires
        n <= 0x0800_0000_0000_0000,
    ensures
        r == table_size(n as nat),
        n > 0 ==> r < 2 * n,
{
    if n == 0 {
        return 0;
    }
    let mut tsize: u64 = 1;
    proof {
        lemma_next_pow2(1, n as nat);
    }
    while tsize < n
        invariant
            1 <= tsize,
            n <= 0x0800_0000_0000_0000,
            next_pow2_from(tsize as nat, n as nat) == table_size(n as nat),
            table_size(n as nat) < 2 * n,
            tsize <= next_pow2_from(tsize as nat, n as nat),
        decreases if tsize < n {
            n - tsize
        } else {
            0
        },
    {
        proof {
            lemma_next_pow2(2 * tsize as nat, n as nat);
        }
        tsize = tsize * 2;
    }
    tsize
}

fn write_table(out: &mut Vec<u8>, keys: &Vec<u64>, offsets: &Vec<u64>, pv: Ghost<Map<u64, PositionEntryView>>, base: usize)
    requires
        offsets@.len() == keys@.len(),
        forall|j: int| 0 <= j < keys@.len() ==> #[trigger] offsets@[j] == base + entries_bytes(pv@, keys@.take(j)).len(),
    ensures
        final(out)@ == old(out)@ + table_bytes(pv@, keys@, base as int),
{
    let ghost ks = keys@;
    let mut t: usize = 0;
    while t < keys.len()
        invariant
            ks == keys@,
            t <= ks.len(),
            offsets@.len() == ks.len(),
            forall|j: int| 0 <= j < ks.len() ==> #[trigger] offsets@[j] == base + entries_bytes(pv@, ks.take(j)).len(),
            out@ == old(out)@ + table_bytes(pv@, ks.take(t as int), base as int),
        decreases ks.len() - t,
    {
        crate::opening_book::binary_format::push_u64(out, keys[t]);
        crate::opening_book::binary_format::push_u64(out, offsets[t]);
        proof {
            assert(ks.take(t + 1).drop_last() =~= ks.take(t as int));
            assert(ks.take(t + 1).last() == ks[t as int]);
        }
        t = t + 1;
    }
    assert(ks.take(ks.len() as int) =~= ks);
}

fn write_padding(out: &mut Vec<u8>, from: u64, to: u64)
    requires
        from <= to,
    ensures
        final(out)@ == old(out)@ + zeros((16 * (to - from)) as nat),
{
    let mut pad: u64 = from;
    while pad < to
        invariant
            from <= pad <= to,
            out@ == old(out)@ + zeros((16 * (pad - from)) as nat),
        decreases to - pad,
    {
        let mut z: usize = 0;
        let ghost before = out@;
        while z < 16
            invariant
                z <= 16,
                out@ == before + zeros(z as nat),
            decreases 16 - z,
        {
            out.push(0u8);
            assert(out@ =~= before + zeros((z + 1) as nat));
            z = z + 1;
        }
        assert(out@ =~= old(out)@ + zeros((16 * (pad + 1 - from)) as nat));
        pad = pad + 1;
    }
}

fn write_parts(out: &mut Vec<u8>, parts: &Vec<Vec<u8>>, pv: Ghost<Map<u64, PositionEntryView>>, ks: Ghost<Seq<u64>>)
    requires
        parts@.len() == ks@.len(),
        forall|j: int| 0 <= j < ks@.len() ==> #[trigger] parts@[j]@ == entry_bytes(pv@[ks@[j]]),
    ensures
        final(out)@ == old(out)@ + entries_bytes(pv@, ks@),
{
    let mut e: usize = 0;
    while e < parts.len()
        invariant
            e <= parts@.len(),
            parts@.len() == ks@.len(),
            forall|j: int| 0 <= j < ks@.len() ==> #[trigger] parts@[j]@ == entry_bytes(pv@[ks@[j]]),
            out@ == old(out)@ + entries_bytes(pv@, ks@.take(e as int)),
        decreases parts@.len() - e,
    {
        crate::opening_book::binary_format::push_bytes(out, parts[e].as_slice());
        proof {
            assert(ks@.take(e + 1).drop_last() =~= ks@.take(e as int));
            assert(ks@.take(e + 1).last() == ks@[e as int]);
        }
        e = e + 1;
    }
    assert(ks@.take(ks@.len() as int) =~= ks@);
}

proof fn lemma_entries_prefix_le(p: Map<u64, PositionEntryView>, ks: Seq<u64>, k: int)
    requires
        0 <= k <= ks.len(),
    ensures
        entries_bytes(p, ks.take(k)).len() <= entries_bytes(p, ks).len(),
    decreases ks.len() - k,
{
    if k < ks.len() {
        lemma_entries_prefix_le(p, ks, k + 1);
        assert(ks.take(k + 1).drop_last() =~= ks.take(k));
    } else {
        assert(ks.take(k) =~= ks);
    }
}

fn copy_bytes(v: &Vec<u8>) -> (r: Vec<u8>)
    ensures
        r@ == v@,
{
    vstd::slice::slice_to_vec(v.as_slice())
}

impl OpeningBook {
    /// The book in binary (see `BinaryWriter::write_opening_book`).
    pub fn to_binary(&self) -> (r: Result<Vec<u8>, OpeningBookError>)
        requires
            book_size_fits(self.positions()),
        ensures
            r matches Ok(b) && exists|time: u64, ks: Seq<u64>|
                keys_in_order(ks, self.positions().dom()) && b@ == book_bytes(
                    written_header(self.positions().len(), table_size(self.positions().len()), self.total(), time),
                    self.positions(),
                    ks,
                    table_size(self.positions().len()),
                ),
    {
        let mut writer = BinaryWriter::new();
        writer.write_opening_book(self)
    }
}

impl OpeningBook {
    /// Reads a book from binary data (see `BinaryReader::read_opening_book`).
    pub fn from_binary(data: &[u8]) -> (r: Result<Self, OpeningBookError>)
        requires
            readable(data@),
        ensures
            reads_book(data@, r),
    {
        let mut reader = BinaryReader::new(vstd::slice::slice_to_vec(data));
        reader.read_opening_book()
    }

    /// Reads a book from binary data it takes over.
    pub fn from_binary_boxed(data: Vec<u8>) -> (r: Result<Self, OpeningBookError>)
        requires
            readable(data@),
        ensures
            reads_book(data@, r),
    {
        let mut reader = BinaryReader::new(data);
        reader.read_opening_book()
    }

    /// Replaces the positions, move total, loaded flag and metadata of this book by those
    /// read from binary data; the lazily stored positions and the cache stay. On an error
    /// the book is unchanged.
    pub fn load_from_binary(&mut self, data: &[u8]) -> (r: Result<(), OpeningBookError>)
        requires
            readable(data@),
        ensures
            r is Err <==> read_fails(data@),
            r is Err ==> *final(self) == *old(self),
            r is Ok ==> {
                &&& final(self).positions() == read_positions(data@)
                &&& final(self).total() == read_total(data@)
                &&& final(self).loaded_flag() == (recorded_table_size(data@) != 0)
                &&& read_metadata(final(self).meta(), decode_header(data@), read_positions(data@).len(), read_total(data@))
                &&& final(self).lazy() == old(self).lazy()
                &&& final(self).cached() == old(self).cached()
                &&& final(self).cache_size() == old(self).cache_size()
            },
    {
        let book = match Self::from_binary(data) {
            Ok(b) => b,
            Err(e) => {
                return Err(e);
            },
        };
        self.replace_contents(book);
        Ok(())
    }

    /// Takes over the positions, move total, loaded flag and metadata of `book`; the lazily
    /// stored positions and the cache stay.
    pub fn replace_contents(&mut self, book: OpeningBook)
        ensures
            final(self).positions() == book.positions(),
            final(self).total() == book.total(),
            final(self).loaded_flag() == book.loaded_flag(),
            final(self).meta() == book.meta(),
            final(self).lazy() == old(self).lazy(),
            final(self).cached() == old(self).cached(),
            final(self).cache_size() == old(self).cache_size(),
    {
        self.positions = book.positions;
        self.total_moves = book.total_moves;
        self.loaded = book.loaded;
        self.metadata = book.metadata;
    }
}

/// Whether the data starts with the magic bytes and the current version.
pub open spec fn header_ok(d: Seq<u8>) -> bool {
    d.subrange(0, 4) == magic_bytes() && u32_at(d, 4) == FORMAT_VERSION
}

/// The hash-table size recorded in the header.
pub open spec fn recorded_table_size(d: Seq<u8>) -> nat {
    (u64_at(d, 16) as usize) as nat
}

/// The key and record offset of hash-table slot `k`.
pub open spec fn slot(d: Seq<u8>, k: int) -> (u64, u64) {
    (u64_at(d, 48 + 16 * k), u64_at(d, 56 + 16 * k))
}

/// The views of stored position entries, by key.
pub open spec fn entry_views(m: Map<u64, PositionEntry>) -> Map<u64, PositionEntryView> {
    m.map_values(|e: PositionEntry| e@)
}

/// The positions and move total after reading hash-table slot `s` (key, record offset) on
/// top of `acc`: an empty slot (key and offset both zero) changes nothing; any other slot's
/// record is read at its offset and stored under its key, replacing an earlier one.
pub open spec fn slot_step(
    d: Seq<u8>,
    acc: Option<(Map<u64, PositionEntryView>, nat)>,
    s: (u64, u64),
) -> Option<(Map<u64, PositionEntryView>, nat)> {
    match acc {
        None => None,
        Some((m, t)) => if s.0 == 0 && s.1 == 0 {
            Some((m, t))
        } else {
            match read_entry(d, s.1 as int) {
                Ok((fen, ms, _)) => Some((m.insert(s.0, PositionEntryView { fen, moves: ms }), t + ms.len())),
                Err(_) => None,
            }
        },
    }
}

/// The positions and move total read from the first `n` slots, or `None` when a record
/// cannot be read.
pub open spec fn read_slots(d: Seq<u8>, n: nat) -> Option<(Map<u64, PositionEntryView>, nat)>
    decreases n,
{
    if n == 0 {
        Some((Map::empty(), 0))
    } else {
        slot_step(d, read_slots(d, (n - 1) as nat), slot(d, n - 1))
    }
}

/// The metadata of a book read from data with header `h`.
pub open spec fn read_metadata(m: OpeningBookMetadata, h: HeaderView, positions: nat, moves: nat) -> bool {
    &&& m.version == h.version
    &&& m.position_count == positions
    &&& m.move_count == moves
    &&& crate::opening_book::opt_text(m.created_at) == Some(crate::text::decimal(h.created_at as nat))
    &&& crate::opening_book::opt_text(m.updated_at) == Some(crate::text::decimal(h.updated_at as nat))
    &&& !m.streaming_enabled
    &&& m.chunk_size == 0
}

/// What reading a binary book demands of the data beyond its format: the header is there,
/// the hash table can be allocated, and move totals fit.
pub open spec fn readable(d: Seq<u8>) -> bool {
    &&& d.len() >= 48
    &&& header_ok(d) ==> recorded_table_size(d) * 16 <= isize::MAX
    &&& header_ok(d) ==> forall|k: nat|
        k <= recorded_table_size(d) ==> (#[trigger] read_slots(d, k) matches Some((_, t)) ==> t <= usize::MAX)
}

/// Whether reading a binary book from `d` fails: a wrong header, or a table that does not
/// fit in the data or has a record that cannot be read.
pub open spec fn read_fails(d: Seq<u8>) -> bool {
    let n = recorded_table_size(d);
    ||| !header_ok(d)
    ||| n != 0 && (48 + 16 * n > d.len() || read_slots(d, n) is None)
}

/// The positions read from a binary book.
pub open spec fn read_positions(d: Seq<u8>) -> Map<u64, PositionEntryView> {
    let n = recorded_table_size(d);
    if n == 0 {
        Map::empty()
    } else {
        match read_slots(d, n) {
            Some((m, _)) => m,
            None => Map::empty(),
        }
    }
}

/// The move total read from a binary book: the sum of the move counts of its records.
pub open spec fn read_total(d: Seq<u8>) -> nat {
    let n = recorded_table_size(d);
    if n == 0 {
        0
    } else {
        match read_slots(d, n) {
            Some((_, t)) => t,
            None => 0,
        }
    }
}

/// `r` is what reading the binary book `d` gives: an error exactly when it fails, else a
/// book of the positions read, with no lazily stored ones, an empty cache of 100 entries,
/// the move total read, marked loaded when the table is not empty, and metadata from
/// the header.
pub open spec fn reads_book(d: Seq<u8>, r: Result<OpeningBook, OpeningBookError>) -> bool {
    if read_fails(d) {
        r is Err
    } else {
        r matches Ok(book) && book.positions() == read_positions(d) && book.lazy().dom().is_empty()
            && book.cached().dom().is_empty() && book.cache_size() == 100 && book.total() == read_total(d)
            && book.loaded_flag() == (recorded_table_size(d) != 0) && read_metadata(
            book.meta(),
            decode_header(d),
            read_positions(d).len(),
            read_total(d),
        )
    }
}

fn text_of_u64(x: u64) -> (r: String)
    ensures
        r@ == crate::text::decimal(x as nat),
{
    let mut v: Vec<char> = Vec::new();
    crate::text::push_decimal(&mut v, x as u128);
    crate::text::chars_to_string(&v)
}

impl BinaryReader {
    /// Reads the record of hash-table slot `(h, o)` and stores it under `h`, adding its
    /// move count to `total` (see `slot_step`).
    fn read_slot(
        &mut self,
        positions: &mut HashMap<u64, PositionEntry>,
        total: &mut usize,
        h: u64,
        o: u64,
    ) -> (r: Result<(), OpeningBookError>)
        requires
            !(h == 0 && o == 0),
            slot_step(old(self).bytes(), Some((entry_views(old(positions)@), *old(total) as nat)), (h, o)) matches Some((_, t))
                ==> t <= usize::MAX,
        ensures
            final(self).bytes() == old(self).bytes(),
            match slot_step(old(self).bytes(), Some((entry_views(old(positions)@), *old(total) as nat)), (h, o)) {
                None => r is Err,
                Some((m, t)) => r is Ok && entry_views(final(positions)@) == m && *final(total) as nat == t,
            },
    {
        let ghost d = self.bytes();
        self.seek(o);
        let (fen, moves) = match self.read_position_entry() {
            Ok(entry) => entry,
            Err(e) => {
                return Err(e);
            },
        };
        *total = *total + moves.len();
        let entry = PositionEntry { fen, moves };
        let ghost ev = entry@;
        positions.insert(h, entry);
        assert(entry_views(positions@) =~= entry_views(old(positions)@).insert(h, ev));
        Ok(())
    }

    /// Reads a binary book (see `book_bytes`): the header, then, for a non-empty table, the
    /// table slots and the record of every non-empty slot. A book read with a table is
    /// marked loaded; one without is not.
    pub fn read_opening_book(&mut self) -> (r: Result<OpeningBook, OpeningBookError>)
        requires
            readable(old(self).bytes()),
        ensures
            reads_book(old(self).bytes(), r),
    {
        let ghost d = self.bytes();
        let header = match self.read_header() {
            Ok(h) => h,
            Err(e) => {
                return Err(e);
            },
        };
        let table_size = header.hash_table_size as usize;
        if table_size == 0 {
            let book = OpeningBook {
                positions: HashMap::new(),
                lazy_positions: HashMap::new(),
                position_cache: cache_new(100),
                temp_buffer: Vec::new(),
                total_moves: 0,
                loaded: false,
                metadata: OpeningBookMetadata {
                    version: header.version,
                    position_count: 0,
                    move_count: 0,
                    created_at: Some(text_of_u64(header.created_at)),
                    updated_at: Some(text_of_u64(header.updated_at)),
                    streaming_enabled: false,
                    chunk_size: 0,
                },
            };
            assert(book.positions() =~= Map::empty());
            assert(book.lazy().dom() =~= Set::empty());
            return Ok(book);
        }
        let slots = match self.read_slot_table(table_size) {
            Ok(v) => v,
            Err(e) => {
                return Err(e);
            },
        };
        let mut positions: HashMap<u64, PositionEntry> = HashMap::new();
        let mut total: usize = 0;
        let mut i: usize = 0;
        assert(entry_views(positions@) =~= Map::empty());
        while i < slots.len()
            invariant
                self.bytes() == d,
                d == old(self).bytes(),
                readable(d),
                header_ok(d),
                table_size == recorded_table_size(d),
                slots@.len() == table_size,
                forall|j: int| 0 <= j < table_size ==> (#[trigger] slots@[j]).position_hash == slot(d, j).0
                    && slots@[j].entry_offset == slot(d, j).1,
                i <= table_size,
                read_slots(d, i as nat) == Some((entry_views(positions@), total as nat)),
            decreases table_size - i,
        {
            let h = slots[i].position_hash;
            let o = slots[i].entry_offset;
            if !(h == 0 && o == 0) {
                assert(read_slots(d, (i + 1) as nat) == slot_step(d, read_slots(d, i as nat), (h, o)));
                match self.read_slot(&mut positions, &mut total, h, o) {
                    Ok(()) => {},
                    Err(e) => {
                        proof {
                            lemma_read_slots_fail(d, (i + 1) as nat, table_size as nat);
                        }
                        return Err(e);
                    },
                }
            }
            i = i + 1;
        }
        let position_count = positions.len();
        let book = OpeningBook {
            positions,
            lazy_positions: HashMap::new(),
            position_cache: cache_new(100),
            temp_buffer: Vec::new(),
            total_moves: total,
            loaded: true,
            metadata: OpeningBookMetadata {
                version: header.version,
                position_count,
                move_count: total,
                created_at: Some(text_of_u64(header.created_at)),
                updated_at: Some(text_of_u64(header.updated_at)),
                streaming_enabled: false,
                chunk_size: 0,
            },
        };
        assert(book.lazy().dom() =~= Set::empty());
        assert(entry_views(book.positions@).dom() =~= book.positions@.dom());
        assert(book.positions() == entry_views(book.positions@));
        assert(i == table_size);
        Ok(book)
    }

    /// The `n` hash-table slots that follow the header, leaving the reader after them.
    fn read_slot_table(&mut self, n: usize) -> (r: Result<Vec<HashTableEntry>, OpeningBookError>)
        requires
            old(self).offset() == 48,
            old(self).bytes().len() >= 48,
        ensures
            final(self).bytes() == old(self).bytes(),
            48 + 16 * n <= old(self).bytes().len() ==> (r matches Ok(v) && v@.len() == n && forall|j: int|
                0 <= j < n ==> (#[trigger] v@[j]).position_hash == slot(old(self).bytes(), j).0 && v@[j].entry_offset
                    == slot(old(self).bytes(), j).1),
            48 + 16 * n > old(self).bytes().len() ==> r is Err,
    {
        let ghost d = self.bytes();
        let mut slots: Vec<HashTableEntry> = Vec::new();
        let mut k: usize = 0;
        while k < n
            invariant
                self.bytes() == d,
                d == old(self).bytes(),
                k <= n,
                self.offset() == 48 + 16 * k,
                48 + 16 * k <= d.len(),
                slots@.len() == k,
                forall|j: int| 0 <= j < k ==> (#[trigger] slots@[j]).position_hash == slot(d, j).0 && slots@[j].entry_offset
                    == slot(d, j).1,
            decreases n - k,
        {
            let h = match self.read_u64() {
                Ok(v) => v,
                Err(e) => {
                    return Err(e);
                },
            };
            let o = match self.read_u64() {
                Ok(v) => v,
                Err(e) => {
                    return Err(e);
                },
            };
            slots.push(HashTableEntry { position_hash: h, entry_offset: o });
            k = k + 1;
        }
        Ok(slots)
    }
}

/// Once reading the slots fails, reading more of them fails too.
proof fn lemma_read_slots_fail(d: Seq<u8>, i: nat, n: nat)
    requires
        i <= n,
        read_slots(d, i) is None,
    ensures
        read_slots(d, n) is None,
    decreases n - i,
{
    if i < n {
        lemma_read_slots_fail(d, i + 1, n);
    }
}

// ----- laws -----

/// A lookup of a key whose entry was just stored with the positions (`add_position`), and
/// that the cache does not hold, finds that entry.
pub proof fn law_lookup_finds_added(
    c0: Map<u64, PositionEntryView>,
    cap: nat,
    p0: Map<u64, PositionEntryView>,
    l0: Map<u64, LazyEntryView>,
    fen: Seq<char>,
    moves: Seq<BookMoveView>,
    c1: Map<u64, PositionEntryView>,
    p1: Map<u64, PositionEntryView>,
    l1: Map<u64, LazyEntryView>,
    found: Option<PositionEntryView>,
)
    requires
        !c0.contains_key(fen_key(fen)),
        probe(
            c0,
            cap,
            p0.insert(fen_key(fen), PositionEntryView { fen, moves }),
            l0,
            fen_key(fen),
            accept_entry(0),
            c1,
            p1,
            l1,
            found,
        ),
    ensures
        found == Some(PositionEntryView { fen, moves }),
{
    reveal(probe);
}

/// A lookup leaves the entry it found in the cache.
pub proof fn law_lookup_caches(
    c0: Map<u64, PositionEntryView>,
    cap: nat,
    p0: Map<u64, PositionEntryView>,
    l0: Map<u64, LazyEntryView>,
    h: u64,
    kind: u8,
    c1: Map<u64, PositionEntryView>,
    p1: Map<u64, PositionEntryView>,
    l1: Map<u64, LazyEntryView>,
    found: Option<PositionEntryView>,
)
    requires
        probe(c0, cap, p0, l0, h, accept_entry(kind), c1, p1, l1, found),
    ensures
        found matches Some(e) ==> c1.contains_key(h) && c1[h] == e,
{
    reveal(probe);
    if found is Some && !(c0.contains_key(h) && accept_entry(kind)(c0[h])) {
        let c_mid = choose|c_mid: Map<u64, PositionEntryView>| probe_tail(c0, cap, p0, l0, h, accept_entry(kind), c_mid, c1, p1, l1, found);
        if p0.contains_key(h) {
            lemma_put_holds(c0, cap, h, p0[h], c_mid);
        }
        if !(p0.contains_key(h) && accept_entry(kind)(p0[h])) {
            let e = PositionEntryView { fen: l0[h].fen, moves: decode_moves(l0[h].data)->0 };
            lemma_put_holds(c_mid, cap, h, e, c1);
        }
    }
}

/// Looking a key up twice gives the same entry the second time, from the cache.
pub proof fn law_repeat_lookup(
    c0: Map<u64, PositionEntryView>,
    cap: nat,
    p0: Map<u64, PositionEntryView>,
    l0: Map<u64, LazyEntryView>,
    h: u64,
    c1: Map<u64, PositionEntryView>,
    p1: Map<u64, PositionEntryView>,
    l1: Map<u64, LazyEntryView>,
    found1: Option<PositionEntryView>,
    c2: Map<u64, PositionEntryView>,
    p2: Map<u64, PositionEntryView>,
    l2: Map<u64, LazyEntryView>,
    found2: Option<PositionEntryView>,
)
    requires
        probe(c0, cap, p0, l0, h, accept_entry(0), c1, p1, l1, found1),
        probe(c1, cap, p1, l1, h, accept_entry(0), c2, p2, l2, found2),
        found1 is Some,
    ensures
        found2 == found1,
        c2 == c1,
        p2 == p1,
        l2 == l1,
{
    law_lookup_caches(c0, cap, p0, l0, h, 0, c1, p1, l1, found1);
    reveal(probe);
}

proof fn lemma_put_holds(
    old: Map<u64, PositionEntryView>,
    cap: nat,
    k: u64,
    v: PositionEntryView,
    new: Map<u64, PositionEntryView>,
)
    requires
        put_result(old, cap, k, v, new),
    ensures
        new.contains_key(k),
        new[k] == v,
{
    if !(old.contains_key(k) || old.len() < cap) {
        let j = choose|j: u64| old.contains_key(j) && new == old.remove(j).insert(k, v);
    }
}

proof fn lemma_insert_len_bound<V>(m: Map<u64, V>, k: u64, v: V)
    requires
        m.dom().finite(),
    ensures
        m.insert(k, v).len() <= m.len() + 1,
{
    if m.contains_key(k) {
        assert(m.insert(k, v).dom() =~= m.dom());
    } else {
        assert(m.insert(k, v).dom() =~= m.dom().insert(k));
    }
}
} // verus!
