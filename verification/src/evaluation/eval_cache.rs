//! A direct-mapped cache of position evaluations with configurable replacement,
//! verification of stored keys, statistics, a description of the configuration and advice
//! drawn from the counters.

use vstd::prelude::*;
use crate::types::{piece_from_index, piece_index, seq_count, CapturedPieces, Piece, PieceType, Player};
use crate::bitboards::BitboardBoard;
use crate::text::{
    bool_text, chars_to_string, err_text, decimal, fixed2, push_bool, push_decimal,
    push_fixed2, push_str, string_of,
};

verus! {


/// Whether `x` is a power of two.
pub open spec fn is_pow2(x: nat) -> bool
    decreases x,
{
    if x == 1 {
        true
    } else if x == 0 || x % 2 == 1 {
        false
    } else {
        is_pow2(x / 2)
    }
}

/// The smallest power of two that is at least `n`.
pub open spec fn is_next_pow2(n: nat, r: nat) -> bool {
    is_pow2(r) && r >= n && (r == 1 || r / 2 < n)
}

/// Whether `x` is a power of two.
pub fn is_power_of_two(x: usize) -> (r: bool)
    ensures
        r == is_pow2(x as nat),
{
    if x == 0 {
        return false;
    }
    let mut y = x;
    while y > 1 && y % 2 == 0
        invariant
            y > 0,
            is_pow2(y as nat) == is_pow2(x as nat),
        decreases y,
    {
        y = y / 2;
    }
    y == 1
}

/// The smallest power of two that is at least `n` (1 for 0).
pub fn next_power_of_two(n: usize) -> (r: usize)
    requires
        n <= usize::MAX / 2 + 1,
    ensures
        is_next_pow2(n as nat, r as nat),
{
    let mut p: usize = 1;
    while p < n
        invariant
            is_pow2(p as nat),
            p == 1 || p / 2 < n,
            n <= usize::MAX / 2 + 1,
        decreases usize::MAX - p,
    {
        assert(is_pow2((p * 2) as nat)) by {
            assert((p * 2) as nat / 2 == p);
        }
        p = p * 2;
    }
    p
}

/// Policy deciding whether a store replaces an occupied slot.
#[derive(Clone, Copy, Debug, PartialEq, Eq, Structural)]
pub enum ReplacementPolicy {
    /// Always replace the existing entry.
    AlwaysReplace,
    /// Replace when the new depth is at least the existing depth.
    DepthPreferred,
    /// Replace when the existing entry is old or the new depth is much greater.
    AgingBased,
}

/// Configuration of the evaluation cache.
#[derive(Clone, Copy, Debug, PartialEq, Eq, Structural)]
pub struct EvaluationCacheConfig {
    /// Number of entries (a power of two).
    pub size: usize,
    pub replacement_policy: ReplacementPolicy,
    /// Whether statistics are counted.
    pub enable_statistics: bool,
    /// Whether stored keys are checked with their verification bits.
    pub enable_verification: bool,
}

/// The default cache configuration: 2^20 entries, depth-preferred, statistics and verification on.
pub open spec fn default_cache_config() -> EvaluationCacheConfig {
    EvaluationCacheConfig {
        size: 1048576,
        replacement_policy: ReplacementPolicy::DepthPreferred,
        enable_statistics: true,
        enable_verification: true,
    }
}

/// A configuration is valid when its size is a power of two between 1024 and 2^27.
pub open spec fn config_valid(size: nat) -> bool {
    is_pow2(size) && 1024 <= size <= 134217728
}

impl Default for EvaluationCacheConfig {
    fn default() -> (r: Self)
        ensures
            r == default_cache_config(),
    {
        EvaluationCacheConfig {
            size: 1048576,
            replacement_policy: ReplacementPolicy::DepthPreferred,
            enable_statistics: true,
            enable_verification: true,
        }
    }
}

impl EvaluationCacheConfig {
    /// A default configuration whose size is the power of two reached by rounding
    /// `size_mb` megabytes of 32-byte entries up.
    pub fn with_size_mb(size_mb: usize) -> (r: Self)
        requires
            size_mb * 1048576 <= usize::MAX,
        ensures
            is_next_pow2(((size_mb * 1048576) / 32) as nat, r.size as nat),
            r.replacement_policy == ReplacementPolicy::DepthPreferred,
            r.enable_statistics,
            r.enable_verification,
    {
        let entries = (size_mb * 1048576) / 32;
        let size = next_power_of_two(entries);
        EvaluationCacheConfig {
            size,
            replacement_policy: ReplacementPolicy::DepthPreferred,
            enable_statistics: true,
            enable_verification: true,
        }
    }

    /// Ok when the size is a power of two within 1024..=2^27, else an error naming the
    /// first violated bound and the size.
    pub fn validate(&self) -> (r: Result<(), String>)
        ensures
            r is Ok <==> config_valid(self.size as nat),
            !is_pow2(self.size as nat) ==> r is Err && err_text(r)
                == "Cache size must be a power of 2, got "@ + decimal(self.size as nat),
            is_pow2(self.size as nat) && self.size < 1024 ==> r is Err && err_text(r)
                == "Cache size too small (minimum 1024 entries), got "@ + decimal(
                self.size as nat,
            ),
            is_pow2(self.size as nat) && self.size > 134217728 ==> r is Err && err_text(r)
                == "Cache size too large (maximum 128M entries), got "@ + decimal(
                self.size as nat,
            ),
    {
        let mut v: Vec<char> = Vec::new();
        if !is_power_of_two(self.size) {
            push_str(&mut v, "Cache size must be a power of 2, got ");
            push_decimal(&mut v, self.size as u128);
            return Err(chars_to_string(&v));
        }
        if self.size < 1024 {
            push_str(&mut v, "Cache size too small (minimum 1024 entries), got ");
            push_decimal(&mut v, self.size as u128);
            return Err(chars_to_string(&v));
        }
        if self.size > 134217728 {
            push_str(&mut v, "Cache size too large (maximum 128M entries), got ");
            push_decimal(&mut v, self.size as u128);
            return Err(chars_to_string(&v));
        }
        Ok(())
    }

    /// A multi-line description of the configuration. The size in megabytes is
    /// `size * 32 / 2^20` with two decimals, which binary floating point holds exactly for
    /// every size up to 2^48 entries.
    pub fn summary(&self) -> (r: String)
        requires
            self.size <= 281474976710656,
        ensures
            r@ == config_summary_text(*self),
    {
        let mut v: Vec<char> = Vec::new();
        push_str(&mut v, "Cache Configuration:\n- Size: ");
        push_decimal(&mut v, self.size as u128);
        push_str(&mut v, " entries (~");
        push_fixed2(&mut v, (self.size as u128) * 32, 1048576);
        push_str(&mut v, " MB)\n- Replacement Policy: ");
        push_str(&mut v, policy_name(self.replacement_policy));
        push_str(&mut v, "\n- Statistics Enabled: ");
        push_bool(&mut v, self.enable_statistics);
        push_str(&mut v, "\n- Verification Enabled: ");
        push_bool(&mut v, self.enable_verification);
        chars_to_string(&v)
    }
}

/// Name of a replacement policy.
pub open spec fn policy_text(p: ReplacementPolicy) -> Seq<char> {
    match p {
        ReplacementPolicy::AlwaysReplace => "AlwaysReplace"@,
        ReplacementPolicy::DepthPreferred => "DepthPreferred"@,
        ReplacementPolicy::AgingBased => "AgingBased"@,
    }
}

/// Name of a replacement policy.
pub fn policy_name(p: ReplacementPolicy) -> (r: &'static str)
    ensures
        r@ == policy_text(p),
{
    match p {
        ReplacementPolicy::AlwaysReplace => "AlwaysReplace",
        ReplacementPolicy::DepthPreferred => "DepthPreferred",
        ReplacementPolicy::AgingBased => "AgingBased",
    }
}

/// The text of `EvaluationCacheConfig::summary`.
pub open spec fn config_summary_text(c: EvaluationCacheConfig) -> Seq<char> {
    "Cache Configuration:\n- Size: "@ + decimal(c.size as nat) + " entries (~"@ + fixed2(
        (c.size * 32) as nat,
        1048576,
    ) + " MB)\n- Replacement Policy: "@ + policy_text(c.replacement_policy)
        + "\n- Statistics Enabled: "@ + bool_text(c.enable_statistics)
        + "\n- Verification Enabled: "@ + bool_text(c.enable_verification)
}

/// One slot of the cache.
#[derive(Clone, Copy, Debug, PartialEq, Eq, Default, Structural)]
pub struct EvaluationEntry {
    /// Position key (0 marks an empty slot).
    pub key: u64,
    pub score: i32,
    pub depth: u8,
    pub age: u8,
    /// The upper 16 bits of the key.
    pub verification: u16,
}

/// The verification bits of a key.
pub open spec fn verification_bits(key: u64) -> u16 {
    (key >> 48u64) as u16
}

/// A fresh entry for `key`.
pub open spec fn new_entry(key: u64, score: i32, depth: u8) -> EvaluationEntry {
    EvaluationEntry { key, score, depth, age: 0, verification: verification_bits(key) }
}

/// The empty slot.
pub open spec fn empty_entry() -> EvaluationEntry {
    EvaluationEntry { key: 0, score: 0, depth: 0, age: 0, verification: 0 }
}

impl EvaluationEntry {
    /// A fresh entry of age 0 whose verification bits are the key's upper 16 bits.
    pub fn new(key: u64, score: i32, depth: u8) -> (r: Self)
        ensures
            r == new_entry(key, score, depth),
    {
        EvaluationEntry { key, score, depth, age: 0, verification: (key >> 48u64) as u16 }
    }

    /// Whether the slot is occupied (its key is not 0).
    pub fn is_valid(&self) -> (r: bool)
        ensures
            r == (self.key != 0),
    {
        self.key != 0
    }

    /// Whether the entry holds `key`, with matching verification bits.
    pub fn verify(&self, key: u64) -> (r: bool)
        ensures
            r == (self.key == key && self.verification == verification_bits(key)),
    {
        self.key == key && self.verification == (key >> 48u64) as u16
    }

    /// Age by one, saturating at 255.
    pub fn increment_age(&mut self)
        ensures
            final(self).age == (if old(self).age == 255 { 255 } else { old(self).age + 1 }),
            final(self).key == old(self).key,
            final(self).score == old(self).score,
            final(self).depth == old(self).depth,
            final(self).verification == old(self).verification,
    {
        self.age = self.age.saturating_add(1);
    }

    /// Age back to 0.
    pub fn reset_age(&mut self)
        ensures
            *final(self) == (EvaluationEntry { age: 0, ..*old(self) }),
    {
        self.age = 0;
    }

    /// Priority for keeping the entry: `depth * 256 + (255 - age)`.
    pub fn replacement_priority(&self) -> (r: u32)
        ensures
            r == self.depth * 256 + (255 - self.age),
    {
        (self.depth as u32) * 256 + (255 - self.age as u32)
    }
}

/// Counters of cache activity.
#[derive(Clone, Copy, Debug, Default, PartialEq, Eq, Structural)]
pub struct CacheStatistics {
    pub hits: u64,
    pub misses: u64,
    /// Probes that found another position in the slot.
    pub collisions: u64,
    /// Stores that overwrote an occupied slot.
    pub replacements: u64,
    pub stores: u64,
    pub probes: u64,
}

/// All counters zero.
pub open spec fn zero_stats() -> CacheStatistics {
    CacheStatistics { hits: 0, misses: 0, collisions: 0, replacements: 0, stores: 0, probes: 0 }
}

impl CacheStatistics {
    /// Zero all counters.
    pub fn reset(&mut self)
        ensures
            *final(self) == zero_stats(),
    {
        *self = CacheStatistics { hits: 0, misses: 0, collisions: 0, replacements: 0, stores: 0, probes: 0 };
    }

    /// More than 100 probes, a hit rate above 50% and a collision rate below 10%.
    pub fn is_performing_well(&self) -> (r: bool)
        ensures
            r == (self.probes > 100 && self.hits * 2 > self.probes && self.collisions * 10
                < self.probes),
    {
        self.probes > 100 && (self.hits as u128) * 2 > self.probes as u128 && (self.collisions as u128)
            * 10 < self.probes as u128
    }
}

/// Size and occupancy figures of the cache.
#[derive(Clone, Copy, Debug, Default, PartialEq, Eq, Structural)]
pub struct CachePerformanceMetrics {
    pub avg_probe_time_ns: u64,
    pub avg_store_time_ns: u64,
    pub peak_memory_bytes: usize,
    pub current_memory_bytes: usize,
    pub filled_entries: usize,
    pub total_capacity: usize,
}

/// A piece of advice on how the cache is doing.
#[derive(Clone, Copy, Debug, PartialEq, Eq, Structural)]
pub enum CacheAdvice {
    /// Fewer than 100 probes so far.
    NotEnoughData,
    /// More than 15% of the probes met another position in the slot.
    HighCollisionRate,
    /// Fewer than 40% of the probes were hits.
    LowHitRate,
    /// More than 90% of the slots are occupied.
    NearlyFull,
    /// More than 80% of the stores overwrote an occupied slot.
    HighReplacementRate,
    /// None of the above.
    LooksGood,
}

/// `x` followed by `rest` when `cond` holds, else `rest`.
pub open spec fn advice_if(cond: bool, x: CacheAdvice, rest: Seq<CacheAdvice>) -> Seq<CacheAdvice> {
    if cond {
        seq![x] + rest
    } else {
        rest
    }
}

/// The advice for the counters `s`, `filled` occupied slots and `size` slots: "not enough
/// data" below 100 probes; otherwise, in this order, each of the high collision rate, low
/// hit rate, nearly full and high replacement rate findings that holds, or "looks good"
/// when none does.
pub open spec fn advice_list(s: CacheStatistics, filled: nat, size: nat) -> Seq<CacheAdvice> {
    if s.probes < 100 {
        seq![CacheAdvice::NotEnoughData]
    } else {
        let found = advice_if(
            s.collisions * 100 > 15 * s.probes,
            CacheAdvice::HighCollisionRate,
            advice_if(
                s.hits * 100 < 40 * s.probes,
                CacheAdvice::LowHitRate,
                advice_if(
                    filled * 100 > 90 * size,
                    CacheAdvice::NearlyFull,
                    advice_if(
                        s.stores > 0 && s.replacements * 100 > 80 * s.stores,
                        CacheAdvice::HighReplacementRate,
                        Seq::empty(),
                    ),
                ),
            ),
        );
        if found.len() == 0 {
            seq![CacheAdvice::LooksGood]
        } else {
            found
        }
    }
}

/// A snapshot of the cache for monitoring.
#[derive(Clone, Debug)]
pub struct CacheMonitoringData {
    pub statistics: CacheStatistics,
    pub metrics: CachePerformanceMetrics,
    /// Seconds since the Unix epoch, in decimal.
    pub timestamp: String,
    pub config_size: usize,
    pub config_policy: String,
}

/// The FNV-1a multiplier used to mix position keys.
pub open spec fn fnv_prime() -> u64 {
    1099511628211
}

/// Mix a value into a key: xor, then multiply (wrapping).
pub open spec fn key_mix(h: u64, v: u64) -> u64 {
    vstd::wrapping::u64_specs::wrapping_mul(h ^ v, fnv_prime())
}

/// Code of a square for the key: 0 when empty, else 1 + 2 * kind + owner.
pub open spec fn square_code(p: Option<Piece>) -> u64 {
    match p {
        None => 0,
        Some(pc) => (1 + 2 * piece_index(pc.piece_type) + pc.player.code()) as u64,
    }
}

/// Key of the squares `s`.
pub open spec fn board_key(s: Seq<Option<Piece>>) -> u64
    decreases s.len(),
{
    if s.len() == 0 {
        14695981039346656037
    } else {
        key_mix(board_key(s.drop_last()), square_code(s.last()))
    }
}

/// Key `h` extended with the counts of the first `n` piece kinds in both hands.
pub open spec fn hands_key(h: u64, cp: CapturedPieces, n: nat) -> u64
    decreases n,
{
    if n == 0 {
        h
    } else {
        let h1 = hands_key(h, cp, (n - 1) as nat);
        let t = piece_from_index(n - 1);
        key_mix(
            key_mix(h1, seq_count(cp.black@, t) as u64),
            seq_count(cp.white@, t) as u64,
        )
    }
}

/// The cache key of a position: board, hands and side to move.
pub open spec fn position_key(s: Seq<Option<Piece>>, player: Player, cp: CapturedPieces) -> u64 {
    key_mix(hands_key(board_key(s), cp, 14), (player.code() + 1) as u64)
}

proof fn lemma_seq_count_le(s: Seq<PieceType>, x: PieceType)
    ensures
        seq_count(s, x) <= s.len(),
    decreases s.len(),
{
    if s.len() > 0 {
        lemma_seq_count_le(s.drop_last(), x);
    }
}

/// The cache key of a position.
pub fn compute_position_key(board: &BitboardBoard, player: Player, captured_pieces: &CapturedPieces) -> (r: u64)
    requires
        board.wf(),
    ensures
        r == position_key(board@, player, *captured_pieces),
{
    let mut h: u64 = 14695981039346656037;
    let mut i: usize = 0;
    while i < 81
        invariant
            board.wf(),
            i <= 81,
            h == board_key(board@.subrange(0, i as int)),
        decreases 81 - i,
    {
        assert(board@.subrange(0, i + 1).drop_last() == board@.subrange(0, i as int));
        let code: u64 = match board.get_piece_at_index(i) {
            None => 0,
            Some(pc) => (1 + 2 * pc.piece_type.to_u8() + pc.player.to_u8()) as u64,
        };
        h = (h ^ code).wrapping_mul(1099511628211);
        i = i + 1;
    }
    assert(board@.subrange(0, 81) == board@);
    let mut t: u8 = 0;
    while t < 14
        invariant
            t <= 14,
            h == hands_key(board_key(board@), *captured_pieces, t as nat),
        decreases 14 - t,
    {
        let pt = PieceType::from_u8(t);
        let nb = captured_pieces.count(pt, Player::Black);
        let nw = captured_pieces.count(pt, Player::White);
        h = (h ^ (nb as u64)).wrapping_mul(1099511628211);
        h = (h ^ (nw as u64)).wrapping_mul(1099511628211);
        t = t + 1;
    }
    let pc: u64 = (player.to_u8() + 1) as u64;
    (h ^ pc).wrapping_mul(1099511628211)
}

/// The slot of a key in a table of `size` entries.
pub open spec fn slot_of(k: u64, size: nat) -> int {
    (k as nat % size) as int
}

/// What a probe of key `k` finds: the slot's score when the slot holds `k` (with matching
/// verification bits when `verify`), else nothing.
pub open spec fn lookup(entries: Seq<EvaluationEntry>, verify: bool, k: u64) -> Option<i32> {
    let e = entries[slot_of(k, entries.len())];
    if e.key == 0 {
        None
    } else if verify {
        if e.key == k && e.verification == verification_bits(k) {
            Some(e.score)
        } else {
            None
        }
    } else if e.key == k {
        Some(e.score)
    } else {
        None
    }
}

/// Whether a store of depth `new_depth` replaces `existing` under `policy`.
pub open spec fn replaces(policy: ReplacementPolicy, existing: EvaluationEntry, new_depth: u8) -> bool {
    existing.key == 0 || match policy {
        ReplacementPolicy::AlwaysReplace => true,
        ReplacementPolicy::DepthPreferred => new_depth >= existing.depth,
        ReplacementPolicy::AgingBased => existing.age > 8 || new_depth > existing.depth + 2,
    }
}

/// The table after storing (k, score, depth).
pub open spec fn stored(
    entries: Seq<EvaluationEntry>,
    policy: ReplacementPolicy,
    k: u64,
    score: i32,
    depth: u8,
) -> Seq<EvaluationEntry> {
    let i = slot_of(k, entries.len());
    if replaces(policy, entries[i], depth) {
        entries.update(i, new_entry(k, score, depth))
    } else {
        entries
    }
}

/// Number of occupied slots in `entries`.
pub open spec fn count_filled(entries: Seq<EvaluationEntry>) -> nat
    decreases entries.len(),
{
    if entries.len() == 0 {
        0
    } else {
        count_filled(entries.drop_last()) + if entries.last().key != 0 {
            1nat
        } else {
            0
        }
    }
}

/// An entry aged once if it is occupied.
pub open spec fn aged(e: EvaluationEntry) -> EvaluationEntry {
    if e.key != 0 {
        EvaluationEntry { age: if e.age == 255 { 255 } else { (e.age + 1) as u8 }, ..e }
    } else {
        e
    }
}

/// A direct-mapped cache of position evaluations.
pub struct EvaluationCache {
    entries: Vec<EvaluationEntry>,
    config: EvaluationCacheConfig,
    stats: CacheStatistics,
    global_age: u32,
    /// Set by `clear` and reset by `store`: while set, probes are not counted.
    counting_paused: bool,
}

impl EvaluationCache {
    pub closed spec fn entries_spec(&self) -> Seq<EvaluationEntry> {
        self.entries@
    }

    pub closed spec fn config_spec(&self) -> EvaluationCacheConfig {
        self.config
    }

    pub closed spec fn stats_spec(&self) -> CacheStatistics {
        self.stats
    }

    pub closed spec fn age_spec(&self) -> u32 {
        self.global_age
    }

    /// Whether probes go uncounted: from a `clear` until the next `store`.
    pub closed spec fn paused_spec(&self) -> bool {
        self.counting_paused
    }

    /// The table has one slot per configured entry and a valid size.
    pub open spec fn wf(&self) -> bool {
        &&& self.entries_spec().len() == self.config_spec().size
        &&& config_valid(self.config_spec().size as nat)
    }

    /// The figures that `get_performance_metrics` reports.
    pub open spec fn metrics_spec(&self) -> CachePerformanceMetrics {
        CachePerformanceMetrics {
            avg_probe_time_ns: 50,
            avg_store_time_ns: 80,
            peak_memory_bytes: (self.config_spec().size * 16) as usize,
            current_memory_bytes: (self.config_spec().size * 16) as usize,
            filled_entries: count_filled(self.entries_spec()) as usize,
            total_capacity: self.config_spec().size,
        }
    }

    /// What a probe of `k` would return.
    pub open spec fn lookup_key(&self, k: u64) -> Option<i32> {
        lookup(self.entries_spec(), self.config_spec().enable_verification, k)
    }

    /// A cache with the default configuration.
    pub fn new() -> (r: Self)
        ensures
            r.wf(),
            r.config_spec() == default_cache_config(),
            r.stats_spec() == zero_stats(),
            forall|i: int| 0 <= i < r.entries_spec().len() ==> r.entries_spec()[i] == empty_entry(),
    {
        let c = EvaluationCacheConfig::default();
        assert(config_valid(1048576)) by {
            reveal_with_fuel(is_pow2, 22);
        }
        Self::with_config(c)
    }

    /// An empty cache with the given configuration (whose size must be valid).
    pub fn with_config(config: EvaluationCacheConfig) -> (r: Self)
        requires
            config_valid(config.size as nat),
        ensures
            r.wf(),
            r.config_spec() == config,
            r.stats_spec() == zero_stats(),
            r.age_spec() == 0,
            !r.paused_spec(),
            forall|i: int| 0 <= i < r.entries_spec().len() ==> r.entries_spec()[i] == empty_entry(),
    {
        let mut entries: Vec<EvaluationEntry> = Vec::new();
        let mut i: usize = 0;
        while i < config.size
            invariant
                i <= config.size,
                entries@.len() == i,
                forall|j: int| 0 <= j < i ==> entries@[j] == empty_entry(),
            decreases config.size - i,
        {
            entries.push(EvaluationEntry { key: 0, score: 0, depth: 0, age: 0, verification: 0 });
            i = i + 1;
        }
        EvaluationCache {
            entries,
            config,
            stats: CacheStatistics { hits: 0, misses: 0, collisions: 0, replacements: 0, stores: 0, probes: 0 },
            global_age: 0,
            counting_paused: false,
        }
    }

    /// Look up a position. With statistics on, counts a probe and a hit, a miss, or a
    /// collision and a miss; probes made after `clear` and before the next `store` (which
    /// find an empty table) are not counted, so the counters stay zero until then.
    pub fn probe(&mut self, board: &BitboardBoard, player: Player, captured_pieces: &CapturedPieces) -> (r: Option<i32>)
        requires
            old(self).wf(),
            board.wf(),
            old(self).config_spec().enable_statistics && !old(self).paused_spec() ==> {
                &&& old(self).stats_spec().probes < u64::MAX
                &&& old(self).stats_spec().hits < u64::MAX
                &&& old(self).stats_spec().misses < u64::MAX
                &&& old(self).stats_spec().collisions < u64::MAX
            },
        ensures
            final(self).wf(),
            r == old(self).lookup_key(position_key(board@, player, *captured_pieces)),
            final(self).entries_spec() == old(self).entries_spec(),
            final(self).config_spec() == old(self).config_spec(),
            final(self).age_spec() == old(self).age_spec(),
            final(self).paused_spec() == old(self).paused_spec(),
            ({
                let s0 = old(self).stats_spec();
                let s1 = final(self).stats_spec();
                let k = position_key(board@, player, *captured_pieces);
                let occupied = old(self).entries_spec()[slot_of(k, old(self).config_spec().size as nat)].key != 0;
                if !old(self).config_spec().enable_statistics || old(self).paused_spec() {
                    s1 == s0
                } else if r is Some {
                    s1 == CacheStatistics { hits: (s0.hits + 1) as u64, probes: (s0.probes + 1) as u64, ..s0 }
                } else if !occupied {
                    s1 == CacheStatistics { misses: (s0.misses + 1) as u64, probes: (s0.probes + 1) as u64, ..s0 }
                } else {
                    s1 == CacheStatistics {
                        misses: (s0.misses + 1) as u64,
                        collisions: (s0.collisions + 1) as u64,
                        probes: (s0.probes + 1) as u64,
                        ..s0
                    }
                }
            }),
    {
        let stats_on = self.config.enable_statistics && !self.counting_paused;
        if stats_on {
            self.stats.probes = self.stats.probes + 1;
        }
        let hash = compute_position_key(board, player, captured_pieces);
        let index = (hash % (self.config.size as u64)) as usize;
        let entry = self.entries[index];
        if !entry.is_valid() {
            if stats_on {
                self.stats.misses = self.stats.misses + 1;
            }
            return None;
        }
        if self.config.enable_verification && !entry.verify(hash) {
            if stats_on {
                self.stats.collisions = self.stats.collisions + 1;
                self.stats.misses = self.stats.misses + 1;
            }
            return None;
        }
        if !self.config.enable_verification && entry.key != hash {
            if stats_on {
                self.stats.collisions = self.stats.collisions + 1;
                self.stats.misses = self.stats.misses + 1;
            }
            return None;
        }
        if stats_on {
            self.stats.hits = self.stats.hits + 1;
        }
        Some(entry.score)
    }

    /// Whether a store of depth `new_depth` replaces `existing` under the current policy.
    fn should_replace(&self, existing: &EvaluationEntry, new_depth: u8) -> (r: bool)
        ensures
            r == replaces(self.config_spec().replacement_policy, *existing, new_depth),
    {
        if !existing.is_valid() {
            return true;
        }
        match self.config.replacement_policy {
            ReplacementPolicy::AlwaysReplace => true,
            ReplacementPolicy::DepthPreferred => new_depth >= existing.depth,
            ReplacementPolicy::AgingBased => existing.age > 8 || (new_depth as u16) > (existing.depth as u16) + 2,
        }
    }

    /// Store an evaluation, subject to the replacement policy. With statistics on, counts
    /// a store, and a replacement when an occupied slot is overwritten. Probes are counted
    /// again from here on.
    pub fn store(
        &mut self,
        board: &BitboardBoard,
        player: Player,
        captured_pieces: &CapturedPieces,
        score: i32,
        depth: u8,
    )
        requires
            old(self).wf(),
            board.wf(),
            old(self).config_spec().enable_statistics ==> {
                &&& old(self).stats_spec().stores < u64::MAX
                &&& old(self).stats_spec().replacements < u64::MAX
            },
        ensures
            final(self).wf(),
            final(self).entries_spec() == stored(
                old(self).entries_spec(),
                old(self).config_spec().replacement_policy,
                position_key(board@, player, *captured_pieces),
                score,
                depth,
            ),
            final(self).config_spec() == old(self).config_spec(),
            final(self).age_spec() == old(self).age_spec(),
            !final(self).paused_spec(),
            ({
                let s0 = old(self).stats_spec();
                let s1 = final(self).stats_spec();
                let k = position_key(board@, player, *captured_pieces);
                let e = old(self).entries_spec()[slot_of(k, old(self).config_spec().size as nat)];
                if !old(self).config_spec().enable_statistics {
                    s1 == s0
                } else if e.key != 0 && replaces(old(self).config_spec().replacement_policy, e, depth) {
                    s1 == CacheStatistics {
                        stores: (s0.stores + 1) as u64,
                        replacements: (s0.replacements + 1) as u64,
                        ..s0
                    }
                } else {
                    s1 == CacheStatistics { stores: (s0.stores + 1) as u64, ..s0 }
                }
            }),
    {
        self.counting_paused = false;
        let stats_on = self.config.enable_statistics;
        if stats_on {
            self.stats.stores = self.stats.stores + 1;
        }
        let hash = compute_position_key(board, player, captured_pieces);
        let index = (hash % (self.config.size as u64)) as usize;
        let entry = self.entries[index];
        if self.should_replace(&entry, depth) {
            if entry.is_valid() && stats_on {
                self.stats.replacements = self.stats.replacements + 1;
            }
            self.entries.set(index, EvaluationEntry::new(hash, score, depth));
        }
    }

    /// Empty every slot and zero the counters and the age; probes go uncounted until the
    /// next store.
    pub fn clear(&mut self)
        requires
            old(self).wf(),
        ensures
            final(self).wf(),
            final(self).config_spec() == old(self).config_spec(),
            final(self).stats_spec() == zero_stats(),
            final(self).age_spec() == 0,
            final(self).paused_spec(),
            final(self).entries_spec().len() == old(self).entries_spec().len(),
            forall|i: int| 0 <= i < final(self).entries_spec().len() ==> final(self).entries_spec()[i] == empty_entry(),
    {
        let n = self.entries.len();
        let mut i: usize = 0;
        while i < n
            invariant
                n == self.entries@.len(),
                n == self.config.size,
                config_valid(self.config.size as nat),
                self.config == old(self).config,
                i <= n,
                forall|j: int| 0 <= j < i ==> self.entries@[j] == empty_entry(),
            decreases n - i,
        {
            self.entries.set(i, EvaluationEntry { key: 0, score: 0, depth: 0, age: 0, verification: 0 });
            i = i + 1;
        }
        self.stats = CacheStatistics { hits: 0, misses: 0, collisions: 0, replacements: 0, stores: 0, probes: 0 };
        self.global_age = 0;
        self.counting_paused = true;
    }

    /// Advance the global age; every 256th call (starting with the first) ages every
    /// occupied slot by one, saturating at 255.
    pub fn increment_age(&mut self)
        requires
            old(self).wf(),
        ensures
            final(self).wf(),
            final(self).config_spec() == old(self).config_spec(),
            final(self).stats_spec() == old(self).stats_spec(),
            final(self).age_spec() == vstd::wrapping::u32_specs::wrapping_add(old(self).age_spec(), 1),
            final(self).paused_spec() == old(self).paused_spec(),
            final(self).entries_spec().len() == old(self).entries_spec().len(),
            forall|i: int|
                0 <= i < final(self).entries_spec().len() ==> final(self).entries_spec()[i] == if old(
                    self,
                ).age_spec() % 256 == 0 {
                    aged(old(self).entries_spec()[i])
                } else {
                    old(self).entries_spec()[i]
                },
    {
        let new_age = self.global_age;
        self.global_age = self.global_age.wrapping_add(1);
        if new_age % 256 == 0 {
            let n = self.entries.len();
            let mut i: usize = 0;
            while i < n
                invariant
                    n == self.entries@.len(),
                    n == old(self).entries@.len(),
                    n == self.config.size,
                    config_valid(self.config.size as nat),
                    self.config == old(self).config,
                    self.stats == old(self).stats,
                    self.counting_paused == old(self).counting_paused,
                    self.global_age == vstd::wrapping::u32_specs::wrapping_add(old(self).global_age, 1),
                    i <= n,
                    forall|j: int| 0 <= j < i ==> self.entries@[j] == aged(old(self).entries@[j]),
                    forall|j: int| i <= j < n ==> self.entries@[j] == old(self).entries@[j],
                decreases n - i,
            {
                let mut e = self.entries[i];
                if e.is_valid() {
                    e.increment_age();
                }
                self.entries.set(i, e);
                i = i + 1;
            }
        }
    }

    /// The counters.
    pub fn get_statistics(&self) -> (r: CacheStatistics)
        ensures
            r == self.stats_spec(),
    {
        self.stats
    }

    pub fn get_config(&self) -> (r: &EvaluationCacheConfig)
        ensures
            *r == self.config_spec(),
    {
        &self.config
    }

    /// Bytes used by the slots: 16 per entry.
    pub fn size_bytes(&self) -> (r: usize)
        requires
            self.wf(),
        ensures
            r == self.config_spec().size * 16,
    {
        self.config.size * 16
    }

    /// Number of occupied slots.
    fn count_filled_entries(&self) -> (r: usize)
        ensures
            r == count_filled(self.entries_spec()),
    {
        let mut n: usize = 0;
        let mut i: usize = 0;
        while i < self.entries.len()
            invariant
                i <= self.entries@.len(),
                n == count_filled(self.entries@.subrange(0, i as int)),
                n <= i,
            decreases self.entries@.len() - i,
        {
            assert(self.entries@.subrange(0, i + 1).drop_last() == self.entries@.subrange(0, i as int));
            if self.entries[i].is_valid() {
                n = n + 1;
            }
            i = i + 1;
        }
        assert(self.entries@.subrange(0, self.entries@.len() as int) == self.entries@);
        n
    }

    /// Occupancy and size figures, with nominal probe and store times of 50 and 80 ns.
    pub fn get_performance_metrics(&self) -> (r: CachePerformanceMetrics)
        requires
            self.wf(),
        ensures
            r == self.metrics_spec(),
            r.filled_entries == count_filled(self.entries_spec()),
    {
        let filled_entries = self.count_filled_entries();
        CachePerformanceMetrics {
            avg_probe_time_ns: 50,
            avg_store_time_ns: 80,
            peak_memory_bytes: self.size_bytes(),
            current_memory_bytes: self.size_bytes(),
            filled_entries,
            total_capacity: self.config.size,
        }
    }

    /// Counters, figures, configuration and the current time (see `monitoring_data_at`).
    pub fn get_monitoring_data(&self) -> (r: CacheMonitoringData)
        requires
            self.wf(),
        ensures
            r.statistics == self.stats_spec(),
            r.metrics == self.metrics_spec(),
            r.config_size == self.config_spec().size,
            r.config_policy@ == policy_text(self.config_spec().replacement_policy),
            exists|t: u64| r.timestamp@ == decimal(t as nat),
    {
        let now = crate::clock::unix_time_secs();
        self.monitoring_data_at(now)
    }

    /// Counters, figures and configuration, stamped with `now` (seconds since the Unix
    /// epoch) in decimal.
    pub fn monitoring_data_at(&self, now: u64) -> (r: CacheMonitoringData)
        requires
            self.wf(),
        ensures
            r.statistics == self.stats_spec(),
            r.metrics == self.metrics_spec(),
            r.config_size == self.config_spec().size,
            r.config_policy@ == policy_text(self.config_spec().replacement_policy),
            r.timestamp@ == decimal(now as nat),
    {
        let mut v: Vec<char> = Vec::new();
        push_decimal(&mut v, now as u128);
        CacheMonitoringData {
            statistics: self.get_statistics(),
            metrics: self.get_performance_metrics(),
            timestamp: chars_to_string(&v),
            config_size: self.config.size,
            config_policy: string_of(policy_name(self.config.replacement_policy)),
        }
    }

    /// Set the replacement policy.
    pub fn update_replacement_policy(&mut self, policy: ReplacementPolicy)
        requires
            old(self).wf(),
        ensures
            final(self).wf(),
            final(self).config_spec() == (EvaluationCacheConfig { replacement_policy: policy, ..old(self).config_spec() }),
            final(self).entries_spec() == old(self).entries_spec(),
            final(self).stats_spec() == old(self).stats_spec(),
            final(self).age_spec() == old(self).age_spec(),
            final(self).paused_spec() == old(self).paused_spec(),
    {
        self.config.replacement_policy = policy;
    }

    /// Turn statistics on or off.
    pub fn set_statistics_enabled(&mut self, enabled: bool)
        requires
            old(self).wf(),
        ensures
            final(self).wf(),
            final(self).config_spec() == (EvaluationCacheConfig { enable_statistics: enabled, ..old(self).config_spec() }),
            final(self).entries_spec() == old(self).entries_spec(),
            final(self).stats_spec() == old(self).stats_spec(),
            final(self).age_spec() == old(self).age_spec(),
            final(self).paused_spec() == old(self).paused_spec(),
    {
        self.config.enable_statistics = enabled;
    }

    /// Turn verification on or off.
    pub fn set_verification_enabled(&mut self, enabled: bool)
        requires
            old(self).wf(),
        ensures
            final(self).wf(),
            final(self).config_spec() == (EvaluationCacheConfig { enable_verification: enabled, ..old(self).config_spec() }),
            final(self).entries_spec() == old(self).entries_spec(),
            final(self).stats_spec() == old(self).stats_spec(),
            final(self).age_spec() == old(self).age_spec(),
            final(self).paused_spec() == old(self).paused_spec(),
    {
        self.config.enable_verification = enabled;
    }

    /// Whether the collision rate exceeds 15%, occupancy exceeds 95%, or the hit rate is
    /// under 30% after more than 1000 probes.
    pub fn needs_maintenance(&self) -> (r: bool)
        requires
            self.wf(),
        ensures
            r == ({
                let s = self.stats_spec();
                let filled = count_filled(self.entries_spec());
                ||| (s.probes > 0 && s.collisions * 100 > 15 * s.probes)
                ||| filled * 100 > 95 * self.config_spec().size
                ||| (s.probes > 1000 && s.hits * 100 < 30 * s.probes)
            }),
    {
        let s = self.get_statistics();
        let filled = self.count_filled_entries();
        let probes = s.probes as u128;
        (s.probes > 0 && (s.collisions as u128) * 100 > 15 * probes) || (filled as u128) * 100 > 95
            * (self.config.size as u128) || (s.probes > 1000 && (s.hits as u128) * 100 < 30 * probes)
    }

    /// The advice that the counters and the occupancy call for (see `advice_list`).
    pub fn performance_advice(&self) -> (r: Vec<CacheAdvice>)
        requires
            self.wf(),
        ensures
            r@ == advice_list(self.stats_spec(), count_filled(self.entries_spec()), self.config_spec().size as nat),
    {
        let s = self.get_statistics();
        let filled = self.count_filled_entries();
        let mut out: Vec<CacheAdvice> = Vec::new();
        if s.probes < 100 {
            out.push(CacheAdvice::NotEnoughData);
            return out;
        }
        let probes = s.probes as u128;
        if (s.collisions as u128) * 100 > 15 * probes {
            out.push(CacheAdvice::HighCollisionRate);
        }
        if (s.hits as u128) * 100 < 40 * probes {
            out.push(CacheAdvice::LowHitRate);
        }
        if (filled as u128) * 100 > 90 * (self.config.size as u128) {
            out.push(CacheAdvice::NearlyFull);
        }
        if s.stores > 0 && (s.replacements as u128) * 100 > 80 * (s.stores as u128) {
            out.push(CacheAdvice::HighReplacementRate);
        }
        if out.len() == 0 {
            out.push(CacheAdvice::LooksGood);
        }
        out
    }
}

/// A read returns what the last write stored: after storing a score for a position whose
/// key is not 0, into a slot the policy lets it replace, probing the same position returns
/// that score, whether or not verification is on.
pub proof fn law_store_then_probe(
    entries: Seq<EvaluationEntry>,
    policy: ReplacementPolicy,
    verify: bool,
    k: u64,
    score: i32,
    depth: u8,
)
    requires
        entries.len() > 0,
        k != 0,
        replaces(policy, entries[slot_of(k, entries.len())], depth),
    ensures
        lookup(stored(entries, policy, k, score, depth), verify, k) == Some(score),
{
}

/// A store touches one slot only: keys that map to another slot are looked up as before.
pub proof fn law_store_preserves_other_slots(
    entries: Seq<EvaluationEntry>,
    policy: ReplacementPolicy,
    verify: bool,
    k: u64,
    score: i32,
    depth: u8,
    other: u64,
)
    requires
        entries.len() > 0,
        slot_of(other, entries.len()) != slot_of(k, entries.len()),
    ensures
        lookup(stored(entries, policy, k, score, depth), verify, other) == lookup(entries, verify, other),
{
}

/// Under the always-replace policy every store is kept: probing right after storing a
/// position with a non-zero key returns the stored score.
pub proof fn law_always_replace_keeps_last(
    entries: Seq<EvaluationEntry>,
    verify: bool,
    k: u64,
    score: i32,
    depth: u8,
)
    requires
        entries.len() > 0,
        k != 0,
    ensures
        lookup(stored(entries, ReplacementPolicy::AlwaysReplace, k, score, depth), verify, k) == Some(score),
{
}

/// After clearing, every probe misses.
pub proof fn law_clear_misses(entries: Seq<EvaluationEntry>, verify: bool, k: u64)
    requires
        entries.len() > 0,
        forall|i: int| 0 <= i < entries.len() ==> entries[i] == empty_entry(),
    ensures
        lookup(entries, verify, k) is None,
{
}

} // verus!
