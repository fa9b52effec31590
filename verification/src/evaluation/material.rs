//! Phase-aware material evaluation: board and hand values per piece type, with two
//! value sets, summed over the board and both hands.

use vstd::prelude::*;
use crate::types::{CapturedPieces, Piece, PieceType, Player, TaperedScore};
use crate::bitboards::BitboardBoard;

verus! {

/// Which table of piece values is in use.
#[derive(Clone, Copy, Debug, PartialEq, Eq, Structural)]
pub enum ValueSetKind {
    Research,
    Classic,
}

pub open spec fn ts(mg: i32, eg: i32) -> TaperedScore {
    TaperedScore { mg, eg }
}

/// Board values of the research set.
pub open spec fn research_board(pt: PieceType) -> TaperedScore {
    match pt {
        PieceType::Pawn => ts(100, 120),
        PieceType::Lance => ts(300, 280),
        PieceType::Knight => ts(350, 320),
        PieceType::Silver => ts(450, 460),
        PieceType::Gold => ts(500, 520),
        PieceType::Bishop => ts(800, 850),
        PieceType::Rook => ts(1000, 1100),
        PieceType::King => ts(20000, 20000),
        PieceType::PromotedPawn => ts(500, 550),
        PieceType::PromotedLance => ts(500, 540),
        PieceType::PromotedKnight => ts(520, 550),
        PieceType::PromotedSilver => ts(520, 550),
        PieceType::PromotedBishop => ts(1200, 1300),
        PieceType::PromotedRook => ts(1400, 1550),
    }
}

/// Hand values of the research set (unpromoted, non-king pieces only).
pub open spec fn research_hand(pt: PieceType) -> Option<TaperedScore> {
    match pt {
        PieceType::Pawn => Some(ts(110, 130)),
        PieceType::Lance => Some(ts(320, 300)),
        PieceType::Knight => Some(ts(370, 350)),
        PieceType::Silver => Some(ts(480, 490)),
        PieceType::Gold => Some(ts(530, 550)),
        PieceType::Bishop => Some(ts(850, 920)),
        PieceType::Rook => Some(ts(1050, 1180)),
        _ => None,
    }
}

/// Board values of the classic set.
pub open spec fn classic_board(pt: PieceType) -> TaperedScore {
    match pt {
        PieceType::Pawn => ts(100, 110),
        PieceType::Lance => ts(280, 300),
        PieceType::Knight => ts(320, 330),
        PieceType::Silver => ts(430, 440),
        PieceType::Gold => ts(500, 500),
        PieceType::Bishop => ts(780, 820),
        PieceType::Rook => ts(950, 1020),
        PieceType::King => ts(20000, 20000),
        PieceType::PromotedPawn => ts(480, 520),
        PieceType::PromotedLance => ts(480, 520),
        PieceType::PromotedKnight => ts(500, 530),
        PieceType::PromotedSilver => ts(500, 530),
        PieceType::PromotedBishop => ts(1150, 1220),
        PieceType::PromotedRook => ts(1320, 1450),
    }
}

/// Hand values of the classic set (unpromoted, non-king pieces only).
pub open spec fn classic_hand(pt: PieceType) -> Option<TaperedScore> {
    match pt {
        PieceType::Pawn => Some(ts(105, 115)),
        PieceType::Lance => Some(ts(300, 310)),
        PieceType::Knight => Some(ts(340, 350)),
        PieceType::Silver => Some(ts(450, 460)),
        PieceType::Gold => Some(ts(520, 520)),
        PieceType::Bishop => Some(ts(820, 860)),
        PieceType::Rook => Some(ts(990, 1080)),
        _ => None,
    }
}

/// Board value of a piece type in a value set.
pub open spec fn board_value_of(kind: ValueSetKind, pt: PieceType) -> TaperedScore {
    match kind {
        ValueSetKind::Research => research_board(pt),
        ValueSetKind::Classic => classic_board(pt),
    }
}

/// Hand value of a piece type in a value set; falls back to the board value.
pub open spec fn hand_value_of(kind: ValueSetKind, pt: PieceType) -> TaperedScore {
    let h = match kind {
        ValueSetKind::Research => research_hand(pt),
        ValueSetKind::Classic => classic_hand(pt),
    };
    match h {
        Some(v) => v,
        None => board_value_of(kind, pt),
    }
}

/// One phase of a score: endgame when `eg`, middlegame otherwise.
pub open spec fn phase_of(s: TaperedScore, eg: bool) -> int {
    if eg {
        s.eg as int
    } else {
        s.mg as int
    }
}

/// Signed value of one square for `player`.
pub open spec fn square_value(kind: ValueSetKind, p: Option<Piece>, player: Player, eg: bool) -> int {
    match p {
        None => 0,
        Some(pc) => {
            let v = phase_of(board_value_of(kind, pc.piece_type), eg);
            if pc.player == player {
                v
            } else {
                -v
            }
        },
    }
}

/// Signed material of the squares `s` for `player`.
pub open spec fn board_material(kind: ValueSetKind, s: Seq<Option<Piece>>, player: Player, eg: bool) -> int
    decreases s.len(),
{
    if s.len() == 0 {
        0
    } else {
        board_material(kind, s.drop_last(), player, eg) + square_value(kind, s.last(), player, eg)
    }
}

/// Total hand value of the pieces `h`.
pub open spec fn hand_material(kind: ValueSetKind, h: Seq<PieceType>, eg: bool) -> int
    decreases h.len(),
{
    if h.len() == 0 {
        0
    } else {
        hand_material(kind, h.drop_last(), eg) + phase_of(hand_value_of(kind, h.last()), eg)
    }
}

/// The material score for `player`: own pieces minus the opponent's, on the board and,
/// when `include_hand`, in hand.
pub open spec fn material_score(
    kind: ValueSetKind,
    include_hand: bool,
    b: Seq<Option<Piece>>,
    cp: CapturedPieces,
    player: Player,
    eg: bool,
) -> int {
    board_material(kind, b, player, eg) + if include_hand {
        hand_material(kind, cp.hand(player), eg) - hand_material(
            kind,
            cp.hand(player.opposite_spec()),
            eg,
        )
    } else {
        0
    }
}

/// Both hands are worth at most `i32::MAX`, in the middlegame and in the endgame.
pub open spec fn hands_fit(kind: ValueSetKind, cp: CapturedPieces) -> bool {
    &&& hand_material(kind, cp.black@, false) <= i32::MAX
    &&& hand_material(kind, cp.black@, true) <= i32::MAX
    &&& hand_material(kind, cp.white@, false) <= i32::MAX
    &&& hand_material(kind, cp.white@, true) <= i32::MAX
}

/// The material sums for `player` fit in `i32`: the hands, when they count, and the
/// material score in both phases.
pub open spec fn material_fits(
    kind: ValueSetKind,
    include_hand: bool,
    b: Seq<Option<Piece>>,
    cp: CapturedPieces,
    player: Player,
) -> bool {
    &&& include_hand ==> hands_fit(kind, cp)
    &&& i32::MIN <= material_score(kind, include_hand, b, cp, player, false) <= i32::MAX
    &&& i32::MIN <= material_score(kind, include_hand, b, cp, player, true) <= i32::MAX
}

/// A hand is worth at least as much as any of its prefixes, and never less than 0.
pub proof fn lemma_hand_prefix(kind: ValueSetKind, h: Seq<PieceType>, i: int, eg: bool)
    requires
        0 <= i <= h.len(),
    ensures
        0 <= hand_material(kind, h.subrange(0, i), eg) <= hand_material(kind, h, eg),
    decreases h.len() - i,
{
    if i == h.len() {
        assert(h.subrange(0, i) == h);
        lemma_hand_nonneg(kind, h, eg);
    } else {
        lemma_hand_prefix(kind, h, i + 1, eg);
        assert(h.subrange(0, i + 1).drop_last() == h.subrange(0, i));
        lemma_value_bounds(kind, h[i]);
        lemma_hand_nonneg(kind, h.subrange(0, i), eg);
    }
}

/// A hand is never worth less than 0.
pub proof fn lemma_hand_nonneg(kind: ValueSetKind, h: Seq<PieceType>, eg: bool)
    ensures
        0 <= hand_material(kind, h, eg),
    decreases h.len(),
{
    if h.len() > 0 {
        lemma_hand_nonneg(kind, h.drop_last(), eg);
        lemma_value_bounds(kind, h.last());
    }
}

/// Sum of middlegame board values of all non-king pieces on the squares `s`.
pub open spec fn total_material(kind: ValueSetKind, s: Seq<Option<Piece>>) -> int
    decreases s.len(),
{
    if s.len() == 0 {
        0
    } else {
        total_material(kind, s.drop_last()) + match s.last() {
            Some(pc) => if pc.piece_type != PieceType::King {
                board_value_of(kind, pc.piece_type).mg as int
            } else {
                0
            },
            None => 0,
        }
    }
}

/// Number of squares in `s` holding a piece of type `pt` owned by `player`.
pub open spec fn count_pieces(s: Seq<Option<Piece>>, pt: PieceType, player: Player) -> int
    decreases s.len(),
{
    if s.len() == 0 {
        0
    } else {
        count_pieces(s.drop_last(), pt, player) + if s.last() == Some(
            Piece { piece_type: pt, player },
        ) {
            1int
        } else {
            0
        }
    }
}

/// Every board value is at most 20000 in absolute value, and every hand value at most 1180.
pub proof fn lemma_value_bounds(kind: ValueSetKind, pt: PieceType)
    ensures
        0 < board_value_of(kind, pt).mg <= 20000,
        0 < board_value_of(kind, pt).eg <= 20000,
        pt != PieceType::King ==> board_value_of(kind, pt).mg <= 1400,
        0 < hand_value_of(kind, pt).mg <= 20000,
        0 < hand_value_of(kind, pt).eg <= 20000,
{
}

/// A named table of board and hand values.
#[derive(Clone, Debug)]
pub struct MaterialValueSet {
    pub id: &'static str,
    pub display_name: &'static str,
    pub source: &'static str,
    pub version: &'static str,
    pub last_updated: &'static str,
    /// Which table of values the set holds.
    pub kind: ValueSetKind,
}

/// The research value set: its table and its description.
pub open spec fn is_research_set(v: MaterialValueSet) -> bool {
    &&& v.kind == ValueSetKind::Research
    &&& v.id@ == "research"@
    &&& v.display_name@ == "Research Value Set"@
    &&& v.source@ == "Internal tuning study"@
    &&& v.version@ == "2024.10"@
    &&& v.last_updated@ == "2025-08-10"@
}

/// The classic value set: its table and its description.
pub open spec fn is_classic_set(v: MaterialValueSet) -> bool {
    &&& v.kind == ValueSetKind::Classic
    &&& v.id@ == "classic"@
    &&& v.display_name@ == "Classic Value Set"@
    &&& v.source@ == "Legacy engine defaults"@
    &&& v.version@ == "2023.04"@
    &&& v.last_updated@ == "2024-07-15"@
}

impl MaterialValueSet {
    /// Which table this set uses.
    pub open spec fn kind_of(&self) -> ValueSetKind {
        self.kind
    }

    /// The research value set.
    pub fn research() -> (r: Self)
        ensures
            r.kind_of() == ValueSetKind::Research,
            r.id@ == "research"@,
            is_research_set(r),
    {
        Self {
            id: "research",
            display_name: "Research Value Set",
            source: "Internal tuning study",
            version: "2024.10",
            last_updated: "2025-08-10",
            kind: ValueSetKind::Research,
        }
    }

    /// The classic value set.
    pub fn classic() -> (r: Self)
        ensures
            r.kind_of() == ValueSetKind::Classic,
            r.id@ == "classic"@,
            is_classic_set(r),
    {
        Self {
            id: "classic",
            display_name: "Classic Value Set",
            source: "Legacy engine defaults",
            version: "2023.04",
            last_updated: "2024-07-15",
            kind: ValueSetKind::Classic,
        }
    }

    /// Value of a piece of this type on the board.
    pub fn board_value(&self, piece_type: PieceType) -> (r: TaperedScore)
        ensures
            r == board_value_of(self.kind_of(), piece_type),
    {
        match self.kind {
            ValueSetKind::Research => match piece_type {
                PieceType::Pawn => TaperedScore { mg: 100, eg: 120 },
                PieceType::Lance => TaperedScore { mg: 300, eg: 280 },
                PieceType::Knight => TaperedScore { mg: 350, eg: 320 },
                PieceType::Silver => TaperedScore { mg: 450, eg: 460 },
                PieceType::Gold => TaperedScore { mg: 500, eg: 520 },
                PieceType::Bishop => TaperedScore { mg: 800, eg: 850 },
                PieceType::Rook => TaperedScore { mg: 1000, eg: 1100 },
                PieceType::King => TaperedScore { mg: 20000, eg: 20000 },
                PieceType::PromotedPawn => TaperedScore { mg: 500, eg: 550 },
                PieceType::PromotedLance => TaperedScore { mg: 500, eg: 540 },
                PieceType::PromotedKnight => TaperedScore { mg: 520, eg: 550 },
                PieceType::PromotedSilver => TaperedScore { mg: 520, eg: 550 },
                PieceType::PromotedBishop => TaperedScore { mg: 1200, eg: 1300 },
                PieceType::PromotedRook => TaperedScore { mg: 1400, eg: 1550 },
            },
            ValueSetKind::Classic => match piece_type {
                PieceType::Pawn => TaperedScore { mg: 100, eg: 110 },
                PieceType::Lance => TaperedScore { mg: 280, eg: 300 },
                PieceType::Knight => TaperedScore { mg: 320, eg: 330 },
                PieceType::Silver => TaperedScore { mg: 430, eg: 440 },
                PieceType::Gold => TaperedScore { mg: 500, eg: 500 },
                PieceType::Bishop => TaperedScore { mg: 780, eg: 820 },
                PieceType::Rook => TaperedScore { mg: 950, eg: 1020 },
                PieceType::King => TaperedScore { mg: 20000, eg: 20000 },
                PieceType::PromotedPawn => TaperedScore { mg: 480, eg: 520 },
                PieceType::PromotedLance => TaperedScore { mg: 480, eg: 520 },
                PieceType::PromotedKnight => TaperedScore { mg: 500, eg: 530 },
                PieceType::PromotedSilver => TaperedScore { mg: 500, eg: 530 },
                PieceType::PromotedBishop => TaperedScore { mg: 1150, eg: 1220 },
                PieceType::PromotedRook => TaperedScore { mg: 1320, eg: 1450 },
            },
        }
    }

    /// Value of a piece of this type in hand; the board value where the set has no hand value.
    pub fn hand_value(&self, piece_type: PieceType) -> (r: TaperedScore)
        ensures
            r == hand_value_of(self.kind_of(), piece_type),
    {
        let h = match self.kind {
            ValueSetKind::Research => match piece_type {
                PieceType::Pawn => Some(TaperedScore { mg: 110, eg: 130 }),
                PieceType::Lance => Some(TaperedScore { mg: 320, eg: 300 }),
                PieceType::Knight => Some(TaperedScore { mg: 370, eg: 350 }),
                PieceType::Silver => Some(TaperedScore { mg: 480, eg: 490 }),
                PieceType::Gold => Some(TaperedScore { mg: 530, eg: 550 }),
                PieceType::Bishop => Some(TaperedScore { mg: 850, eg: 920 }),
                PieceType::Rook => Some(TaperedScore { mg: 1050, eg: 1180 }),
                _ => None,
            },
            ValueSetKind::Classic => match piece_type {
                PieceType::Pawn => Some(TaperedScore { mg: 105, eg: 115 }),
                PieceType::Lance => Some(TaperedScore { mg: 300, eg: 310 }),
                PieceType::Knight => Some(TaperedScore { mg: 340, eg: 350 }),
                PieceType::Silver => Some(TaperedScore { mg: 450, eg: 460 }),
                PieceType::Gold => Some(TaperedScore { mg: 520, eg: 520 }),
                PieceType::Bishop => Some(TaperedScore { mg: 820, eg: 860 }),
                PieceType::Rook => Some(TaperedScore { mg: 990, eg: 1080 }),
                _ => None,
            },
        };
        match h {
            Some(v) => v,
            None => self.board_value(piece_type),
        }
    }
}

/// Configuration of material evaluation.
#[derive(Clone, Copy, Debug, PartialEq, Eq, Structural)]
pub struct MaterialEvaluationConfig {
    /// Count pieces in hand.
    pub include_hand_pieces: bool,
    /// Use the research value set rather than the classic one.
    pub use_research_values: bool,
}

impl MaterialEvaluationConfig {
    /// Hand pieces counted, research values.
    pub fn default() -> (r: Self)
        ensures
            r.include_hand_pieces,
            r.use_research_values,
    {
        MaterialEvaluationConfig { include_hand_pieces: true, use_research_values: true }
    }
}

/// Counters of material evaluation.
#[derive(Clone, Copy, Debug, Default, PartialEq, Eq)]
pub struct MaterialEvaluationStats {
    /// Number of evaluations performed.
    pub evaluations: u64,
}

/// The value table that a configuration picks: research values or classic ones.
pub open spec fn kind_for(c: MaterialEvaluationConfig) -> ValueSetKind {
    if c.use_research_values {
        ValueSetKind::Research
    } else {
        ValueSetKind::Classic
    }
}

/// Evaluates material with phase-aware piece values.
pub struct MaterialEvaluator {
    config: MaterialEvaluationConfig,
    stats: MaterialEvaluationStats,
    value_set: MaterialValueSet,
}

impl MaterialEvaluator {
    pub closed spec fn config_spec(&self) -> MaterialEvaluationConfig {
        self.config
    }

    pub closed spec fn stats_spec(&self) -> MaterialEvaluationStats {
        self.stats
    }

    /// The value table in use.
    pub closed spec fn kind(&self) -> ValueSetKind {
        self.value_set.kind_of()
    }

    /// The value set in use.
    pub closed spec fn value_set_spec(&self) -> MaterialValueSet {
        self.value_set
    }

    /// The value table always is the one the configuration picks.
    #[verifier::type_invariant]
    spec fn value_set_follows_config(self) -> bool {
        self.value_set.kind_of() == kind_for(self.config)
    }

    /// Default configuration and the research value set.
    pub fn new() -> (r: Self)
        ensures
            r.config_spec() == (MaterialEvaluationConfig { include_hand_pieces: true, use_research_values: true }),
            r.stats_spec().evaluations == 0,
            r.kind() == ValueSetKind::Research,
            is_research_set(r.value_set_spec()),
    {
        Self {
            config: MaterialEvaluationConfig::default(),
            stats: MaterialEvaluationStats { evaluations: 0 },
            value_set: MaterialValueSet::research(),
        }
    }

    /// The given configuration; its `use_research_values` picks the value set.
    pub fn with_config(config: MaterialEvaluationConfig) -> (r: Self)
        ensures
            r.config_spec() == config,
            r.stats_spec().evaluations == 0,
            r.kind() == (if config.use_research_values {
                ValueSetKind::Research
            } else {
                ValueSetKind::Classic
            }),
            if config.use_research_values {
                is_research_set(r.value_set_spec())
            } else {
                is_classic_set(r.value_set_spec())
            },
    {
        let value_set = if config.use_research_values {
            MaterialValueSet::research()
        } else {
            MaterialValueSet::classic()
        };
        Self { config, stats: MaterialEvaluationStats { evaluations: 0 }, value_set }
    }

    pub fn config(&self) -> (r: &MaterialEvaluationConfig)
        ensures
            *r == self.config_spec(),
    {
        &self.config
    }

    pub fn value_set(&self) -> (r: &MaterialValueSet)
        ensures
            r.kind_of() == self.kind(),
            *r == self.value_set_spec(),
    {
        &self.value_set
    }

    pub fn stats(&self) -> (r: &MaterialEvaluationStats)
        ensures
            *r == self.stats_spec(),
    {
        &self.stats
    }

    /// Zero the counters.
    pub fn reset_stats(&mut self)
        ensures
            final(self).stats_spec().evaluations == 0,
            final(self).config_spec() == old(self).config_spec(),
            final(self).kind() == old(self).kind(),
    {
        proof {
            use_type_invariant(&*self);
        }
        self.stats = MaterialEvaluationStats { evaluations: 0 };
    }

    /// Board value of a piece type in the active set.
    pub fn get_piece_value(&self, piece_type: PieceType) -> (r: TaperedScore)
        ensures
            r == board_value_of(self.kind(), piece_type),
    {
        self.value_set.board_value(piece_type)
    }

    /// Hand value of a piece type in the active set.
    pub fn get_hand_piece_value(&self, piece_type: PieceType) -> (r: TaperedScore)
        ensures
            r == hand_value_of(self.kind(), piece_type),
    {
        self.value_set.hand_value(piece_type)
    }

    /// Signed material of the pieces on the board for `player`.
    fn evaluate_board_material(&self, board: &BitboardBoard, player: Player) -> (r: TaperedScore)
        requires
            board.wf(),
        ensures
            r.mg == board_material(self.kind(), board@, player, false),
            r.eg == board_material(self.kind(), board@, player, true),
            -1_620_000 <= r.mg <= 1_620_000,
            -1_620_000 <= r.eg <= 1_620_000,
    {
        let mut mg: i32 = 0;
        let mut eg: i32 = 0;
        let mut i: usize = 0;
        while i < 81
            invariant
                board.wf(),
                i <= 81,
                mg == board_material(self.kind(), board@.subrange(0, i as int), player, false),
                eg == board_material(self.kind(), board@.subrange(0, i as int), player, true),
                -20000 * i <= mg <= 20000 * i,
                -20000 * i <= eg <= 20000 * i,
            decreases 81 - i,
        {
            assert(board@.subrange(0, i + 1).drop_last() == board@.subrange(0, i as int));
            if let Some(piece) = board.get_piece_at_index(i) {
                let v = self.get_piece_value(piece.piece_type);
                proof {
                    lemma_value_bounds(self.kind(), piece.piece_type);
                }
                if piece.player == player {
                    mg = mg + v.mg;
                    eg = eg + v.eg;
                } else {
                    mg = mg - v.mg;
                    eg = eg - v.eg;
                }
            }
            i = i + 1;
        }
        assert(board@.subrange(0, 81) == board@);
        TaperedScore { mg, eg }
    }

    /// Total hand value of `hand`.
    fn sum_hand(&self, hand: &Vec<PieceType>) -> (r: TaperedScore)
        requires
            hand_material(self.kind(), hand@, false) <= i32::MAX,
            hand_material(self.kind(), hand@, true) <= i32::MAX,
        ensures
            r.mg == hand_material(self.kind(), hand@, false),
            r.eg == hand_material(self.kind(), hand@, true),
            0 <= r.mg,
            0 <= r.eg,
    {
        let mut mg: i32 = 0;
        let mut eg: i32 = 0;
        let mut i: usize = 0;
        while i < hand.len()
            invariant
                i <= hand.len(),
                hand_material(self.kind(), hand@, false) <= i32::MAX,
                hand_material(self.kind(), hand@, true) <= i32::MAX,
                mg == hand_material(self.kind(), hand@.subrange(0, i as int), false),
                eg == hand_material(self.kind(), hand@.subrange(0, i as int), true),
                0 <= mg,
                0 <= eg,
            decreases hand.len() - i,
        {
            assert(hand@.subrange(0, i + 1).drop_last() == hand@.subrange(0, i as int));
            let v = self.get_hand_piece_value(hand[i]);
            proof {
                lemma_value_bounds(self.kind(), hand@[i as int]);
                lemma_hand_prefix(self.kind(), hand@, i + 1, false);
                lemma_hand_prefix(self.kind(), hand@, i + 1, true);
            }
            mg = mg + v.mg;
            eg = eg + v.eg;
            i = i + 1;
        }
        assert(hand@.subrange(0, hand.len() as int) == hand@);
        TaperedScore { mg, eg }
    }

    /// Material for `player`: board material plus, when configured, own hand value minus
    /// the opponent's hand value. Counts one evaluation.
    pub fn evaluate_material(
        &mut self,
        board: &BitboardBoard,
        player: Player,
        captured_pieces: &CapturedPieces,
    ) -> (r: TaperedScore)
        requires
            board.wf(),
            old(self).stats_spec().evaluations < u64::MAX,
            material_fits(old(self).kind(), old(self).config_spec().include_hand_pieces, board@, *captured_pieces, player),
        ensures
            r.mg == material_score(
                old(self).kind(),
                old(self).config_spec().include_hand_pieces,
                board@,
                *captured_pieces,
                player,
                false,
            ),
            r.eg == material_score(
                old(self).kind(),
                old(self).config_spec().include_hand_pieces,
                board@,
                *captured_pieces,
                player,
                true,
            ),
            final(self).stats_spec().evaluations == old(self).stats_spec().evaluations + 1,
            final(self).config_spec() == old(self).config_spec(),
            final(self).kind() == old(self).kind(),
            old(self).kind() == kind_for(old(self).config_spec()),
    {
        proof {
            use_type_invariant(&*self);
        }
        self.stats.evaluations = self.stats.evaluations + 1;
        let b = self.evaluate_board_material(board, player);
        if self.config.include_hand_pieces {
            let h = self.evaluate_hand_material(captured_pieces, player);
            TaperedScore { mg: b.mg + h.mg, eg: b.eg + h.eg }
        } else {
            b
        }
    }

    /// The value of the pieces `player` holds in hand minus that of the pieces its
    /// opponent holds.
    fn evaluate_hand_material(&self, captured_pieces: &CapturedPieces, player: Player) -> (r: TaperedScore)
        requires
            hands_fit(self.kind(), *captured_pieces),
        ensures
            r.mg == hand_material(self.kind(), captured_pieces.hand(player), false) - hand_material(
                self.kind(),
                captured_pieces.hand(player.opposite_spec()),
                false,
            ),
            r.eg == hand_material(self.kind(), captured_pieces.hand(player), true) - hand_material(
                self.kind(),
                captured_pieces.hand(player.opposite_spec()),
                true,
            ),
    {
        let (own, opp) = match player {
            Player::Black => (&captured_pieces.black, &captured_pieces.white),
            Player::White => (&captured_pieces.white, &captured_pieces.black),
        };
        let h_own = self.sum_hand(own);
        let h_opp = self.sum_hand(opp);
        TaperedScore { mg: h_own.mg - h_opp.mg, eg: h_own.eg - h_opp.eg }
    }

    /// Material balance for `player`; the same as `evaluate_material`.
    pub fn calculate_material_balance(
        &mut self,
        board: &BitboardBoard,
        captured_pieces: &CapturedPieces,
        player: Player,
    ) -> (r: TaperedScore)
        requires
            board.wf(),
            old(self).stats_spec().evaluations < u64::MAX,
            material_fits(old(self).kind(), old(self).config_spec().include_hand_pieces, board@, *captured_pieces, player),
        ensures
            r.mg == material_score(
                old(self).kind(),
                old(self).config_spec().include_hand_pieces,
                board@,
                *captured_pieces,
                player,
                false,
            ),
            r.eg == material_score(
                old(self).kind(),
                old(self).config_spec().include_hand_pieces,
                board@,
                *captured_pieces,
                player,
                true,
            ),
            final(self).stats_spec().evaluations == old(self).stats_spec().evaluations + 1,
            final(self).config_spec() == old(self).config_spec(),
            final(self).kind() == old(self).kind(),
            old(self).kind() == kind_for(old(self).config_spec()),
    {
        self.evaluate_material(board, player, captured_pieces)
    }

    /// Sum of middlegame values of all non-king pieces on the board, both players.
    pub fn count_total_material(&self, board: &BitboardBoard) -> (r: i32)
        requires
            board.wf(),
        ensures
            r == total_material(self.kind(), board@),
    {
        let mut total: i32 = 0;
        let mut i: usize = 0;
        while i < 81
            invariant
                board.wf(),
                i <= 81,
                total == total_material(self.kind(), board@.subrange(0, i as int)),
                0 <= total <= 1400 * i,
            decreases 81 - i,
        {
            assert(board@.subrange(0, i + 1).drop_last() == board@.subrange(0, i as int));
            if let Some(piece) = board.get_piece_at_index(i) {
                if piece.piece_type != PieceType::King {
                    proof {
                        lemma_value_bounds(self.kind(), piece.piece_type);
                    }
                    total = total + self.get_piece_value(piece.piece_type).mg;
                }
            }
            i = i + 1;
        }
        assert(board@.subrange(0, 81) == board@);
        total
    }

    /// Number of pieces of a type owned by `player` on the board.
    pub fn count_material_by_type(&self, board: &BitboardBoard, piece_type: PieceType, player: Player) -> (r: i32)
        requires
            board.wf(),
        ensures
            r == count_pieces(board@, piece_type, player),
    {
        let mut count: i32 = 0;
        let mut i: usize = 0;
        while i < 81
            invariant
                board.wf(),
                i <= 81,
                count == count_pieces(board@.subrange(0, i as int), piece_type, player),
                0 <= count <= i,
            decreases 81 - i,
        {
            assert(board@.subrange(0, i + 1).drop_last() == board@.subrange(0, i as int));
            if let Some(piece) = board.get_piece_at_index(i) {
                if piece.piece_type == piece_type && piece.player == player {
                    count = count + 1;
                }
            }
            i = i + 1;
        }
        assert(board@.subrange(0, 81) == board@);
        count
    }
}

/// Board material for one player is the negation of board material for the other.
pub proof fn lemma_board_material_antisymmetric(kind: ValueSetKind, s: Seq<Option<Piece>>, eg: bool)
    ensures
        board_material(kind, s, Player::Black, eg) == -board_material(kind, s, Player::White, eg),
    decreases s.len(),
{
    if s.len() > 0 {
        lemma_board_material_antisymmetric(kind, s.drop_last(), eg);
    }
}

/// Material balance is colour-symmetric for a configuration: evaluators made with the same
/// configuration (which picks the value table) score Black as the negation of White, on
/// every board and with every pair of hands, in both phases.
pub proof fn law_material_balance_symmetry(
    c: MaterialEvaluationConfig,
    b: Seq<Option<Piece>>,
    cp: CapturedPieces,
    eg: bool,
)
    ensures
        material_score(kind_for(c), c.include_hand_pieces, b, cp, Player::Black, eg) == -material_score(
            kind_for(c),
            c.include_hand_pieces,
            b,
            cp,
            Player::White,
            eg,
        ),
{
    law_material_symmetry(kind_for(c), c.include_hand_pieces, b, cp, eg);
}

/// Material symmetry: on every board and with every pair of hands, the material score for
/// Black is the negation of the score for White, in both phases and under either value set.
pub proof fn law_material_symmetry(
    kind: ValueSetKind,
    include_hand: bool,
    b: Seq<Option<Piece>>,
    cp: CapturedPieces,
    eg: bool,
)
    ensures
        material_score(kind, include_hand, b, cp, Player::Black, eg) == -material_score(
            kind,
            include_hand,
            b,
            cp,
            Player::White,
            eg,
        ),
{
    lemma_board_material_antisymmetric(kind, b, eg);
}

} // verus!
