//! Conversion of JSON opening data (openings with moves per position) into book moves:
//! piece types, weights, evaluations and notation, with migration statistics.

use vstd::prelude::*;
use vstd::string::StrSliceExecFns;
use crate::opening_book::{BookMove, BookMoveView, OpeningBook, OpeningBookError, opt_text};
use crate::opening_book::book::{PositionEntryView, fen_key, entry_ok, evaluations_bounded, fresh_metadata};
use crate::opening_book::binary_format::move_views;
use crate::opening_book::coordinate_utils::{parse_piece_type, string_to_position};
use crate::kif_parser::has_prefix;
use crate::text::{chars_to_string, push_decimal, push_str, string_of, str_eq, decimal};
use crate::types::{PieceType, Position, piece_name, usi_square};

verus! {

/// A move as written in JSON opening data.
#[derive(Debug, Clone)]
pub struct JsonMove {
    pub from: String,
    pub to: String,
    pub promote: bool,
    pub piece_type: String,
}

/// An opening in JSON data: its name and its moves per position.
#[derive(Debug, Clone)]
pub struct JsonOpening {
    pub name: String,
    pub moves: Vec<(String, Vec<JsonMove>)>,
}

/// How many converted moves fall in each weight band.
#[derive(Debug, Clone)]
pub struct WeightDistribution {
    /// 800 and above.
    pub high: usize,
    /// 500 to 799.
    pub medium: usize,
    /// Below 500.
    pub low: usize,
}

/// Statistics of a conversion.
#[derive(Debug, Clone)]
pub struct MigrationStats {
    pub total_positions: usize,
    pub total_moves: usize,
    /// Moves per opening name, each name once.
    pub opening_counts: Vec<(String, usize)>,
    /// Converted moves per piece type name, each name once.
    pub piece_type_counts: Vec<(String, usize)>,
    pub weight_distribution: WeightDistribution,
}

/// Converts JSON opening data into book moves.
pub struct OpeningBookConverter {
    opening_weights: Vec<(String, u32)>,
    evaluation_scores: Vec<(String, i32)>,
}

// ----- the model -----

/// The characters of a JSON move.
pub struct JsonMoveView {
    pub from: Seq<char>,
    pub to: Seq<char>,
    pub promote: bool,
    pub piece_type: Seq<char>,
}

impl View for JsonMove {
    type V = JsonMoveView;

    open spec fn view(&self) -> JsonMoveView {
        JsonMoveView { from: self.from@, to: self.to@, promote: self.promote, piece_type: self.piece_type@ }
    }
}

/// The first value stored under `key`.
pub open spec fn lookup<V>(table: Seq<(Seq<char>, V)>, key: Seq<char>) -> Option<V>
    decreases table.len(),
{
    if table.len() == 0 {
        None
    } else if table[0].0 == key {
        Some(table[0].1)
    } else {
        lookup(table.drop_first(), key)
    }
}

/// The base weight of each known opening.
pub open spec fn opening_weight_table() -> Seq<(Seq<char>, u32)> {
    seq![
        ("Aggressive Rook"@, 850u32),
        ("Yagura"@, 800u32),
        ("Kakugawari (Bishop Exchange)"@, 750u32),
        ("Shikenbisya (Fourth File Rook)"@, 700u32),
        ("Aigakari (Double Wing Attack)"@, 650u32),
        ("Side Pawn Picker (Yokofudori)"@, 600u32),
    ]
}

/// The base evaluation of each kind of move.
pub open spec fn evaluation_table() -> Seq<(Seq<char>, i32)> {
    seq![
        ("development"@, 15i32),
        ("central_control"@, 20i32),
        ("king_safety"@, 25i32),
        ("tactical"@, 30i32),
        ("positional"@, 10i32),
        ("neutral"@, 0i32),
    ]
}

pub open spec fn is_drop_text(s: Seq<char>) -> bool {
    s == "drop"@
}

/// The weight of a move: the opening's base weight (500 when unknown), plus 100 for a
/// promotion, 50 for a drop, 50 for a rook move from file 2 in "Aggressive Rook" and 50 for
/// a move from 77 or 69 in "Yagura"; at most 1000.
pub open spec fn move_weight(m: JsonMoveView, opening: Seq<char>) -> int {
    let base: int = match lookup(opening_weight_table(), opening) {
        Some(w) => w as int,
        None => 500,
    };
    let w = base + (if m.promote {
        100int
    } else {
        0int
    }) + (if is_drop_text(m.from) {
        50int
    } else {
        0int
    }) + (if opening == "Aggressive Rook"@ && has_prefix(m.from, "2"@) {
        50int
    } else if opening == "Yagura"@ && (m.from == "77"@ || m.from == "69"@) {
        50int
    } else {
        0int
    });
    if w < 1000 {
        w
    } else {
        1000
    }
}

/// The kind of a move: drops and promotions are tactical, then moves to the four centre
/// squares, then moves to the castle squares, then development in "Yagura" and "Aggressive
/// Rook", else positional.
pub open spec fn move_kind(m: JsonMoveView, opening: Seq<char>) -> Seq<char> {
    if is_drop_text(m.from) || m.promote {
        "tactical"@
    } else if m.to == "44"@ || m.to == "45"@ || m.to == "54"@ || m.to == "55"@ {
        "central_control"@
    } else if m.to == "77"@ || m.to == "78"@ || m.to == "87"@ || m.to == "88"@ {
        "king_safety"@
    } else if opening == "Yagura"@ || opening == "Aggressive Rook"@ {
        "development"@
    } else {
        "positional"@
    }
}

/// The evaluation of a move: the base evaluation of its kind, plus 5 in "Aggressive Rook"
/// and "Yagura", 10 in the bishop exchange, and 15 for a promotion.
pub open spec fn move_evaluation(m: JsonMoveView, opening: Seq<char>) -> int {
    let base: int = match lookup(evaluation_table(), move_kind(m, opening)) {
        Some(e) => e as int,
        None => 0,
    };
    base + (if opening == "Aggressive Rook"@ || opening == "Yagura"@ {
        5int
    } else if opening == "Kakugawari (Bishop Exchange)"@ {
        10int
    } else {
        0int
    }) + (if m.promote {
        15int
    } else {
        0int
    })
}

/// The piece type guessed from the opening and the squares of a move.
pub open spec fn guessed_piece(m: JsonMoveView, opening: Seq<char>) -> PieceType {
    if opening == "Aggressive Rook"@ {
        if has_prefix(m.from, "2"@) {
            PieceType::Rook
        } else {
            PieceType::Pawn
        }
    } else if opening == "Yagura"@ {
        if m.from == "69"@ || m.to == "78"@ {
            PieceType::Gold
        } else {
            PieceType::Pawn
        }
    } else if opening == "Kakugawari (Bishop Exchange)"@ {
        if m.from == "22"@ || m.to == "88"@ {
            PieceType::Bishop
        } else {
            PieceType::Pawn
        }
    } else if opening == "Shikenbisya (Fourth File Rook)"@ {
        if m.from == "28"@ || m.to == "58"@ {
            PieceType::Rook
        } else {
            PieceType::Pawn
        }
    } else if has_prefix(m.from, "2"@) || has_prefix(m.from, "8"@) {
        PieceType::Rook
    } else {
        PieceType::Pawn
    }
}

/// The UTF-8 length of a character.
pub open spec fn utf8_width(c: char) -> nat {
    if (c as u32) < 0x80 {
        1
    } else if (c as u32) < 0x800 {
        2
    } else if (c as u32) < 0x10000 {
        3
    } else {
        4
    }
}

/// The UTF-8 length of a text.
pub open spec fn utf8_len(s: Seq<char>) -> nat
    decreases s.len(),
{
    if s.len() == 0 {
        0
    } else {
        utf8_len(s.drop_last()) + utf8_width(s.last())
    }
}

/// The row character of a two-byte coordinate (the second character, or '1').
pub open spec fn row_char(pos: Seq<char>) -> char {
    if pos.len() >= 2 {
        pos[1]
    } else {
        '1'
    }
}

/// The low byte of a character.
pub open spec fn low_byte(c: char) -> int {
    (c as u32 as int) % 256
}

/// Whether a coordinate can be rewritten without the row arithmetic leaving a byte.
pub open spec fn coordinate_fits(pos: Seq<char>) -> bool {
    utf8_len(pos) == 2 ==> 49 <= low_byte(row_char(pos)) <= 207
}

/// The USI form of a two-byte coordinate "fr": the file character, then the letter of row
/// `r` (rows counted from '1', letters from 'a'); empty for any other length.
pub open spec fn usi_coordinate(pos: Seq<char>) -> Seq<char> {
    if utf8_len(pos) != 2 {
        Seq::empty()
    } else {
        seq![pos[0], (97 + low_byte(row_char(pos)) - 49) as char]
    }
}

/// The USI letter of a droppable piece ('P' for any other).
pub open spec fn drop_letter(pt: PieceType) -> char {
    match pt {
        PieceType::Lance => 'L',
        PieceType::Knight => 'N',
        PieceType::Silver => 'S',
        PieceType::Gold => 'G',
        PieceType::Bishop => 'B',
        PieceType::Rook => 'R',
        _ => 'P',
    }
}

/// The USI notation of a move: "P*5e" for a drop, "7g7f" or "7g7f+" otherwise.
pub open spec fn move_notation(m: JsonMoveView, pt: PieceType) -> Seq<char> {
    if is_drop_text(m.from) {
        seq![drop_letter(pt), '*'] + usi_coordinate(m.to)
    } else {
        usi_coordinate(m.from) + usi_coordinate(m.to) + (if m.promote {
            seq!['+']
        } else {
            Seq::empty()
        })
    }
}

/// Whether the squares and piece type of a JSON move can be read.
pub open spec fn convertible(m: JsonMoveView) -> bool {
    &&& (is_drop_text(m.from) || usi_square(m.from) is Some)
    &&& usi_square(m.to) is Some
    &&& (m.piece_type.len() == 0 || exists|pt: PieceType| m.piece_type == piece_name(pt))
}

/// The piece type of a JSON move: the named one, else the guessed one.
pub open spec fn json_piece(m: JsonMoveView, opening: Seq<char>) -> PieceType {
    if m.piece_type.len() == 0 {
        guessed_piece(m, opening)
    } else {
        choose|pt: PieceType| m.piece_type == piece_name(pt)
    }
}

/// The book move of a convertible JSON move.
pub open spec fn converted(m: JsonMoveView, opening: Seq<char>) -> BookMoveView {
    let pt = json_piece(m, opening);
    BookMoveView {
        from: if is_drop_text(m.from) {
            None
        } else {
            usi_square(m.from)
        },
        to: usi_square(m.to)->0,
        piece_type: pt,
        is_drop: is_drop_text(m.from),
        is_promotion: m.promote,
        weight: move_weight(m, opening) as u32,
        evaluation: move_evaluation(m, opening) as i32,
        opening_name: Some(opening),
        move_notation: Some(move_notation(m, pt)),
    }
}

pub open spec fn table_view<V>(t: Seq<(String, V)>) -> Seq<(Seq<char>, V)> {
    t.map_values(|e: (String, V)| (e.0@, e.1))
}

/// Length and first, second and ninth characters of a piece name.
pub open spec fn name_sig(pt: PieceType) -> (nat, char, char, char) {
    match pt {
        PieceType::Pawn => (4nat, 'p', 'a', ' '),
        PieceType::Lance => (5nat, 'l', 'a', ' '),
        PieceType::Knight => (6nat, 'k', 'n', ' '),
        PieceType::Silver => (6nat, 's', 'i', ' '),
        PieceType::Gold => (4nat, 'g', 'o', ' '),
        PieceType::Bishop => (6nat, 'b', 'i', ' '),
        PieceType::Rook => (4nat, 'r', 'o', ' '),
        PieceType::King => (4nat, 'k', 'i', ' '),
        PieceType::PromotedPawn => (12nat, 'p', 'r', 'P'),
        PieceType::PromotedLance => (13nat, 'p', 'r', 'L'),
        PieceType::PromotedKnight => (14nat, 'p', 'r', 'K'),
        PieceType::PromotedSilver => (14nat, 'p', 'r', 'S'),
        PieceType::PromotedBishop => (14nat, 'p', 'r', 'B'),
        PieceType::PromotedRook => (12nat, 'p', 'r', 'R'),
    }
}

proof fn lemma_name_sig(pt: PieceType)
    ensures
        piece_name(pt).len() == name_sig(pt).0,
        piece_name(pt)[0] == name_sig(pt).1,
        piece_name(pt)[1] == name_sig(pt).2,
        piece_name(pt).len() > 8 ==> piece_name(pt)[8] == name_sig(pt).3,
{
    match pt {
        PieceType::Pawn => reveal_strlit("pawn"),
        PieceType::Lance => reveal_strlit("lance"),
        PieceType::Knight => reveal_strlit("knight"),
        PieceType::Silver => reveal_strlit("silver"),
        PieceType::Gold => reveal_strlit("gold"),
        PieceType::Bishop => reveal_strlit("bishop"),
        PieceType::Rook => reveal_strlit("rook"),
        PieceType::King => reveal_strlit("king"),
        PieceType::PromotedPawn => reveal_strlit("promotedPawn"),
        PieceType::PromotedLance => reveal_strlit("promotedLance"),
        PieceType::PromotedKnight => reveal_strlit("promotedKnight"),
        PieceType::PromotedSilver => reveal_strlit("promotedSilver"),
        PieceType::PromotedBishop => reveal_strlit("promotedBishop"),
        PieceType::PromotedRook => reveal_strlit("promotedRook"),
    }
}

pub proof fn lemma_piece_name_injective(a: PieceType, b: PieceType)
    requires
        piece_name(a) == piece_name(b),
    ensures
        a == b,
{
    lemma_name_sig(a);
    lemma_name_sig(b);
    assert(name_sig(a) == name_sig(b));
}

// ----- text helpers -----

fn text_is(s: &String, lit: &str) -> (r: bool)
    ensures
        r == (s@ == lit@),
{
    str_eq(s.as_str(), lit)
}

fn text_starts_with(s: &String, lit: &str) -> (r: bool)
    ensures
        r == has_prefix(s@, lit@),
{
    crate::text::starts_with(s.as_str(), lit)
}

impl OpeningBookConverter {
    #[verifier::type_invariant]
    spec fn tables_fixed(&self) -> bool {
        &&& table_view(self.opening_weights@) == opening_weight_table()
        &&& table_view(self.evaluation_scores@) == evaluation_table()
    }
}


proof fn lemma_utf8_len_ge(s: Seq<char>)
    ensures
        utf8_len(s) >= s.len(),
    decreases s.len(),
{
    if s.len() > 0 {
        lemma_utf8_len_ge(s.drop_last());
    }
}

proof fn lemma_evaluation_table_bounds(k: Seq<char>)
    ensures
        lookup(evaluation_table(), k) matches Some(e) ==> 0 <= e <= 30,
{
    reveal_with_fuel(lookup, 7);
}

fn utf8_width_of(c: char) -> (r: usize)
    ensures
        r == utf8_width(c),
{
    let code = c as u32;
    if code < 0x80 {
        1
    } else if code < 0x800 {
        2
    } else if code < 0x10000 {
        3
    } else {
        4
    }
}

/// Whether a string occupies exactly two bytes in UTF-8.
fn two_bytes(s: &str) -> (r: bool)
    ensures
        r == (utf8_len(s@) == 2),
{
    let n = s.unicode_len();
    proof {
        lemma_utf8_len_ge(s@);
    }
    if n == 0 || n > 2 {
        return false;
    }
    if n == 1 {
        assert(s@.drop_last().len() == 0);
        assert(utf8_len(s@.drop_last()) == 0);
        assert(s@.last() == s@[0]);
        utf8_width_of(s.get_char(0)) == 2
    } else {
        let ghost a = s@.drop_last();
        assert(a.drop_last().len() == 0);
        assert(utf8_len(a.drop_last()) == 0);
        assert(a.last() == s@[0]);
        assert(utf8_len(a) == utf8_width(s@[0]));
        assert(s@.last() == s@[1]);
        utf8_width_of(s.get_char(0)) + utf8_width_of(s.get_char(1)) == 2
    }
}

fn lookup_string<V: Copy>(table: &Vec<(String, V)>, key: &str) -> (r: Option<V>)
    ensures
        r == lookup(table_view(table@), key@),
{
    let ghost t = table_view(table@);
    let mut i: usize = 0;
    assert(t.subrange(0, t.len() as int) == t);
    while i < table.len()
        invariant
            t == table_view(table@),
            i <= table@.len(),
            lookup(t, key@) == lookup(t.subrange(i as int, t.len() as int), key@),
        decreases table@.len() - i,
    {
        let ghost rest = t.subrange(i as int, t.len() as int);
        assert(rest[0] == t[i as int]);
        assert(rest.drop_first() == t.subrange(i + 1, t.len() as int));
        if str_eq(table[i].0.as_str(), key) {
            return Some(table[i].1);
        }
        i = i + 1;
    }
    assert(t.subrange(i as int, t.len() as int).len() == 0);
    None
}

fn literal(s: &str) -> (r: String)
    ensures
        r@ == s@,
{
    string_of(s)
}

impl OpeningBookConverter {
    /// The base weights of the known openings.
    pub closed spec fn weight_table(&self) -> Seq<(Seq<char>, u32)> {
        table_view(self.opening_weights@)
    }

    /// The base evaluations of the kinds of move.
    pub closed spec fn score_table(&self) -> Seq<(Seq<char>, i32)> {
        table_view(self.evaluation_scores@)
    }

    /// A converter with the standard opening weights and move evaluations.
    pub fn new() -> (r: Self)
        ensures
            r.weight_table() == opening_weight_table(),
            r.score_table() == evaluation_table(),
    {
        let mut opening_weights: Vec<(String, u32)> = Vec::new();
        opening_weights.push((literal("Aggressive Rook"), 850));
        opening_weights.push((literal("Yagura"), 800));
        opening_weights.push((literal("Kakugawari (Bishop Exchange)"), 750));
        opening_weights.push((literal("Shikenbisya (Fourth File Rook)"), 700));
        opening_weights.push((literal("Aigakari (Double Wing Attack)"), 650));
        opening_weights.push((literal("Side Pawn Picker (Yokofudori)"), 600));
        let mut evaluation_scores: Vec<(String, i32)> = Vec::new();
        evaluation_scores.push((literal("development"), 15));
        evaluation_scores.push((literal("central_control"), 20));
        evaluation_scores.push((literal("king_safety"), 25));
        evaluation_scores.push((literal("tactical"), 30));
        evaluation_scores.push((literal("positional"), 10));
        evaluation_scores.push((literal("neutral"), 0));
        assert(table_view(opening_weights@) =~= opening_weight_table());
        assert(table_view(evaluation_scores@) =~= evaluation_table());
        OpeningBookConverter { opening_weights, evaluation_scores }
    }

    /// The weight of a move in an opening (see `move_weight`).
    pub fn calculate_weight(&self, json_move: &JsonMove, opening_name: &str) -> (r: u32)
        ensures
            r == move_weight(json_move@, opening_name@),
    {
        proof {
            use_type_invariant(self);
        }
        proof {
            reveal_strlit("Aggressive Rook");
            reveal_strlit("Yagura");
        }
        let base: u64 = match lookup_string(&self.opening_weights, opening_name) {
            Some(w) => w as u64,
            None => 500,
        };
        let mut weight: u64 = base;
        assert("Aggressive Rook"@.len() != "Yagura"@.len());
        if json_move.promote {
            weight = weight + 100;
        }
        if text_is(&json_move.from, "drop") {
            weight = weight + 50;
        }
        if str_eq(opening_name, "Aggressive Rook") {
            if text_starts_with(&json_move.from, "2") {
                weight = weight + 50;
            }
        } else if str_eq(opening_name, "Yagura") {
            if text_is(&json_move.from, "77") || text_is(&json_move.from, "69") {
                weight = weight + 50;
            }
        }
        if weight < 1000 {
            weight as u32
        } else {
            1000
        }
    }

    /// The kind of a move (see `move_kind`).
    pub fn classify_move_type(&self, json_move: &JsonMove, opening_name: &str) -> (r: String)
        ensures
            r@ == move_kind(json_move@, opening_name@),
    {
        if text_is(&json_move.from, "drop") || json_move.promote {
            return literal("tactical");
        }
        let to = &json_move.to;
        if text_is(to, "44") || text_is(to, "45") || text_is(to, "54") || text_is(to, "55") {
            return literal("central_control");
        }
        if text_is(to, "77") || text_is(to, "78") || text_is(to, "87") || text_is(to, "88") {
            return literal("king_safety");
        }
        if str_eq(opening_name, "Yagura") || str_eq(opening_name, "Aggressive Rook") {
            return literal("development");
        }
        literal("positional")
    }

    /// The evaluation of a move in an opening (see `move_evaluation`).
    pub fn calculate_evaluation(&self, json_move: &JsonMove, opening_name: &str) -> (r: i32)
        ensures
            r == move_evaluation(json_move@, opening_name@),
    {
        proof {
            use_type_invariant(self);
        }
        let kind = self.classify_move_type(json_move, opening_name);
        let base: i32 = match lookup_string(&self.evaluation_scores, kind.as_str()) {
            Some(e) => e,
            None => 0,
        };
        proof {
            lemma_evaluation_table_bounds(kind@);
        }
        let mut evaluation = base;
        if str_eq(opening_name, "Aggressive Rook") || str_eq(opening_name, "Yagura") {
            evaluation = evaluation + 5;
        } else if str_eq(opening_name, "Kakugawari (Bishop Exchange)") {
            evaluation = evaluation + 10;
        }
        if json_move.promote {
            evaluation = evaluation + 15;
        }
        evaluation
    }

    /// The piece type guessed for a move of an opening (see `guessed_piece`).
    pub fn determine_piece_type(&self, json_move: &JsonMove, opening_name: &str, fen: &str) -> (r: Result<PieceType, OpeningBookError>)
        ensures
            r == Ok::<PieceType, OpeningBookError>(guessed_piece(json_move@, opening_name@)),
    {
        let from = &json_move.from;
        let to = &json_move.to;
        let pt = if str_eq(opening_name, "Aggressive Rook") {
            if text_starts_with(from, "2") {
                PieceType::Rook
            } else {
                PieceType::Pawn
            }
        } else if str_eq(opening_name, "Yagura") {
            if text_is(from, "69") || text_is(to, "78") {
                PieceType::Gold
            } else {
                PieceType::Pawn
            }
        } else if str_eq(opening_name, "Kakugawari (Bishop Exchange)") {
            if text_is(from, "22") || text_is(to, "88") {
                PieceType::Bishop
            } else {
                PieceType::Pawn
            }
        } else if str_eq(opening_name, "Shikenbisya (Fourth File Rook)") {
            if text_is(from, "28") || text_is(to, "58") {
                PieceType::Rook
            } else {
                PieceType::Pawn
            }
        } else if text_starts_with(from, "2") || text_starts_with(from, "8") {
            PieceType::Rook
        } else {
            PieceType::Pawn
        };
        Ok(pt)
    }

    /// The USI form of a two-byte coordinate (see `usi_coordinate`).
    pub fn position_to_usi(&self, pos: &str) -> (r: String)
        requires
            coordinate_fits(pos@),
        ensures
            r@ == usi_coordinate(pos@),
    {
        if !two_bytes(pos) {
            proof {
                reveal_strlit("");
            }
            return literal("");
        }
        proof {
            lemma_utf8_len_ge(pos@);
        }
        let col = pos.get_char(0);
        let row = if pos.unicode_len() >= 2 {
            pos.get_char(1)
        } else {
            '1'
        };
        let low: u8 = ((row as u32) % 256) as u8;
        let letter: u8 = 97 + (low - 49);
        let mut out: Vec<char> = Vec::new();
        out.push(col);
        out.push(letter as char);
        proof {
            assert(out@ == usi_coordinate(pos@));
        }
        chars_to_string(&out)
    }

    /// The USI notation of a move (see `move_notation`).
    pub fn generate_move_notation(&self, json_move: &JsonMove, piece_type: &PieceType) -> (r: String)
        requires
            !is_drop_text(json_move@.from) ==> coordinate_fits(json_move@.from),
            coordinate_fits(json_move@.to),
        ensures
            r@ == move_notation(json_move@, *piece_type),
    {
        let mut out: Vec<char> = Vec::new();
        if text_is(&json_move.from, "drop") {
            let letter = match piece_type {
                PieceType::Lance => 'L',
                PieceType::Knight => 'N',
                PieceType::Silver => 'S',
                PieceType::Gold => 'G',
                PieceType::Bishop => 'B',
                PieceType::Rook => 'R',
                _ => 'P',
            };
            out.push(letter);
            out.push('*');
            let to = self.position_to_usi(json_move.to.as_str());
            push_str(&mut out, to.as_str());
        } else {
            let from = self.position_to_usi(json_move.from.as_str());
            let to = self.position_to_usi(json_move.to.as_str());
            push_str(&mut out, from.as_str());
            push_str(&mut out, to.as_str());
            if json_move.promote {
                out.push('+');
            }
        }
        chars_to_string(&out)
    }
}

proof fn lemma_usi_square_fits(s: Seq<char>)
    requires
        usi_square(s) is Some,
    ensures
        coordinate_fits(s),
{
    let a = s.drop_last();
    assert(a.drop_last().len() == 0);
    assert(utf8_len(a.drop_last()) == 0);
    assert(a.last() == s[0]);
    assert(s.last() == s[1]);
    assert(utf8_width(s[0]) == 1);
    assert(utf8_width(s[1]) == 1);
    assert(utf8_len(a) == 1);
    assert(utf8_len(s) == 2);
}

impl OpeningBookConverter {
    /// The book move of a JSON move of an opening: its squares (or a drop), its piece type
    /// (named, else guessed), weight, evaluation, opening name and notation. An
    /// `InvalidMove` error when a square or the piece name cannot be read.
    pub fn convert_move(&self, json_move: &JsonMove, opening_name: &str, fen: &str, move_index: usize) -> (r: Result<
        BookMove,
        OpeningBookError,
    >)
        ensures
            r is Ok <==> convertible(json_move@),
            r matches Ok(bm) ==> bm@ == converted(json_move@, opening_name@),
            r matches Err(e) ==> e is InvalidMove,
    {
        let drop = text_is(&json_move.from, "drop");
        let from: Option<Position> = if drop {
            None
        } else {
            match string_to_position(json_move.from.as_str()) {
                Ok(p) => Some(p),
                Err(e) => return Err(e),
            }
        };
        let to = match string_to_position(json_move.to.as_str()) {
            Ok(p) => p,
            Err(e) => return Err(e),
        };
        let piece_type = if json_move.piece_type.as_str().unicode_len() > 0 {
            match parse_piece_type(json_move.piece_type.as_str()) {
                Ok(pt) => {
                    proof {
                        let c = choose|q: PieceType| json_move@.piece_type == piece_name(q);
                        lemma_piece_name_injective(c, pt);
                    }
                    pt
                },
                Err(e) => return Err(e),
            }
        } else {
            match self.determine_piece_type(json_move, opening_name, fen) {
                Ok(pt) => pt,
                Err(e) => return Err(e),
            }
        };
        proof {
            lemma_usi_square_fits(json_move@.to);
            if !drop {
                lemma_usi_square_fits(json_move@.from);
            }
        }
        let weight = self.calculate_weight(json_move, opening_name);
        let evaluation = self.calculate_evaluation(json_move, opening_name);
        let notation = self.generate_move_notation(json_move, &piece_type);
        Ok(
            BookMove::new_with_metadata(
                from,
                to,
                piece_type,
                drop,
                json_move.promote,
                weight,
                evaluation,
                Some(string_of(opening_name)),
                Some(notation),
            ),
        )
    }

    /// The book moves of a list of JSON moves, in order; the first error otherwise.
    pub fn convert_moves(&self, moves: &Vec<JsonMove>, opening_name: &str, fen: &str) -> (r: Result<
        Vec<BookMove>,
        OpeningBookError,
    >)
        ensures
            r is Ok <==> forall|i: int| 0 <= i < moves@.len() ==> convertible(#[trigger] moves@[i]@),
            r matches Ok(v) ==> v@.len() == moves@.len() && forall|i: int|
                0 <= i < moves@.len() ==> #[trigger] v@[i]@ == converted(moves@[i]@, opening_name@),
    {
        let mut out: Vec<BookMove> = Vec::new();
        let mut i: usize = 0;
        while i < moves.len()
            invariant
                i <= moves@.len(),
                out@.len() == i,
                forall|k: int| 0 <= k < i ==> convertible(#[trigger] moves@[k]@),
                forall|k: int| 0 <= k < i ==> #[trigger] out@[k]@ == converted(moves@[k]@, opening_name@),
            decreases moves@.len() - i,
        {
            match self.convert_move(&moves[i], opening_name, fen, i) {
                Ok(bm) => out.push(bm),
                Err(e) => return Err(e),
            }
            i = i + 1;
        }
        Ok(out)
    }
}

// ----- the report -----

/// `x` placed into `s` after every entry whose count is at least its own.
pub open spec fn insert_by_count(s: Seq<(Seq<char>, usize)>, x: (Seq<char>, usize)) -> Seq<(Seq<char>, usize)>
    decreases s.len(),
{
    if s.len() == 0 {
        seq![x]
    } else if s.last().1 >= x.1 {
        s.push(x)
    } else {
        insert_by_count(s.drop_last(), x).push(s.last())
    }
}

/// The entries by count, largest first; entries with equal counts keep their order.
pub open spec fn by_count(s: Seq<(Seq<char>, usize)>) -> Seq<(Seq<char>, usize)>
    decreases s.len(),
{
    if s.len() == 0 {
        Seq::empty()
    } else {
        insert_by_count(by_count(s.drop_last()), s.last())
    }
}

/// The report lines of some counted entries, each on a new line.
pub open spec fn count_lines(s: Seq<(Seq<char>, usize)>) -> Seq<char>
    decreases s.len(),
{
    if s.len() == 0 {
        Seq::empty()
    } else {
        count_lines(s.drop_last()) + "\n  "@ + s.last().0 + ": "@ + decimal(s.last().1 as nat) + " moves"@
    }
}

/// The text of the migration report of `stats`.
pub open spec fn report_text(stats: MigrationStats) -> Seq<char> {
    "=== Opening Book Migration Report ===\nTotal Positions: "@ + decimal(stats.total_positions as nat)
        + "\nTotal Moves: "@ + decimal(stats.total_moves as nat) + "\n\nOpening Distribution:"@
        + count_lines(by_count(table_view(stats.opening_counts@))) + "\n\nPiece Type Distribution:"@
        + count_lines(by_count(table_view(stats.piece_type_counts@))) + "\n\nWeight Distribution:\n  High (800+): "@
        + decimal(stats.weight_distribution.high as nat) + " moves\n  Medium (500-799): "@
        + decimal(stats.weight_distribution.medium as nat) + " moves\n  Low (<500): "@
        + decimal(stats.weight_distribution.low as nat) + " moves"@
}

proof fn lemma_insert_by_count(s: Seq<(Seq<char>, usize)>, x: (Seq<char>, usize), k: int)
    requires
        0 <= k <= s.len(),
        k > 0 ==> s[k - 1].1 >= x.1,
        forall|j: int| k <= j < s.len() ==> s[j].1 < x.1,
    ensures
        insert_by_count(s, x) == s.insert(k, x),
    decreases s.len(),
{
    if s.len() == 0 {
        assert(s.insert(k, x) =~= seq![x]);
    } else if k == s.len() {
        assert(s.insert(k, x) =~= s.push(x));
    } else {
        assert(s.last().1 < x.1);
        lemma_insert_by_count(s.drop_last(), x, k);
        assert(s.drop_last().insert(k, x).push(s.last()) =~= s.insert(k, x));
    }
}

fn sort_counts(entries: &Vec<(String, usize)>) -> (r: Vec<(String, usize)>)
    ensures
        table_view(r@) == by_count(table_view(entries@)),
{
    let ghost input = table_view(entries@);
    let mut out: Vec<(String, usize)> = Vec::new();
    let mut i: usize = 0;
    while i < entries.len()
        invariant
            input == table_view(entries@),
            i <= entries@.len(),
            table_view(out@) == by_count(input.subrange(0, i as int)),
        decreases entries@.len() - i,
    {
        let name = entries[i].0.clone();
        let count = entries[i].1;
        let mut k = out.len();
        while k > 0 && out[k - 1].1 < count
            invariant
                k <= out@.len(),
                forall|j: int| k <= j < out@.len() ==> out@[j].1 < count,
            decreases k,
        {
            k = k - 1;
        }
        let ghost before = table_view(out@);
        proof {
            lemma_insert_by_count(before, (name@, count), k as int);
            assert(input.subrange(0, i + 1).drop_last() == input.subrange(0, i as int));
            assert(input.subrange(0, i + 1).last() == (name@, count));
        }
        out.insert(k, (name, count));
        assert(table_view(out@) =~= before.insert(k as int, (name@, count)));
        i = i + 1;
    }
    assert(input.subrange(0, entries@.len() as int) == input);
    out
}

fn push_count_lines(out: &mut Vec<char>, entries: &Vec<(String, usize)>)
    ensures
        final(out)@ == old(out)@ + count_lines(table_view(entries@)),
{
    let ghost t = table_view(entries@);
    let mut i: usize = 0;
    while i < entries.len()
        invariant
            t == table_view(entries@),
            i <= entries@.len(),
            out@ == old(out)@ + count_lines(t.subrange(0, i as int)),
        decreases entries@.len() - i,
    {
        proof {
            assert(t.subrange(0, i + 1).drop_last() == t.subrange(0, i as int));
            assert(t.subrange(0, i + 1).last() == t[i as int]);
        }
        push_str(out, "\n  ");
        push_str(out, entries[i].0.as_str());
        push_str(out, ": ");
        push_decimal(out, entries[i].1 as u128);
        push_str(out, " moves");
        i = i + 1;
    }
    assert(t.subrange(0, entries@.len() as int) == t);
}

impl OpeningBookConverter {
    /// The migration report: totals, moves per opening and per piece type (largest first),
    /// and the weight bands (see `report_text`).
    pub fn generate_report(&self, stats: &MigrationStats) -> (r: String)
        ensures
            r@ == report_text(*stats),
    {
        let mut out: Vec<char> = Vec::new();
        push_str(&mut out, "=== Opening Book Migration Report ===\nTotal Positions: ");
        push_decimal(&mut out, stats.total_positions as u128);
        push_str(&mut out, "\nTotal Moves: ");
        push_decimal(&mut out, stats.total_moves as u128);
        push_str(&mut out, "\n\nOpening Distribution:");
        let openings = sort_counts(&stats.opening_counts);
        push_count_lines(&mut out, &openings);
        push_str(&mut out, "\n\nPiece Type Distribution:");
        let pieces = sort_counts(&stats.piece_type_counts);
        push_count_lines(&mut out, &pieces);
        push_str(&mut out, "\n\nWeight Distribution:\n  High (800+): ");
        push_decimal(&mut out, stats.weight_distribution.high as u128);
        push_str(&mut out, " moves\n  Medium (500-799): ");
        push_decimal(&mut out, stats.weight_distribution.medium as u128);
        push_str(&mut out, " moves\n  Low (<500): ");
        push_decimal(&mut out, stats.weight_distribution.low as u128);
        push_str(&mut out, " moves");
        chars_to_string(&out)
    }
}

// ----- whole conversions -----

/// The name of a piece type as its variant is written ("Pawn", "PromotedRook", ...).
pub open spec fn variant_name(pt: PieceType) -> Seq<char> {
    match pt {
        PieceType::Pawn => "Pawn"@,
        PieceType::Lance => "Lance"@,
        PieceType::Knight => "Knight"@,
        PieceType::Silver => "Silver"@,
        PieceType::Gold => "Gold"@,
        PieceType::Bishop => "Bishop"@,
        PieceType::Rook => "Rook"@,
        PieceType::King => "King"@,
        PieceType::PromotedPawn => "PromotedPawn"@,
        PieceType::PromotedLance => "PromotedLance"@,
        PieceType::PromotedKnight => "PromotedKnight"@,
        PieceType::PromotedSilver => "PromotedSilver"@,
        PieceType::PromotedBishop => "PromotedBishop"@,
        PieceType::PromotedRook => "PromotedRook"@,
    }
}

fn variant_name_of(pt: PieceType) -> (r: String)
    ensures
        r@ == variant_name(pt),
{
    let s = match pt {
        PieceType::Pawn => "Pawn",
        PieceType::Lance => "Lance",
        PieceType::Knight => "Knight",
        PieceType::Silver => "Silver",
        PieceType::Gold => "Gold",
        PieceType::Bishop => "Bishop",
        PieceType::Rook => "Rook",
        PieceType::King => "King",
        PieceType::PromotedPawn => "PromotedPawn",
        PieceType::PromotedLance => "PromotedLance",
        PieceType::PromotedKnight => "PromotedKnight",
        PieceType::PromotedSilver => "PromotedSilver",
        PieceType::PromotedBishop => "PromotedBishop",
        PieceType::PromotedRook => "PromotedRook",
    };
    string_of(s)
}

/// `n` added to the count of `key`, which is appended when new.
pub open spec fn count_add(t: Seq<(Seq<char>, usize)>, key: Seq<char>, n: nat) -> Seq<(Seq<char>, usize)> {
    if exists|i: int| 0 <= i < t.len() && t[i].0 == key {
        let i = choose|i: int| 0 <= i < t.len() && t[i].0 == key;
        t.update(i, (key, (t[i].1 + n) as usize))
    } else {
        t.push((key, n as usize))
    }
}

pub open spec fn keys_unique(t: Seq<(Seq<char>, usize)>) -> bool {
    forall|i: int, j: int| 0 <= i < t.len() && 0 <= j < t.len() && i != j ==> t[i].0 != t[j].0
}

/// What a conversion has produced so far.
pub struct ConversionState {
    pub positions: Map<u64, PositionEntryView>,
    pub total_positions: nat,
    pub total_moves: nat,
    pub openings: Seq<(Seq<char>, usize)>,
    pub pieces: Seq<(Seq<char>, usize)>,
    pub high: nat,
    pub medium: nat,
    pub low: nat,
    pub failed: bool,
}

pub open spec fn start_state() -> ConversionState {
    ConversionState {
        positions: Map::empty(),
        total_positions: 0,
        total_moves: 0,
        openings: Seq::empty(),
        pieces: Seq::empty(),
        high: 0,
        medium: 0,
        low: 0,
        failed: false,
    }
}

/// The piece counts after counting the first `k` converted moves.
pub open spec fn count_pieces(t: Seq<(Seq<char>, usize)>, ms: Seq<BookMoveView>, k: int) -> Seq<(Seq<char>, usize)>
    decreases k,
{
    if k <= 0 {
        t
    } else {
        count_add(count_pieces(t, ms, k - 1), variant_name(ms[k - 1].piece_type), 1)
    }
}

/// The number of the first `k` moves whose weight lies in `lo..=hi`.
pub open spec fn count_band(ms: Seq<BookMoveView>, k: int, lo: int, hi: int) -> nat
    decreases k,
{
    if k <= 0 {
        0
    } else {
        count_band(ms, k - 1, lo, hi) + if lo <= ms[k - 1].weight <= hi {
            1nat
        } else {
            0nat
        }
    }
}

/// The moves of a position of an opening converted into the state: all converted (else the
/// conversion fails), and when there are any, counted and stored under the key of the FEN.
pub open spec fn conversion_step(st: ConversionState, name: Seq<char>, fen: Seq<char>, moves: Seq<JsonMoveView>) -> ConversionState {
    if st.failed {
        st
    } else if !(forall|i: int| 0 <= i < moves.len() ==> convertible(#[trigger] moves[i])) {
        ConversionState { failed: true, ..st }
    } else if moves.len() == 0 {
        st
    } else {
        let ms = Seq::new(moves.len(), |i: int| converted(moves[i], name));
        ConversionState {
            positions: st.positions.insert(fen_key(fen), PositionEntryView { fen, moves: ms }),
            total_positions: st.total_positions + 1,
            total_moves: st.total_moves + moves.len(),
            openings: count_add(st.openings, name, moves.len()),
            pieces: count_pieces(st.pieces, ms, ms.len() as int),
            high: st.high + count_band(ms, ms.len() as int, 800, 1000),
            medium: st.medium + count_band(ms, ms.len() as int, 500, 799),
            low: st.low + count_band(ms, ms.len() as int, 0, 499) + count_band(ms, ms.len() as int, 1001, u32::MAX as int),
            failed: false,
        }
    }
}

pub open spec fn json_moves_view(v: Seq<JsonMove>) -> Seq<JsonMoveView> {
    v.map_values(|m: JsonMove| m@)
}

/// The state after the first `k` positions of an opening.
pub open spec fn opening_fold(st: ConversionState, op: JsonOpening, k: int) -> ConversionState
    decreases k,
{
    if k <= 0 {
        st
    } else {
        conversion_step(opening_fold(st, op, k - 1), op.name@, op.moves@[k - 1].0@, json_moves_view(op.moves@[k - 1].1@))
    }
}

/// The state after the first `n` openings.
pub open spec fn openings_fold(ops: Seq<JsonOpening>, n: int) -> ConversionState
    decreases n,
{
    if n <= 0 {
        start_state()
    } else {
        opening_fold(openings_fold(ops, n - 1), ops[n - 1], ops[n - 1].moves@.len() as int)
    }
}

/// The number of JSON moves in some openings.
pub open spec fn json_move_total(ops: Seq<JsonOpening>) -> nat
    decreases ops.len(),
{
    if ops.len() == 0 {
        0
    } else {
        json_move_total(ops.drop_last()) + opening_move_total(ops.last(), ops.last().moves@.len() as int)
    }
}

pub open spec fn opening_move_total(op: JsonOpening, k: int) -> nat
    decreases k,
{
    if k <= 0 {
        0
    } else {
        opening_move_total(op, k - 1) + op.moves@[k - 1].1@.len()
    }
}

/// The conversion state held by a book and statistics.
pub open spec fn state_of(book: OpeningBook, stats: MigrationStats) -> ConversionState {
    ConversionState {
        positions: book.positions(),
        total_positions: stats.total_positions as nat,
        total_moves: stats.total_moves as nat,
        openings: table_view(stats.opening_counts@),
        pieces: table_view(stats.piece_type_counts@),
        high: stats.weight_distribution.high as nat,
        medium: stats.weight_distribution.medium as nat,
        low: stats.weight_distribution.low as nat,
        failed: false,
    }
}

/// Every count of a table is at most `bound`.
pub open spec fn counts_at_most(t: Seq<(Seq<char>, usize)>, bound: int) -> bool {
    forall|i: int| 0 <= i < t.len() ==> #[trigger] t[i].1 <= bound
}

/// The invariant of a conversion in progress: counts bounded by the moves counted, unique
/// names, and stored moves that are valid.
pub open spec fn sound_state(st: ConversionState, book: OpeningBook) -> bool {
    &&& keys_unique(st.openings)
    &&& keys_unique(st.pieces)
    &&& counts_at_most(st.openings, st.total_moves as int)
    &&& counts_at_most(st.pieces, st.total_moves as int)
    &&& st.total_positions <= st.total_moves
    &&& st.high + st.medium + st.low <= st.total_moves
    &&& book.total() == st.total_moves
    &&& book.meta().position_count == book.positions().len()
    &&& book.meta().move_count == book.total()
    &&& forall|h: u64, i: int|
        st.positions.contains_key(h) && 0 <= i < st.positions[h].moves.len() ==> move_ok_bounded(
            #[trigger] st.positions[h].moves[i],
        )
}

/// A stored move with squares on the board, a weight of at most 1000 and an evaluation
/// between 0 and 100.
pub open spec fn move_ok_bounded(m: BookMoveView) -> bool {
    &&& (m.from matches Some(f) ==> f.valid())
    &&& m.to.valid()
    &&& m.weight <= 1000
    &&& 0 <= m.evaluation <= 100
}

proof fn lemma_converted_bounded(m: JsonMoveView, name: Seq<char>)
    requires
        convertible(m),
    ensures
        move_ok_bounded(converted(m, name)),
{
    lemma_evaluation_table_bounds(move_kind(m, name));
}

fn count_add_exec(t: &mut Vec<(String, usize)>, key: &str, n: usize, bound: Ghost<nat>)
    requires
        keys_unique(table_view(old(t)@)),
        counts_at_most(table_view(old(t)@), bound@ as int),
        bound@ + n <= usize::MAX,
    ensures
        table_view(final(t)@) == count_add(table_view(old(t)@), key@, n as nat),
        keys_unique(table_view(final(t)@)),
        counts_at_most(table_view(final(t)@), bound@ + n),
{
    let ghost t0 = table_view(t@);
    let mut i: usize = 0;
    while i < t.len()
        invariant
            i <= t@.len(),
            t@ == old(t)@,
            t0 == table_view(t@),
            keys_unique(t0),
            counts_at_most(t0, bound@ as int),
            bound@ + n <= usize::MAX,
            forall|j: int| 0 <= j < i ==> t0[j].0 != key@,
        decreases t@.len() - i,
    {
        if str_eq(t[i].0.as_str(), key) {
            let name = t[i].0.clone();
            let v = t[i].1;
            assert(t0[i as int].1 <= bound@);
            t.set(i, (name, v + n));
            proof {
                let c = choose|c: int| 0 <= c < t0.len() && t0[c].0 == key@;
                assert(c == i) by {
                    if c != i {
                        assert(t0[c].0 != t0[i as int].0);
                    }
                }
                assert(table_view(t@) =~= t0.update(i as int, (key@, (t0[i as int].1 + n) as usize)));
            }
            return;
        }
        i = i + 1;
    }
    t.push((string_of(key), n));
    assert(table_view(t@) =~= t0.push((key@, n)));
}

impl OpeningBookConverter {
    /// The moves of one position of an opening converted into the book and statistics
    /// (see `conversion_step`); an error when a move cannot be converted.
    fn convert_position(
        &self,
        book: &mut OpeningBook,
        stats: &mut MigrationStats,
        name: &str,
        fen: &String,
        moves: &Vec<JsonMove>,
        budget: Ghost<nat>,
    ) -> (r: Result<(), OpeningBookError>)
        requires
            sound_state(state_of(*old(book), *old(stats)), *old(book)),
            old(stats).total_moves + moves@.len() <= budget@,
            budget@ <= usize::MAX,
        ensures
            r is Ok <==> !conversion_step(state_of(*old(book), *old(stats)), name@, fen@, json_moves_view(moves@)).failed,
            r is Ok ==> state_of(*final(book), *final(stats)) == conversion_step(
                state_of(*old(book), *old(stats)),
                name@,
                fen@,
                json_moves_view(moves@),
            ),
            r is Ok ==> sound_state(state_of(*final(book), *final(stats)), *final(book)),
            final(book).loaded_flag() == old(book).loaded_flag(),
            final(stats).total_moves <= old(stats).total_moves + moves@.len(),
    {
        let ghost st = state_of(*book, *stats);
        let ghost jm = json_moves_view(moves@);
        let book_moves = match self.convert_moves(moves, name, fen.as_str()) {
            Ok(v) => v,
            Err(e) => {
                proof {
                    let k = choose|k: int| 0 <= k < moves@.len() && !convertible(#[trigger] moves@[k]@);
                    assert(jm[k] == moves@[k]@);
                }
                return Err(e);
            },
        };
        proof {
            assert forall|k: int| 0 <= k < jm.len() implies convertible(#[trigger] jm[k]) by {
                assert(jm[k] == moves@[k]@);
            }
        }
        if book_moves.len() == 0 {
            return Ok(());
        }
        let ghost ms = Seq::new(jm.len(), |k: int| converted(jm[k], name@));
        assert(move_views(book_moves@) =~= ms) by {
            assert forall|k: int| 0 <= k < ms.len() implies move_views(book_moves@)[k] == ms[k] by {
                assert(jm[k] == moves@[k]@);
            }
        }
        let n = moves.len();
        let total0 = stats.total_moves;
        stats.total_positions = stats.total_positions + 1;
        stats.total_moves = stats.total_moves + n;
        count_add_exec(&mut stats.opening_counts, name, n, Ghost(total0 as nat));
        let mut k: usize = 0;
        while k < book_moves.len()
            invariant
                k <= book_moves@.len(),
                move_views(book_moves@) == ms,
                ms.len() == n,
                stats.total_moves == total0 + n,
                total0 + n <= usize::MAX,
                keys_unique(table_view(stats.piece_type_counts@)),
                counts_at_most(table_view(stats.piece_type_counts@), total0 + k),
                table_view(stats.piece_type_counts@) == count_pieces(st.pieces, ms, k as int),
                stats.weight_distribution.high == st.high + count_band(ms, k as int, 800, 1000),
                stats.weight_distribution.medium == st.medium + count_band(ms, k as int, 500, 799),
                stats.weight_distribution.low == st.low + count_band(ms, k as int, 0, 499) + count_band(ms, k as int, 1001, u32::MAX as int),
                st.high + st.medium + st.low <= total0,
                count_band(ms, k as int, 800, 1000) + count_band(ms, k as int, 500, 799) + count_band(ms, k as int, 0, 499) + count_band(ms, k as int, 1001, u32::MAX as int) == k,
                stats.total_positions == st.total_positions + 1,
                table_view(stats.opening_counts@) == count_add(st.openings, name@, n as nat),
                keys_unique(table_view(stats.opening_counts@)),
                counts_at_most(table_view(stats.opening_counts@), total0 + n),
            decreases book_moves@.len() - k,
        {
            let bm = &book_moves[k];
            assert(ms[k as int] == bm@);
            let label = variant_name_of(bm.piece_type);
            count_add_exec(&mut stats.piece_type_counts, label.as_str(), 1, Ghost((total0 + k) as nat));
            if bm.weight >= 800 && bm.weight <= 1000 {
                stats.weight_distribution.high = stats.weight_distribution.high + 1;
            } else if bm.weight >= 500 && bm.weight <= 799 {
                stats.weight_distribution.medium = stats.weight_distribution.medium + 1;
            } else {
                stats.weight_distribution.low = stats.weight_distribution.low + 1;
            }
            k = k + 1;
        }
        proof {
            assert forall|q: int| 0 <= q < ms.len() implies move_ok_bounded(#[trigger] ms[q]) by {
                lemma_converted_bounded(jm[q], name@);
            }
        }
        book.add_position(fen.clone(), book_moves);
        proof {
            let st2 = state_of(*book, *stats);
            assert(st2.positions == st.positions.insert(fen_key(fen@), PositionEntryView { fen: fen@, moves: ms }));
            assert forall|h: u64, i: int| st2.positions.contains_key(h) && 0 <= i < st2.positions[h].moves.len() implies move_ok_bounded(
                #[trigger] st2.positions[h].moves[i],
            ) by {
                if h == fen_key(fen@) {
                    assert(st2.positions[h].moves == ms);
                } else {
                    assert(st2.positions[h] == st.positions[h]);
                }
            }
        }
        Ok(())
    }
}

proof fn lemma_opening_fold_failed(st: ConversionState, op: JsonOpening, j: int, k: int)
    requires
        0 <= j <= k,
        opening_fold(st, op, j).failed,
    ensures
        opening_fold(st, op, k).failed,
    decreases k - j,
{
    if j < k {
        lemma_opening_fold_failed(st, op, j, k - 1);
    }
}

proof fn lemma_fold_failed_stays(st: ConversionState, op: JsonOpening, k: int)
    requires
        st.failed,
    ensures
        opening_fold(st, op, k) == st,
    decreases k,
{
    if k > 0 {
        lemma_fold_failed_stays(st, op, k - 1);
    }
}

proof fn lemma_openings_fold_failed(ops: Seq<JsonOpening>, i: int, n: int)
    requires
        0 <= i <= n,
        openings_fold(ops, i).failed,
    ensures
        openings_fold(ops, n).failed,
    decreases n - i,
{
    if i < n {
        lemma_openings_fold_failed(ops, i, n - 1);
        lemma_fold_failed_stays(openings_fold(ops, n - 1), ops[n - 1], ops[n - 1].moves@.len() as int);
    }
}

proof fn lemma_opening_total_mono(op: JsonOpening, j: int, k: int)
    requires
        0 <= j <= k,
    ensures
        opening_move_total(op, j) <= opening_move_total(op, k),
    decreases k - j,
{
    if j < k {
        lemma_opening_total_mono(op, j, k - 1);
    }
}

proof fn lemma_json_total_take(ops: Seq<JsonOpening>, i: int)
    requires
        0 <= i < ops.len(),
    ensures
        json_move_total(ops.take(i + 1)) == json_move_total(ops.take(i)) + opening_move_total(ops[i], ops[i].moves@.len() as int),
{
    assert(ops.take(i + 1).drop_last() =~= ops.take(i));
}

proof fn lemma_json_total_take_le(ops: Seq<JsonOpening>, i: int)
    requires
        0 <= i <= ops.len(),
    ensures
        json_move_total(ops.take(i)) <= json_move_total(ops),
    decreases ops.len() - i,
{
    if i < ops.len() {
        lemma_json_total_take(ops, i);
        lemma_json_total_take_le(ops, i + 1);
    } else {
        assert(ops.take(i) =~= ops);
    }
}

impl OpeningBookConverter {
    /// Converts parsed JSON openings into a loaded book and migration statistics: every
    /// position with moves is stored under the key of its FEN and counted (see
    /// `openings_fold`); the book is then checked (see `OpeningBook::validate`). An error
    /// when a move cannot be converted or a stored position has an empty FEN.
    pub fn convert_openings(&self, openings: &Vec<JsonOpening>) -> (r: Result<(OpeningBook, MigrationStats), OpeningBookError>)
        requires
            json_move_total(openings@) <= usize::MAX,
        ensures
            ({
                let st = openings_fold(openings@, openings@.len() as int);
                match r {
                    Ok((book, stats)) => {
                        &&& !st.failed
                        &&& state_of(book, stats) == st
                        &&& book.loaded_flag()
                        &&& forall|h: u64| #[trigger] st.positions.contains_key(h) ==> st.positions[h].fen.len() > 0
                    },
                    Err(_) => st.failed || exists|h: u64|
                        #[trigger] st.positions.contains_key(h) && st.positions[h].fen.len() == 0,
                }
            }),
    {
        let ghost ops = openings@;
        let mut book = OpeningBook::new();
        let mut stats = MigrationStats {
            total_positions: 0,
            total_moves: 0,
            opening_counts: Vec::new(),
            piece_type_counts: Vec::new(),
            weight_distribution: WeightDistribution { high: 0, medium: 0, low: 0 },
        };
        assert(state_of(book, stats) == start_state()) by {
            assert(book.positions() =~= Map::empty());
            assert(table_view(stats.opening_counts@) =~= Seq::empty());
            assert(table_view(stats.piece_type_counts@) =~= Seq::empty());
        }
        let mut i: usize = 0;
        while i < openings.len()
            invariant
                ops == openings@,
                i <= ops.len(),
                json_move_total(ops) <= usize::MAX,
                state_of(book, stats) == openings_fold(ops, i as int),
                sound_state(state_of(book, stats), book),
                stats.total_moves <= json_move_total(ops.take(i as int)),
                !book.loaded_flag(),
            decreases ops.len() - i,
        {
            let op = &openings[i];
            let ghost base = openings_fold(ops, i as int);
            let mut j: usize = 0;
            proof {
                lemma_json_total_take(ops, i as int);
                lemma_json_total_take_le(ops, i + 1);
            }
            while j < op.moves.len()
                invariant
                    ops == openings@,
                    i < ops.len(),
                    *op == ops[i as int],
                    base == openings_fold(ops, i as int),
                    j <= op.moves@.len(),
                    json_move_total(ops.take(i + 1)) <= usize::MAX,
                    json_move_total(ops.take(i + 1)) == json_move_total(ops.take(i as int)) + opening_move_total(ops[i as int], ops[i as int].moves@.len() as int),
                    state_of(book, stats) == opening_fold(base, *op, j as int),
                    sound_state(state_of(book, stats), book),
                    stats.total_moves <= json_move_total(ops.take(i as int)) + opening_move_total(*op, j as int),
                    !book.loaded_flag(),
                decreases op.moves@.len() - j,
            {
                proof {
                    lemma_opening_total_mono(*op, j + 1, op.moves@.len() as int);
                }
                let entry = &op.moves[j];
                match self.convert_position(&mut book, &mut stats, op.name.as_str(), &entry.0, &entry.1, Ghost(usize::MAX as nat)) {
                    Ok(()) => {},
                    Err(e) => {
                        proof {
                            lemma_opening_fold_failed(base, *op, j + 1, op.moves@.len() as int);
                            assert(openings_fold(ops, i + 1) == opening_fold(base, ops[i as int], ops[i as int].moves@.len() as int));
                            lemma_openings_fold_failed(ops, i + 1, ops.len() as int);
                        }
                        return Err(e);
                    },
                }
                j = j + 1;
            }
            i = i + 1;
        }
        let book = book.mark_loaded();
        let ghost st = openings_fold(ops, ops.len() as int);
        proof {
            assert forall|h: u64, q: int| book.positions().contains_key(h) && 0 <= q < book.positions()[h].moves.len() implies #[trigger] book.positions()[h].moves[q].evaluation != i32::MIN by {
                assert(move_ok_bounded(st.positions[h].moves[q]));
            }
        }
        match book.validate() {
            Ok(()) => {
                proof {
                    assert forall|h: u64| #[trigger] st.positions.contains_key(h) implies st.positions[h].fen.len() > 0 by {
                        assert(book.positions().contains_key(h));
                        assert(entry_ok(book.positions()[h]));
                    }
                }
                Ok((book, stats))
            },
            Err(e) => {
                proof {
                    let h = choose|h: u64| #[trigger] book.positions().contains_key(h) && crate::opening_book::book::entry_error(book.positions()[h], e);
                    if st.positions[h].fen.len() > 0 {
                        let q = choose|q: int| 0 <= q < book.positions()[h].moves.len() && !crate::opening_book::book::move_ok(#[trigger] book.positions()[h].moves[q]) && (forall|j: int| 0 <= j < q ==> crate::opening_book::book::move_ok(#[trigger] book.positions()[h].moves[j])) && (e matches OpeningBookError::InvalidMove(m) && m@ == crate::opening_book::book::move_error(q as nat, book.positions()[h].moves[q]));
                        assert(move_ok_bounded(st.positions[h].moves[q]));
                    }
                }
                Err(e)
            },
        }
    }
}
} // verus!
