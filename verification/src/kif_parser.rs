//! Parser for KIF game records: header metadata and the numbered move lines.

use vstd::prelude::*;
use vstd::string::StrSliceExecFns;
use crate::text::{chars_to_string, push_str};

verus! {

// ----- character classes -----

/// Whether `c` has the Unicode White_Space property: the controls from tab to carriage
/// return, the space, next line, no-break space, ogham space mark, the spaces from en quad
/// to hair space, the line and paragraph separators, the narrow no-break space, the medium
/// mathematical space and the ideographic space.
pub open spec fn white_space(c: char) -> bool {
    ||| '\u{9}' <= c <= '\u{d}'
    ||| c == ' '
    ||| c == '\u{85}'
    ||| c == '\u{a0}'
    ||| c == '\u{1680}'
    ||| '\u{2000}' <= c <= '\u{200a}'
    ||| c == '\u{2028}'
    ||| c == '\u{2029}'
    ||| c == '\u{202f}'
    ||| c == '\u{205f}'
    ||| c == '\u{3000}'
}

/// Whether `c` belongs to one of the Unicode general categories for numbers.
pub uninterp spec fn numeric_char(c: char) -> bool;

/// Whether `c` is white space (see `white_space`).
fn is_white_space(c: char) -> (r: bool)
    ensures
        r == white_space(c),
{
    ('\u{9}' <= c && c <= '\u{d}') || c == ' ' || c == '\u{85}' || c == '\u{a0}' || c == '\u{1680}' || ('\u{2000}'
        <= c && c <= '\u{200a}') || c == '\u{2028}' || c == '\u{2029}' || c == '\u{202f}' || c == '\u{205f}' || c
        == '\u{3000}'
}

/// `char::is_numeric`: the Unicode number categories, which contain the ASCII digits.
#[verifier::external_body]
fn is_numeric_char(c: char) -> (r: bool)
    ensures
        r == numeric_char(c),
        '0' <= c <= '9' ==> r,
{
    c.is_numeric()
}

// ----- text model -----

/// Whether `p` is a prefix of `s`.
pub open spec fn has_prefix(s: Seq<char>, p: Seq<char>) -> bool {
    p.len() <= s.len() && s.subrange(0, p.len() as int) == p
}

/// The first index from `i` on that does not hold white space (the length if none).
pub open spec fn skip_ws(s: Seq<char>, i: int) -> int
    decreases s.len() - i,
{
    if 0 <= i < s.len() && white_space(s[i]) {
        skip_ws(s, i + 1)
    } else {
        i
    }
}

/// The first index from `i` on that holds white space (the length if none).
pub open spec fn word_end(s: Seq<char>, i: int) -> int
    decreases s.len() - i,
{
    if 0 <= i < s.len() && !white_space(s[i]) {
        word_end(s, i + 1)
    } else {
        i
    }
}

/// The end of `s` once trailing white space before index `j` is dropped.
pub open spec fn trim_end(s: Seq<char>, j: int) -> int
    decreases j,
{
    if 0 < j <= s.len() && white_space(s[j - 1]) {
        trim_end(s, j - 1)
    } else {
        j
    }
}

pub proof fn lemma_skip_ws_ge(s: Seq<char>, i: int)
    ensures
        skip_ws(s, i) >= i,
        0 <= i <= s.len() ==> skip_ws(s, i) <= s.len(),
    decreases s.len() - i,
{
    if 0 <= i < s.len() && white_space(s[i]) {
        lemma_skip_ws_ge(s, i + 1);
    }
}

pub proof fn lemma_word_end_ge(s: Seq<char>, i: int)
    ensures
        word_end(s, i) >= i,
        0 <= i <= s.len() ==> word_end(s, i) <= s.len(),
    decreases s.len() - i,
{
    if 0 <= i < s.len() && !white_space(s[i]) {
        lemma_word_end_ge(s, i + 1);
    }
}

pub proof fn lemma_trim_end_le(s: Seq<char>, j: int)
    ensures
        trim_end(s, j) <= j,
        0 <= j ==> 0 <= trim_end(s, j),
    decreases j,
{
    if 0 < j <= s.len() && white_space(s[j - 1]) {
        lemma_trim_end_le(s, j - 1);
    }
}

/// `s` without leading and trailing white space.
pub open spec fn trimmed(s: Seq<char>) -> Seq<char> {
    let a = skip_ws(s, 0);
    if a >= s.len() {
        Seq::empty()
    } else {
        s.subrange(a, trim_end(s, s.len() as int))
    }
}

/// The white-space separated words of `s` from index `i` on.
pub open spec fn words_from(s: Seq<char>, i: int) -> Seq<Seq<char>>
    decreases s.len() - i,
{
    if i < 0 {
        Seq::empty()
    } else {
        let a = skip_ws(s, i);
        if a >= s.len() {
            Seq::empty()
        } else {
            let b = word_end(s, a + 1);
            proof {
                lemma_skip_ws_ge(s, i);
                lemma_word_end_ge(s, a + 1);
            }
            seq![s.subrange(a, b)] + words_from(s, b)
        }
    }
}

/// The white-space separated words of `s`.
pub open spec fn words(s: Seq<char>) -> Seq<Seq<char>> {
    words_from(s, 0)
}

/// The index of the first `c` in `s`, if any.
pub open spec fn first_index(s: Seq<char>, c: char) -> Option<int> {
    if exists|k: int| 0 <= k < s.len() && s[k] == c {
        let k = choose|k: int| 0 <= k < s.len() && s[k] == c && forall|m: int| 0 <= m < k ==> s[m] != c;
        Some(k)
    } else {
        None
    }
}

/// The end of the line that starts at `i`: the index of the next line feed, or the length.
pub open spec fn line_end(s: Seq<char>, i: int) -> int
    decreases s.len() - i,
{
    if 0 <= i < s.len() && s[i] != '\n' {
        line_end(s, i + 1)
    } else {
        i
    }
}

pub proof fn lemma_line_end_ge(s: Seq<char>, i: int)
    ensures
        line_end(s, i) >= i,
        0 <= i <= s.len() ==> line_end(s, i) <= s.len(),
    decreases s.len() - i,
{
    if 0 <= i < s.len() && s[i] != '\n' {
        lemma_line_end_ge(s, i + 1);
    }
}

/// The lines of `s` from index `i` on, split at line feeds; a final line feed ends the
/// last line rather than opening an empty one.
pub open spec fn lines_from(s: Seq<char>, i: int) -> Seq<Seq<char>>
    decreases s.len() - i,
{
    if i < 0 || i >= s.len() {
        Seq::empty()
    } else {
        let e = line_end(s, i);
        proof {
            lemma_line_end_ge(s, i);
        }
        if e >= s.len() {
            seq![s.subrange(i, e)]
        } else {
            seq![s.subrange(i, e)] + lines_from(s, e + 1)
        }
    }
}

/// The value of a run of ASCII digits.
pub open spec fn digits_value(d: Seq<char>) -> nat
    decreases d.len(),
{
    if d.len() == 0 {
        0
    } else {
        digits_value(d.drop_last()) * 10 + ((d.last() as int - '0' as int) as nat)
    }
}

pub open spec fn all_digits(d: Seq<char>) -> bool {
    forall|k: int| 0 <= k < d.len() ==> '0' <= #[trigger] d[k] <= '9'
}

/// The unsigned number written by `s` (an optional `+`, then one or more ASCII digits) when
/// it is at most `max`.
pub open spec fn unsigned_value(s: Seq<char>, max: nat) -> Option<nat> {
    let d = if s.len() > 0 && s[0] == '+' {
        s.drop_first()
    } else {
        s
    };
    if d.len() > 0 && all_digits(d) && digits_value(d) <= max {
        Some(digits_value(d))
    } else {
        None
    }
}

/// The number of a kanji numeral from one to nine.
pub open spec fn kanji_digit(c: char) -> Option<nat> {
    if c == '一' {
        Some(1)
    } else if c == '二' {
        Some(2)
    } else if c == '三' {
        Some(3)
    } else if c == '四' {
        Some(4)
    } else if c == '五' {
        Some(5)
    } else if c == '六' {
        Some(6)
    } else if c == '七' {
        Some(7)
    } else if c == '八' {
        Some(8)
    } else if c == '九' {
        Some(9)
    } else {
        None
    }
}

/// The value of a Japanese numeral: a kanji digit, else an unsigned decimal.
pub open spec fn japanese_number(s: Seq<char>) -> Option<nat> {
    if s.len() == 1 && kanji_digit(s[0]) is Some {
        kanji_digit(s[0])
    } else {
        unsigned_value(s, u32::MAX as nat)
    }
}

/// The file (1 to 9) written by a full-width or ASCII digit.
pub open spec fn file_digit(c: char) -> Option<nat> {
    if '１' <= c <= '９' {
        Some((c as int - '０' as int) as nat)
    } else if '1' <= c <= '9' {
        Some((c as int - '0' as int) as nat)
    } else {
        None
    }
}

/// The USI square of a KIF destination: the file digit, then the rank as a letter from
/// `a`; `None` when the text does not start with a file and a rank from one to nine.
pub open spec fn kif_usi(t: Seq<char>) -> Option<Seq<char>> {
    if t.len() >= 2 && file_digit(t[0]) is Some {
        match japanese_number(seq![t[1]]) {
            Some(r) => if 1 <= r <= 9 {
                Some(seq![(('0' as int) + file_digit(t[0])->0) as char, (('a' as int) + r - 1) as char])
            } else {
                None
            },
            None => None,
        }
    } else {
        None
    }
}

// ----- records -----

/// A move of a record.
#[derive(Debug, Clone)]
pub struct KifMove {
    pub move_number: usize,
    pub move_text: String,
    pub usi_move: Option<String>,
    pub comment: Option<String>,
}

/// The header facts of a record.
#[derive(Debug, Clone)]
pub struct KifMetadata {
    pub date: Option<String>,
    pub time_control: Option<String>,
    pub player1_name: Option<String>,
    pub player2_name: Option<String>,
    pub game_type: Option<String>,
}

/// A parsed record.
#[derive(Debug, Clone)]
pub struct KifGame {
    pub metadata: KifMetadata,
    pub moves: Vec<KifMove>,
}

/// The characters of an optional string.
pub open spec fn opt_chars(s: Option<String>) -> Option<Seq<char>> {
    match s {
        Some(t) => Some(t@),
        None => None,
    }
}

pub struct KifMoveView {
    pub move_number: nat,
    pub move_text: Seq<char>,
    pub usi_move: Option<Seq<char>>,
    pub comment: Option<Seq<char>>,
}

pub struct KifMetadataView {
    pub date: Option<Seq<char>>,
    pub time_control: Option<Seq<char>>,
    pub player1_name: Option<Seq<char>>,
    pub player2_name: Option<Seq<char>>,
    pub game_type: Option<Seq<char>>,
}

impl View for KifMove {
    type V = KifMoveView;

    open spec fn view(&self) -> KifMoveView {
        KifMoveView {
            move_number: self.move_number as nat,
            move_text: self.move_text@,
            usi_move: opt_chars(self.usi_move),
            comment: opt_chars(self.comment),
        }
    }
}

impl View for KifMetadata {
    type V = KifMetadataView;

    open spec fn view(&self) -> KifMetadataView {
        KifMetadataView {
            date: opt_chars(self.date),
            time_control: opt_chars(self.time_control),
            player1_name: opt_chars(self.player1_name),
            player2_name: opt_chars(self.player2_name),
            game_type: opt_chars(self.game_type),
        }
    }
}

/// Whether the comment of a move line would be cut from a closing parenthesis that comes
/// before the opening one.
pub open spec fn parens_reversed(line: Seq<char>) -> bool {
    &&& first_index(line, '(') is Some
    &&& first_index(line, ')') is Some
    &&& first_index(line, ')')->0 < first_index(line, '(')->0
}

/// Whether reading `line` as a move would cut a comment backwards.
pub open spec fn move_line_faulty(line: Seq<char>) -> bool {
    &&& words(line).len() >= 2
    &&& unsigned_value(words(line)[0], usize::MAX as nat) is Some
    &&& parens_reversed(line)
}

/// The comment of a move line: the text between the first `(` and the first `)`, none
/// without a `(`; `None` when a `(` has no `)`.
pub open spec fn line_comment(line: Seq<char>) -> Option<Option<Seq<char>>> {
    match first_index(line, '(') {
        None => Some(None),
        Some(a) => match first_index(line, ')') {
            None => None,
            Some(b) => Some(Some(line.subrange(a + 1, b))),
        },
    }
}

/// A word up to its first `(`: the move text of "７六歩(77)" is "７六歩".
pub open spec fn before_paren(w: Seq<char>) -> Seq<char> {
    match first_index(w, '(') {
        Some(k) => w.subrange(0, k),
        None => w,
    }
}

/// The move written on `line`: its number (the first word), its text (the second word up
/// to a `(`), the USI form of the text, and its comment (see `line_comment`). `None` when
/// there are fewer than two words, the number does not parse, or a `(` has no `)`.
pub open spec fn move_line(line: Seq<char>) -> Option<KifMoveView> {
    let ws = words(line);
    if ws.len() < 2 {
        None
    } else {
        match unsigned_value(ws[0], usize::MAX as nat) {
            None => None,
            Some(n) => match line_comment(line) {
                None => None,
                Some(c) => Some(
                    KifMoveView {
                        move_number: n,
                        move_text: before_paren(ws[1]),
                        usi_move: kif_usi(before_paren(ws[1])),
                        comment: c,
                    },
                ),
            },
        }
    }
}

/// What has been read of a record so far.
pub struct KifState {
    pub meta: KifMetadataView,
    pub moves: Seq<KifMoveView>,
    pub in_moves: bool,
}

/// The text after a header prefix.
pub open spec fn after(t: Seq<char>, p: Seq<char>) -> Seq<char> {
    t.subrange(p.len() as int, t.len() as int)
}

/// Whether a trimmed line opens the move section.
pub open spec fn is_move_header(t: Seq<char>) -> bool {
    has_prefix(t, "手数"@) || has_prefix(t, "手-----"@)
}

/// Whether a trimmed line is a header line (metadata or move-section header).
pub open spec fn is_header_line(t: Seq<char>) -> bool {
    has_prefix(t, "開始日時："@) || has_prefix(t, "終了日時："@) || has_prefix(t, "持ち時間："@)
        || has_prefix(t, "先手："@) || has_prefix(t, "後手："@) || has_prefix(t, "手合割："@)
}

/// One line of a record read into the state.
pub open spec fn kif_step(st: KifState, line: Seq<char>) -> KifState {
    let t = trimmed(line);
    if t.len() == 0 {
        st
    } else if has_prefix(t, "開始日時："@) {
        KifState { meta: KifMetadataView { date: Some(after(t, "開始日時："@)), ..st.meta }, ..st }
    } else if has_prefix(t, "終了日時："@) {
        st
    } else if has_prefix(t, "持ち時間："@) {
        KifState { meta: KifMetadataView { time_control: Some(after(t, "持ち時間："@)), ..st.meta }, ..st }
    } else if has_prefix(t, "先手："@) {
        KifState { meta: KifMetadataView { player1_name: Some(after(t, "先手："@)), ..st.meta }, ..st }
    } else if has_prefix(t, "後手："@) {
        KifState { meta: KifMetadataView { player2_name: Some(after(t, "後手："@)), ..st.meta }, ..st }
    } else if has_prefix(t, "手合割："@) {
        KifState { meta: KifMetadataView { game_type: Some(after(t, "手合割："@)), ..st.meta }, ..st }
    } else if is_move_header(t) {
        KifState { in_moves: true, ..st }
    } else if st.in_moves && numeric_char(t[0]) {
        match move_line(t) {
            Some(m) => KifState { moves: st.moves.push(m), ..st },
            None => st,
        }
    } else {
        st
    }
}

pub open spec fn empty_kif_state() -> KifState {
    KifState {
        meta: KifMetadataView { date: None, time_control: None, player1_name: None, player2_name: None, game_type: None },
        moves: Seq::empty(),
        in_moves: false,
    }
}

/// The state after the first `n` lines.
pub open spec fn kif_fold(lines: Seq<Seq<char>>, n: int) -> KifState
    decreases n,
{
    if n <= 0 {
        empty_kif_state()
    } else {
        kif_step(kif_fold(lines, n - 1), lines[n - 1])
    }
}

/// Whether reading `line` inside the move section would cut a move comment backwards.
pub open spec fn line_faulty(line: Seq<char>) -> bool {
    let t = trimmed(line);
    &&& t.len() > 0
    &&& !is_header_line(t)
    &&& !is_move_header(t)
    &&& numeric_char(t[0])
    &&& move_line_faulty(t)
}

/// Whether some line of `content` read inside the move section would cut a move comment
/// backwards.
pub open spec fn record_faulty(content: Seq<char>) -> bool {
    let lines = lines_from(content, 0);
    exists|i: int| 0 <= i < lines.len() && #[trigger] kif_fold(lines, i).in_moves && line_faulty(lines[i])
}

/// The record read from `content`: its lines in order (see `kif_step`).
pub open spec fn kif_record(content: Seq<char>) -> KifState {
    let lines = lines_from(content, 0);
    kif_fold(lines, lines.len() as int)
}

pub proof fn lemma_kif_fold_prefix(a: Seq<Seq<char>>, b: Seq<Seq<char>>, n: int)
    requires
        0 <= n <= a.len(),
        n <= b.len(),
        forall|k: int| 0 <= k < n ==> a[k] == b[k],
    ensures
        kif_fold(a, n) == kif_fold(b, n),
    decreases n,
{
    if n > 0 {
        lemma_kif_fold_prefix(a, b, n - 1);
    }
}

// ----- scanning -----

pub fn chars_of(s: &str) -> (r: Vec<char>)
    ensures
        r@ == s@,
{
    let mut v: Vec<char> = Vec::new();
    push_str(&mut v, s);
    v
}

fn slice_chars(s: &Vec<char>, a: usize, b: usize) -> (r: Vec<char>)
    requires
        a <= b <= s@.len(),
    ensures
        r@ == s@.subrange(a as int, b as int),
{
    let mut v: Vec<char> = Vec::new();
    let mut i = a;
    while i < b
        invariant
            a <= i <= b <= s@.len(),
            v@ == s@.subrange(a as int, i as int),
        decreases b - i,
    {
        v.push(s[i]);
        assert(s@.subrange(a as int, i + 1) == s@.subrange(a as int, i as int).push(s@[i as int]));
        i = i + 1;
    }
    v
}

fn skip_white(s: &Vec<char>, i: usize) -> (r: usize)
    requires
        i <= s@.len(),
    ensures
        r == skip_ws(s@, i as int),
        i <= r <= s@.len(),
        r < s@.len() ==> !white_space(s@[r as int]),
{
    let mut k = i;
    while k < s.len() && is_white_space(s[k])
        invariant
            i <= k <= s@.len(),
            skip_ws(s@, k as int) == skip_ws(s@, i as int),
        decreases s@.len() - k,
    {
        k = k + 1;
    }
    k
}

fn end_of_word(s: &Vec<char>, i: usize) -> (r: usize)
    requires
        i <= s@.len(),
    ensures
        r == word_end(s@, i as int),
        i <= r <= s@.len(),
        r < s@.len() ==> white_space(s@[r as int]),
{
    let mut k = i;
    while k < s.len() && !is_white_space(s[k])
        invariant
            i <= k <= s@.len(),
            word_end(s@, k as int) == word_end(s@, i as int),
        decreases s@.len() - k,
    {
        k = k + 1;
    }
    k
}

fn trim_chars(s: &Vec<char>) -> (r: Vec<char>)
    ensures
        r@ == trimmed(s@),
{
    let a = skip_white(s, 0);
    if a >= s.len() {
        return Vec::new();
    }
    let mut j = s.len();
    while j > 0 && is_white_space(s[j - 1])
        invariant
            j <= s@.len(),
            a < s@.len(),
            a < j,
            !white_space(s@[a as int]),
            trim_end(s@, j as int) == trim_end(s@, s@.len() as int),
        decreases j,
    {
        j = j - 1;
    }
    slice_chars(s, a, j)
}

/// The first two words of `s` as index ranges, when there are two.
fn first_two_words(s: &Vec<char>) -> (r: Option<(usize, usize, usize, usize)>)
    ensures
        match r {
            Some((a, b, c, d)) => {
                &&& words(s@).len() >= 2
                &&& a <= b <= c <= d <= s@.len()
                &&& words(s@)[0] == s@.subrange(a as int, b as int)
                &&& words(s@)[1] == s@.subrange(c as int, d as int)
            },
            None => words(s@).len() < 2,
        },
{
    let a = skip_white(s, 0);
    if a >= s.len() {
        return None;
    }
    let b = end_of_word(s, a + 1);
    let c = skip_white(s, b);
    proof {
        assert(words(s@) == seq![s@.subrange(a as int, b as int)] + words_from(s@, b as int));
    }
    if c >= s.len() {
        return None;
    }
    let d = end_of_word(s, c + 1);
    proof {
        assert(words_from(s@, b as int) == seq![s@.subrange(c as int, d as int)] + words_from(s@, d as int));
    }
    Some((a, b, c, d))
}

/// The index range of the word numbered `n` (from 0) of `s`, if there are that many.
pub fn nth_word(s: &Vec<char>, n: usize) -> (r: Option<(usize, usize)>)
    ensures
        match r {
            Some((a, b)) => n < words(s@).len() && a <= b <= s@.len() && words(s@)[n as int] == s@.subrange(
                a as int,
                b as int,
            ),
            None => words(s@).len() <= n,
        },
{
    let ghost mut seen: Seq<Seq<char>> = Seq::empty();
    let mut pos: usize = 0;
    let mut k: usize = 0;
    while k <= n
        invariant
            pos <= s@.len(),
            seen.len() == k,
            k <= n,
            words(s@) == seen + words_from(s@, pos as int),
        decreases s@.len() - pos + n + 1 - k,
    {
        let a = skip_white(s, pos);
        if a >= s.len() {
            assert(words_from(s@, pos as int) == Seq::<Seq<char>>::empty());
            return None;
        }
        let b = end_of_word(s, a + 1);
        assert(words_from(s@, pos as int) == seq![s@.subrange(a as int, b as int)] + words_from(s@, b as int));
        if k == n {
            assert(words(s@)[n as int] == s@.subrange(a as int, b as int));
            return Some((a, b));
        }
        proof {
            seen = seen.push(s@.subrange(a as int, b as int));
        }
        assert(words(s@) == seen + words_from(s@, b as int));
        k = k + 1;
        pos = b;
    }
    None
}

fn index_of(s: &Vec<char>, c: char) -> (r: Option<usize>)
    ensures
        match r {
            Some(k) => {
                &&& first_index(s@, c) == Some(k as int)
                &&& k < s@.len()
                &&& s@[k as int] == c
            },
            None => first_index(s@, c) is None,
        },
{
    let mut k: usize = 0;
    while k < s.len()
        invariant
            k <= s@.len(),
            forall|m: int| 0 <= m < k ==> s@[m] != c,
        decreases s@.len() - k,
    {
        if s[k] == c {
            proof {
                let w = choose|w: int| 0 <= w < s@.len() && s@[w] == c && forall|m: int| 0 <= m < w ==> s@[m] != c;
                assert(0 <= k < s@.len() && s@[k as int] == c && forall|m: int| 0 <= m < k ==> s@[m] != c);
                if w < k {
                } else if w > k {
                    assert(s@[k as int] != c);
                }
            }
            return Some(k);
        }
        k = k + 1;
    }
    None
}

proof fn lemma_digits_value_grows(d: Seq<char>, i: int)
    requires
        0 <= i <= d.len(),
        all_digits(d),
    ensures
        digits_value(d.subrange(0, i)) <= digits_value(d),
    decreases d.len() - i,
{
    if i < d.len() {
        lemma_digits_value_grows(d, i + 1);
        assert(d.subrange(0, i + 1).drop_last() == d.subrange(0, i));
    } else {
        assert(d.subrange(0, i) == d);
    }
}

/// The unsigned number written by `s[a..b]` when it is at most `max`.
fn parse_unsigned(s: &Vec<char>, a: usize, b: usize, max: u64) -> (r: Option<u64>)
    requires
        a <= b <= s@.len(),
    ensures
        match r {
            Some(v) => unsigned_value(s@.subrange(a as int, b as int), max as nat) == Some(v as nat),
            None => unsigned_value(s@.subrange(a as int, b as int), max as nat) is None,
        },
{
    let ghost t = s@.subrange(a as int, b as int);
    let start: usize = if a < b && s[a] == '+' {
        a + 1
    } else {
        a
    };
    let ghost d = s@.subrange(start as int, b as int);
    assert(d == (if t.len() > 0 && t[0] == '+' {
        t.drop_first()
    } else {
        t
    }));
    if start >= b {
        assert(d.len() == 0);
        return None;
    }
    let mut acc: u64 = 0;
    let mut k = start;
    while k < b
        invariant
            start <= k <= b <= s@.len(),
            d == s@.subrange(start as int, b as int),
            t == s@.subrange(a as int, b as int),
            d == (if t.len() > 0 && t[0] == '+' {
                t.drop_first()
            } else {
                t
            }),
            all_digits(s@.subrange(start as int, k as int)),
            acc == digits_value(s@.subrange(start as int, k as int)),
            acc <= max,
        decreases b - k,
    {
        let ch = s[k];
        assert(s@.subrange(start as int, k + 1) == s@.subrange(start as int, k as int).push(ch));
        assert(s@.subrange(start as int, k + 1).drop_last() == s@.subrange(start as int, k as int));
        if ch < '0' || ch > '9' {
            assert(d[k - start] == ch);
            assert(!all_digits(d));
            return None;
        }
        let dv: u64 = (ch as u32 - '0' as u32) as u64;
        let next: u128 = (acc as u128) * 10 + (dv as u128);
        assert(next == digits_value(s@.subrange(start as int, k + 1)));
        if next > max as u128 {
            proof {
                if all_digits(d) {
                    lemma_digits_value_grows(d, k - start + 1);
                    assert(d.subrange(0, k - start + 1) == s@.subrange(start as int, k + 1));
                }
            }
            return None;
        }
        acc = next as u64;
        k = k + 1;
    }
    assert(s@.subrange(start as int, b as int) == d);
    Some(acc)
}

/// The value of a Japanese numeral in `s[a..b]`: a kanji digit, else an unsigned decimal.
fn parse_japanese_number(s: &Vec<char>, a: usize, b: usize) -> (r: Option<u32>)
    requires
        a <= b <= s@.len(),
    ensures
        match r {
            Some(v) => japanese_number(s@.subrange(a as int, b as int)) == Some(v as nat),
            None => japanese_number(s@.subrange(a as int, b as int)) is None,
        },
{
    if b > a && b - a == 1 {
        let c = s[a];
        assert(s@.subrange(a as int, b as int) == seq![c]);
        let k: u32 = if c == '一' {
            1
        } else if c == '二' {
            2
        } else if c == '三' {
            3
        } else if c == '四' {
            4
        } else if c == '五' {
            5
        } else if c == '六' {
            6
        } else if c == '七' {
            7
        } else if c == '八' {
            8
        } else if c == '九' {
            9
        } else {
            0
        };
        if k > 0 {
            return Some(k);
        }
    }
    match parse_unsigned(s, a, b, 4294967295) {
        Some(v) => Some(v as u32),
        None => None,
    }
}

fn chars_start_with(t: &Vec<char>, p: &str) -> (r: bool)
    ensures
        r == has_prefix(t@, p@),
{
    let m = p.unicode_len();
    if m > t.len() {
        return false;
    }
    let mut i: usize = 0;
    while i < m
        invariant
            m == p@.len(),
            m <= t@.len(),
            i <= m,
            t@.subrange(0, i as int) == p@.subrange(0, i as int),
        decreases m - i,
    {
        if t[i] != p.get_char(i) {
            assert(t@.subrange(0, m as int)[i as int] != p@[i as int]);
            return false;
        }
        assert(t@.subrange(0, i + 1) == t@.subrange(0, i as int).push(t@[i as int]));
        assert(p@.subrange(0, i + 1) == p@.subrange(0, i as int).push(p@[i as int]));
        i = i + 1;
    }
    assert(p@.subrange(0, m as int) == p@);
    true
}

/// The text of `t` after the prefix `p`.
fn text_after(t: &Vec<char>, p: &str) -> (r: String)
    requires
        has_prefix(t@, p@),
    ensures
        r@ == after(t@, p@),
{
    let m = p.unicode_len();
    let rest = slice_chars(t, m, t.len());
    chars_to_string(&rest)
}

pub open spec fn kif_moves_view(moves: Seq<KifMove>) -> Seq<KifMoveView> {
    moves.map_values(|m: KifMove| m@)
}

impl KifGame {
    /// Reads one line of a record into the metadata, the moves and the section flag.
    fn read_line(meta: &mut KifMetadata, moves: &mut Vec<KifMove>, in_moves: &mut bool, line: &Vec<char>)
        requires
            !(*old(in_moves) && line_faulty(line@)),
        ensures
            kif_step(KifState { meta: old(meta)@, moves: kif_moves_view(old(moves)@), in_moves: *old(in_moves) }, line@)
                == (KifState { meta: final(meta)@, moves: kif_moves_view(final(moves)@), in_moves: *final(in_moves) }),
    {
        let t = trim_chars(line);
        if t.len() == 0 {
            return;
        }
        if chars_start_with(&t, "開始日時：") {
            meta.date = Some(text_after(&t, "開始日時："));
        } else if chars_start_with(&t, "終了日時：") {
        } else if chars_start_with(&t, "持ち時間：") {
            meta.time_control = Some(text_after(&t, "持ち時間："));
        } else if chars_start_with(&t, "先手：") {
            meta.player1_name = Some(text_after(&t, "先手："));
        } else if chars_start_with(&t, "後手：") {
            meta.player2_name = Some(text_after(&t, "後手："));
        } else if chars_start_with(&t, "手合割：") {
            meta.game_type = Some(text_after(&t, "手合割："));
        } else if chars_start_with(&t, "手数") || chars_start_with(&t, "手-----") {
            *in_moves = true;
        } else if *in_moves && is_numeric_char(t[0]) {
            match Self::parse_move_chars(&t) {
                Some(m) => {
                    moves.push(m);
                    assert(kif_moves_view(moves@) == kif_moves_view(old(moves)@).push(m@));
                },
                None => {},
            }
        }
    }

    /// Parses a record: header metadata (date, time control, the two players, the game
    /// type) and, after the move-section header, every line that starts with a number and
    /// reads as a move. Lines are trimmed and blank ones skipped (see `kif_record`).
    pub fn from_string(content: &str) -> (r: Result<KifGame, String>)
        requires
            !record_faulty(content@),
        ensures
            match r {
                Ok(g) => g.metadata@ == kif_record(content@).meta && kif_moves_view(g.moves@) == kif_record(content@).moves,
                Err(_) => false,
            },
    {
        let s = chars_of(content);
        let ghost lines = lines_from(s@, 0);
        let mut meta = KifMetadata { date: None, time_control: None, player1_name: None, player2_name: None, game_type: None };
        let mut moves: Vec<KifMove> = Vec::new();
        let mut in_moves = false;
        let ghost mut done: Seq<Seq<char>> = Seq::empty();
        let mut i: usize = 0;
        assert(kif_moves_view(moves@) == Seq::<KifMoveView>::empty());
        while i < s.len()
            invariant
                s@ == content@,
                lines == lines_from(s@, 0),
                !record_faulty(content@),
                i <= s@.len(),
                lines == done + lines_from(s@, i as int),
                (KifState { meta: meta@, moves: kif_moves_view(moves@), in_moves }) == kif_fold(done, done.len() as int),
            decreases s@.len() + 1 - i,
        {
            let mut e = i;
            while e < s.len() && s[e] != '\n'
                invariant
                    i <= e <= s@.len(),
                    line_end(s@, e as int) == line_end(s@, i as int),
                decreases s@.len() - e,
            {
                e = e + 1;
            }
            let line = slice_chars(&s, i, e);
            proof {
                lemma_line_end_ge(s@, i as int);
                let rest = lines_from(s@, i as int);
                assert(rest[0] == line@);
                let n = done.len() as int;
                assert(lines[n] == line@);
                lemma_kif_fold_prefix(lines, done, n);
                if in_moves && line_faulty(line@) {
                    assert(kif_fold(lines, n).in_moves && line_faulty(lines[n]));
                }
            }
            Self::read_line(&mut meta, &mut moves, &mut in_moves, &line);
            proof {
                let old_done = done;
                done = done.push(line@);
                lemma_kif_fold_prefix(done, old_done, old_done.len() as int);
                if e < s@.len() {
                    assert(lines_from(s@, i as int) == seq![line@] + lines_from(s@, e + 1));
                    assert(lines == done + lines_from(s@, e + 1));
                } else {
                    assert(lines_from(s@, i as int) == seq![line@]);
                    assert(lines == done + lines_from(s@, e as int));
                }
            }
            i = if e < s.len() {
                e + 1
            } else {
                e
            };
        }
        proof {
            assert(lines_from(s@, i as int) == Seq::<Seq<char>>::empty());
            assert(lines == done);
        }
        Ok(KifGame { metadata: meta, moves })
    }

    /// The USI square of a KIF move text (see `kif_usi`).
    pub fn kif_to_usi(kif_text: &str) -> (r: Option<String>)
        ensures
            opt_chars(r) == kif_usi(kif_text@),
    {
        let t = chars_of(kif_text);
        if t.len() < 2 {
            return None;
        }
        let c = t[0];
        let file: u32 = if '１' <= c && c <= '９' {
            (c as u32) - ('０' as u32)
        } else if '1' <= c && c <= '9' {
            (c as u32) - ('0' as u32)
        } else {
            return None;
        };
        let rank_char = slice_chars(&t, 1, 2);
        assert(rank_char@ == seq![t@[1]]);
        match parse_japanese_number(&rank_char, 0, 1) {
            Some(rank) => {
                assert(rank_char@.subrange(0, 1) == rank_char@);
                if 1 <= rank && rank <= 9 {
                    let mut out: Vec<char> = Vec::new();
                    out.push(((file as u8) + 48) as char);
                    out.push(((rank as u8) + 96) as char);
                    Some(chars_to_string(&out))
                } else {
                    None
                }
            },
            None => {
                assert(rank_char@.subrange(0, 1) == rank_char@);
                None
            },
        }
    }

    /// The move written on `line` (see `move_line`).
    pub fn parse_move_line(line: &str) -> (r: Option<KifMove>)
        requires
            !move_line_faulty(line@),
        ensures
            match r {
                Some(m) => move_line(line@) == Some(m@),
                None => move_line(line@) is None,
            },
    {
        let s = chars_of(line);
        Self::parse_move_chars(&s)
    }

    fn find_comment(s: &Vec<char>) -> (r: Option<Option<String>>)
        requires
            !parens_reversed(s@),
        ensures
            match r {
                None => line_comment(s@) is None,
                Some(c) => line_comment(s@) == Some(opt_chars(c)),
            },
    {
        match index_of(s, '(') {
            None => Some(None),
            Some(start) => match index_of(s, ')') {
                None => None,
                Some(end) => {
                    assert(end != start);
                    let body = slice_chars(s, start + 1, end);
                    Some(Some(chars_to_string(&body)))
                },
            },
        }
    }

    fn parse_move_chars(s: &Vec<char>) -> (r: Option<KifMove>)
        requires
            !move_line_faulty(s@),
        ensures
            match r {
                Some(m) => move_line(s@) == Some(m@),
                None => move_line(s@) is None,
            },
    {
        let (a, b, c, d) = match first_two_words(s) {
            Some(w) => w,
            None => return None,
        };
        let n = match parse_unsigned(s, a, b, usize::MAX as u64) {
            Some(n) => n as usize,
            None => return None,
        };
        let word = slice_chars(s, c, d);
        let text = match index_of(&word, '(') {
            Some(k) => slice_chars(&word, 0, k),
            None => word,
        };
        let move_text = chars_to_string(&text);
        let usi_move = Self::kif_to_usi(move_text.as_str());
        let comment = match Self::find_comment(s) {
            Some(c) => c,
            None => return None,
        };
        Some(KifMove { move_number: n, move_text, usi_move, comment })
    }
}


/// Whether a trimmed line starts with a header prefix.
fn header_chars(t: &Vec<char>) -> (r: bool)
    ensures
        r == is_header_line(t@),
{
    chars_start_with(t, "開始日時：") || chars_start_with(t, "終了日時：") || chars_start_with(t, "持ち時間：")
        || chars_start_with(t, "先手：") || chars_start_with(t, "後手：") || chars_start_with(t, "手合割：")
}

/// Whether reading `s` as a move would cut its comment backwards.
fn move_chars_faulty(s: &Vec<char>) -> (r: bool)
    ensures
        r == move_line_faulty(s@),
{
    let (a, b) = match first_two_words(s) {
        Some((a, b, _, _)) => (a, b),
        None => {
            return false;
        },
    };
    if parse_unsigned(s, a, b, usize::MAX as u64).is_none() {
        return false;
    }
    match (index_of(s, '('), index_of(s, ')')) {
        (Some(x), Some(y)) => y < x,
        _ => false,
    }
}

/// Whether reading `line` inside the move section would cut a move comment backwards.
fn line_chars_faulty(line: &Vec<char>) -> (r: bool)
    ensures
        r == line_faulty(line@),
{
    let t = trim_chars(line);
    if t.len() == 0 {
        return false;
    }
    if header_chars(&t) {
        return false;
    }
    if chars_start_with(&t, "手数") || chars_start_with(&t, "手-----") {
        return false;
    }
    if !is_numeric_char(t[0]) {
        return false;
    }
    move_chars_faulty(&t)
}

impl KifGame {
    /// Whether a line of the move section of `content` would cut a move comment backwards
    /// (a `)` before the first `(`), the records that `from_string` does not read.
    pub fn has_reversed_comment(content: &str) -> (r: bool)
        ensures
            r == record_faulty(content@),
    {
        let s = chars_of(content);
        let ghost lines = lines_from(s@, 0);
        let mut in_moves = false;
        let ghost mut done: Seq<Seq<char>> = Seq::empty();
        let mut i: usize = 0;
        while i < s.len()
            invariant
                s@ == content@,
                lines == lines_from(s@, 0),
                i <= s@.len(),
                lines == done + lines_from(s@, i as int),
                in_moves == kif_fold(done, done.len() as int).in_moves,
                forall|j: int| 0 <= j < done.len() ==> !(#[trigger] kif_fold(lines, j).in_moves && line_faulty(lines[j])),
            decreases s@.len() + 1 - i,
        {
            let mut e = i;
            while e < s.len() && s[e] != '\n'
                invariant
                    i <= e <= s@.len(),
                    line_end(s@, e as int) == line_end(s@, i as int),
                decreases s@.len() - e,
            {
                e = e + 1;
            }
            let line = slice_chars(&s, i, e);
            let n = Ghost(done.len() as int);
            proof {
                lemma_line_end_ge(s@, i as int);
                let rest = lines_from(s@, i as int);
                assert(rest[0] == line@);
                assert(lines[n@] == line@);
                lemma_kif_fold_prefix(lines, done, n@);
            }
            if in_moves && line_chars_faulty(&line) {
                proof {
                    assert(kif_fold(lines, n@).in_moves && line_faulty(lines[n@]));
                }
                return true;
            }
            let t = trim_chars(&line);
            if t.len() > 0 && !header_chars(&t) && (chars_start_with(&t, "手数") || chars_start_with(&t, "手-----")) {
                in_moves = true;
            }
            proof {
                let old_done = done;
                assert(kif_step(kif_fold(old_done, old_done.len() as int), line@).in_moves == in_moves);
                done = done.push(line@);
                lemma_kif_fold_prefix(done, old_done, old_done.len() as int);
                assert(kif_fold(done, done.len() as int) == kif_step(kif_fold(done, old_done.len() as int), line@));
                if e < s@.len() {
                    assert(lines_from(s@, i as int) == seq![line@] + lines_from(s@, e + 1));
                    assert(lines == done + lines_from(s@, e + 1));
                } else {
                    assert(lines_from(s@, i as int) == seq![line@]);
                    assert(lines == done + lines_from(s@, e as int));
                }
            }
            i = if e < s.len() {
                e + 1
            } else {
                e
            };
        }
        proof {
            assert(lines_from(s@, i as int) == Seq::<Seq<char>>::empty());
            assert(lines == done);
        }
        false
    }
}

} // verus!
