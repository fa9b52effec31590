//! Reading back a written binary book: the records, the hash table and the whole book.

use vstd::prelude::*;
use vstd::utf8::encode_utf8;
use crate::opening_book::BookMoveView;
use crate::opening_book::binary_format::{
    decode_header, HeaderView, book_move_bytes, header_bytes, holds_at, law_book_move_round_trip, law_header_round_trip, le32, le64,
    lemma_holds_between, lemma_holds_split, lemma_u32_at, lemma_u64_at, magic_bytes, read_entry, read_move,
    read_moves, u64_at, FORMAT_VERSION,
};
use crate::opening_book::book::{
    book_bytes, entries_bytes, entry_bytes, header_ok, keys_in_order, moves_bytes, read_slots, recorded_table_size,
    slot, table_bytes, table_size, written_header, zeros, lemma_table_len, lemma_next_pow2, book_size_fits, slot_step, readable, PositionEntryView,
};

verus! {

broadcast use {vstd::utf8::encode_utf8_valid_utf8, vstd::utf8::encode_utf8_decode_utf8};

/// A move that reads back as written: its source square is not (255, 255) (the code of
/// "no square"), and each of its texts is absent or non-empty and short enough for its
/// length prefix.
pub open spec fn move_encodable(m: BookMoveView) -> bool {
    &&& !(m.from matches Some(f) && f.row == 255 && f.col == 255)
    &&& m.opening_name matches Some(s) ==> s.len() > 0 && encode_utf8(s).len() <= u32::MAX
    &&& m.move_notation matches Some(s) ==> s.len() > 0 && encode_utf8(s).len() <= u32::MAX
}

/// A position record that reads back as written: its FEN and move count fit their length
/// prefixes and each move reads back.
pub open spec fn entry_encodable(e: PositionEntryView) -> bool {
    &&& encode_utf8(e.fen).len() <= u32::MAX
    &&& e.moves.len() <= u32::MAX
    &&& forall|i: int| 0 <= i < e.moves.len() ==> move_encodable(#[trigger] e.moves[i])
}

/// Every position of `p` reads back as written.
pub open spec fn book_encodable(p: Map<u64, PositionEntryView>) -> bool {
    forall|k: u64| p.contains_key(k) ==> entry_encodable(#[trigger] p[k])
}

/// The number of moves of the positions `ks` of `p`.
pub open spec fn moves_total(p: Map<u64, PositionEntryView>, ks: Seq<u64>) -> nat
    decreases ks.len(),
{
    if ks.len() == 0 {
        0
    } else {
        moves_total(p, ks.drop_last()) + p[ks.last()].moves.len()
    }
}

proof fn lemma_read_move_back(d: Seq<u8>, q: int, m: BookMoveView)
    requires
        holds_at(d, q, book_move_bytes(m)),
        move_encodable(m),
    ensures
        read_move(d, q) == Ok::<(BookMoveView, int), crate::opening_book::binary_format::ReadFailure>(
            (m, q + book_move_bytes(m).len()),
        ),
{
    let n = book_move_bytes(m).len();
    let pre = d.subrange(0, q);
    let post = d.subrange(q + n, d.len() as int);
    assert(d =~= pre + book_move_bytes(m) + post);
    law_book_move_round_trip(pre, m, post);
}

proof fn lemma_read_moves_back(d: Seq<u8>, p: int, ms: Seq<BookMoveView>)
    requires
        holds_at(d, p, moves_bytes(ms)),
        forall|i: int| 0 <= i < ms.len() ==> move_encodable(#[trigger] ms[i]),
    ensures
        read_moves(d, p, ms.len()) == Ok::<(Seq<BookMoveView>, int), crate::opening_book::binary_format::ReadFailure>(
            (ms, p + moves_bytes(ms).len()),
        ),
    decreases ms.len(),
{
    if ms.len() > 0 {
        let init = ms.drop_last();
        lemma_holds_split(d, p, moves_bytes(init), book_move_bytes(ms.last()));
        assert forall|i: int| 0 <= i < init.len() implies move_encodable(#[trigger] init[i]) by {
            assert(init[i] == ms[i]);
        }
        lemma_read_moves_back(d, p, init);
        assert(move_encodable(ms[ms.len() - 1]));
        lemma_read_move_back(d, p + moves_bytes(init).len(), ms.last());
        assert(init.push(ms.last()) =~= ms);
    } else {
        assert(ms =~= Seq::<BookMoveView>::empty());
    }
}

/// A position record reads back as written, wherever it stands.
pub proof fn lemma_read_entry_back(d: Seq<u8>, p: int, e: PositionEntryView)
    requires
        holds_at(d, p, entry_bytes(e)),
        entry_encodable(e),
    ensures
        read_entry(d, p) == Ok::<(Seq<char>, Seq<BookMoveView>, int), crate::opening_book::binary_format::ReadFailure>(
            (e.fen, e.moves, p + entry_bytes(e).len()),
        ),
{
    let b = encode_utf8(e.fen);
    let n = b.len() as u32;
    let ml = e.moves.len() as u32;
    lemma_holds_split(d, p, le32(n) + b + le32(ml), moves_bytes(e.moves));
    lemma_holds_split(d, p, le32(n) + b, le32(ml));
    lemma_holds_split(d, p, le32(n), b);
    lemma_u32_at(d, p, n);
    assert(d.subrange(p + 4, p + 4 + n) == b);
    lemma_u32_at(d, p + 4 + n, ml);
    lemma_read_moves_back(d, p + 8 + n, e.moves);
}

proof fn lemma_take_drop_last(ks: Seq<u64>, j: int)
    requires
        0 <= j < ks.len() - 1,
    ensures
        ks.drop_last().take(j) == ks.take(j),
        ks.drop_last()[j] == ks[j],
{
    assert(ks.drop_last().take(j) =~= ks.take(j));
}

proof fn lemma_holds_prefix(x: Seq<u8>, y: Seq<u8>, q: int, b: Seq<u8>)
    requires
        holds_at(x, q, b),
    ensures
        holds_at(x + y, q, b),
{
    assert((x + y).subrange(q, q + b.len()) =~= x.subrange(q, q + b.len()));
}

proof fn lemma_entries_len_mono(p: Map<u64, PositionEntryView>, ks: Seq<u64>, j: int)
    requires
        0 <= j <= ks.len(),
    ensures
        entries_bytes(p, ks.take(j)).len() <= entries_bytes(p, ks).len(),
    decreases ks.len(),
{
    if j < ks.len() {
        assert(ks.take(ks.len() - 1) =~= ks.drop_last());
        if j < ks.len() - 1 {
            assert(ks.drop_last().take(j) =~= ks.take(j));
        }
        lemma_entries_len_mono(p, ks.drop_last(), j);
    } else {
        assert(ks.take(j) =~= ks);
    }
}

/// Slot `j` of a hash table holds key `ks[j]` and the offset of its record.
proof fn lemma_table_slot(p: Map<u64, PositionEntryView>, ks: Seq<u64>, base: int, j: int)
    requires
        0 <= j < ks.len(),
    ensures
        table_bytes(p, ks, base).len() == 16 * ks.len(),
        holds_at(
            table_bytes(p, ks, base),
            16 * j,
            le64(ks[j]) + le64((base + entries_bytes(p, ks.take(j)).len()) as u64),
        ),
    decreases ks.len(),
{
    let init = ks.drop_last();
    let t0 = table_bytes(p, init, base);
    let last = le64(ks.last()) + le64((base + entries_bytes(p, init).len()) as u64);
    lemma_table_len(p, init, base);
    assert(table_bytes(p, ks, base) =~= t0 + last);
    if j == ks.len() - 1 {
        assert(ks.take(j) =~= init);
        assert((t0 + last).subrange(16 * j, 16 * j + 16) =~= last);
    } else {
        lemma_take_drop_last(ks, j);
        lemma_table_slot(p, init, base, j);
        lemma_holds_prefix(t0, last, 16 * j, le64(ks[j]) + le64((base + entries_bytes(p, ks.take(j)).len()) as u64));
    }
}

/// The record of `ks[j]` follows those of the keys before it.
proof fn lemma_entries_slot(p: Map<u64, PositionEntryView>, ks: Seq<u64>, j: int)
    requires
        0 <= j < ks.len(),
    ensures
        holds_at(entries_bytes(p, ks), entries_bytes(p, ks.take(j)).len() as int, entry_bytes(p[ks[j]])),
    decreases ks.len(),
{
    let init = ks.drop_last();
    if j == ks.len() - 1 {
        assert(ks.take(j) =~= init);
        lemma_holds_between(entries_bytes(p, init), entry_bytes(p[ks[j]]), Seq::empty());
        assert(entries_bytes(p, init) + entry_bytes(p[ks[j]]) + Seq::<u8>::empty() =~= entries_bytes(p, ks));
    } else {
        lemma_take_drop_last(ks, j);
        lemma_entries_slot(p, init, j);
        lemma_holds_prefix(
            entries_bytes(p, init),
            entry_bytes(p[ks.last()]),
            entries_bytes(p, ks.take(j)).len() as int,
            entry_bytes(p[ks[j]]),
        );
    }
}

proof fn lemma_u64_zero(d: Seq<u8>, q: int)
    requires
        0 <= q,
        q + 8 <= d.len(),
        forall|i: int| q <= i < q + 8 ==> d[i] == 0,
    ensures
        u64_at(d, q) == 0,
{
    assert(le64(0) =~= seq![0u8, 0u8, 0u8, 0u8, 0u8, 0u8, 0u8, 0u8]) by {
        assert((0u64 & 0xff) as u8 == 0u8) by (bit_vector);
        assert(((0u64 >> 8) & 0xff) as u8 == 0u8) by (bit_vector);
        assert(((0u64 >> 16) & 0xff) as u8 == 0u8) by (bit_vector);
        assert(((0u64 >> 24) & 0xff) as u8 == 0u8) by (bit_vector);
        assert(((0u64 >> 32) & 0xff) as u8 == 0u8) by (bit_vector);
        assert(((0u64 >> 40) & 0xff) as u8 == 0u8) by (bit_vector);
        assert(((0u64 >> 48) & 0xff) as u8 == 0u8) by (bit_vector);
        assert((0u64 >> 56) as u8 == 0u8) by (bit_vector);
    }
    assert(d.subrange(q, q + 8) =~= le64(0));
    lemma_u64_at(d, q, 0);
}

proof fn lemma_holds_trans(d: Seq<u8>, q: int, x: Seq<u8>, r: int, y: Seq<u8>)
    requires
        holds_at(d, q, x),
        holds_at(x, r, y),
    ensures
        holds_at(d, q + r, y),
{
    assert(d.subrange(q + r, q + r + y.len()) =~= x.subrange(r, r + y.len())) by {
        assert forall|i: int| 0 <= i < y.len() implies #[trigger] d.subrange(q + r, q + r + y.len())[i] == x.subrange(r, r + y.len())[i] by {
            assert(d[q + r + i] == d.subrange(q, q + x.len())[r + i]);
        }
    }
}

/// Where the parts of a written book stand: the table after the 48 header bytes, empty
/// slots after it up to `base`, and the records from `base` on.
#[verifier::opaque]
pub open spec fn book_layout(b: Seq<u8>, p: Map<u64, PositionEntryView>, ks: Seq<u64>, base: int) -> bool {
    &&& 48 + 16 * ks.len() <= base
    &&& holds_at(b, 48, table_bytes(p, ks, base))
    &&& holds_at(b, (48 + 16 * ks.len()) as int, zeros((base - 48 - 16 * ks.len()) as nat))
    &&& holds_at(b, base, entries_bytes(p, ks))
    &&& base + entries_bytes(p, ks).len() <= u64::MAX
}

proof fn lemma_written_layout(b: Seq<u8>, h: HeaderView, p: Map<u64, PositionEntryView>, ks: Seq<u64>, tsize: nat)
    requires
        h.magic.len() == 4,
        0 < ks.len() <= tsize,
        48 + 16 * tsize + entries_bytes(p, ks).len() <= u64::MAX,
        b == book_bytes(h, p, ks, tsize),
    ensures
        book_layout(b, p, ks, (48 + 16 * tsize) as int),
        b.len() == 48 + 16 * tsize + entries_bytes(p, ks).len(),
        b.subrange(0, 48) == header_bytes(h),
        header_bytes(h).len() == 48,
{
    reveal(book_layout);
    let base = (48 + 16 * tsize) as int;
    let hb = header_bytes(h);
    let tb = table_bytes(p, ks, base);
    let z = zeros((16 * (tsize - ks.len())) as nat);
    let e = entries_bytes(p, ks);
    lemma_table_len(p, ks, base);
    assert(hb.len() == 48);
    assert(b == hb + tb + z + e);
    assert(b.subrange(48, 48 + tb.len() as int) =~= tb);
    assert(b.subrange(48 + tb.len() as int, 48 + tb.len() + z.len() as int) =~= z);
    assert(b.subrange(base, base + e.len()) =~= e);
    assert(b.subrange(0, 48) =~= hb);
    assert((base - 48 - 16 * ks.len()) as nat == 16 * (tsize - ks.len()));
}

/// Slot `j` of a written book with a position there: its key and the offset of its record,
/// which reads back as the position.
proof fn lemma_written_slot(b: Seq<u8>, p: Map<u64, PositionEntryView>, ks: Seq<u64>, base: int, j: int)
    requires
        book_layout(b, p, ks, base),
        0 <= j < ks.len(),
        entry_encodable(p[ks[j]]),
    ensures
        slot(b, j) == (ks[j], (base + entries_bytes(p, ks.take(j)).len()) as u64),
        (base + entries_bytes(p, ks.take(j)).len()) as u64 as int == base + entries_bytes(p, ks.take(j)).len(),
        read_entry(b, base + entries_bytes(p, ks.take(j)).len()) matches Ok((fen, ms, _)) && fen == p[ks[j]].fen
            && ms == p[ks[j]].moves,
{
    reveal(book_layout);
    let off = base + entries_bytes(p, ks.take(j)).len();
    lemma_entries_len_mono(p, ks, j);
    lemma_table_slot(p, ks, base, j);
    lemma_holds_trans(b, 48, table_bytes(p, ks, base), 16 * j, le64(ks[j]) + le64(off as u64));
    lemma_holds_split(b, 48 + 16 * j, le64(ks[j]), le64(off as u64));
    lemma_u64_at(b, 48 + 16 * j, ks[j]);
    lemma_u64_at(b, 56 + 16 * j, off as u64);
    lemma_entries_slot(p, ks, j);
    lemma_holds_trans(b, base, entries_bytes(p, ks), entries_bytes(p, ks.take(j)).len() as int, entry_bytes(p[ks[j]]));
    lemma_read_entry_back(b, off, p[ks[j]]);
}

/// Slots past the positions of a written book are empty.
proof fn lemma_written_empty_slot(b: Seq<u8>, p: Map<u64, PositionEntryView>, ks: Seq<u64>, base: int, j: int)
    requires
        book_layout(b, p, ks, base),
        ks.len() <= j,
        48 + 16 * j + 16 <= base,
    ensures
        slot(b, j) == (0u64, 0u64),
{
    reveal(book_layout);
    let start = (48 + 16 * ks.len()) as int;
    let z = zeros((base - start) as nat);
    assert forall|i: int| 48 + 16 * j <= i < 64 + 16 * j implies b[i] == 0 by {
        assert(b[i] == b.subrange(start, start + z.len() as int)[i - start]);
    }
    lemma_u64_zero(b, 48 + 16 * j);
    lemma_u64_zero(b, 56 + 16 * j);
}

proof fn lemma_slot_step_read(
    d: Seq<u8>,
    m: Map<u64, PositionEntryView>,
    t: nat,
    s: (u64, u64),
    e: PositionEntryView,
)
    requires
        !(s.0 == 0 && s.1 == 0),
        read_entry(d, s.1 as int) matches Ok((fen, ms, _)) && fen == e.fen && ms == e.moves,
    ensures
        slot_step(d, Some((m, t)), s) == Some((m.insert(s.0, e), t + e.moves.len())),
{
}

proof fn lemma_read_written_slots(b: Seq<u8>, p: Map<u64, PositionEntryView>, ks: Seq<u64>, base: int, k: nat)
    requires
        book_layout(b, p, ks, base),
        keys_in_order(ks, p.dom()),
        book_encodable(p),
        48 + 16 * k <= base,
    ensures
        read_slots(b, k) == Some(
            (
                p.restrict(ks.take(if k <= ks.len() { k as int } else { ks.len() as int }).to_set()),
                moves_total(p, ks.take(if k <= ks.len() { k as int } else { ks.len() as int })),
            ),
        ),
    decreases k,
{
    if k == 0 {
        assert(p.restrict(ks.take(0).to_set()) =~= Map::empty());
    } else {
        lemma_read_written_slots(b, p, ks, base, (k - 1) as nat);
        let j = k - 1;
        if k <= ks.len() {
            let key = ks[j];
            assert(ks.to_set().contains(key));
            assert(p.contains_key(key));
            lemma_written_slot(b, p, ks, base, j);
            let prev = read_slots(b, j as nat)->0;
            lemma_slot_step_read(b, prev.0, prev.1, slot(b, j), p[key]);
            let before = ks.take(j).to_set();
            assert(ks.take(k as int).to_set() =~= before.insert(key)) by {
                assert(ks.take(k as int) =~= ks.take(j) + seq![key]);
                vstd::seq_lib::seq_to_set_distributes_over_add(ks.take(j), seq![key]);
                assert(seq![key].to_set() =~= set![key]) by {
                    assert(seq![key][0] == key);
                }
            }
            assert(p.restrict(ks.take(k as int).to_set()) =~= p.restrict(before).insert(key, p[key]));
            assert(ks.take(k as int).drop_last() =~= ks.take(j));
            assert(PositionEntryView { fen: p[key].fen, moves: p[key].moves } == p[key]);
        } else {
            lemma_written_empty_slot(b, p, ks, base, j);
        }
    }
}

/// Keys in increasing order are as many as the set they list.
proof fn lemma_keys_len(ks: Seq<u64>, dom: Set<u64>)
    requires
        keys_in_order(ks, dom),
    ensures
        ks.len() == dom.len(),
        dom.finite(),
{
    assert(ks.no_duplicates()) by {
        assert forall|i: int, j: int| 0 <= i < ks.len() && 0 <= j < ks.len() && i != j implies ks[i] != ks[j] by {
            if i < j {
            } else {
            }
        }
    }
    ks.unique_seq_to_set();
    vstd::seq_lib::seq_to_set_is_finite(ks);
}

proof fn lemma_moves_len(ms: Seq<BookMoveView>)
    ensures
        ms.len() <= moves_bytes(ms).len(),
    decreases ms.len(),
{
    if ms.len() > 0 {
        lemma_moves_len(ms.drop_last());
        assert(book_move_bytes(ms.last()).len() >= 14);
    }
}

proof fn lemma_moves_total_len(p: Map<u64, PositionEntryView>, ks: Seq<u64>)
    ensures
        moves_total(p, ks) <= entries_bytes(p, ks).len(),
    decreases ks.len(),
{
    if ks.len() > 0 {
        lemma_moves_total_len(p, ks.drop_last());
        lemma_moves_len(p[ks.last()].moves);
    }
}

#[verifier::spinoff_prover]
#[verifier::rlimit(40)]
proof fn lemma_round_trip_nonempty(
    p: Map<u64, PositionEntryView>,
    ks: Seq<u64>,
    tsize: nat,
    h: HeaderView,
    b: Seq<u8>,
)
    requires
        keys_in_order(ks, p.dom()),
        book_encodable(p),
        0 < ks.len() <= tsize,
        48 + 16 * tsize + entries_bytes(p, ks).len() <= isize::MAX,
        h.magic.len() == 4,
        h.magic == magic_bytes(),
        h.version == FORMAT_VERSION,
        h.hash_table_size == tsize,
        b == book_bytes(h, p, ks, tsize),
    ensures
        decode_header(b) == h,
        readable(b),
        48 + 16 * tsize <= b.len(),
        read_slots(b, tsize) == Some((p, moves_total(p, ks))),
{
    lemma_written_layout(b, h, p, ks, tsize);
    let rest = b.subrange(48, b.len() as int);
    assert(b =~= b.subrange(0, 48) + rest);
    law_header_round_trip(h, rest);
    lemma_read_written_slots(b, p, ks, (48 + 16 * tsize) as int, tsize);
    assert(ks.take(ks.len() as int) =~= ks);
    assert(p.restrict(ks.to_set()) =~= p);
    lemma_written_totals(b, p, ks, tsize);
    lemma_readable(b, tsize);
}

proof fn lemma_readable(b: Seq<u8>, tsize: nat)
    requires
        b.len() >= 48 + 16 * tsize,
        b.len() <= isize::MAX,
        u64_at(b, 16) == tsize,
        forall|k: nat| k <= tsize ==> (#[trigger] read_slots(b, k) matches Some((_, t)) ==> t <= usize::MAX),
    ensures
        readable(b),
{
    assert(recorded_table_size(b) == tsize);
}

proof fn lemma_written_totals(b: Seq<u8>, p: Map<u64, PositionEntryView>, ks: Seq<u64>, tsize: nat)
    requires
        book_layout(b, p, ks, (48 + 16 * tsize) as int),
        keys_in_order(ks, p.dom()),
        book_encodable(p),
        48 + 16 * tsize + entries_bytes(p, ks).len() <= isize::MAX,
    ensures
        forall|k: nat| k <= tsize ==> (#[trigger] read_slots(b, k) matches Some((_, t)) ==> t <= usize::MAX),
{
    let base = (48 + 16 * tsize) as int;
    assert forall|k: nat| k <= tsize implies (#[trigger] read_slots(b, k) matches Some((_, t)) ==> t <= usize::MAX) by {
        lemma_read_written_slots(b, p, ks, base, k);
        let j = if k <= ks.len() { k as int } else { ks.len() as int };
        lemma_moves_total_len(p, ks.take(j));
        lemma_entries_len_mono(p, ks, j);
    }
}

/// Writing a book and reading it back gives the same positions. For a book with positions,
/// the header accepted by the reader records the table size, the table fits in the data,
/// and the slots read back every position under its key, with the sum of their move
/// counts; for one without, the table is empty. This holds for every key order
/// `ks` the writer may take, provided each position reads back as written (see
/// `entry_encodable`: an empty text of a move, for one, reads back as absent).
pub proof fn law_binary_book_round_trip(p: Map<u64, PositionEntryView>, ks: Seq<u64>, total: nat, time: u64)
    requires
        keys_in_order(ks, p.dom()),
        book_encodable(p),
        book_size_fits(p),
    ensures
        ({
            let tsize = table_size(p.len());
            let b = book_bytes(written_header(p.len(), tsize, total, time), p, ks, tsize);
            &&& readable(b)
            &&& header_ok(b)
            &&& recorded_table_size(b) == tsize
            &&& p.len() == 0 ==> tsize == 0
            &&& p.len() > 0 ==> 48 + 16 * tsize <= b.len() && read_slots(b, tsize) == Some((p, moves_total(p, ks)))
        }),
{
    let n = p.len();
    let tsize = table_size(n);
    let h = written_header(n, tsize, total, time);
    let b = book_bytes(h, p, ks, tsize);
    lemma_keys_len(ks, p.dom());
    assert(48 + 16 * table_size(p.len()) + entries_bytes(p, ks).len() <= usize::MAX);
    if n > 0 {
        lemma_next_pow2(1, n);
        lemma_round_trip_nonempty(p, ks, tsize, h, b);
    } else {
        assert(b == header_bytes(h));
        law_header_round_trip(h, Seq::empty());
        assert(header_bytes(h) + Seq::<u8>::empty() =~= header_bytes(h));
    }
}

} // verus!
