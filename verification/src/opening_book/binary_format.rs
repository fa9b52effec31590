//! The binary opening-book format: a 48-byte header, little-endian book-move
//! records with length-prefixed UTF-8 texts, and a reader over a byte buffer.

use vstd::prelude::*;
use vstd::utf8::*;
use crate::clock::unix_time_secs;
use crate::opening_book::{BookMove, BookMoveView, ChunkHeader, OpeningBookError};
use crate::text::{chars_to_string, push_decimal, push_str, decimal};
use crate::types::{PieceType, Position, piece_index, piece_from_index};

verus! {

broadcast use {encode_utf8_valid_utf8, encode_utf8_decode_utf8};

// ----- little-endian integers -----

/// Little-endian bytes of a `u16`.
pub open spec fn le16(x: u16) -> Seq<u8> {
    seq![(x & 0xff) as u8, (x >> 8) as u8]
}

/// Little-endian bytes of a `u32`.
pub open spec fn le32(x: u32) -> Seq<u8> {
    seq![(x & 0xff) as u8, ((x >> 8) & 0xff) as u8, ((x >> 16) & 0xff) as u8, (x >> 24) as u8]
}

/// Little-endian bytes of a `u64`.
pub open spec fn le64(x: u64) -> Seq<u8> {
    seq![
        (x & 0xff) as u8,
        ((x >> 8) & 0xff) as u8,
        ((x >> 16) & 0xff) as u8,
        ((x >> 24) & 0xff) as u8,
        ((x >> 32) & 0xff) as u8,
        ((x >> 40) & 0xff) as u8,
        ((x >> 48) & 0xff) as u8,
        (x >> 56) as u8,
    ]
}

/// The `u16` stored little-endian at offset `p` of `d`.
pub open spec fn u16_at(d: Seq<u8>, p: int) -> u16 {
    (d[p] as u16) | ((d[p + 1] as u16) << 8u16)
}

/// The `u32` stored little-endian at offset `p` of `d`.
pub open spec fn u32_at(d: Seq<u8>, p: int) -> u32 {
    (d[p] as u32) | ((d[p + 1] as u32) << 8u32) | ((d[p + 2] as u32) << 16u32) | ((d[p + 3] as u32)
        << 24u32)
}

/// The `u64` stored little-endian at offset `p` of `d`.
pub open spec fn u64_at(d: Seq<u8>, p: int) -> u64 {
    (u32_at(d, p) as u64) | ((u32_at(d, p + 4) as u64) << 32u64)
}

proof fn lemma_u16_bytes(x: u16)
    ensures
        (((x & 0xff) as u8) as u16) | ((((x >> 8) as u8) as u16) << 8u16) == x,
{
    assert((((x & 0xff) as u8) as u16) | ((((x >> 8) as u8) as u16) << 8u16) == x) by (bit_vector);
}

proof fn lemma_u32_bytes(x: u32)
    ensures
        (((x & 0xff) as u8) as u32) | (((((x >> 8) & 0xff) as u8) as u32) << 8u32) | (((((x >> 16)
            & 0xff) as u8) as u32) << 16u32) | ((((x >> 24) as u8) as u32) << 24u32) == x,
{
    assert((((x & 0xff) as u8) as u32) | (((((x >> 8) & 0xff) as u8) as u32) << 8u32) | (((((x
        >> 16) & 0xff) as u8) as u32) << 16u32) | ((((x >> 24) as u8) as u32) << 24u32) == x)
        by (bit_vector);
}

proof fn lemma_u64_halves(x: u64)
    ensures
        ((x & 0xffff_ffff) as u32) as u64 | ((((x >> 32) as u32) as u64) << 32u64) == x,
        (((x & 0xffff_ffff) as u32) & 0xff) as u8 == (x & 0xff) as u8,
        ((((x & 0xffff_ffff) as u32) >> 8) & 0xff) as u8 == ((x >> 8) & 0xff) as u8,
        ((((x & 0xffff_ffff) as u32) >> 16) & 0xff) as u8 == ((x >> 16) & 0xff) as u8,
        ((((x & 0xffff_ffff) as u32) >> 24)) as u8 == ((x >> 24) & 0xff) as u8,
        (((x >> 32) as u32) & 0xff) as u8 == ((x >> 32) & 0xff) as u8,
        ((((x >> 32) as u32) >> 8) & 0xff) as u8 == ((x >> 40) & 0xff) as u8,
        ((((x >> 32) as u32) >> 16) & 0xff) as u8 == ((x >> 48) & 0xff) as u8,
        ((((x >> 32) as u32) >> 24)) as u8 == (x >> 56) as u8,
{
    assert(((x & 0xffff_ffff) as u32) as u64 | ((((x >> 32) as u32) as u64) << 32u64) == x)
        by (bit_vector);
    assert((((x & 0xffff_ffff) as u32) & 0xff) as u8 == (x & 0xff) as u8) by (bit_vector);
    assert(((((x & 0xffff_ffff) as u32) >> 8) & 0xff) as u8 == ((x >> 8) & 0xff) as u8)
        by (bit_vector);
    assert(((((x & 0xffff_ffff) as u32) >> 16) & 0xff) as u8 == ((x >> 16) & 0xff) as u8)
        by (bit_vector);
    assert(((((x & 0xffff_ffff) as u32) >> 24)) as u8 == ((x >> 24) & 0xff) as u8)
        by (bit_vector);
    assert((((x >> 32) as u32) & 0xff) as u8 == ((x >> 32) & 0xff) as u8) by (bit_vector);
    assert(((((x >> 32) as u32) >> 8) & 0xff) as u8 == ((x >> 40) & 0xff) as u8) by (bit_vector);
    assert(((((x >> 32) as u32) >> 16) & 0xff) as u8 == ((x >> 48) & 0xff) as u8)
        by (bit_vector);
    assert(((((x >> 32) as u32) >> 24)) as u8 == (x >> 56) as u8) by (bit_vector);
}

/// Reading back a written `u16`.
pub proof fn lemma_u16_at(d: Seq<u8>, p: int, x: u16)
    requires
        0 <= p,
        p + 2 <= d.len(),
        d.subrange(p, p + 2) == le16(x),
    ensures
        u16_at(d, p) == x,
{
    assert(d[p] == d.subrange(p, p + 2)[0]);
    assert(d[p + 1] == d.subrange(p, p + 2)[1]);
    lemma_u16_bytes(x);
}

/// Reading back a written `u32`.
pub proof fn lemma_u32_at(d: Seq<u8>, p: int, x: u32)
    requires
        0 <= p,
        p + 4 <= d.len(),
        d.subrange(p, p + 4) == le32(x),
    ensures
        u32_at(d, p) == x,
{
    assert(d[p] == d.subrange(p, p + 4)[0]);
    assert(d[p + 1] == d.subrange(p, p + 4)[1]);
    assert(d[p + 2] == d.subrange(p, p + 4)[2]);
    assert(d[p + 3] == d.subrange(p, p + 4)[3]);
    lemma_u32_bytes(x);
}

/// Reading back a written `u64`.
pub proof fn lemma_u64_at(d: Seq<u8>, p: int, x: u64)
    requires
        0 <= p,
        p + 8 <= d.len(),
        d.subrange(p, p + 8) == le64(x),
    ensures
        u64_at(d, p) == x,
{
    let lo = (x & 0xffff_ffff) as u32;
    let hi = (x >> 32) as u32;
    lemma_u64_halves(x);
    assert(d.subrange(p, p + 4) =~= le32(lo)) by {
        assert(forall|k: int| 0 <= k < 4 ==> d[p + k] == #[trigger] d.subrange(p, p + 8)[k]);
    }
    assert(d.subrange(p + 4, p + 8) =~= le32(hi)) by {
        assert(forall|k: int| 4 <= k < 8 ==> d[p + k] == #[trigger] d.subrange(p, p + 8)[k]);
    }
    lemma_u32_at(d, p, lo);
    lemma_u32_at(d, p + 4, hi);
}

pub fn push_u16(out: &mut Vec<u8>, x: u16)
    ensures
        final(out)@ == old(out)@ + le16(x),
{
    out.push((x & 0xff) as u8);
    out.push((x >> 8) as u8);
    assert(final(out)@ =~= old(out)@ + le16(x));
}

pub fn push_u32(out: &mut Vec<u8>, x: u32)
    ensures
        final(out)@ == old(out)@ + le32(x),
{
    out.push((x & 0xff) as u8);
    out.push(((x >> 8) & 0xff) as u8);
    out.push(((x >> 16) & 0xff) as u8);
    out.push((x >> 24) as u8);
    assert(final(out)@ =~= old(out)@ + le32(x));
}

pub fn push_u64(out: &mut Vec<u8>, x: u64)
    ensures
        final(out)@ == old(out)@ + le64(x),
{
    out.push((x & 0xff) as u8);
    out.push(((x >> 8) & 0xff) as u8);
    out.push(((x >> 16) & 0xff) as u8);
    out.push(((x >> 24) & 0xff) as u8);
    out.push(((x >> 32) & 0xff) as u8);
    out.push(((x >> 40) & 0xff) as u8);
    out.push(((x >> 48) & 0xff) as u8);
    out.push((x >> 56) as u8);
    assert(final(out)@ =~= old(out)@ + le64(x));
}

pub fn push_bytes(out: &mut Vec<u8>, b: &[u8])
    ensures
        final(out)@ == old(out)@ + b@,
{
    let mut i: usize = 0;
    while i < b.len()
        invariant
            i <= b@.len(),
            out@ == old(out)@ + b@.subrange(0, i as int),
        decreases b@.len() - i,
    {
        out.push(b[i]);
        assert(b@.subrange(0, i + 1) == b@.subrange(0, i as int).push(b@[i as int]));
        i = i + 1;
    }
    assert(b@.subrange(0, b@.len() as int) == b@);
}

/// Decodes UTF-8 bytes into a string; `Err` carries the decoder's message.
#[verifier::external_body]
fn string_from_utf8(bytes: Vec<u8>) -> (r: Result<String, String>)
    ensures
        r is Ok <==> valid_utf8(bytes@),
        r matches Ok(s) ==> s@ == decode_utf8(bytes@),
{
    match String::from_utf8(bytes) {
        Ok(s) => Ok(s),
        Err(e) => Err(e.to_string()),
    }
}

// ----- header -----

/// The magic bytes "SBOB".
pub open spec fn magic_bytes() -> Seq<u8> {
    seq![0x53u8, 0x42u8, 0x4fu8, 0x42u8]
}

/// The format version written and accepted.
pub const FORMAT_VERSION: u32 = 1;

/// Header of a binary opening book.
#[derive(Debug, Clone)]
pub struct BinaryHeader {
    pub magic: [u8; 4],
    pub version: u32,
    pub entry_count: u64,
    pub hash_table_size: u64,
    pub total_moves: u64,
    /// Unix timestamp of creation.
    pub created_at: u64,
    /// Unix timestamp of the last update.
    pub updated_at: u64,
}

/// The values of a header.
pub struct HeaderView {
    pub magic: Seq<u8>,
    pub version: u32,
    pub entry_count: u64,
    pub hash_table_size: u64,
    pub total_moves: u64,
    pub created_at: u64,
    pub updated_at: u64,
}

impl View for BinaryHeader {
    type V = HeaderView;

    open spec fn view(&self) -> HeaderView {
        HeaderView {
            magic: self.magic@,
            version: self.version,
            entry_count: self.entry_count,
            hash_table_size: self.hash_table_size,
            total_moves: self.total_moves,
            created_at: self.created_at,
            updated_at: self.updated_at,
        }
    }
}

/// The 48 bytes of a header.
pub open spec fn header_bytes(h: HeaderView) -> Seq<u8> {
    h.magic + le32(h.version) + le64(h.entry_count) + le64(h.hash_table_size) + le64(
        h.total_moves,
    ) + le64(h.created_at) + le64(h.updated_at)
}

/// The header stored at the start of `d` (at least 48 bytes).
pub open spec fn decode_header(d: Seq<u8>) -> HeaderView {
    HeaderView {
        magic: d.subrange(0, 4),
        version: u32_at(d, 4),
        entry_count: u64_at(d, 8),
        hash_table_size: u64_at(d, 16),
        total_moves: u64_at(d, 24),
        created_at: u64_at(d, 32),
        updated_at: u64_at(d, 40),
    }
}

/// The error text for an unsupported version.
pub open spec fn unsupported_version_text(v: u32) -> Seq<char> {
    "Unsupported version: "@ + decimal(v as nat)
}

impl BinaryHeader {
    /// A header of the current version, stamped with the current time.
    pub fn new(entry_count: u64, hash_table_size: u64, total_moves: u64) -> (r: Self)
        ensures
            r.magic@ == magic_bytes(),
            r.version == FORMAT_VERSION,
            r.entry_count == entry_count,
            r.hash_table_size == hash_table_size,
            r.total_moves == total_moves,
            r.created_at == r.updated_at,
    {
        let now = unix_time_secs();
        BinaryHeader {
            magic: [0x53u8, 0x42u8, 0x4fu8, 0x42u8],
            version: FORMAT_VERSION,
            entry_count,
            hash_table_size,
            total_moves,
            created_at: now,
            updated_at: now,
        }
    }

    /// The 48 bytes of this header.
    pub fn to_bytes(&self) -> (r: Vec<u8>)
        ensures
            r@ == header_bytes(self@),
    {
        let mut bytes: Vec<u8> = Vec::new();
        bytes.push(self.magic[0]);
        bytes.push(self.magic[1]);
        bytes.push(self.magic[2]);
        bytes.push(self.magic[3]);
        assert(bytes@ =~= self.magic@);
        push_u32(&mut bytes, self.version);
        push_u64(&mut bytes, self.entry_count);
        push_u64(&mut bytes, self.hash_table_size);
        push_u64(&mut bytes, self.total_moves);
        push_u64(&mut bytes, self.created_at);
        push_u64(&mut bytes, self.updated_at);
        bytes
    }

    /// The header at the start of `data`: an error when fewer than 48 bytes are given,
    /// the magic bytes differ or the version is not the current one.
    pub fn from_bytes(data: &[u8]) -> (r: Result<Self, OpeningBookError>)
        ensures
            data@.len() < 48 ==> (r matches Err(OpeningBookError::BinaryFormatError(m)) && m@
                == "Insufficient data for header"@),
            data@.len() >= 48 && data@.subrange(0, 4) != magic_bytes() ==> (r matches Err(
                OpeningBookError::BinaryFormatError(m),
            ) && m@ == "Invalid magic number"@),
            data@.len() >= 48 && data@.subrange(0, 4) == magic_bytes() && u32_at(data@, 4)
                != FORMAT_VERSION ==> (r matches Err(OpeningBookError::BinaryFormatError(m)) && m@
                == unsupported_version_text(u32_at(data@, 4))),
            data@.len() >= 48 && data@.subrange(0, 4) == magic_bytes() && u32_at(data@, 4)
                == FORMAT_VERSION ==> (r matches Ok(h) && h@ == decode_header(data@)),
    {
        if data.len() < 48 {
            return Err(
                OpeningBookError::BinaryFormatError(
                    crate::text::string_of("Insufficient data for header"),
                ),
            );
        }
        let magic: [u8; 4] = [data[0], data[1], data[2], data[3]];
        assert(magic@ =~= data@.subrange(0, 4));
        if !(data[0] == 0x53u8 && data[1] == 0x42u8 && data[2] == 0x4fu8 && data[3] == 0x42u8) {
            assert(data@.subrange(0, 4) != magic_bytes()) by {
                if data@.subrange(0, 4) == magic_bytes() {
                    assert(data@[0] == data@.subrange(0, 4)[0]);
                    assert(data@[1] == data@.subrange(0, 4)[1]);
                    assert(data@[2] == data@.subrange(0, 4)[2]);
                    assert(data@[3] == data@.subrange(0, 4)[3]);
                }
            }
            return Err(
                OpeningBookError::BinaryFormatError(crate::text::string_of("Invalid magic number")),
            );
        }
        assert(data@.subrange(0, 4) =~= magic_bytes());
        let version = slice_u32(data, 4);
        if version != FORMAT_VERSION {
            let mut text: Vec<char> = Vec::new();
            push_str(&mut text, "Unsupported version: ");
            push_decimal(&mut text, version as u128);
            return Err(OpeningBookError::BinaryFormatError(chars_to_string(&text)));
        }
        Ok(
            BinaryHeader {
                magic,
                version,
                entry_count: slice_u64(data, 8),
                hash_table_size: slice_u64(data, 16),
                total_moves: slice_u64(data, 24),
                created_at: slice_u64(data, 32),
                updated_at: slice_u64(data, 40),
            },
        )
    }
}

fn slice_u32(d: &[u8], p: usize) -> (r: u32)
    requires
        p + 4 <= d@.len(),
    ensures
        r == u32_at(d@, p as int),
{
    (d[p] as u32) | ((d[p + 1] as u32) << 8u32) | ((d[p + 2] as u32) << 16u32) | ((d[p + 3] as u32)
        << 24u32)
}

fn slice_u64(d: &[u8], p: usize) -> (r: u64)
    requires
        p + 8 <= d@.len(),
        d@.len() <= usize::MAX,
    ensures
        r == u64_at(d@, p as int),
{
    let lo = slice_u32(d, p);
    let hi = slice_u32(d, p + 4);
    (lo as u64) | ((hi as u64) << 32u64)
}

/// Writing a header and reading it back gives the same header, whatever follows it.
pub proof fn law_header_round_trip(h: HeaderView, rest: Seq<u8>)
    requires
        h.magic.len() == 4,
    ensures
        (header_bytes(h) + rest).len() >= 48,
        decode_header(header_bytes(h) + rest) == h,
{
    let d = header_bytes(h) + rest;
    assert(d.subrange(0, 4) =~= h.magic);
    assert(d.subrange(4, 8) =~= le32(h.version));
    assert(d.subrange(8, 16) =~= le64(h.entry_count));
    assert(d.subrange(16, 24) =~= le64(h.hash_table_size));
    assert(d.subrange(24, 32) =~= le64(h.total_moves));
    assert(d.subrange(32, 40) =~= le64(h.created_at));
    assert(d.subrange(40, 48) =~= le64(h.updated_at));
    lemma_u32_at(d, 4, h.version);
    lemma_u64_at(d, 8, h.entry_count);
    lemma_u64_at(d, 16, h.hash_table_size);
    lemma_u64_at(d, 24, h.total_moves);
    lemma_u64_at(d, 32, h.created_at);
    lemma_u64_at(d, 40, h.updated_at);
}

// ----- book-move records -----

/// The 16-bit code of an optional square: row in the high byte, column in the low byte,
/// `0xFFFF` for none.
pub open spec fn square_code(p: Option<Position>) -> u16 {
    match p {
        Some(q) => ((q.row as u16) << 8u16) | (q.col as u16),
        None => 0xffffu16,
    }
}

/// The square of a 16-bit code.
pub open spec fn square_of_code(c: u16) -> Position {
    Position { row: (c >> 8u16) as u8, col: (c & 0xff) as u8 }
}

/// The flag byte: bit 0 for a drop, bit 1 for a promotion.
pub open spec fn flag_byte(is_drop: bool, is_promotion: bool) -> u8 {
    if is_drop && is_promotion {
        3
    } else if is_drop {
        1
    } else if is_promotion {
        2
    } else {
        0
    }
}

/// A length-prefixed optional UTF-8 text (length 0 for none).
pub open spec fn text_field(t: Option<Seq<char>>) -> Seq<u8> {
    match t {
        Some(s) => le32(encode_utf8(s).len() as u32) + encode_utf8(s),
        None => le32(0),
    }
}

/// The record of a book move.
pub open spec fn book_move_bytes(m: BookMoveView) -> Seq<u8> {
    le16(square_code(m.from)) + le16(square_code(Some(m.to))) + seq![
        piece_index(m.piece_type) as u8,
        flag_byte(m.is_drop, m.is_promotion),
    ] + le32(m.weight) + le32(m.evaluation as u32) + text_field(m.opening_name) + text_field(
        m.move_notation,
    )
}

/// Why reading a record failed.
#[derive(Clone, Copy, Debug, PartialEq, Eq, Structural)]
pub enum ReadFailure {
    EndOfData,
    InvalidFen,
    InvalidOpeningName,
    InvalidMoveNotation,
}

/// The prefix of the error text for text that is not UTF-8.
pub open spec fn utf8_error_prefix(f: ReadFailure) -> Seq<char> {
    match f {
        ReadFailure::InvalidFen => "Invalid UTF-8 in FEN: "@,
        ReadFailure::InvalidOpeningName => "Invalid UTF-8 in opening name: "@,
        _ => "Invalid UTF-8 in move notation: "@,
    }
}

/// `e` is the error reported for the failure `f`.
pub open spec fn reports(f: ReadFailure, e: OpeningBookError) -> bool {
    match e {
        OpeningBookError::BinaryFormatError(m) => if f == ReadFailure::EndOfData {
            m@ == "Unexpected end of data"@
        } else {
            m@.len() >= utf8_error_prefix(f).len() && m@.subrange(
                0,
                utf8_error_prefix(f).len() as int,
            ) == utf8_error_prefix(f)
        },
        _ => false,
    }
}

/// An optional text field at offset `p`: its text and the offset after it.
pub open spec fn read_text(d: Seq<u8>, p: int, bad: ReadFailure) -> Result<
    (Option<Seq<char>>, int),
    ReadFailure,
> {
    if p + 4 > d.len() {
        Err(ReadFailure::EndOfData)
    } else {
        let n = u32_at(d, p) as int;
        if n == 0 {
            Ok((None, p + 4))
        } else if p + 4 + n > d.len() {
            Err(ReadFailure::EndOfData)
        } else if valid_utf8(d.subrange(p + 4, p + 4 + n)) {
            Ok((Some(decode_utf8(d.subrange(p + 4, p + 4 + n))), p + 4 + n))
        } else {
            Err(bad)
        }
    }
}

/// The book move recorded at offset `p` and the offset after it.
pub open spec fn read_move(d: Seq<u8>, p: int) -> Result<(BookMoveView, int), ReadFailure> {
    if p + 14 > d.len() {
        Err(ReadFailure::EndOfData)
    } else {
        match read_text(d, p + 14, ReadFailure::InvalidOpeningName) {
            Err(f) => Err(f),
            Ok((name, q)) => match read_text(d, q, ReadFailure::InvalidMoveNotation) {
                Err(f) => Err(f),
                Ok((notation, e)) => {
                    let fc = u16_at(d, p);
                    let flags = d[p + 5];
                    Ok(
                        (
                            BookMoveView {
                                from: if fc == 0xffffu16 {
                                    None
                                } else {
                                    Some(square_of_code(fc))
                                },
                                to: square_of_code(u16_at(d, p + 2)),
                                piece_type: piece_from_index(d[p + 4] as int),
                                is_drop: flags & 1u8 != 0u8,
                                is_promotion: flags & 2u8 != 0u8,
                                weight: u32_at(d, p + 6),
                                evaluation: u32_at(d, p + 10) as i32,
                                opening_name: name,
                                move_notation: notation,
                            },
                            e,
                        ),
                    )
                },
            },
        }
    }
}

/// `count` book moves recorded one after another from offset `p`.
pub open spec fn read_moves(d: Seq<u8>, p: int, count: nat) -> Result<
    (Seq<BookMoveView>, int),
    ReadFailure,
>
    decreases count,
{
    if count == 0 {
        Ok((Seq::empty(), p))
    } else {
        match read_moves(d, p, (count - 1) as nat) {
            Err(f) => Err(f),
            Ok((ms, q)) => match read_move(d, q) {
                Err(f) => Err(f),
                Ok((m, e)) => Ok((ms.push(m), e)),
            },
        }
    }
}

/// The FEN text at offset `p` (length-prefixed, possibly empty) and the offset after it.
pub open spec fn read_fen(d: Seq<u8>, p: int) -> Result<(Seq<char>, int), ReadFailure> {
    if p + 4 > d.len() {
        Err(ReadFailure::EndOfData)
    } else {
        let n = u32_at(d, p) as int;
        if p + 4 + n > d.len() {
            Err(ReadFailure::EndOfData)
        } else if valid_utf8(d.subrange(p + 4, p + 4 + n)) {
            Ok((decode_utf8(d.subrange(p + 4, p + 4 + n)), p + 4 + n))
        } else {
            Err(ReadFailure::InvalidFen)
        }
    }
}

/// The position entry at offset `p`: FEN, moves, and the offset after it.
pub open spec fn read_entry(d: Seq<u8>, p: int) -> Result<
    (Seq<char>, Seq<BookMoveView>, int),
    ReadFailure,
> {
    match read_fen(d, p) {
        Err(f) => Err(f),
        Ok((fen, q)) => if q + 4 > d.len() {
            Err(ReadFailure::EndOfData)
        } else {
            match read_moves(d, q + 4, u32_at(d, q) as nat) {
                Err(f) => Err(f),
                Ok((ms, e)) => Ok((fen, ms, e)),
            }
        },
    }
}

/// The views of a vector of book moves.
pub open spec fn move_views(v: Seq<BookMove>) -> Seq<BookMoveView> {
    v.map_values(|b: BookMove| b@)
}

/// A slot of the hash table of a binary book: a position key and the offset of its record
/// (both zero for an empty slot).
#[derive(Debug, Clone, Copy)]
pub struct HashTableEntry {
    pub position_hash: u64,
    pub entry_offset: u64,
}

/// Writes book-move records.
pub struct BinaryWriter {
    pub(crate) buffer: Vec<u8>,
}

impl BinaryWriter {
    pub fn new() -> (r: Self)
        ensures
            r.buffer_spec() == Seq::<u8>::empty(),
    {
        BinaryWriter { buffer: Vec::new() }
    }

    /// The bytes accumulated by this writer.
    pub closed spec fn buffer_spec(&self) -> Seq<u8> {
        self.buffer@
    }

    pub(crate) proof fn lemma_buffer_spec(&self)
        ensures
            self.buffer_spec() == self.buffer@,
    {
    }

    /// The record of a book move.
    pub fn write_book_move(&self, book_move: &BookMove) -> (r: Result<Vec<u8>, OpeningBookError>)
        ensures
            r matches Ok(b) && b@ == book_move_bytes(book_move@),
    {
        let mut bytes: Vec<u8> = Vec::new();
        let from_code: u16 = match book_move.from {
            Some(f) => ((f.row as u16) << 8u16) | (f.col as u16),
            None => 0xffffu16,
        };
        push_u16(&mut bytes, from_code);
        let to_code: u16 = ((book_move.to.row as u16) << 8u16) | (book_move.to.col as u16);
        push_u16(&mut bytes, to_code);
        bytes.push(book_move.piece_type.to_u8());
        let flags: u8 = if book_move.is_drop && book_move.is_promotion {
            3
        } else if book_move.is_drop {
            1
        } else if book_move.is_promotion {
            2
        } else {
            0
        };
        bytes.push(flags);
        push_u32(&mut bytes, book_move.weight);
        push_u32(&mut bytes, book_move.evaluation as u32);
        push_text_field(&mut bytes, &book_move.opening_name);
        push_text_field(&mut bytes, &book_move.move_notation);
        assert(bytes@ =~= book_move_bytes(book_move@));
        Ok(bytes)
    }
}

fn push_text_field(out: &mut Vec<u8>, t: &Option<String>)
    ensures
        final(out)@ == old(out)@ + text_field(crate::opening_book::opt_text(*t)),
{
    match t {
        Some(s) => {
            let b = s.as_str().as_bytes();
            push_u32(out, b.len() as u32);
            push_bytes(out, b);
            assert(final(out)@ =~= old(out)@ + text_field(crate::opening_book::opt_text(*t)));
        },
        None => {
            push_u32(out, 0);
        },
    }
}

// ----- reader -----

/// Reads records from a byte buffer, from a current offset onwards.
pub struct BinaryReader {
    data: Vec<u8>,
    position: usize,
}

impl BinaryReader {
    #[verifier::type_invariant]
    spec fn offset_in_data(self) -> bool {
        self.position <= self.data@.len()
    }

    /// The bytes being read.
    pub closed spec fn bytes(&self) -> Seq<u8> {
        self.data@
    }

    /// The offset of the next byte to read.
    pub closed spec fn offset(&self) -> int {
        self.position as int
    }

    /// Moves to offset `p`, or to the end when `p` lies beyond it (every read then fails,
    /// as it would at `p`).
    pub fn seek(&mut self, p: u64)
        ensures
            final(self).bytes() == old(self).bytes(),
            final(self).offset() == if p as int > old(self).bytes().len() {
                old(self).bytes().len() as int
            } else {
                p as int
            },
    {
        if p as u128 > self.data.len() as u128 {
            self.position = self.data.len();
        } else {
            self.position = p as usize;
        }
    }

    /// The header at the start of the data, leaving the reader after it (see
    /// `BinaryHeader::from_bytes`).
    pub fn read_header(&mut self) -> (r: Result<BinaryHeader, OpeningBookError>)
        requires
            old(self).bytes().len() >= 48,
        ensures
            final(self).bytes() == old(self).bytes(),
            final(self).offset() == 48,
            old(self).bytes().subrange(0, 4) != magic_bytes() ==> (r matches Err(OpeningBookError::BinaryFormatError(m))
                && m@ == "Invalid magic number"@),
            old(self).bytes().subrange(0, 4) == magic_bytes() && u32_at(old(self).bytes(), 4) != FORMAT_VERSION ==> (r matches Err(
                OpeningBookError::BinaryFormatError(m),
            ) && m@ == unsupported_version_text(u32_at(old(self).bytes(), 4))),
            old(self).bytes().subrange(0, 4) == magic_bytes() && u32_at(old(self).bytes(), 4) == FORMAT_VERSION ==> (r matches Ok(
                h,
            ) && h@ == decode_header(old(self).bytes())),
    {
        let head = vstd::slice::slice_subrange(self.data.as_slice(), 0, 48);
        let r = BinaryHeader::from_bytes(head);
        proof {
            let d = self.data@;
            assert(head@.subrange(0, 4) =~= d.subrange(0, 4));
            assert forall|k: int| 0 <= k < 48 implies head@[k] == d[k] by {}
            assert(decode_header(head@) == decode_header(d)) by {
                assert(head@.subrange(0, 4) =~= d.subrange(0, 4));
            }
        }
        self.position = 48;
        r
    }

    /// A reader at the start of `data`.
    pub fn new(data: Vec<u8>) -> (r: Self)
        ensures
            r.bytes() == data@,
            r.offset() == 0,
    {
        BinaryReader { data, position: 0 }
    }

    fn end_of_data() -> (e: OpeningBookError)
        ensures
            reports(ReadFailure::EndOfData, e),
    {
        OpeningBookError::BinaryFormatError(crate::text::string_of("Unexpected end of data"))
    }

    fn read_u8(&mut self) -> (r: Result<u8, OpeningBookError>)
        ensures
            final(self).bytes() == old(self).bytes(),
            old(self).offset() + 1 <= old(self).bytes().len() ==> (r matches Ok(v) && v == old(self).bytes()[old(self).offset()] && final(self).offset() == old(self).offset() + 1),
            old(self).offset() + 1 > old(self).bytes().len() ==> (r matches Err(e) && reports(
                ReadFailure::EndOfData,
                e,
            )),
    {
        proof {
            use_type_invariant(&*self);
        }
        if self.position >= self.data.len() {
            return Err(Self::end_of_data());
        }
        let v = self.data[self.position];
        self.position = self.position + 1;
        Ok(v)
    }

    fn read_u16(&mut self) -> (r: Result<u16, OpeningBookError>)
        ensures
            final(self).bytes() == old(self).bytes(),
            old(self).offset() + 2 <= old(self).bytes().len() ==> (r matches Ok(v) && v == u16_at(
                old(self).bytes(),
                old(self).offset(),
            ) && final(self).offset() == old(self).offset() + 2),
            old(self).offset() + 2 > old(self).bytes().len() ==> (r matches Err(e) && reports(
                ReadFailure::EndOfData,
                e,
            )),
    {
        proof {
            use_type_invariant(&*self);
        }
        if self.data.len() - self.position < 2 {
            return Err(Self::end_of_data());
        }
        let p = self.position;
        let v = (self.data[p] as u16) | ((self.data[p + 1] as u16) << 8u16);
        self.position = p + 2;
        Ok(v)
    }

    /// The little-endian `u32` at the current offset, advancing past it.
    pub fn read_u32(&mut self) -> (r: Result<u32, OpeningBookError>)
        ensures
            final(self).bytes() == old(self).bytes(),
            old(self).offset() + 4 <= old(self).bytes().len() ==> (r matches Ok(v) && v == u32_at(
                old(self).bytes(),
                old(self).offset(),
            ) && final(self).offset() == old(self).offset() + 4),
            old(self).offset() + 4 > old(self).bytes().len() ==> (r matches Err(e) && reports(
                ReadFailure::EndOfData,
                e,
            )),
    {
        proof {
            use_type_invariant(&*self);
        }
        if self.data.len() - self.position < 4 {
            return Err(Self::end_of_data());
        }
        let p = self.position;
        let v = (self.data[p] as u32) | ((self.data[p + 1] as u32) << 8u32) | ((self.data[p
            + 2] as u32) << 16u32) | ((self.data[p + 3] as u32) << 24u32);
        self.position = p + 4;
        Ok(v)
    }

    pub fn read_u64(&mut self) -> (r: Result<u64, OpeningBookError>)
        ensures
            final(self).bytes() == old(self).bytes(),
            old(self).offset() + 8 <= old(self).bytes().len() ==> (r matches Ok(v) && v == u64_at(
                old(self).bytes(),
                old(self).offset(),
            ) && final(self).offset() == old(self).offset() + 8),
            old(self).offset() + 8 > old(self).bytes().len() ==> (r matches Err(e) && reports(
                ReadFailure::EndOfData,
                e,
            )),
    {
        proof {
            use_type_invariant(&*self);
        }
        if self.data.len() - self.position < 8 {
            return Err(Self::end_of_data());
        }
        let lo = match self.read_u32() {
            Ok(v) => v,
            Err(e) => {
                return Err(e);
            },
        };
        let hi = match self.read_u32() {
            Ok(v) => v,
            Err(e) => {
                return Err(e);
            },
        };
        Ok((lo as u64) | ((hi as u64) << 32u64))
    }

    fn read_i32(&mut self) -> (r: Result<i32, OpeningBookError>)
        ensures
            final(self).bytes() == old(self).bytes(),
            old(self).offset() + 4 <= old(self).bytes().len() ==> (r matches Ok(v) && v == u32_at(
                old(self).bytes(),
                old(self).offset(),
            ) as i32 && final(self).offset() == old(self).offset() + 4),
            old(self).offset() + 4 > old(self).bytes().len() ==> (r matches Err(e) && reports(
                ReadFailure::EndOfData,
                e,
            )),
    {
        match self.read_u32() {
            Ok(v) => Ok(v as i32),
            Err(e) => Err(e),
        }
    }

    fn read_bytes(&mut self, len: usize) -> (r: Result<Vec<u8>, OpeningBookError>)
        ensures
            final(self).bytes() == old(self).bytes(),
            old(self).offset() + len <= old(self).bytes().len() ==> (r matches Ok(v) && v@ == old(self).bytes().subrange(old(self).offset(), old(self).offset() + len) && final(self).offset()
                == old(self).offset() + len),
            old(self).offset() + len > old(self).bytes().len() ==> (r matches Err(e) && reports(
                ReadFailure::EndOfData,
                e,
            )),
    {
        proof {
            use_type_invariant(&*self);
        }
        if len > self.data.len() - self.position {
            return Err(Self::end_of_data());
        }
        let start = self.position;
        let n = self.data.len();
        let mut out: Vec<u8> = Vec::new();
        let mut i: usize = 0;
        while i < len
            invariant
                n == self.data@.len(),
                start + len <= n,
                i <= len,
                out@ == self.data@.subrange(start as int, start + i),
            decreases len - i,
        {
            out.push(self.data[start + i]);
            assert(self.data@.subrange(start as int, start + i + 1) == self.data@.subrange(
                start as int,
                start + i,
            ).push(self.data@[start + i]));
            i = i + 1;
        }
        self.position = start + len;
        Ok(out)
    }

    fn read_utf8(&mut self, len: usize, bad: ReadFailure) -> (r: Result<String, OpeningBookError>)
        requires
            bad != ReadFailure::EndOfData,
        ensures
            final(self).bytes() == old(self).bytes(),
            ({
                let d = old(self).bytes();
                let p = old(self).offset();
                if p + len > d.len() {
                    r matches Err(e) && reports(ReadFailure::EndOfData, e)
                } else if valid_utf8(d.subrange(p, p + len)) {
                    r matches Ok(s) && s@ == decode_utf8(d.subrange(p, p + len)) && final(self).offset() == p + len
                } else {
                    r matches Err(e) && reports(bad, e)
                }
            }),
    {
        let bytes = match self.read_bytes(len) {
            Ok(b) => b,
            Err(e) => {
                return Err(e);
            },
        };
        match string_from_utf8(bytes) {
            Ok(s) => Ok(s),
            Err(msg) => {
                let mut text: Vec<char> = Vec::new();
                match bad {
                    ReadFailure::InvalidFen => push_str(&mut text, "Invalid UTF-8 in FEN: "),
                    ReadFailure::InvalidOpeningName => push_str(
                        &mut text,
                        "Invalid UTF-8 in opening name: ",
                    ),
                    _ => push_str(&mut text, "Invalid UTF-8 in move notation: "),
                }
                let ghost prefix = text@;
                assert(prefix == utf8_error_prefix(bad));
                push_str(&mut text, msg.as_str());
                assert(text@.subrange(0, prefix.len() as int) =~= prefix);
                Err(OpeningBookError::BinaryFormatError(chars_to_string(&text)))
            },
        }
    }

    fn read_text_field(&mut self, bad: ReadFailure) -> (r: Result<
        Option<String>,
        OpeningBookError,
    >)
        requires
            bad != ReadFailure::EndOfData,
        ensures
            final(self).bytes() == old(self).bytes(),
            match read_text(old(self).bytes(), old(self).offset(), bad) {
                Ok((t, q)) => r matches Ok(v) && crate::opening_book::opt_text(v) == t && final(self).offset() == q,
                Err(f) => r matches Err(e) && reports(f, e),
            },
    {
        proof {
            use_type_invariant(&*self);
        }
        let n = match self.read_u32() {
            Ok(v) => v,
            Err(e) => {
                return Err(e);
            },
        };
        if n == 0 {
            return Ok(None);
        }
        match self.read_utf8(n as usize, bad) {
            Ok(s) => Ok(Some(s)),
            Err(e) => Err(e),
        }
    }

    /// The book move recorded at the current offset, advancing past it.
    pub fn read_book_move(&mut self) -> (r: Result<BookMove, OpeningBookError>)
        ensures
            final(self).bytes() == old(self).bytes(),
            match read_move(old(self).bytes(), old(self).offset()) {
                Ok((m, q)) => r matches Ok(b) && b@ == m && final(self).offset() == q,
                Err(f) => r matches Err(e) && reports(f, e),
            },
    {
        proof {
            use_type_invariant(&*self);
        }
        let ghost d = self.bytes();
        let ghost p = self.offset();
        let from_code = match self.read_u16() {
            Ok(v) => v,
            Err(e) => {
                return Err(e);
            },
        };
        let to_code = match self.read_u16() {
            Ok(v) => v,
            Err(e) => {
                return Err(e);
            },
        };
        let piece_byte = match self.read_u8() {
            Ok(v) => v,
            Err(e) => {
                return Err(e);
            },
        };
        let flags = match self.read_u8() {
            Ok(v) => v,
            Err(e) => {
                return Err(e);
            },
        };
        let weight = match self.read_u32() {
            Ok(v) => v,
            Err(e) => {
                return Err(e);
            },
        };
        let evaluation = match self.read_i32() {
            Ok(v) => v,
            Err(e) => {
                return Err(e);
            },
        };
        let opening_name = match self.read_text_field(ReadFailure::InvalidOpeningName) {
            Ok(v) => v,
            Err(e) => {
                return Err(e);
            },
        };
        let move_notation = match self.read_text_field(ReadFailure::InvalidMoveNotation) {
            Ok(v) => v,
            Err(e) => {
                return Err(e);
            },
        };
        let from = if from_code == 0xffffu16 {
            None
        } else {
            Some(Position::new((from_code >> 8u16) as u8, (from_code & 0xff) as u8))
        };
        let to = Position::new((to_code >> 8u16) as u8, (to_code & 0xff) as u8);
        Ok(
            BookMove {
                from,
                to,
                piece_type: PieceType::from_u8(piece_byte),
                is_drop: flags & 1u8 != 0u8,
                is_promotion: flags & 2u8 != 0u8,
                weight,
                evaluation,
                opening_name,
                move_notation,
            },
        )
    }

    /// The header of a streaming chunk at the current offset, advancing past it.
    pub fn read_chunk_header(&mut self) -> (r: Result<ChunkHeader, OpeningBookError>)
        ensures
            final(self).bytes() == old(self).bytes(),
            ({
                let d = old(self).bytes();
                let p = old(self).offset();
                if p + 16 > d.len() {
                    r matches Err(e) && reports(ReadFailure::EndOfData, e)
                } else {
                    r matches Ok(h) && h == (ChunkHeader {
                        position_count: u32_at(d, p) as usize,
                        chunk_offset: u64_at(d, p + 4),
                        chunk_size: u32_at(d, p + 12) as usize,
                    }) && final(self).offset() == p + 16
                }
            }),
    {
        let position_count = match self.read_u32() {
            Ok(v) => v,
            Err(e) => {
                return Err(e);
            },
        };
        let chunk_offset = match self.read_u64() {
            Ok(v) => v,
            Err(e) => {
                return Err(e);
            },
        };
        let chunk_size = match self.read_u32() {
            Ok(v) => v,
            Err(e) => {
                return Err(e);
            },
        };
        Ok(
            ChunkHeader {
                position_count: position_count as usize,
                chunk_offset,
                chunk_size: chunk_size as usize,
            },
        )
    }

    /// The position entry at the current offset: its FEN and its book moves.
    pub fn read_position_entry(&mut self) -> (r: Result<(String, Vec<BookMove>), OpeningBookError>)
        ensures
            final(self).bytes() == old(self).bytes(),
            match read_entry(old(self).bytes(), old(self).offset()) {
                Ok((fen, ms, q)) => r matches Ok((f, v)) && f@ == fen && move_views(v@) == ms
                    && final(self).offset() == q,
                Err(fail) => r matches Err(e) && reports(fail, e),
            },
    {
        let ghost p0 = self.offset();
        let fen_len = match self.read_u32() {
            Ok(v) => v,
            Err(e) => {
                return Err(e);
            },
        };
        let fen = match self.read_utf8(fen_len as usize, ReadFailure::InvalidFen) {
            Ok(s) => s,
            Err(e) => {
                return Err(e);
            },
        };
        let ghost d = self.bytes();
        let ghost start = self.offset() + 4;
        let move_count = match self.read_u32() {
            Ok(v) => v,
            Err(e) => {
                return Err(e);
            },
        };
        let mut moves: Vec<BookMove> = Vec::new();
        assert(move_views(moves@) =~= Seq::<BookMoveView>::empty());
        let mut i: u32 = 0;
        while i < move_count
            invariant
                self.bytes() == d,
                d == old(self).bytes(),
                p0 == old(self).offset(),
                read_entry(d, p0) == match read_moves(d, start, move_count as nat) {
                    Err(f) => Err(f),
                    Ok((ms, e)) => Ok((fen@, ms, e)),
                },
                i <= move_count,
                read_moves(d, start, i as nat) == Ok::<(Seq<BookMoveView>, int), ReadFailure>(
                    (move_views(moves@), self.offset()),
                ),
            decreases move_count - i,
        {
            let ghost before = moves@;
            match self.read_book_move() {
                Ok(m) => {
                    moves.push(m);
                    assert(move_views(moves@) =~= move_views(before).push(m@));
                },
                Err(e) => {
                    proof {
                        lemma_read_moves_failure_persists(d, start, (i + 1) as nat, move_count as nat);
                    }
                    return Err(e);
                },
            }
            i = i + 1;
        }
        Ok((fen, moves))
    }
}

/// Once reading the first `k` moves fails, reading more moves fails the same way.
proof fn lemma_read_moves_failure_persists(d: Seq<u8>, p: int, k: nat, n: nat)
    requires
        k <= n,
        read_moves(d, p, k) is Err,
    ensures
        read_moves(d, p, n) == read_moves(d, p, k),
    decreases n - k,
{
    if k < n {
        lemma_read_moves_failure_persists(d, p, k, (n - 1) as nat);
    }
}

// ----- reading back what was written -----

proof fn lemma_square_code(q: Position)
    ensures
        square_of_code(square_code(Some(q))) == q,
        square_code(Some(q)) == 0xffffu16 <==> (q.row == 255 && q.col == 255),
{
    let r = q.row;
    let c = q.col;
    assert(((((r as u16) << 8u16) | (c as u16)) >> 8u16) as u8 == r) by (bit_vector);
    assert(((((r as u16) << 8u16) | (c as u16)) & 0xff) as u8 == c) by (bit_vector);
    assert((((r as u16) << 8u16) | (c as u16)) == 0xffffu16 <==> (r == 255 && c == 255))
        by (bit_vector);
}

proof fn lemma_flag_byte(a: bool, b: bool)
    ensures
        (flag_byte(a, b) & 1u8 != 0u8) == a,
        (flag_byte(a, b) & 2u8 != 0u8) == b,
{
    assert(3u8 & 1u8 != 0u8 && 3u8 & 2u8 != 0u8) by (bit_vector);
    assert(1u8 & 1u8 != 0u8 && 1u8 & 2u8 == 0u8) by (bit_vector);
    assert(2u8 & 1u8 == 0u8 && 2u8 & 2u8 != 0u8) by (bit_vector);
    assert(0u8 & 1u8 == 0u8 && 0u8 & 2u8 == 0u8) by (bit_vector);
}

proof fn lemma_i32_through_u32(e: i32)
    ensures
        (e as u32) as i32 == e,
{
    assert((e as u32) as i32 == e) by (bit_vector);
}

proof fn lemma_encode_nonempty(s: Seq<char>)
    requires
        s.len() > 0,
    ensures
        encode_utf8(s).len() > 0,
{
    assert(encode_scalar(s[0] as u32).len() >= 1);
}

/// `d` holds `b` from offset `p` on.
pub open spec fn holds_at(d: Seq<u8>, p: int, b: Seq<u8>) -> bool {
    0 <= p && p + b.len() <= d.len() && d.subrange(p, p + b.len()) == b
}

pub(crate) proof fn lemma_holds_split(d: Seq<u8>, p: int, a: Seq<u8>, b: Seq<u8>)
    requires
        holds_at(d, p, a + b),
    ensures
        holds_at(d, p, a),
        holds_at(d, p + a.len(), b),
{
    let whole = d.subrange(p, p + (a + b).len());
    assert(d.subrange(p, p + a.len()) =~= whole.subrange(0, a.len() as int));
    assert(whole.subrange(0, a.len() as int) =~= a);
    assert(d.subrange(p + a.len(), p + a.len() + b.len()) =~= whole.subrange(
        a.len() as int,
        (a + b).len() as int,
    ));
    assert(whole.subrange(a.len() as int, (a + b).len() as int) =~= b);
}

pub(crate) proof fn lemma_holds_between(pre: Seq<u8>, b: Seq<u8>, post: Seq<u8>)
    ensures
        holds_at(pre + b + post, pre.len() as int, b),
{
    assert((pre + b + post).subrange(pre.len() as int, (pre.len() + b.len()) as int) =~= b);
}

proof fn lemma_read_text_field(d: Seq<u8>, p: int, t: Option<Seq<char>>, bad: ReadFailure)
    requires
        holds_at(d, p, text_field(t)),
        t matches Some(s) ==> s.len() > 0 && encode_utf8(s).len() <= u32::MAX,
    ensures
        read_text(d, p, bad) == Ok::<(Option<Seq<char>>, int), ReadFailure>(
            (t, p + text_field(t).len()),
        ),
{
    match t {
        Some(s) => {
            let b = encode_utf8(s);
            let n = b.len() as u32;
            lemma_encode_nonempty(s);
            lemma_holds_split(d, p, le32(n), b);
            lemma_u32_at(d, p, n);
            assert(d.subrange(p + 4, p + 4 + n) == b);
        },
        None => {
            lemma_u32_at(d, p, 0);
        },
    }
}

proof fn lemma_record_fields(d: Seq<u8>, p: int, m: BookMoveView)
    requires
        holds_at(d, p, book_move_bytes(m)),
    ensures
        p + 14 <= d.len(),
        u16_at(d, p) == square_code(m.from),
        u16_at(d, p + 2) == square_code(Some(m.to)),
        d[p + 4] == piece_index(m.piece_type) as u8,
        d[p + 5] == flag_byte(m.is_drop, m.is_promotion),
        u32_at(d, p + 6) == m.weight,
        u32_at(d, p + 10) == m.evaluation as u32,
        holds_at(d, p + 14, text_field(m.opening_name)),
        holds_at(d, p + 14 + text_field(m.opening_name).len(), text_field(m.move_notation)),
        book_move_bytes(m).len() == 14 + text_field(m.opening_name).len() + text_field(
            m.move_notation,
        ).len(),
{
    let fc = square_code(m.from);
    let tc = square_code(Some(m.to));
    let mid = seq![piece_index(m.piece_type) as u8, flag_byte(m.is_drop, m.is_promotion)];
    let name = text_field(m.opening_name);
    let notation = text_field(m.move_notation);
    let s1 = le16(fc) + le16(tc) + mid + le32(m.weight) + le32(m.evaluation as u32);
    assert(book_move_bytes(m) == s1 + name + notation);
    lemma_holds_split(d, p, s1 + name, notation);
    lemma_holds_split(d, p, s1, name);
    lemma_holds_split(d, p, le16(fc) + le16(tc) + mid + le32(m.weight), le32(m.evaluation as u32));
    lemma_holds_split(d, p, le16(fc) + le16(tc) + mid, le32(m.weight));
    lemma_holds_split(d, p, le16(fc) + le16(tc), mid);
    lemma_holds_split(d, p, le16(fc), le16(tc));
    lemma_u16_at(d, p, fc);
    lemma_u16_at(d, p + 2, tc);
    lemma_u32_at(d, p + 6, m.weight);
    lemma_u32_at(d, p + 10, m.evaluation as u32);
    assert(d[p + 4] == d.subrange(p + 4, p + 6)[0]);
    assert(d[p + 5] == d.subrange(p + 4, p + 6)[1]);
}

/// Writing a book move and reading it back at the same offset gives the same move,
/// whatever surrounds the record, provided its source square is not (255, 255) (the code of
/// "no square") and its texts are either absent or non-empty (an empty text reads back as
/// absent).
pub proof fn law_book_move_round_trip(pre: Seq<u8>, m: BookMoveView, post: Seq<u8>)
    requires
        !(m.from matches Some(f) && f.row == 255 && f.col == 255),
        m.opening_name matches Some(s) ==> s.len() > 0 && encode_utf8(s).len() <= u32::MAX,
        m.move_notation matches Some(s) ==> s.len() > 0 && encode_utf8(s).len() <= u32::MAX,
    ensures
        read_move(pre + book_move_bytes(m) + post, pre.len() as int) == Ok::<
            (BookMoveView, int),
            ReadFailure,
        >((m, (pre.len() + book_move_bytes(m).len()) as int)),
{
    let d = pre + book_move_bytes(m) + post;
    let p = pre.len() as int;
    lemma_holds_between(pre, book_move_bytes(m), post);
    lemma_record_fields(d, p, m);
    let name = text_field(m.opening_name);
    lemma_read_text_field(d, p + 14, m.opening_name, ReadFailure::InvalidOpeningName);
    lemma_read_text_field(d, p + 14 + name.len(), m.move_notation, ReadFailure::InvalidMoveNotation);
    lemma_square_code(m.to);
    match m.from {
        Some(f) => lemma_square_code(f),
        None => {},
    }
    lemma_flag_byte(m.is_drop, m.is_promotion);
    lemma_i32_through_u32(m.evaluation);
    assert(piece_from_index((piece_index(m.piece_type) as u8) as int) == m.piece_type);
}

} // verus!
