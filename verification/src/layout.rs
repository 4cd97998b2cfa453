//! The layout of a creation record written out as bytes, and what the
//! decoder does with it.

use vstd::prelude::*;
use vstd::utf8::{
    decode_utf8_encode_utf8, encode_utf8, encode_utf8_decode_utf8, encode_utf8_valid_utf8,
};
use crate::error::{DecodeError, Field};
use crate::wire::{
    body_offset, decoded_record, le_u32, record_at, text_at, RecordModel, KEY_BYTES, PREFIX_BYTES,
};

verus! {

/// The four bytes that stand for `n` as an unsigned little-endian integer.
pub open spec fn le_bytes(n: int) -> Seq<u8>
    recommends
        0 <= n <= u32::MAX,
{
    seq![
        (n % 0x100) as u8,
        (n / 0x100 % 0x100) as u8,
        (n / 0x1_0000 % 0x100) as u8,
        (n / 0x100_0000 % 0x100) as u8,
    ]
}

/// A text as a record holds it: the length of its UTF-8 form, then that
/// form.
pub open spec fn text_layout(text: Seq<char>) -> Seq<u8> {
    le_bytes(encode_utf8(text).len() as int) + encode_utf8(text)
}

/// A record as a payload holds it.
pub open spec fn record_layout(record: RecordModel) -> Seq<u8> {
    text_layout(record.name) + text_layout(record.symbol) + text_layout(record.uri) + record.mint
        + record.bonding_curve + record.user
}

/// The length of the text's UTF-8 form fits in four bytes.
pub open spec fn fits(text: Seq<char>) -> bool {
    encode_utf8(text).len() <= u32::MAX
}

/// The record can be laid out: its texts fit, and its keys have 32 bytes.
pub open spec fn encodable(record: RecordModel) -> bool {
    &&& fits(record.name)
    &&& fits(record.symbol)
    &&& fits(record.uri)
    &&& record.mint.len() == KEY_BYTES
    &&& record.bonding_curve.len() == KEY_BYTES
    &&& record.user.len() == KEY_BYTES
}

/// Reading back the four bytes of a length gives the length.
pub proof fn lemma_le_u32_of_le_bytes(n: int)
    requires
        0 <= n <= u32::MAX,
    ensures
        le_bytes(n).len() == 4,
        le_u32(le_bytes(n)) == n,
{
}

/// Four bytes are the little-endian form of the integer they are read as.
pub proof fn lemma_le_bytes_of_le_u32(b: Seq<u8>)
    requires
        b.len() == 4,
    ensures
        0 <= le_u32(b) <= u32::MAX,
        le_bytes(le_u32(b)) == b,
{
    let n = le_u32(b);
    let b0 = b[0] as int;
    let b1 = b[1] as int;
    let b2 = b[2] as int;
    let b3 = b[3] as int;
    assert(n == b0 + 0x100 * (b1 + 0x100 * b2 + 0x1_0000 * b3));
    assert(n % 0x100 == b0 && n / 0x100 == b1 + 0x100 * b2 + 0x1_0000 * b3);
    assert(n == (b0 + 0x100 * b1) + 0x1_0000 * (b2 + 0x100 * b3));
    assert(n / 0x1_0000 == b2 + 0x100 * b3);
    assert(n == (b0 + 0x100 * b1 + 0x1_0000 * b2) + 0x100_0000 * b3);
    assert(n / 0x100_0000 == b3);
    assert(le_bytes(n) =~= b);
}

/// A text that is laid out at `at` is read back, whatever follows it.
pub proof fn lemma_text_at_reads_layout(bytes: Seq<u8>, at: int, text: Seq<char>, field: Field)
    requires
        0 <= at,
        fits(text),
        at + text_layout(text).len() <= bytes.len(),
        bytes.subrange(at, at + text_layout(text).len()) == text_layout(text),
    ensures
        text_at(bytes, at, field) == Ok::<(Seq<char>, int), DecodeError>(
            (text, at + text_layout(text).len()),
        ),
{
    let content = encode_utf8(text);
    let len = content.len() as int;
    let laid = text_layout(text);
    lemma_le_u32_of_le_bytes(len);
    assert(bytes.subrange(at, at + 4) =~= laid.subrange(0, 4));
    assert(laid.subrange(0, 4) =~= le_bytes(len));
    assert(bytes.subrange(at + 4, at + 4 + len) =~= laid.subrange(4, 4 + len));
    assert(laid.subrange(4, 4 + len) =~= content);
    encode_utf8_valid_utf8(text);
    encode_utf8_decode_utf8(text);
}

/// Decoding inverts the layout: a buffer that holds a discriminant of eight
/// bytes, a record laid out, and anything behind it, decodes to that
/// record.
pub proof fn lemma_decode_inverts_layout(prefix: Seq<u8>, record: RecordModel, rest: Seq<u8>)
    requires
        prefix.len() == PREFIX_BYTES,
        encodable(record),
    ensures
        decoded_record(prefix + record_layout(record) + rest) == Ok::<RecordModel, DecodeError>(
            record,
        ),
{
    let bytes = prefix + record_layout(record) + rest;
    let name = text_layout(record.name);
    let symbol = text_layout(record.symbol);
    let uri = text_layout(record.uri);
    let at0 = PREFIX_BYTES as int;
    let at1 = at0 + name.len();
    let at2 = at1 + symbol.len();
    let at3 = at2 + uri.len();
    lemma_le_u32_of_le_bytes(encode_utf8(record.name).len() as int);
    assert(body_offset(bytes) == at0);
    assert(bytes.subrange(at0, at1) =~= name);
    assert(bytes.subrange(at1, at2) =~= symbol);
    assert(bytes.subrange(at2, at3) =~= uri);
    lemma_text_at_reads_layout(bytes, at0, record.name, Field::Name);
    lemma_text_at_reads_layout(bytes, at1, record.symbol, Field::Symbol);
    lemma_text_at_reads_layout(bytes, at2, record.uri, Field::Uri);
    assert(bytes.subrange(at3, at3 + KEY_BYTES) =~= record.mint);
    assert(bytes.subrange(at3 + KEY_BYTES, at3 + 2 * KEY_BYTES) =~= record.bonding_curve);
    assert(bytes.subrange(at3 + 2 * KEY_BYTES, at3 + 3 * KEY_BYTES) =~= record.user);
}

/// The layout is injective: two records that are laid out as the same
/// bytes are the same record.
pub proof fn lemma_layout_injective(a: RecordModel, b: RecordModel)
    requires
        encodable(a),
        encodable(b),
        record_layout(a) == record_layout(b),
    ensures
        a == b,
{
    let prefix = Seq::new(PREFIX_BYTES as nat, |i: int| 0u8);
    lemma_decode_inverts_layout(prefix, a, Seq::empty());
    lemma_decode_inverts_layout(prefix, b, Seq::empty());
}

/// A text that is read at `at` is laid out there.
pub proof fn lemma_text_read_is_laid_out(bytes: Seq<u8>, at: int, field: Field)
    requires
        0 <= at,
        text_at(bytes, at, field) is Ok,
    ensures
        ({
            let (text, next) = text_at(bytes, at, field)->Ok_0;
            &&& fits(text)
            &&& next == at + text_layout(text).len()
            &&& next <= bytes.len()
            &&& bytes.subrange(at, next) == text_layout(text)
        }),
{
    let (text, next) = text_at(bytes, at, field)->Ok_0;
    let head = bytes.subrange(at, at + 4);
    let len = le_u32(head);
    let content = bytes.subrange(at + 4, at + 4 + len);
    lemma_le_bytes_of_le_u32(head);
    decode_utf8_encode_utf8(content);
    assert(bytes.subrange(at, next) =~= head + content);
}

/// What the decoder accepts is a record laid out: a buffer that decodes to
/// a record holds the layout of that record where the record starts.
pub proof fn lemma_decoded_is_laid_out(bytes: Seq<u8>)
    requires
        decoded_record(bytes) is Ok,
    ensures
        ({
            let record = decoded_record(bytes)->Ok_0;
            let start = body_offset(bytes);
            &&& encodable(record)
            &&& start + record_layout(record).len() <= bytes.len()
            &&& bytes.subrange(start, start + record_layout(record).len()) == record_layout(
                record,
            )
        }),
{
    let record = decoded_record(bytes)->Ok_0;
    let at0 = body_offset(bytes);
    lemma_text_read_is_laid_out(bytes, at0, Field::Name);
    let at1 = text_at(bytes, at0, Field::Name)->Ok_0.1;
    lemma_text_read_is_laid_out(bytes, at1, Field::Symbol);
    let at2 = text_at(bytes, at1, Field::Symbol)->Ok_0.1;
    lemma_text_read_is_laid_out(bytes, at2, Field::Uri);
    let at3 = text_at(bytes, at2, Field::Uri)->Ok_0.1;
    assert(bytes.subrange(at0, at3 + 3 * KEY_BYTES) =~= bytes.subrange(at0, at1) + bytes.subrange(
        at1,
        at2,
    ) + bytes.subrange(at2, at3) + record.mint + record.bonding_curve + record.user);
}

/// The field of a laid-out record in which offset `k` of the buffer lies,
/// the discriminant counted in.
pub open spec fn field_at(record: RecordModel, k: int) -> Field {
    let name_end = PREFIX_BYTES + text_layout(record.name).len();
    let symbol_end = name_end + text_layout(record.symbol).len();
    let uri_end = symbol_end + text_layout(record.uri).len();
    if k < name_end {
        Field::Name
    } else if k < symbol_end {
        Field::Symbol
    } else if k < uri_end {
        Field::Uri
    } else {
        Field::Keys
    }
}

/// A text is read from the first `k` bytes of a buffer as from the whole
/// buffer if it ends within them, and is truncated if it does not.
pub proof fn lemma_text_at_of_prefix(bytes: Seq<u8>, at: int, field: Field, k: int)
    requires
        0 <= at,
        0 <= k <= bytes.len(),
        text_at(bytes, at, field) is Ok,
    ensures
        text_at(bytes.take(k), at, field) == if k >= text_at(bytes, at, field)->Ok_0.1 {
            text_at(bytes, at, field)
        } else {
            Err(DecodeError::Truncated { field })
        },
{
    let next = text_at(bytes, at, field)->Ok_0.1;
    let cut = bytes.take(k);
    if k >= at + 4 {
        assert(cut.subrange(at, at + 4) =~= bytes.subrange(at, at + 4));
        if k >= next {
            assert(cut.subrange(at + 4, next) =~= bytes.subrange(at + 4, next));
        }
    }
}

/// A laid-out record that is cut short is refused as truncated, with the
/// field in which the cut lies: for every length `k` over eight and under
/// the length of the whole buffer.
pub proof fn lemma_truncation_names_field(prefix: Seq<u8>, record: RecordModel, k: int)
    requires
        prefix.len() == PREFIX_BYTES,
        encodable(record),
        PREFIX_BYTES < k < (prefix + record_layout(record)).len(),
    ensures
        decoded_record((prefix + record_layout(record)).take(k)) == Err::<
            RecordModel,
            DecodeError,
        >(DecodeError::Truncated { field: field_at(record, k) }),
{
    let bytes = prefix + record_layout(record);
    let cut = bytes.take(k);
    let at0 = PREFIX_BYTES as int;
    let at1 = at0 + text_layout(record.name).len();
    let at2 = at1 + text_layout(record.symbol).len();
    let at3 = at2 + text_layout(record.uri).len();
    lemma_decode_inverts_layout(prefix, record, Seq::empty());
    assert(bytes + Seq::<u8>::empty() =~= bytes);
    lemma_text_read_is_laid_out(bytes, at0, Field::Name);
    lemma_text_at_of_prefix(bytes, at0, Field::Name, k);
    lemma_text_read_is_laid_out(bytes, at1, Field::Symbol);
    lemma_text_at_of_prefix(bytes, at1, Field::Symbol, k);
    lemma_text_read_is_laid_out(bytes, at2, Field::Uri);
    lemma_text_at_of_prefix(bytes, at2, Field::Uri, k);
}

/// A buffer of at most eight bytes is read from its front: no discriminant
/// is skipped. It holds no record, and the error names the field at which
/// it ends.
pub proof fn lemma_short_buffer_read_from_front(bytes: Seq<u8>)
    requires
        bytes.len() <= PREFIX_BYTES,
    ensures
        decoded_record(bytes) == record_at(bytes, 0),
        decoded_record(bytes) is Err,
{
}

} // verus!
