//! The decoder of header compression. It reads every representation of a
//! header field that the format defines, strings as they are and strings in
//! Huffman coding, and keeps its dynamic table in step with the encoder's.

use crate::hpack::dynamic_table::{
    spec_entries_size, spec_evict, spec_table_add, DynamicTable, DynamicTableView,
};
use crate::hpack::dynamic_table::lemma_evict_size;
use crate::hpack::encoder::{
    lemma_size_bounds_len, spec_combined, spec_encode_block, spec_encode_header,
    spec_encode_headers, spec_encoder_after_block, spec_encoder_resized, spec_find, spec_find_from,
    spec_table_after_header, spec_table_after_headers, EncoderView,
};
use crate::hpack::huffman::{huffman_decode, spec_huffman_decode};
use crate::hpack::integer::{spec_encode_int, spec_encode_int_rest, spec_encode_string};
use crate::hpack::static_table::static_entry;
use crate::solicit::header::{copy_bytes, Header, Headers};
use vstd::prelude::*;

verus! {

/// Why a header block cannot be decoded.
#[derive(Clone, Copy, Debug, PartialEq, Eq, Structural)]
pub enum DecoderError {
    /// The block ends in the middle of an integer or a string.
    NotEnoughOctets,
    /// An integer does not fit 64 bits.
    IntegerOverflow,
    /// An index is 0 or lies behind the end of the tables.
    HeaderIndexOutOfBounds,
    /// A string is marked as Huffman coded, and its bytes are the coding of
    /// no string.
    InvalidHuffmanCode,
    /// A change of the dynamic table's limit asks for more than is allowed.
    InvalidMaxDynamicSize,
}

/// The continuation of an integer, read from the front of `buf`: seven bits
/// per byte, lowest first, until a byte without the top bit. `acc` is what
/// was read before and `mult` the weight of the next seven bits. The result
/// is the number and what is left of `buf`.
pub open spec fn spec_decode_int_rest(buf: Seq<u8>, acc: nat, mult: nat) -> Result<
    (nat, Seq<u8>),
    DecoderError,
>
    decreases buf.len(),
{
    if buf.len() == 0 {
        Err(DecoderError::NotEnoughOctets)
    } else {
        let v: nat = (acc + (buf[0] % 128) * mult) as nat;
        if v > u64::MAX {
            Err(DecoderError::IntegerOverflow)
        } else if buf[0] < 128 {
            Ok((v, buf.skip(1)))
        } else if mult >= 0x8000_0000_0000_0000 {
            Err(DecoderError::IntegerOverflow)
        } else {
            spec_decode_int_rest(buf.skip(1), v, mult * 128)
        }
    }
}

/// An integer read from the front of `buf`, whose first byte holds it in
/// its low bits up to `max_prefix`.
pub open spec fn spec_decode_int(buf: Seq<u8>, max_prefix: nat) -> Result<
    (nat, Seq<u8>),
    DecoderError,
> {
    if buf.len() == 0 {
        Err(DecoderError::NotEnoughOctets)
    } else {
        let first = (buf[0] as nat) % (max_prefix + 1);
        if first < max_prefix {
            Ok((first, buf.skip(1)))
        } else {
            spec_decode_int_rest(buf.skip(1), max_prefix, 1)
        }
    }
}

/// A string read from the front of `buf`: its length with a 7-bit prefix,
/// then that many bytes. Where the top bit of the first byte is set, the
/// bytes are the Huffman coding of the string.
pub open spec fn spec_decode_string(buf: Seq<u8>) -> Result<(Seq<u8>, Seq<u8>), DecoderError> {
    if buf.len() == 0 {
        Err(DecoderError::NotEnoughOctets)
    } else {
        match spec_decode_int(buf, 127) {
            Err(e) => Err(e),
            Ok((len, rest)) => if len > rest.len() {
                Err(DecoderError::NotEnoughOctets)
            } else if buf[0] >= 128 {
                match spec_huffman_decode(rest.take(len as int)) {
                    Some(s) => Ok((s, rest.skip(len as int))),
                    None => Err(DecoderError::InvalidHuffmanCode),
                }
            } else {
                Ok((rest.take(len as int), rest.skip(len as int)))
            },
        }
    }
}

/// What one representation in a header block gives.
pub ghost struct DecodedField {
    /// The header field, unless the representation only changes the table's
    /// limit.
    pub header: Option<(Seq<u8>, Seq<u8>)>,
    /// The dynamic table afterwards.
    pub table: DynamicTableView,
    /// What is left of the block.
    pub rest: Seq<u8>,
}

/// The name that a literal representation gives: the name at the index, or,
/// for index 0, a string that follows.
pub open spec fn spec_decode_name(index: nat, rest: Seq<u8>, table: DynamicTableView) -> Result<
    (Seq<u8>, Seq<u8>),
    DecoderError,
> {
    if index == 0 {
        spec_decode_string(rest)
    } else if index > spec_combined(table.entries).len() {
        Err(DecoderError::HeaderIndexOutOfBounds)
    } else {
        Ok((spec_combined(table.entries)[index - 1].0, rest))
    }
}

/// A literal representation whose first byte holds the name's index in its
/// low bits up to `max_prefix`.
pub open spec fn spec_decode_literal(buf: Seq<u8>, max_prefix: nat, table: DynamicTableView) -> Result<
    ((Seq<u8>, Seq<u8>), Seq<u8>),
    DecoderError,
> {
    match spec_decode_int(buf, max_prefix) {
        Err(e) => Err(e),
        Ok((index, rest)) => match spec_decode_name(index, rest, table) {
            Err(e) => Err(e),
            Ok((name, rest)) => match spec_decode_string(rest) {
                Err(e) => Err(e),
                Ok((value, rest)) => Ok(((name, value), rest)),
            },
        },
    }
}

/// The representation at the front of `buf`. The first byte says which it
/// is: a field of the tables by index; a literal field that is added to the
/// dynamic table; a change of the dynamic table's limit, which must not ask
/// for more than `max_allowed`; or a literal field that is not added.
pub open spec fn spec_decode_field(buf: Seq<u8>, table: DynamicTableView, max_allowed: nat) -> Result<
    DecodedField,
    DecoderError,
> {
    if buf.len() == 0 {
        Err(DecoderError::NotEnoughOctets)
    } else if buf[0] >= 128 {
        match spec_decode_int(buf, 127) {
            Err(e) => Err(e),
            Ok((index, rest)) => if index == 0 || index > spec_combined(table.entries).len() {
                Err(DecoderError::HeaderIndexOutOfBounds)
            } else {
                Ok(
                    DecodedField {
                        header: Some(spec_combined(table.entries)[index - 1]),
                        table,
                        rest,
                    },
                )
            },
        }
    } else if buf[0] >= 64 {
        match spec_decode_literal(buf, 63, table) {
            Err(e) => Err(e),
            Ok((header, rest)) => Ok(
                DecodedField {
                    header: Some(header),
                    table: DynamicTableView {
                        entries: spec_table_add(table.entries, table.max_size, header),
                        max_size: table.max_size,
                    },
                    rest,
                },
            ),
        }
    } else if buf[0] >= 32 {
        match spec_decode_int(buf, 31) {
            Err(e) => Err(e),
            Ok((size, rest)) => if size > max_allowed {
                Err(DecoderError::InvalidMaxDynamicSize)
            } else {
                Ok(
                    DecodedField {
                        header: None,
                        table: DynamicTableView {
                            entries: spec_evict(table.entries, size as int),
                            max_size: size,
                        },
                        rest,
                    },
                )
            },
        }
    } else {
        match spec_decode_literal(buf, 15, table) {
            Err(e) => Err(e),
            Ok((header, rest)) => Ok(DecodedField { header: Some(header), table, rest }),
        }
    }
}

/// A result with `prefix` put in front of its header list.
pub open spec fn spec_prepend_headers(
    prefix: Seq<(Seq<u8>, Seq<u8>)>,
    r: Result<(Seq<(Seq<u8>, Seq<u8>)>, DynamicTableView), DecoderError>,
) -> Result<(Seq<(Seq<u8>, Seq<u8>)>, DynamicTableView), DecoderError> {
    match r {
        Ok((headers, table)) => Ok((prefix + headers, table)),
        Err(e) => Err(e),
    }
}

/// The header list that a header block spells, and the dynamic table after
/// it.
pub open spec fn spec_decode_headers(buf: Seq<u8>, table: DynamicTableView, max_allowed: nat) -> Result<
    (Seq<(Seq<u8>, Seq<u8>)>, DynamicTableView),
    DecoderError,
>
    decreases buf.len(),
{
    if buf.len() == 0 {
        Ok((Seq::empty(), table))
    } else {
        match spec_decode_field(buf, table, max_allowed) {
            Err(e) => Err(e),
            Ok(field) => {
                proof {
                    lemma_decode_field_shorter(buf, table, max_allowed);
                }
                spec_prepend_headers(
                    match field.header {
                        Some(header) => seq![header],
                        None => Seq::empty(),
                    },
                    spec_decode_headers(field.rest, field.table, max_allowed),
                )
            },
        }
    }
}

/// Whether `mult` is the weight of a group of seven bits in an integer of 64
/// bits.
pub open spec fn spec_is_weight(mult: nat) -> bool {
    mult == 1 || mult == 0x80 || mult == 0x4000 || mult == 0x20_0000 || mult == 0x1000_0000
        || mult == 0x8_0000_0000 || mult == 0x400_0000_0000 || mult == 0x2_0000_0000_0000 || mult
        == 0x100_0000_0000_0000 || mult == 0x8000_0000_0000_0000
}

/// What is left of a buffer after an integer or a string was read from its
/// front is shorter than the buffer was.
pub proof fn lemma_decode_int_rest_shorter(buf: Seq<u8>, acc: nat, mult: nat)
    ensures
        spec_decode_int_rest(buf, acc, mult) matches Ok((v, rest)) ==> rest.len() < buf.len(),
    decreases buf.len(),
{
    if buf.len() > 0 && buf[0] >= 128 {
        lemma_decode_int_rest_shorter(
            buf.skip(1),
            (acc + (buf[0] % 128) * mult) as nat,
            mult * 128,
        );
    }
}

/// Reading a representation takes at least one byte.
pub proof fn lemma_decode_field_shorter(buf: Seq<u8>, table: DynamicTableView, max_allowed: nat)
    ensures
        spec_decode_field(buf, table, max_allowed) matches Ok(field) ==> field.rest.len()
            < buf.len(),
{
    if buf.len() > 0 {
        lemma_decode_int_rest_shorter(buf.skip(1), 127, 1);
        lemma_decode_int_rest_shorter(buf.skip(1), 63, 1);
        lemma_decode_int_rest_shorter(buf.skip(1), 31, 1);
        lemma_decode_int_rest_shorter(buf.skip(1), 15, 1);
        if buf[0] < 128 && (buf[0] >= 64 || buf[0] < 32) {
            let p: nat = if buf[0] >= 64 {
                63
            } else {
                15
            };
            match spec_decode_int(buf, p) {
                Err(_) => {},
                Ok((index, rest)) => {
                    if index == 0 && rest.len() > 0 {
                        lemma_decode_int_rest_shorter(rest.skip(1), 127, 1);
                    }
                    match spec_decode_name(index, rest, table) {
                        Err(_) => {},
                        Ok((name, after_name)) => {
                            if after_name.len() > 0 {
                                lemma_decode_int_rest_shorter(after_name.skip(1), 127, 1);
                            }
                        },
                    }
                },
            }
        }
    }
}

/// The continuation of a number is read back from its bytes: the number is
/// added with its weight to what was read before, and what follows the bytes
/// is left.
pub proof fn lemma_decode_encoded_int_rest(value: nat, tail: Seq<u8>, acc: nat, mult: nat)
    requires
        spec_is_weight(mult),
        acc + value * mult <= u64::MAX,
    ensures
        spec_decode_int_rest(spec_encode_int_rest(value) + tail, acc, mult) == Ok::<
            (nat, Seq<u8>),
            DecoderError,
        >(((acc + value * mult) as nat, tail)),
    decreases value,
{
    let buf = spec_encode_int_rest(value) + tail;
    if value < 128 {
        assert(buf[0] == value as u8);
        assert(buf.skip(1) =~= tail);
    } else {
        let low = value % 128;
        let high = value / 128;
        assert(buf[0] == (low + 128) as u8);
        assert(buf.skip(1) =~= spec_encode_int_rest(high) + tail);
        assert(value * mult == low * mult + high * (mult * 128)) by (nonlinear_arith)
            requires
                low == value % 128,
                high == value / 128,
        ;
        assert(128 * mult <= value * mult) by (nonlinear_arith)
            requires
                value >= 128,
        ;
        assert(high * (mult * 128) >= 0) by (nonlinear_arith);
        assert(low * mult >= 0) by (nonlinear_arith);
        lemma_decode_encoded_int_rest(high, tail, acc + low * mult, mult * 128);
    }
}

/// A number is read back from its bytes with the prefix that it was written
/// with, and what follows the bytes is left.
pub proof fn lemma_decode_encoded_int(value: nat, max_prefix: nat, mask: nat, tail: Seq<u8>)
    requires
        value <= u64::MAX,
        (max_prefix == 127 && (mask == 0x80 || mask == 0)) || (max_prefix == 63 && mask == 0x40)
            || (max_prefix == 31 && mask == 0x20) || (max_prefix == 15 && mask == 0),
    ensures
        spec_decode_int(spec_encode_int(value, max_prefix, mask) + tail, max_prefix) == Ok::<
            (nat, Seq<u8>),
            DecoderError,
        >((value, tail)),
        (spec_encode_int(value, max_prefix, mask) + tail).len() > 0,
        mask <= (spec_encode_int(value, max_prefix, mask) + tail)[0] <= mask + max_prefix,
{
    let buf = spec_encode_int(value, max_prefix, mask) + tail;
    if value < max_prefix {
        assert(buf[0] == (mask + value) as u8);
        assert(buf.skip(1) =~= tail);
        let b0 = buf[0] as nat;
        assert(b0 == mask + value);
        assert(b0 % (max_prefix + 1) == value) by (nonlinear_arith)
            requires
                b0 == mask + value,
                0 <= value < max_prefix,
                (max_prefix == 127 && (mask == 0x80 || mask == 0)) || (max_prefix == 63 && mask
                    == 0x40) || (max_prefix == 31 && mask == 0x20) || (max_prefix == 15 && mask
                    == 0),
        ;
    } else {
        assert(buf[0] == (mask + max_prefix) as u8);
        assert(buf.skip(1) =~= spec_encode_int_rest((value - max_prefix) as nat) + tail);
        let b0 = buf[0] as nat;
        assert(b0 == mask + max_prefix);
        assert(b0 % (max_prefix + 1) == max_prefix) by (nonlinear_arith)
            requires
                b0 == mask + max_prefix,
                (max_prefix == 127 && (mask == 0x80 || mask == 0)) || (max_prefix == 63 && mask
                    == 0x40) || (max_prefix == 31 && mask == 0x20) || (max_prefix == 15 && mask
                    == 0),
        ;
        let more = (value - max_prefix) as nat;
        assert(max_prefix + more * 1 == value) by (nonlinear_arith)
            requires
                more == value - max_prefix,
        ;
        lemma_decode_encoded_int_rest(more, tail, max_prefix, 1);
    }
}

/// A string is read back from its bytes, and what follows the bytes is left.
pub proof fn lemma_decode_encoded_string(s: Seq<u8>, tail: Seq<u8>)
    requires
        s.len() <= u64::MAX,
    ensures
        spec_decode_string(spec_encode_string(s) + tail) == Ok::<(Seq<u8>, Seq<u8>), DecoderError>(
            (s, tail),
        ),
{
    let buf = spec_encode_string(s) + tail;
    assert(buf =~= spec_encode_int(s.len(), 127, 0) + (s + tail));
    lemma_decode_encoded_int(s.len(), 127, 0, s + tail);
    assert((s + tail).take(s.len() as int) =~= s);
    assert((s + tail).skip(s.len() as int) =~= tail);
}

/// Where a field is found in a table, the field stands, or its name does.
pub proof fn lemma_find_from(
    table: Seq<(Seq<u8>, Seq<u8>)>,
    h: (Seq<u8>, Seq<u8>),
    i: int,
    name_match: Option<int>,
)
    requires
        0 <= i,
        name_match matches Some(k) ==> 0 <= k < table.len() && table[k].0 == h.0,
    ensures
        match spec_find_from(table, h, i, name_match) {
            Some((pos, true)) => 0 <= pos < table.len() && table[pos] == h,
            Some((pos, false)) => 0 <= pos < table.len() && table[pos].0 == h.0,
            None => true,
        },
    decreases table.len() - i,
{
    if i < table.len() && table[i] != h {
        if name_match is None && table[i].0 == h.0 {
            lemma_find_from(table, h, i + 1, Some(i));
        } else {
            lemma_find_from(table, h, i + 1, name_match);
        }
    }
}

/// Whether a header field can stand in a header block: its name and its
/// value are no longer than 64 bits can say.
pub open spec fn spec_field_fits(h: (Seq<u8>, Seq<u8>)) -> bool {
    h.0.len() <= u64::MAX && h.1.len() <= u64::MAX
}

/// A field that the encoder wrote as its index is read back.
proof fn lemma_decode_indexed(
    table: DynamicTableView,
    h: (Seq<u8>, Seq<u8>),
    pos: int,
    tail: Seq<u8>,
    max_allowed: nat,
)
    requires
        0 <= pos < spec_combined(table.entries).len() <= u64::MAX,
        spec_combined(table.entries)[pos] == h,
    ensures
        spec_decode_field(spec_encode_int((pos + 1) as nat, 127, 0x80) + tail, table, max_allowed)
            == Ok::<DecodedField, DecoderError>(DecodedField { header: Some(h), table, rest: tail }),
{
    let buf = spec_encode_int((pos + 1) as nat, 127, 0x80) + tail;
    lemma_decode_encoded_int((pos + 1) as nat, 127, 0x80, tail);
    assert(buf[0] >= 128);
    assert(spec_decode_int(buf, 127) == Ok::<(nat, Seq<u8>), DecoderError>(
        ((pos + 1) as nat, tail),
    ));
}

/// A field that the encoder wrote as the index of its name and its value
/// is read back.
proof fn lemma_decode_indexed_name(
    table: DynamicTableView,
    h: (Seq<u8>, Seq<u8>),
    pos: int,
    tail: Seq<u8>,
    max_allowed: nat,
)
    requires
        spec_field_fits(h),
        0 <= pos < spec_combined(table.entries).len() <= u64::MAX,
        spec_combined(table.entries)[pos].0 == h.0,
    ensures
        spec_decode_field(
            spec_encode_int((pos + 1) as nat, 15, 0) + spec_encode_string(h.1) + tail,
            table,
            max_allowed,
        ) == Ok::<DecodedField, DecoderError>(DecodedField { header: Some(h), table, rest: tail }),
{
    let value_bytes = spec_encode_string(h.1) + tail;
    let buf = spec_encode_int((pos + 1) as nat, 15, 0) + spec_encode_string(h.1) + tail;
    assert(buf =~= spec_encode_int((pos + 1) as nat, 15, 0) + value_bytes);
    lemma_decode_encoded_int((pos + 1) as nat, 15, 0, value_bytes);
    lemma_decode_encoded_string(h.1, tail);
    assert(buf[0] < 32);
    assert(spec_decode_int(buf, 15) == Ok::<(nat, Seq<u8>), DecoderError>(
        ((pos + 1) as nat, value_bytes),
    ));
    assert(spec_decode_name((pos + 1) as nat, value_bytes, table) == Ok::<
        (Seq<u8>, Seq<u8>),
        DecoderError,
    >((h.0, value_bytes)));
    assert(spec_decode_literal(buf, 15, table) == Ok::<
        ((Seq<u8>, Seq<u8>), Seq<u8>),
        DecoderError,
    >((h, tail)));
}

/// A field that the encoder wrote in full is read back, and is added to the
/// dynamic table.
proof fn lemma_decode_new_name(
    table: DynamicTableView,
    h: (Seq<u8>, Seq<u8>),
    tail: Seq<u8>,
    max_allowed: nat,
)
    requires
        spec_field_fits(h),
    ensures
        spec_decode_field(
            seq![0x40u8] + spec_encode_string(h.0) + spec_encode_string(h.1) + tail,
            table,
            max_allowed,
        ) == Ok::<DecodedField, DecoderError>(
            DecodedField {
                header: Some(h),
                table: DynamicTableView {
                    entries: spec_table_add(table.entries, table.max_size, h),
                    max_size: table.max_size,
                },
                rest: tail,
            },
        ),
{
    let value_bytes = spec_encode_string(h.1) + tail;
    let name_bytes = spec_encode_string(h.0) + value_bytes;
    let buf = seq![0x40u8] + spec_encode_string(h.0) + spec_encode_string(h.1) + tail;
    assert(buf =~= seq![0x40u8] + name_bytes);
    assert(buf[0] == 0x40);
    assert(buf.skip(1) =~= name_bytes);
    lemma_decode_encoded_string(h.0, value_bytes);
    lemma_decode_encoded_string(h.1, tail);
    assert(buf =~= spec_encode_int(0, 63, 0x40) + name_bytes);
    lemma_decode_encoded_int(0, 63, 0x40, name_bytes);
    assert(spec_decode_int(buf, 63) == Ok::<(nat, Seq<u8>), DecoderError>((0nat, name_bytes)));
    assert(spec_decode_name(0, name_bytes, table) == Ok::<(Seq<u8>, Seq<u8>), DecoderError>(
        (h.0, value_bytes),
    ));
    assert(spec_decode_literal(buf, 63, table) == Ok::<
        ((Seq<u8>, Seq<u8>), Seq<u8>),
        DecoderError,
    >((h, tail)));
}

/// What the encoder writes for one field is read back as that field, and
/// the decoder's dynamic table moves as the encoder's did.
pub proof fn lemma_decode_encoded_header(
    table: DynamicTableView,
    h: (Seq<u8>, Seq<u8>),
    tail: Seq<u8>,
    max_allowed: nat,
)
    requires
        spec_field_fits(h),
        spec_combined(table.entries).len() <= u64::MAX,
    ensures
        spec_decode_field(spec_encode_header(table.entries, h) + tail, table, max_allowed) == Ok::<
            DecodedField,
            DecoderError,
        >(
            DecodedField {
                header: Some(h),
                table: spec_table_after_header(table, h),
                rest: tail,
            },
        ),
        spec_encode_header(table.entries, h).len() > 0,
{
    let combined = spec_combined(table.entries);
    lemma_find_from(combined, h, 0, None);
    match spec_find(table.entries, h) {
        Some((pos, true)) => {
            lemma_decode_indexed(table, h, pos, tail, max_allowed);
        },
        Some((pos, false)) => {
            lemma_decode_indexed_name(table, h, pos, tail, max_allowed);
        },
        None => {
            lemma_decode_new_name(table, h, tail, max_allowed);
        },
    }
}

/// The dynamic table never holds more entries than its limit has room for.
pub open spec fn spec_table_small(table: DynamicTableView) -> bool {
    spec_entries_size(table.entries) <= table.max_size <= usize::MAX
}

/// Adding an entry keeps the table within its limit.
pub proof fn lemma_table_add_small(table: DynamicTableView, h: (Seq<u8>, Seq<u8>))
    requires
        spec_table_small(table),
    ensures
        spec_table_small(spec_table_after_header(table, h)),
{
    if spec_find(table.entries, h) is None {
        if crate::hpack::dynamic_table::spec_entry_size(h) <= table.max_size {
            let budget = table.max_size - crate::hpack::dynamic_table::spec_entry_size(h);
            crate::hpack::dynamic_table::lemma_evict_size(table.entries, budget);
            crate::hpack::dynamic_table::lemma_size_push_front(
                spec_evict(table.entries, budget),
                h,
            );
        } else {
            assert(spec_entries_size(Seq::<(Seq<u8>, Seq<u8>)>::empty()) == 0);
        }
    }
}

/// Encoding then decoding preserves any header list exactly, same-name
/// fields in their order included: the block that the encoder writes for a
/// header list is read back, by a decoder whose dynamic table is as the
/// encoder's was, as that header list, and afterwards the two tables are
/// equal again.
pub proof fn lemma_decode_encoded_headers(
    table: DynamicTableView,
    headers: Seq<(Seq<u8>, Seq<u8>)>,
    max_allowed: nat,
)
    requires
        spec_table_small(table),
        forall|i: int| 0 <= i < headers.len() ==> spec_field_fits(#[trigger] headers[i]),
    ensures
        spec_decode_headers(spec_encode_headers(table, headers), table, max_allowed) == Ok::<
            (Seq<(Seq<u8>, Seq<u8>)>, DynamicTableView),
            DecoderError,
        >((headers, spec_table_after_headers(table, headers))),
    decreases headers.len(),
{
    if headers.len() == 0 {
        assert(spec_encode_headers(table, headers).len() == 0);
        assert(headers =~= Seq::<(Seq<u8>, Seq<u8>)>::empty());
    } else {
        let first = headers[0];
        let rest = headers.skip(1);
        let next = spec_table_after_header(table, first);
        let tail = spec_encode_headers(next, rest);
        let block = spec_encode_headers(table, headers);
        assert(block == spec_encode_header(table.entries, first) + tail);
        lemma_size_bounds_len(table.entries);
        lemma_decode_encoded_header(table, first, tail, max_allowed);
        lemma_table_add_small(table, first);
        assert forall|i: int| 0 <= i < rest.len() implies spec_field_fits(#[trigger] rest[i]) by {
            assert(rest[i] == headers[i + 1]);
        }
        lemma_decode_encoded_headers(next, rest, max_allowed);
        let field = spec_decode_field(block, table, max_allowed)->Ok_0;
        assert(field.rest == tail);
        assert(field.table == next);
        assert(field.header == Some(first));
        assert(block.len() > tail.len());
        assert(seq![first] + rest =~= headers);
        assert(spec_table_after_headers(table, headers) == spec_table_after_headers(next, rest));
    }
}

/// Whether a decoder with the dynamic table `dec` is in step with the
/// encoder: the tables are equal; or, where the encoder's table was given
/// new limits since the last header block, the encoder's entries are the
/// decoder's without the oldest that the smallest of these limits has no
/// room for.
pub open spec fn spec_in_step(enc: EncoderView, dec: DynamicTableView) -> bool {
    match enc.pending {
        None => dec == enc.table,
        Some(least) => least <= enc.table.max_size && enc.table.entries == spec_evict(
            dec.entries,
            least as int,
        ),
    }
}

/// Taking the oldest entries away for one budget and then for another
/// leaves what the smaller budget alone leaves.
pub proof fn lemma_evict_twice(entries: Seq<(Seq<u8>, Seq<u8>)>, a: int, b: int)
    ensures
        spec_evict(spec_evict(entries, a), b) == spec_evict(
            entries,
            if a < b {
                a
            } else {
                b
            },
        ),
    decreases entries.len(),
{
    if entries.len() > 0 && spec_entries_size(entries) > a {
        lemma_evict_twice(entries.drop_last(), a, b);
    }
}

/// A new limit for the encoder's table leaves the decoder in step: the
/// decoder learns of it with the next header block.
pub proof fn lemma_resized_in_step(enc: EncoderView, dec: DynamicTableView, new_max: nat)
    requires
        spec_in_step(enc, dec),
    ensures
        spec_in_step(spec_encoder_resized(enc, new_max), dec),
{
    if enc.pending is Some {
        lemma_evict_twice(dec.entries, enc.pending->Some_0 as int, new_max as int);
    }
}

/// A change of the table's limit is read back from its bytes: the oldest
/// entries leave until the rest fits, and what follows the bytes is left.
pub proof fn lemma_decode_size_update(
    size: nat,
    tail: Seq<u8>,
    table: DynamicTableView,
    max_allowed: nat,
)
    requires
        size <= max_allowed,
        size <= u64::MAX,
    ensures
        spec_decode_field(spec_encode_int(size, 31, 0x20) + tail, table, max_allowed) == Ok::<
            DecodedField,
            DecoderError,
        >(
            DecodedField {
                header: None,
                table: DynamicTableView {
                    entries: spec_evict(table.entries, size as int),
                    max_size: size,
                },
                rest: tail,
            },
        ),
        (spec_encode_int(size, 31, 0x20) + tail).len() > tail.len(),
{
    lemma_decode_encoded_int(size, 31, 0x20, tail);
    lemma_decode_field_shorter(spec_encode_int(size, 31, 0x20) + tail, table, max_allowed);
}

/// Encoding then decoding preserves any header list also where the limit
/// of the encoder's table was changed since the last header block: the
/// block that the encoder writes is read back, by a decoder that is in step
/// with the encoder and allows the encoder's limit, as the header list, and
/// afterwards the decoder's table is the encoder's.
pub proof fn lemma_decode_encoded_block(
    enc: EncoderView,
    dec: DynamicTableView,
    headers: Seq<(Seq<u8>, Seq<u8>)>,
    max_allowed: nat,
)
    requires
        spec_in_step(enc, dec),
        spec_table_small(enc.table),
        enc.table.max_size <= max_allowed,
        forall|i: int| 0 <= i < headers.len() ==> spec_field_fits(#[trigger] headers[i]),
    ensures
        spec_decode_headers(spec_encode_block(enc, headers), dec, max_allowed) == Ok::<
            (Seq<(Seq<u8>, Seq<u8>)>, DynamicTableView),
            DecoderError,
        >((headers, spec_encoder_after_block(enc, headers).table)),
        spec_in_step(
            spec_encoder_after_block(enc, headers),
            spec_encoder_after_block(enc, headers).table,
        ),
{
    let fields = spec_encode_headers(enc.table, headers);
    let none = Seq::<(Seq<u8>, Seq<u8>)>::empty();
    lemma_decode_encoded_headers(enc.table, headers, max_allowed);
    match enc.pending {
        None => {
            assert(spec_encode_block(enc, headers) =~= fields);
        },
        Some(least) => {
            let max = enc.table.max_size;
            let last = spec_encode_int(max, 31, 0x20) + fields;
            let kept = spec_evict(dec.entries, least as int);
            let shrunk = DynamicTableView { entries: kept, max_size: least };
            lemma_evict_size(dec.entries, least as int);
            assert(spec_evict(kept, max as int) == kept);
            if least < max {
                let block = spec_encode_int(least, 31, 0x20) + last;
                assert(spec_encode_block(enc, headers) =~= block);
                lemma_decode_size_update(least, last, dec, max_allowed);
                lemma_decode_size_update(max, fields, shrunk, max_allowed);
                assert(spec_decode_headers(last, shrunk, max_allowed) == spec_prepend_headers(
                    none,
                    spec_decode_headers(fields, enc.table, max_allowed),
                ));
                assert(none + headers =~= headers);
            } else {
                assert(spec_encode_block(enc, headers) =~= last);
                lemma_decode_size_update(max, fields, dec, max_allowed);
                assert(none + headers =~= headers);
            }
        },
    }
}

/// Reads an integer at `pos` whose first byte holds it in its low bits up
/// to `max_prefix`. The result is the number and the position behind it.
pub fn decode_integer(buf: &[u8], pos: usize, max_prefix: u8) -> (r: Result<
    (u64, usize),
    DecoderError,
>)
    requires
        pos <= buf@.len(),
        max_prefix == 127 || max_prefix == 63 || max_prefix == 31 || max_prefix == 15,
    ensures
        match r {
            Ok((value, next)) => pos < next <= buf@.len() && spec_decode_int(
                buf@.skip(pos as int),
                max_prefix as nat,
            ) == Ok::<(nat, Seq<u8>), DecoderError>((value as nat, buf@.skip(next as int))),
            Err(e) => spec_decode_int(buf@.skip(pos as int), max_prefix as nat) == Err::<
                (nat, Seq<u8>),
                DecoderError,
            >(e),
        },
{
    let ghost start = buf@.skip(pos as int);
    if pos >= buf.len() {
        return Err(DecoderError::NotEnoughOctets);
    }
    assert(start[0] == buf@[pos as int]);
    let first: u8 = buf[pos] % (max_prefix + 1);
    assert(start.skip(1) =~= buf@.skip(pos + 1));
    if first < max_prefix {
        return Ok((first as u64, pos + 1));
    }
    let mut acc: u64 = max_prefix as u64;
    let mut mult: u64 = 1;
    let mut p: usize = pos + 1;
    loop
        invariant
            pos < p <= buf@.len(),
            spec_is_weight(mult as nat),
            spec_decode_int(start, max_prefix as nat) == spec_decode_int_rest(
                buf@.skip(p as int),
                acc as nat,
                mult as nat,
            ),
            start == buf@.skip(pos as int),
        decreases buf@.len() - p,
    {
        let ghost rest = buf@.skip(p as int);
        if p >= buf.len() {
            return Err(DecoderError::NotEnoughOctets);
        }
        assert(rest[0] == buf@[p as int]);
        assert(rest.skip(1) =~= buf@.skip(p + 1));
        let b: u8 = buf[p];
        let add: u128 = (b % 128) as u128 * (mult as u128);
        assert(add == (b % 128) * mult) by (nonlinear_arith)
            requires
                add == ((b % 128) as u128 * (mult as u128)) as u128,
                0 <= b % 128 < 128,
                0 <= mult <= 0x8000_0000_0000_0000,
        ;
        let v: u128 = acc as u128 + add;
        if v > u64::MAX as u128 {
            return Err(DecoderError::IntegerOverflow);
        }
        acc = v as u64;
        p = p + 1;
        if b < 128 {
            return Ok((acc, p));
        }
        if mult >= 0x8000_0000_0000_0000 {
            return Err(DecoderError::IntegerOverflow);
        }
        mult = mult * 128;
    }
}

/// Reads a string at `pos`. The result is a copy of the string and the
/// position behind it.
pub fn decode_string(buf: &[u8], pos: usize) -> (r: Result<(Vec<u8>, usize), DecoderError>)
    requires
        pos <= buf@.len(),
    ensures
        match r {
            Ok((s, next)) => pos < next <= buf@.len() && spec_decode_string(buf@.skip(pos as int))
                == Ok::<(Seq<u8>, Seq<u8>), DecoderError>((s@, buf@.skip(next as int))),
            Err(e) => spec_decode_string(buf@.skip(pos as int)) == Err::<
                (Seq<u8>, Seq<u8>),
                DecoderError,
            >(e),
        },
{
    let ghost start = buf@.skip(pos as int);
    if pos >= buf.len() {
        return Err(DecoderError::NotEnoughOctets);
    }
    assert(start[0] == buf@[pos as int]);
    let coded: bool = buf[pos] >= 128;
    let (len, begin) = match decode_integer(buf, pos, 127) {
        Err(e) => {
            return Err(e);
        },
        Ok(r) => r,
    };
    if len > (buf.len() - begin) as u64 {
        return Err(DecoderError::NotEnoughOctets);
    }
    let end: usize = begin + len as usize;
    let raw = vstd::slice::slice_subrange(buf, begin, end);
    proof {
        let rest = buf@.skip(begin as int);
        assert(raw@ =~= rest.take(len as int));
        assert(rest.skip(len as int) =~= buf@.skip(end as int));
    }
    if coded {
        match huffman_decode(raw) {
            Some(s) => Ok((s, end)),
            None => Err(DecoderError::InvalidHuffmanCode),
        }
    } else {
        Ok((copy_bytes(raw), end))
    }
}

/// The decoder of one direction of a connection.
pub struct Decoder {
    header_table: DynamicTable,
    max_allowed_table_size: usize,
}

impl View for Decoder {
    type V = DynamicTableView;

    closed spec fn view(&self) -> DynamicTableView {
        self.header_table@
    }
}

impl Decoder {
    /// The dynamic table is consistent.
    pub closed spec fn wf(&self) -> bool {
        self.header_table.wf()
    }

    /// The largest limit that the encoder may ask for the dynamic table.
    pub closed spec fn max_allowed(&self) -> nat {
        self.max_allowed_table_size as nat
    }

    /// A decoder with an empty dynamic table of the default limit, 4096,
    /// which is also the largest limit that the encoder may ask for.
    pub fn new() -> (r: Decoder)
        ensures
            r.wf(),
            r@ == (DynamicTableView { entries: Seq::empty(), max_size: 4096 }),
            r.max_allowed() == 4096,
    {
        Decoder { header_table: DynamicTable::with_size(4096), max_allowed_table_size: 4096 }
    }

    /// Sets the largest limit that the encoder may ask for, as this side's
    /// settings announce it.
    pub fn set_max_allowed_table_size(&mut self, max_allowed_size: usize)
        requires
            old(self).wf(),
        ensures
            final(self).wf(),
            final(self)@ == old(self)@,
            final(self).max_allowed() == max_allowed_size,
    {
        self.max_allowed_table_size = max_allowed_size;
    }

    /// A copy of the entry with the given index in the tables.
    fn get_from_table(&self, index: u64) -> (r: Result<Header, DecoderError>)
        requires
            self.wf(),
        ensures
            match r {
                Ok(header) => 0 < index <= spec_combined(self@.entries).len() && header@
                    == spec_combined(self@.entries)[index - 1],
                Err(e) => e == DecoderError::HeaderIndexOutOfBounds && (index == 0 || index
                    > spec_combined(self@.entries).len()),
            },
    {
        proof {
            lemma_size_bounds_len(self@.entries);
            self.header_table.lemma_wf_bounds();
        }
        let total: usize = 61 + self.header_table.len();
        if index == 0 || index > total as u64 {
            return Err(DecoderError::HeaderIndexOutOfBounds);
        }
        let at: usize = index as usize;
        if at <= 61 {
            let entry = static_entry(at);
            Ok(Header::new(copy_bytes(entry.0.as_bytes()), copy_bytes(entry.1.as_bytes())))
        } else {
            let entry = self.header_table.get(at - 62);
            Ok(entry.clone())
        }
    }

    /// Reads a literal representation at `pos`.
    fn decode_literal(&self, buf: &[u8], pos: usize, max_prefix: u8) -> (r: Result<
        (Header, usize),
        DecoderError,
    >)
        requires
            self.wf(),
            pos <= buf@.len(),
            max_prefix == 63 || max_prefix == 15,
        ensures
            match r {
                Ok((header, next)) => pos < next <= buf@.len() && spec_decode_literal(
                    buf@.skip(pos as int),
                    max_prefix as nat,
                    self@,
                ) == Ok::<((Seq<u8>, Seq<u8>), Seq<u8>), DecoderError>(
                    (header@, buf@.skip(next as int)),
                ),
                Err(e) => spec_decode_literal(buf@.skip(pos as int), max_prefix as nat, self@)
                    == Err::<((Seq<u8>, Seq<u8>), Seq<u8>), DecoderError>(e),
            },
    {
        let (index, after_index) = match decode_integer(buf, pos, max_prefix) {
            Err(e) => {
                return Err(e);
            },
            Ok(r) => r,
        };
        let (name, after_name) = if index == 0 {
            match decode_string(buf, after_index) {
                Err(e) => {
                    return Err(e);
                },
                Ok(r) => r,
            }
        } else {
            match self.get_from_table(index) {
                Err(e) => {
                    return Err(e);
                },
                Ok(entry) => (entry.name, after_index),
            }
        };
        let (value, next) = match decode_string(buf, after_name) {
            Err(e) => {
                return Err(e);
            },
            Ok(r) => r,
        };
        Ok((Header::new(name, value), next))
    }

    /// Decodes a header block into its header list. The dynamic table moves
    /// as the block says.
    pub fn decode(&mut self, buf: &[u8]) -> (r: Result<Headers, DecoderError>)
        requires
            old(self).wf(),
        ensures
            final(self).wf(),
            final(self).max_allowed() == old(self).max_allowed(),
            match r {
                Ok(headers) => spec_decode_headers(buf@, old(self)@, old(self).max_allowed()) == Ok::<
                    (Seq<(Seq<u8>, Seq<u8>)>, DynamicTableView),
                    DecoderError,
                >((headers@, final(self)@)),
                Err(e) => spec_decode_headers(buf@, old(self)@, old(self).max_allowed()) == Err::<
                    (Seq<(Seq<u8>, Seq<u8>)>, DynamicTableView),
                    DecoderError,
                >(e),
            },
    {
        let mut headers = Headers::new();
        let mut pos: usize = 0;
        let ghost allowed = self.max_allowed();
        let ghost goal = spec_decode_headers(buf@, old(self)@, allowed);
        assert(buf@.skip(0) =~= buf@);
        while pos < buf.len()
            invariant
                self.wf(),
                pos <= buf@.len(),
                allowed == self.max_allowed(),
                allowed == old(self).max_allowed(),
                goal == spec_decode_headers(buf@, old(self)@, allowed),
                goal == spec_prepend_headers(
                    headers@,
                    spec_decode_headers(buf@.skip(pos as int), self@, allowed),
                ),
            decreases buf@.len() - pos,
        {
            let ghost rest = buf@.skip(pos as int);
            let ghost table = self@;
            let ghost before = headers@;
            assert(rest[0] == buf@[pos as int]);
            let first: u8 = buf[pos];
            if first >= 128 {
                let (index, next) = match decode_integer(buf, pos, 127) {
                    Err(e) => {
                        return Err(e);
                    },
                    Ok(r) => r,
                };
                let header = match self.get_from_table(index) {
                    Err(e) => {
                        return Err(e);
                    },
                    Ok(header) => header,
                };
                let ghost view = header@;
                headers.add_header(header);
                proof {
                    let more = spec_decode_headers(buf@.skip(next as int), self@, allowed);
                    match more {
                        Ok((hs, t)) => {
                            assert(before + (seq![view] + hs) =~= before.push(view) + hs);
                        },
                        Err(_) => {},
                    }
                }
                pos = next;
            } else if first >= 64 {
                let (header, next) = match self.decode_literal(buf, pos, 63) {
                    Err(e) => {
                        return Err(e);
                    },
                    Ok(r) => r,
                };
                let ghost view = header@;
                self.header_table.add_header(
                    copy_bytes(header.name()),
                    copy_bytes(header.value()),
                );
                headers.add_header(header);
                proof {
                    let more = spec_decode_headers(buf@.skip(next as int), self@, allowed);
                    match more {
                        Ok((hs, t)) => {
                            assert(before + (seq![view] + hs) =~= before.push(view) + hs);
                        },
                        Err(_) => {},
                    }
                }
                pos = next;
            } else if first >= 32 {
                let (size, next) = match decode_integer(buf, pos, 31) {
                    Err(e) => {
                        return Err(e);
                    },
                    Ok(r) => r,
                };
                if size > self.max_allowed_table_size as u64 {
                    return Err(DecoderError::InvalidMaxDynamicSize);
                }
                self.header_table.set_max_table_size(size as usize);
                proof {
                    let more = spec_decode_headers(buf@.skip(next as int), self@, allowed);
                    match more {
                        Ok((hs, t)) => {
                            assert(before + (Seq::<(Seq<u8>, Seq<u8>)>::empty() + hs) =~= before
                                + hs);
                        },
                        Err(_) => {},
                    }
                }
                pos = next;
            } else {
                let (header, next) = match self.decode_literal(buf, pos, 15) {
                    Err(e) => {
                        return Err(e);
                    },
                    Ok(r) => r,
                };
                let ghost view = header@;
                headers.add_header(header);
                proof {
                    let more = spec_decode_headers(buf@.skip(next as int), self@, allowed);
                    match more {
                        Ok((hs, t)) => {
                            assert(before + (seq![view] + hs) =~= before.push(view) + hs);
                        },
                        Err(_) => {},
                    }
                }
                pos = next;
            }
        }
        proof {
            assert(buf@.skip(pos as int).len() == 0);
            assert(headers@ + Seq::<(Seq<u8>, Seq<u8>)>::empty() =~= headers@);
        }
        Ok(headers)
    }
}

} // verus!
