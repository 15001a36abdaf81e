//! The encoder of header compression. A field that stands in a table is
//! written as its index; one whose name stands in a table is written as the
//! name's index and the value; any other is written in full and added to the
//! dynamic table. Strings are written as they are, without Huffman coding.
//! Where the limit of the dynamic table was changed, the next header block
//! begins by saying so.

use crate::hpack::dynamic_table::{
    spec_entries_size, spec_table_add, DynamicTable, DynamicTableView,
};
use crate::hpack::integer::{encode_integer, spec_encode_int, spec_encode_string};
use crate::hpack::static_table::{spec_static_table, static_entry};
use crate::solicit::header::{copy_bytes, Headers};
use vstd::prelude::*;

verus! {

/// Where the encoder writes. A sink may cut what it is given into pieces of
/// its own, such as frames; `written` is the bytes it was given, in order,
/// whatever it did with them.
pub trait EncodeBuf {
    /// What stays fixed about the sink while bytes are written to it.
    type Params;

    /// What stays fixed about the sink while bytes are written to it.
    spec fn params(&self) -> Self::Params;

    /// The sink is in a state in which it can take bytes.
    spec fn inv(&self) -> bool;

    /// All bytes given to the sink so far.
    spec fn written(&self) -> Seq<u8>;

    /// Gives the sink more bytes.
    fn write_all(&mut self, bytes: &[u8])
        requires
            old(self).inv(),
        ensures
            final(self).inv(),
            final(self).params() == old(self).params(),
            final(self).written() == old(self).written() + bytes@,
    ;

    /// Tells the sink that about `additional` more bytes will come.
    fn reserve(&mut self, additional: usize)
        requires
            old(self).inv(),
        ensures
            final(self).inv(),
            final(self).params() == old(self).params(),
            final(self).written() == old(self).written(),
    ;
}

impl EncodeBuf for Vec<u8> {
    type Params = ();

    open spec fn params(&self) -> () {
        ()
    }

    open spec fn inv(&self) -> bool {
        true
    }

    open spec fn written(&self) -> Seq<u8> {
        self@
    }

    fn write_all(&mut self, bytes: &[u8]) {
        let ghost before = self@;
        self.extend_from_slice(bytes);
        assert(self@ =~= before + bytes@);
    }

    fn reserve(&mut self, additional: usize) {
        Vec::reserve(self, additional);
    }
}

/// The table that indices refer to: the static table, then the dynamic
/// table, newest entry first. Index `i` stands at position `i - 1`.
pub open spec fn spec_combined(dynamic: Seq<(Seq<u8>, Seq<u8>)>) -> Seq<(Seq<u8>, Seq<u8>)> {
    spec_static_table() + dynamic
}

/// Looks for a field in `table` from position `i` on. The result is the
/// first position that holds the whole field, marked `true`; or, where none
/// does, the first position that holds its name, marked `false`.
/// `name_match` is the first position before `i` that holds the name.
pub open spec fn spec_find_from(
    table: Seq<(Seq<u8>, Seq<u8>)>,
    h: (Seq<u8>, Seq<u8>),
    i: int,
    name_match: Option<int>,
) -> Option<(int, bool)>
    decreases table.len() - i,
{
    if i < 0 || i >= table.len() {
        match name_match {
            Some(k) => Some((k, false)),
            None => None,
        }
    } else if table[i] == h {
        Some((i, true))
    } else if name_match is None && table[i].0 == h.0 {
        spec_find_from(table, h, i + 1, Some(i))
    } else {
        spec_find_from(table, h, i + 1, name_match)
    }
}

/// Where a field stands in the tables, as a position in the combined table.
pub open spec fn spec_find(dynamic: Seq<(Seq<u8>, Seq<u8>)>, h: (Seq<u8>, Seq<u8>)) -> Option<
    (int, bool),
> {
    spec_find_from(spec_combined(dynamic), h, 0, None)
}

/// The bytes that the encoder writes for one field, given the dynamic table
/// before it.
pub open spec fn spec_encode_header(dynamic: Seq<(Seq<u8>, Seq<u8>)>, h: (Seq<u8>, Seq<u8>)) -> Seq<
    u8,
> {
    match spec_find(dynamic, h) {
        Some((pos, true)) => spec_encode_int((pos + 1) as nat, 127, 0x80),
        Some((pos, false)) => spec_encode_int((pos + 1) as nat, 15, 0) + spec_encode_string(h.1),
        None => seq![0x40u8] + spec_encode_string(h.0) + spec_encode_string(h.1),
    }
}

/// The dynamic table after the encoder wrote one field: a field that was in
/// no table, name or whole, is added.
pub open spec fn spec_table_after_header(table: DynamicTableView, h: (Seq<u8>, Seq<u8>)) -> DynamicTableView {
    match spec_find(table.entries, h) {
        Some(_) => table,
        None => DynamicTableView {
            entries: spec_table_add(table.entries, table.max_size, h),
            max_size: table.max_size,
        },
    }
}

/// The bytes that the encoder writes for a header list: the header block.
pub open spec fn spec_encode_headers(table: DynamicTableView, headers: Seq<(Seq<u8>, Seq<u8>)>) -> Seq<
    u8,
>
    decreases headers.len(),
{
    if headers.len() == 0 {
        Seq::empty()
    } else {
        spec_encode_header(table.entries, headers[0]) + spec_encode_headers(
            spec_table_after_header(table, headers[0]),
            headers.skip(1),
        )
    }
}

/// The dynamic table after the encoder wrote a header list.
pub open spec fn spec_table_after_headers(
    table: DynamicTableView,
    headers: Seq<(Seq<u8>, Seq<u8>)>,
) -> DynamicTableView
    decreases headers.len(),
{
    if headers.len() == 0 {
        table
    } else {
        spec_table_after_headers(spec_table_after_header(table, headers[0]), headers.skip(1))
    }
}

/// What the encoder holds.
pub ghost struct EncoderView {
    /// The dynamic table.
    pub table: DynamicTableView,
    /// The smallest limit that the table was given since the last header
    /// block, where the limit was changed since: the decoder has not been
    /// told yet.
    pub pending: Option<nat>,
}

/// The changes of limit that a header block begins with: none where the
/// limit was not changed; else the smallest limit that the table was given,
/// where the limit is larger now, and the limit as it is now.
pub open spec fn spec_size_updates(pending: Option<nat>, max_size: nat) -> Seq<u8> {
    match pending {
        None => Seq::empty(),
        Some(least) => (if least < max_size {
            spec_encode_int(least, 31, 0x20)
        } else {
            Seq::empty()
        }) + spec_encode_int(max_size, 31, 0x20),
    }
}

/// The bytes that the encoder writes for a header list: the changes of
/// limit that the decoder has not been told of, then the fields.
pub open spec fn spec_encode_block(enc: EncoderView, headers: Seq<(Seq<u8>, Seq<u8>)>) -> Seq<u8> {
    spec_size_updates(enc.pending, enc.table.max_size) + spec_encode_headers(enc.table, headers)
}

/// What the encoder holds after it wrote a header list.
pub open spec fn spec_encoder_after_block(
    enc: EncoderView,
    headers: Seq<(Seq<u8>, Seq<u8>)>,
) -> EncoderView {
    EncoderView { table: spec_table_after_headers(enc.table, headers), pending: None }
}

/// What the encoder holds after its table was given the limit `new_max`:
/// the oldest entries leave until the rest fits, and the smallest limit
/// since the last header block is kept for the next one. Nothing changes
/// where the limit is the one that the decoder knows.
pub open spec fn spec_encoder_resized(enc: EncoderView, new_max: nat) -> EncoderView {
    if enc.pending is None && new_max == enc.table.max_size {
        enc
    } else {
        EncoderView {
            table: DynamicTableView {
                entries: crate::hpack::dynamic_table::spec_evict(
                    enc.table.entries,
                    new_max as int,
                ),
                max_size: new_max,
            },
            pending: Some(
                match enc.pending {
                    Some(least) if least < new_max => least,
                    _ => new_max,
                },
            ),
        }
    }
}

/// Every entry counts for at least 32.
pub proof fn lemma_size_bounds_len(entries: Seq<(Seq<u8>, Seq<u8>)>)
    ensures
        32 * entries.len() <= spec_entries_size(entries),
    decreases entries.len(),
{
    if entries.len() > 0 {
        lemma_size_bounds_len(entries.drop_last());
    }
}

/// Whether two byte strings are equal.
pub fn bytes_eq(a: &[u8], b: &[u8]) -> (r: bool)
    ensures
        r == (a@ == b@),
{
    if a.len() != b.len() {
        return false;
    }
    let mut i: usize = 0;
    while i < a.len()
        invariant
            a@.len() == b@.len(),
            i <= a@.len(),
            a@.take(i as int) == b@.take(i as int),
        decreases a@.len() - i,
    {
        if a[i] != b[i] {
            return false;
        }
        i = i + 1;
        assert(a@.take(i as int) =~= a@.take(i - 1).push(a@[i - 1]));
        assert(b@.take(i as int) =~= b@.take(i - 1).push(b@[i - 1]));
    }
    assert(a@.take(a@.len() as int) =~= a@);
    assert(b@.take(b@.len() as int) =~= b@);
    true
}

/// The encoder of one direction of a connection.
pub struct Encoder {
    header_table: DynamicTable,
    size_update: Option<usize>,
}

impl View for Encoder {
    type V = EncoderView;

    closed spec fn view(&self) -> EncoderView {
        EncoderView {
            table: self.header_table@,
            pending: match self.size_update {
                Some(least) => Some(least as nat),
                None => None,
            },
        }
    }
}

impl Encoder {
    /// The dynamic table is consistent.
    pub closed spec fn wf(&self) -> bool {
        self.header_table.wf()
    }

    /// An encoder with an empty dynamic table of the default limit, 4096,
    /// which is the limit that the decoder starts with.
    pub fn new() -> (r: Encoder)
        ensures
            r.wf(),
            r@ == (EncoderView {
                table: DynamicTableView { entries: Seq::empty(), max_size: 4096 },
                pending: None,
            }),
    {
        Encoder { header_table: DynamicTable::with_size(4096), size_update: None }
    }

    /// Changes the limit of the dynamic table, as the peer's settings ask.
    /// The next header block tells the decoder.
    pub fn set_max_table_size(&mut self, new_max_size: usize)
        requires
            old(self).wf(),
        ensures
            final(self).wf(),
            final(self)@ == spec_encoder_resized(old(self)@, new_max_size as nat),
    {
        let least: usize = match self.size_update {
            None => {
                if new_max_size == self.header_table.get_max_table_size() {
                    return ;
                }
                new_max_size
            },
            Some(least) => if least < new_max_size {
                least
            } else {
                new_max_size
            },
        };
        self.header_table.set_max_table_size(new_max_size);
        self.size_update = Some(least);
    }

    fn entry_matches(&self, pos: usize, name: &[u8], value: &[u8]) -> (r: (bool, bool))
        requires
            self.wf(),
            pos < spec_combined(self@.table.entries).len(),
        ensures
            r.0 == (spec_combined(self@.table.entries)[pos as int].0 == name@),
            r.1 == (spec_combined(self@.table.entries)[pos as int] == (name@, value@)),
    {
        if pos < 61 {
            let entry = static_entry(pos + 1);
            let same_name = bytes_eq(entry.0.as_bytes(), name);
            let same = same_name && bytes_eq(entry.1.as_bytes(), value);
            (same_name, same)
        } else {
            let entry = self.header_table.get(pos - 61);
            let same_name = bytes_eq(entry.name(), name);
            let same = same_name && bytes_eq(entry.value(), value);
            (same_name, same)
        }
    }

    /// Where a field stands in the tables: the position in the combined
    /// table, and whether the whole field stands there or only its name.
    pub fn find_header(&self, name: &[u8], value: &[u8]) -> (r: Option<(usize, bool)>)
        requires
            self.wf(),
        ensures
            match r {
                Some((pos, whole)) => spec_find(self@.table.entries, (name@, value@)) == Some(
                    (pos as int, whole),
                ) && pos < spec_combined(self@.table.entries).len(),
                None => spec_find(self@.table.entries, (name@, value@)) is None,
            },
    {
        proof {
            lemma_size_bounds_len(self@.table.entries);
            self.header_table.lemma_wf_bounds();
        }
        let total: usize = 61 + self.header_table.len();
        let ghost table = spec_combined(self@.table.entries);
        let ghost h = (name@, value@);
        let mut name_match: Option<usize> = None;
        let mut i: usize = 0;
        while i < total
            invariant
                self.wf(),
                table == spec_combined(self@.table.entries),
                h == (name@, value@),
                total == table.len(),
                i <= total,
                name_match matches Some(k) ==> k < i,
                spec_find_from(table, h, 0, None) == spec_find_from(
                    table,
                    h,
                    i as int,
                    match name_match {
                        Some(k) => Some(k as int),
                        None => None,
                    },
                ),
            decreases total - i,
        {
            let (same_name, same) = self.entry_matches(i, name, value);
            if same {
                return Some((i, true));
            }
            if same_name && name_match.is_none() {
                name_match = Some(i);
            }
            i = i + 1;
        }
        match name_match {
            Some(k) => Some((k, false)),
            None => None,
        }
    }

    fn encode_string_literal<W: EncodeBuf>(octet_str: &[u8], writer: &mut W)
        requires
            old(writer).inv(),
        ensures
            final(writer).inv(),
            final(writer).params() == old(writer).params(),
            final(writer).written() == old(writer).written() + spec_encode_string(octet_str@),
    {
        let len = encode_integer(octet_str.len(), 127, 0);
        writer.write_all(len.as_slice());
        writer.write_all(octet_str);
        assert(writer.written() =~= old(writer).written() + spec_encode_string(octet_str@));
    }

    /// Writes one field and, where the field stood in no table, adds it to
    /// the dynamic table. A change of limit that the decoder has not been
    /// told of is not written here: a header block is written by
    /// `encode_into`.
    pub fn encode_header_into<W: EncodeBuf>(&mut self, name: &[u8], value: &[u8], writer: &mut W)
        requires
            old(self).wf(),
            old(writer).inv(),
        ensures
            final(self).wf(),
            final(self)@ == (EncoderView {
                table: spec_table_after_header(old(self)@.table, (name@, value@)),
                ..old(self)@
            }),
            final(writer).inv(),
            final(writer).params() == old(writer).params(),
            final(writer).written() == old(writer).written() + spec_encode_header(
                old(self)@.table.entries,
                (name@, value@),
            ),
    {
        proof {
            lemma_size_bounds_len(self@.table.entries);
            self.header_table.lemma_wf_bounds();
        }
        match self.find_header(name, value) {
            None => {
                let first: [u8; 1] = [0x40];
                writer.write_all(first.as_slice());
                Encoder::encode_string_literal(name, writer);
                Encoder::encode_string_literal(value, writer);
                self.header_table.add_header(copy_bytes(name), copy_bytes(value));
                assert(first@ =~= seq![0x40u8]);
                assert(writer.written() =~= old(writer).written() + spec_encode_header(
                    old(self)@.table.entries,
                    (name@, value@),
                ));
            },
            Some((pos, false)) => {
                let index = encode_integer(pos + 1, 15, 0);
                writer.write_all(index.as_slice());
                Encoder::encode_string_literal(value, writer);
                assert(writer.written() =~= old(writer).written() + spec_encode_header(
                    old(self)@.table.entries,
                    (name@, value@),
                ));
            },
            Some((pos, true)) => {
                let index = encode_integer(pos + 1, 127, 0x80);
                writer.write_all(index.as_slice());
            },
        }
    }

    /// Writes the changes of limit that the decoder has not been told of.
    fn encode_size_updates<W: EncodeBuf>(&mut self, writer: &mut W)
        requires
            old(self).wf(),
            old(writer).inv(),
        ensures
            final(self).wf(),
            final(self)@ == (EncoderView { pending: None, ..old(self)@ }),
            final(writer).inv(),
            final(writer).params() == old(writer).params(),
            final(writer).written() == old(writer).written() + spec_size_updates(
                old(self)@.pending,
                old(self)@.table.max_size,
            ),
    {
        match self.size_update {
            None => {
                assert(writer.written() =~= old(writer).written() + Seq::<u8>::empty());
            },
            Some(least) => {
                let max_size: usize = self.header_table.get_max_table_size();
                if least < max_size {
                    let first = encode_integer(least, 31, 0x20);
                    writer.write_all(first.as_slice());
                }
                let last = encode_integer(max_size, 31, 0x20);
                writer.write_all(last.as_slice());
                self.size_update = None;
                assert(writer.written() =~= old(writer).written() + spec_size_updates(
                    old(self)@.pending,
                    old(self)@.table.max_size,
                ));
            },
        }
    }

    /// Writes a header list as one header block: first the changes of the
    /// table's limit that the decoder has not been told of, then the fields.
    pub fn encode_into<W: EncodeBuf>(&mut self, headers: &Headers, writer: &mut W)
        requires
            old(self).wf(),
            old(writer).inv(),
        ensures
            final(self).wf(),
            final(self)@ == spec_encoder_after_block(old(self)@, headers@),
            final(writer).inv(),
            final(writer).params() == old(writer).params(),
            final(writer).written() == old(writer).written() + spec_encode_block(
                old(self)@,
                headers@,
            ),
    {
        self.encode_size_updates(writer);
        let ghost begun = writer.written();
        let mut i: usize = 0;
        assert(headers@.skip(0) =~= headers@);
        while i < headers.len()
            invariant
                i <= headers@.len(),
                self.wf(),
                self@.pending is None,
                writer.inv(),
                writer.params() == old(writer).params(),
                spec_table_after_headers(self@.table, headers@.skip(i as int))
                    == spec_table_after_headers(old(self)@.table, headers@),
                writer.written() + spec_encode_headers(self@.table, headers@.skip(i as int))
                    == begun + spec_encode_headers(old(self)@.table, headers@),
            decreases headers@.len() - i,
        {
            let ghost rest = headers@.skip(i as int);
            let ghost before = writer.written();
            let ghost table = self@.table;
            let header = &headers.headers[i];
            assert(rest[0] == header@);
            assert(rest.skip(1) =~= headers@.skip(i + 1));
            self.encode_header_into(header.name(), header.value(), writer);
            assert(writer.written() + spec_encode_headers(self@.table, headers@.skip(i + 1))
                =~= before + spec_encode_headers(table, rest));
            i = i + 1;
        }
        assert(writer.written() =~= old(writer).written() + spec_encode_block(
            old(self)@,
            headers@,
        ));
    }

    /// The header block of a header list, as a vector.
    pub fn encode(&mut self, headers: &Headers) -> (block: Vec<u8>)
        requires
            old(self).wf(),
        ensures
            final(self).wf(),
            final(self)@ == spec_encoder_after_block(old(self)@, headers@),
            block@ == spec_encode_block(old(self)@, headers@),
    {
        let mut block: Vec<u8> = Vec::new();
        self.encode_into(headers, &mut block);
        assert(block@ =~= spec_encode_block(old(self)@, headers@));
        block
    }
}

} // verus!
