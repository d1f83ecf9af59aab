//! Directory-entry records written from known fields decode back to those fields.
use vstd::prelude::*;
use vstd::utf8::{encode_utf8, encode_utf8_decode_utf8, encode_utf8_valid_utf8};
use crate::directory::{directory_outcome, directory_prefix};
use crate::entry::{EntryView, compression_of, date_time_of, record_outcome};
use crate::format::{CENTRAL_DIRECTORY_FILE_HEADER, le16, le32};

verus! {

/// The fields that a writer puts into one directory-entry record.
pub struct RecordFields {
    pub name: Seq<char>,
    pub comment: Seq<char>,
    pub extra: Seq<u8>,
    pub descriptor: bool,
    pub method: u16,
    pub mod_time: u16,
    pub mod_date: u16,
    pub crc32: u32,
    pub compressed_size: u32,
    pub uncompressed_size: u32,
    pub offset: u32,
}

/// The fields fit their length fields and name a known compression method.
pub open spec fn writable(f: RecordFields) -> bool {
    &&& encode_utf8(f.name).len() <= 65535
    &&& f.extra.len() <= 65535
    &&& encode_utf8(f.comment).len() <= 65535
    &&& compression_of(f.method) is Some
}

/// Byte `k` (0 for the lowest) of `x` in little-endian order.
#[verifier::opaque]
pub open spec fn byte_of(x: int, k: int) -> u8 {
    if k == 0 {
        (x % 256) as u8
    } else if k == 1 {
        ((x / 256) % 256) as u8
    } else if k == 2 {
        ((x / 65536) % 256) as u8
    } else {
        ((x / 16777216) % 256) as u8
    }
}

/// The fixed 46 bytes of the record for `f`.
pub open spec fn record_header(f: RecordFields) -> Seq<u8> {
    let flags: int = if f.descriptor {
        8
    } else {
        0
    };
    let n = encode_utf8(f.name).len() as int;
    let e = f.extra.len() as int;
    let c = encode_utf8(f.comment).len() as int;
    let sig = CENTRAL_DIRECTORY_FILE_HEADER as int;
    Seq::new(
        46,
        |i: int|
            if i < 4 {
                byte_of(sig, i)
            } else if i < 6 {
                byte_of(20, i - 4)
            } else if i < 8 {
                byte_of(20, i - 6)
            } else if i < 10 {
                byte_of(flags, i - 8)
            } else if i < 12 {
                byte_of(f.method as int, i - 10)
            } else if i < 14 {
                byte_of(f.mod_time as int, i - 12)
            } else if i < 16 {
                byte_of(f.mod_date as int, i - 14)
            } else if i < 20 {
                byte_of(f.crc32 as int, i - 16)
            } else if i < 24 {
                byte_of(f.compressed_size as int, i - 20)
            } else if i < 28 {
                byte_of(f.uncompressed_size as int, i - 24)
            } else if i < 30 {
                byte_of(n, i - 28)
            } else if i < 32 {
                byte_of(e, i - 30)
            } else if i < 34 {
                byte_of(c, i - 32)
            } else if i < 42 {
                0u8
            } else {
                byte_of(f.offset as int, i - 42)
            },
    )
}

/// The whole record for `f`: the fixed part, then name, extra field and comment.
pub open spec fn encode_record(f: RecordFields) -> Seq<u8> {
    record_header(f) + encode_utf8(f.name) + f.extra + encode_utf8(f.comment)
}

/// The records for `fs`, one after another.
pub open spec fn encode_directory(fs: Seq<RecordFields>) -> Seq<u8>
    decreases fs.len(),
{
    if fs.len() == 0 {
        Seq::empty()
    } else {
        encode_directory(fs.drop_last()) + encode_record(fs.last())
    }
}

/// The entry that the record for `f` describes.
pub open spec fn entry_of(f: RecordFields) -> EntryView {
    EntryView {
        name: f.name,
        comment: Some(f.comment),
        data_descriptor: f.descriptor,
        crc32: f.crc32,
        uncompressed_size: f.uncompressed_size,
        compressed_size: f.compressed_size,
        last_modified: date_time_of(f.mod_date, f.mod_time),
        extra: f.extra,
        compression: compression_of(f.method)->Some_0,
        offset: f.offset,
    }
}

proof fn lemma_le16_of(d: Seq<u8>, i: int, x: int)
    requires
        0 <= x < 65536,
        0 <= i,
        i + 2 <= d.len(),
        d[i] == byte_of(x, 0),
        d[i + 1] == byte_of(x, 1),
    ensures
        le16(d, i) == x,
{
    reveal(byte_of);
}

proof fn lemma_le32_of(d: Seq<u8>, i: int, x: int)
    requires
        0 <= x < 4294967296,
        0 <= i,
        i + 4 <= d.len(),
        d[i] == byte_of(x, 0),
        d[i + 1] == byte_of(x, 1),
        d[i + 2] == byte_of(x, 2),
        d[i + 3] == byte_of(x, 3),
    ensures
        le32(d, i) == x,
{
    reveal(byte_of);
    assert(le16(d, i) == x % 65536);
    assert(le16(d, i + 2) == x / 65536);
}

/// The fixed part of the record for `f`, found at `p`, holds `f`'s fields.
proof fn lemma_header_decodes(f: RecordFields, d: Seq<u8>, p: int)
    requires
        writable(f),
        0 <= p,
        p + 46 <= d.len(),
        forall|j: int| p <= j < p + 46 ==> #[trigger] d[j] == record_header(f)[j - p],
    ensures
        le32(d, p) == CENTRAL_DIRECTORY_FILE_HEADER,
        le16(d, p + 8) == (if f.descriptor { 8int } else { 0int }),
        le16(d, p + 10) == f.method,
        le16(d, p + 12) == f.mod_time,
        le16(d, p + 14) == f.mod_date,
        le32(d, p + 16) == f.crc32,
        le32(d, p + 20) == f.compressed_size,
        le32(d, p + 24) == f.uncompressed_size,
        le16(d, p + 28) == encode_utf8(f.name).len(),
        le16(d, p + 30) == f.extra.len(),
        le16(d, p + 32) == encode_utf8(f.comment).len(),
        le32(d, p + 42) == f.offset,
{
    let hdr = record_header(f);
    let n = encode_utf8(f.name).len() as int;
    let e = f.extra.len() as int;
    let c = encode_utf8(f.comment).len() as int;
    lemma_le32_of(d, p, CENTRAL_DIRECTORY_FILE_HEADER as int);
    if f.descriptor {
        lemma_le16_of(d, p + 8, 8);
    } else {
        lemma_le16_of(d, p + 8, 0);
    }
    lemma_le16_of(d, p + 10, f.method as int);
    lemma_le16_of(d, p + 12, f.mod_time as int);
    lemma_le16_of(d, p + 14, f.mod_date as int);
    lemma_le32_of(d, p + 16, f.crc32 as int);
    lemma_le32_of(d, p + 20, f.compressed_size as int);
    lemma_le32_of(d, p + 24, f.uncompressed_size as int);
    lemma_le16_of(d, p + 28, n);
    lemma_le16_of(d, p + 30, e);
    lemma_le16_of(d, p + 32, c);
    lemma_le32_of(d, p + 42, f.offset as int);
}

/// The record for `f`, found at `p` among other bytes, decodes to `f`'s
/// entry and ends where its bytes end.
pub proof fn lemma_record_round_trip(f: RecordFields, d: Seq<u8>, p: int)
    requires
        writable(f),
        0 <= p,
        p + encode_record(f).len() <= d.len(),
        d.subrange(p, p + encode_record(f).len()) == encode_record(f),
    ensures
        record_outcome(d, p) == Ok::<(EntryView, int), crate::error::ZipError>(
            (entry_of(f), p + encode_record(f).len()),
        ),
{
    let enc = encode_record(f);
    let hdr = record_header(f);
    let name = encode_utf8(f.name);
    let comment = encode_utf8(f.comment);
    let n = name.len() as int;
    let e = f.extra.len() as int;
    let c = comment.len() as int;
    assert forall|j: int| p <= j < p + 46 implies #[trigger] d[j] == hdr[j - p] by {
        assert(d[j] == d.subrange(p, p + enc.len())[j - p]);
    }
    lemma_header_decodes(f, d, p);
    assert(d.subrange(p + 46, p + 46 + n) =~= name) by {
        assert forall|k: int| 0 <= k < n implies d[p + 46 + k] == name[k] by {
            assert(d[p + 46 + k] == d.subrange(p, p + enc.len())[46 + k]);
        }
    }
    assert(d.subrange(p + 46 + n, p + 46 + n + e) =~= f.extra) by {
        assert forall|k: int| 0 <= k < e implies d[p + 46 + n + k] == f.extra[k] by {
            assert(d[p + 46 + n + k] == d.subrange(p, p + enc.len())[46 + n + k]);
        }
    }
    assert(d.subrange(p + 46 + n + e, p + 46 + n + e + c) =~= comment) by {
        assert forall|k: int| 0 <= k < c implies d[p + 46 + n + e + k] == comment[k] by {
            assert(d[p + 46 + n + e + k] == d.subrange(p, p + enc.len())[46 + n + e + k]);
        }
    }
    encode_utf8_valid_utf8(f.name);
    encode_utf8_valid_utf8(f.comment);
    encode_utf8_decode_utf8(f.name);
    encode_utf8_decode_utf8(f.comment);
    assert((if f.descriptor { 8int } else { 0int }) / 8 % 2 == 1 <==> f.descriptor);
}

/// The entries that records written for `fs` describe, in order.
pub open spec fn entries_of(fs: Seq<RecordFields>) -> Seq<EntryView> {
    fs.map_values(|f: RecordFields| entry_of(f))
}

/// A directory written as the records for `fs`, one after another, decodes to
/// exactly as many entries as `fs` holds, each with the fields it was written with.
pub proof fn lemma_directory_round_trip(fs: Seq<RecordFields>, d: Seq<u8>)
    requires
        forall|i: int| 0 <= i < fs.len() ==> writable(#[trigger] fs[i]),
        encode_directory(fs).len() <= d.len(),
        d.subrange(0, encode_directory(fs).len() as int) == encode_directory(fs),
    ensures
        directory_prefix(d, fs.len()) == Ok::<(Seq<EntryView>, int), crate::error::ZipError>(
            (entries_of(fs), encode_directory(fs).len() as int),
        ),
        directory_outcome(d, fs.len()) == Ok::<Seq<EntryView>, crate::error::ZipError>(
            entries_of(fs),
        ),
    decreases fs.len(),
{
    if fs.len() == 0 {
        assert(entries_of(fs) =~= Seq::<EntryView>::empty());
    } else {
        let prev = fs.drop_last();
        let pe = encode_directory(prev);
        let rec = encode_record(fs.last());
        let whole = encode_directory(fs);
        assert(whole == pe + rec);
        assert(d.subrange(0, pe.len() as int) =~= pe) by {
            assert forall|k: int| 0 <= k < pe.len() implies d[k] == pe[k] by {
                assert(d[k] == d.subrange(0, whole.len() as int)[k]);
            }
        }
        assert forall|i: int| 0 <= i < prev.len() implies writable(#[trigger] prev[i]) by {
            assert(prev[i] == fs[i]);
        }
        lemma_directory_round_trip(prev, d);
        assert(d.subrange(pe.len() as int, (pe.len() + rec.len()) as int) =~= rec) by {
            assert forall|k: int| 0 <= k < rec.len() implies d[pe.len() + k] == rec[k] by {
                assert(d[pe.len() + k] == d.subrange(0, whole.len() as int)[pe.len() + k]);
            }
        }
        assert(writable(fs[fs.len() - 1]));
        lemma_record_round_trip(fs.last(), d, pe.len() as int);
        assert(entries_of(prev).push(entry_of(fs.last())) =~= entries_of(fs));
    }
}

} // verus!
