//! Directory entries: their model, and the decoding of a directory-entry record.
use vstd::prelude::*;
use vstd::utf8::{decode_utf8, valid_utf8};
use crate::error::ZipError;
use crate::format::{
    CENTRAL_DIRECTORY_FILE_HEADER, copy_range, decode_text, le16, le32, read_u16, read_u32,
};

verus! {

/// Fixed size of a directory-entry record, its signature included.
pub const CENTRAL_DIRECTORY_HEADER_SIZE: usize = 46;

/// The compression method of an entry's payload.
#[derive(Debug, Clone, Copy, PartialEq, Eq, Structural)]
pub enum Compression {
    Stored,
    Deflate,
    Bz,
    Lzma,
    Zstd,
    Xz,
}

/// The method that a method identifier stands for, if it is a known one.
pub open spec fn compression_of(id: u16) -> Option<Compression> {
    if id == 0 {
        Some(Compression::Stored)
    } else if id == 8 {
        Some(Compression::Deflate)
    } else if id == 12 {
        Some(Compression::Bz)
    } else if id == 14 {
        Some(Compression::Lzma)
    } else if id == 93 {
        Some(Compression::Zstd)
    } else if id == 95 {
        Some(Compression::Xz)
    } else {
        None
    }
}

impl Compression {
    /// Resolves a method identifier; unknown identifiers are an error.
    pub fn from_u16(id: u16) -> (r: Result<Compression, ZipError>)
        ensures
            r == (match compression_of(id) {
                Some(c) => Ok(c),
                None => Err(ZipError::UnsupportedCompressionError(id)),
            }),
    {
        match id {
            0 => Ok(Compression::Stored),
            8 => Ok(Compression::Deflate),
            12 => Ok(Compression::Bz),
            14 => Ok(Compression::Lzma),
            93 => Ok(Compression::Zstd),
            95 => Ok(Compression::Xz),
            _ => Err(ZipError::UnsupportedCompressionError(id)),
        }
    }
}

/// A calendar timestamp unpacked from the two 16-bit date and time fields.
#[derive(Debug, Clone, Copy, PartialEq, Eq, Structural)]
pub struct ZipDateTime {
    pub year: u16,
    pub month: u8,
    pub day: u8,
    pub hour: u8,
    pub minute: u8,
    pub second: u8,
}

/// The timestamp that the packed `date` and `time` fields encode.
pub open spec fn date_time_of(date: u16, time: u16) -> ZipDateTime {
    ZipDateTime {
        year: (date / 512 + 1980) as u16,
        month: ((date / 32) % 16) as u8,
        day: (date % 32) as u8,
        hour: (time / 2048) as u8,
        minute: ((time / 32) % 64) as u8,
        second: ((time % 32) * 2) as u8,
    }
}

impl ZipDateTime {
    /// Unpacks the packed date and time fields of a record.
    pub fn from_packed(date: u16, time: u16) -> (r: ZipDateTime)
        ensures
            r == date_time_of(date, time),
    {
        ZipDateTime {
            year: date / 512 + 1980,
            month: ((date / 32) % 16) as u8,
            day: (date % 32) as u8,
            hour: (time / 2048) as u8,
            minute: ((time / 32) % 64) as u8,
            second: ((time % 32) * 2) as u8,
        }
    }
}

/// One member of an archive, as its directory-entry record describes it.
#[derive(Debug, Clone)]
pub struct ZipEntry {
    pub(crate) name: String,
    pub(crate) comment: Option<String>,
    pub(crate) data_descriptor: bool,
    pub(crate) crc32: u32,
    pub(crate) uncompressed_size: u32,
    pub(crate) compressed_size: u32,
    pub(crate) last_modified: ZipDateTime,
    pub(crate) extra: Vec<u8>,
    pub(crate) compression: Compression,
    pub(crate) offset: u32,
}

/// The mathematical content of a [`ZipEntry`].
pub struct EntryView {
    pub name: Seq<char>,
    pub comment: Option<Seq<char>>,
    pub data_descriptor: bool,
    pub crc32: u32,
    pub uncompressed_size: u32,
    pub compressed_size: u32,
    pub last_modified: ZipDateTime,
    pub extra: Seq<u8>,
    pub compression: Compression,
    pub offset: u32,
}

impl View for ZipEntry {
    type V = EntryView;

    closed spec fn view(&self) -> EntryView {
        EntryView {
            name: self.name@,
            comment: match self.comment {
                Some(c) => Some(c@),
                None => None,
            },
            data_descriptor: self.data_descriptor,
            crc32: self.crc32,
            uncompressed_size: self.uncompressed_size,
            compressed_size: self.compressed_size,
            last_modified: self.last_modified,
            extra: self.extra@,
            compression: self.compression,
            offset: self.offset,
        }
    }
}

/// Decoding the directory-entry record at `p` of `d`: the entry and the
/// position just past its last variable field, or why it fails.
pub open spec fn record_outcome(d: Seq<u8>, p: int) -> Result<(EntryView, int), ZipError> {
    if p + 4 > d.len() {
        Err(ZipError::UnexpectedEof)
    } else if le32(d, p) != CENTRAL_DIRECTORY_FILE_HEADER {
        Err(ZipError::UnexpectedHeaderError(le32(d, p) as u32, CENTRAL_DIRECTORY_FILE_HEADER))
    } else if p + 46 > d.len() {
        Err(ZipError::UnexpectedEof)
    } else {
        let name_end = p + 46 + le16(d, p + 28);
        let extra_end = name_end + le16(d, p + 30);
        let end = extra_end + le16(d, p + 32);
        if name_end > d.len() {
            Err(ZipError::UnexpectedEof)
        } else if !valid_utf8(d.subrange(p + 46, name_end)) {
            Err(ZipError::InvalidText)
        } else if end > d.len() {
            Err(ZipError::UnexpectedEof)
        } else if !valid_utf8(d.subrange(extra_end, end)) {
            Err(ZipError::InvalidText)
        } else {
            match compression_of(le16(d, p + 10) as u16) {
                None => Err(ZipError::UnsupportedCompressionError(le16(d, p + 10) as u16)),
                Some(method) => Ok(
                    (
                        EntryView {
                            name: decode_utf8(d.subrange(p + 46, name_end)),
                            comment: Some(decode_utf8(d.subrange(extra_end, end))),
                            data_descriptor: (le16(d, p + 8) / 8) % 2 == 1,
                            crc32: le32(d, p + 16) as u32,
                            uncompressed_size: le32(d, p + 24) as u32,
                            compressed_size: le32(d, p + 20) as u32,
                            last_modified: date_time_of(
                                le16(d, p + 14) as u16,
                                le16(d, p + 12) as u16,
                            ),
                            extra: d.subrange(name_end, extra_end),
                            compression: method,
                            offset: le32(d, p + 42) as u32,
                        },
                        end,
                    ),
                ),
            }
        }
    }
}

/// Decodes the directory-entry record that starts at `p`, returning the entry
/// and the position of the next record.
pub fn read_cd_entry(d: &[u8], p: usize) -> (r: Result<(ZipEntry, usize), ZipError>)
    requires
        p <= d@.len(),
    ensures
        match r {
            Ok((e, q)) => record_outcome(d@, p as int) == Ok::<(EntryView, int), ZipError>(
                (e@, q as int),
            ),
            Err(x) => record_outcome(d@, p as int) == Err::<(EntryView, int), ZipError>(x),
        },
{
    let len = d.len();
    if len - p < 4 {
        return Err(ZipError::UnexpectedEof);
    }
    let signature = read_u32(d, p);
    if signature != CENTRAL_DIRECTORY_FILE_HEADER {
        return Err(ZipError::UnexpectedHeaderError(signature, CENTRAL_DIRECTORY_FILE_HEADER));
    }
    if len - p < CENTRAL_DIRECTORY_HEADER_SIZE {
        return Err(ZipError::UnexpectedEof);
    }
    let flags = read_u16(d, p + 8);
    let method = read_u16(d, p + 10);
    let mod_time = read_u16(d, p + 12);
    let mod_date = read_u16(d, p + 14);
    let crc32 = read_u32(d, p + 16);
    let compressed_size = read_u32(d, p + 20);
    let uncompressed_size = read_u32(d, p + 24);
    let name_len = read_u16(d, p + 28) as usize;
    let extra_len = read_u16(d, p + 30) as usize;
    let comment_len = read_u16(d, p + 32) as usize;
    let offset = read_u32(d, p + 42);

    let name_start = p + CENTRAL_DIRECTORY_HEADER_SIZE;
    if len - name_start < name_len {
        return Err(ZipError::UnexpectedEof);
    }
    let name_end = name_start + name_len;
    let name = match decode_text(copy_range(d, name_start, name_end)) {
        Some(s) => s,
        None => return Err(ZipError::InvalidText),
    };
    if len - name_end < extra_len || len - name_end - extra_len < comment_len {
        return Err(ZipError::UnexpectedEof);
    }
    let extra_end = name_end + extra_len;
    let end = extra_end + comment_len;
    let extra = copy_range(d, name_end, extra_end);
    let comment = match decode_text(copy_range(d, extra_end, end)) {
        Some(s) => s,
        None => return Err(ZipError::InvalidText),
    };
    let compression = match Compression::from_u16(method) {
        Ok(c) => c,
        Err(e) => return Err(e),
    };
    let entry = ZipEntry {
        name,
        comment: Some(comment),
        data_descriptor: (flags / 8) % 2 == 1,
        crc32,
        uncompressed_size,
        compressed_size,
        last_modified: ZipDateTime::from_packed(mod_date, mod_time),
        extra,
        compression,
        offset,
    };
    Ok((entry, end))
}

} // verus!

verus! {

/// How far an entry's payload reaches once its local record has been skipped.
#[derive(Debug, Clone, Copy, PartialEq, Eq, Structural)]
pub enum PayloadLimit {
    /// Exactly this many bytes, as the directory records.
    Exact(u64),
    /// Up to the first occurrence of this marker, or the end of the stream.
    UntilMarker(u32),
}

/// The payload limit that an entry calls for.
pub open spec fn limit_of(e: EntryView) -> PayloadLimit {
    if e.data_descriptor {
        PayloadLimit::UntilMarker(crate::format::DATA_DESCRIPTOR)
    } else {
        PayloadLimit::Exact(e.compressed_size as u64)
    }
}

impl ZipEntry {
    /// Chooses between a payload of recorded length and one that ends at the
    /// descriptor record's signature.
    pub fn payload_limit(&self) -> (r: PayloadLimit)
        ensures
            r == limit_of(self@),
    {
        if self.data_descriptor {
            PayloadLimit::UntilMarker(crate::format::DATA_DESCRIPTOR)
        } else {
            PayloadLimit::Exact(self.compressed_size as u64)
        }
    }
}

} // verus!

verus! {

impl ZipEntry {
    /// The entry's name.
    pub fn name(&self) -> (r: &str)
        ensures
            r@ == self@.name,
    {
        self.name.as_str()
    }

    /// Whether the entry's name is `name`.
    pub(crate) fn name_matches(&self, name: &String) -> (r: bool)
        ensures
            r == (self@.name == name@),
    {
        self.name == *name
    }

    /// The entry's comment, if it has one.
    pub fn comment(&self) -> (r: Option<&str>)
        ensures
            r is Some <==> self@.comment is Some,
            r matches Some(c) ==> self@.comment == Some(c@),
    {
        match &self.comment {
            Some(c) => Some(c.as_str()),
            None => None,
        }
    }

    /// Whether the payload's length is unknown and a descriptor record follows it.
    pub fn data_descriptor(&self) -> (r: bool)
        ensures
            r == self@.data_descriptor,
    {
        self.data_descriptor
    }

    /// The CRC-32 checksum that the directory records.
    pub fn crc32(&self) -> (r: u32)
        ensures
            r == self@.crc32,
    {
        self.crc32
    }

    /// The size of the payload once decompressed.
    pub fn uncompressed_size(&self) -> (r: u32)
        ensures
            r == self@.uncompressed_size,
    {
        self.uncompressed_size
    }

    /// The size of the payload as stored.
    pub fn compressed_size(&self) -> (r: u32)
        ensures
            r == self@.compressed_size,
    {
        self.compressed_size
    }

    /// The last modification time.
    pub fn last_modified(&self) -> (r: ZipDateTime)
        ensures
            r == self@.last_modified,
    {
        self.last_modified
    }

    /// The extra field, uninterpreted.
    pub fn extra(&self) -> (r: &Vec<u8>)
        ensures
            r@ == self@.extra,
    {
        &self.extra
    }

    /// The compression method of the payload.
    pub fn compression(&self) -> (r: Compression)
        ensures
            r == self@.compression,
    {
        self.compression
    }

    /// The offset of the entry's local record from the start of the stream.
    pub fn offset(&self) -> (r: u32)
        ensures
            r == self@.offset,
    {
        self.offset
    }
}

} // verus!
