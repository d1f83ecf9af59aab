//! The archive index, and the extraction of entries by index.
use vstd::prelude::*;
use crate::directory::{
    EndOfCentralDirectoryHeader, archive_comment, directory_outcome, entry_views, locate_trailer,
    read_directory, text_view, trailer_outcome, trailer_search_start, trailer_window_start,
};
use crate::entry::{EntryView, PayloadLimit, ZipEntry};
use crate::error::ZipError;
use crate::format::{DATA_DESCRIPTOR, copy_range, find_marker, first_marker_from, le16, read_u16};

verus! {

/// Size of the local record's fixed fields, which follow its 4-byte signature.
pub const LOCAL_FILE_HEADER_SIZE: usize = 26;

/// The loaded index of an archive: its entries in directory order, and its comment.
pub struct ZipFileReader {
    entries: Vec<ZipEntry>,
    comment: Option<String>,
}

/// The mathematical content of a [`ZipFileReader`].
pub struct ArchiveView {
    pub entries: Seq<EntryView>,
    pub comment: Option<Seq<char>>,
}

impl View for ZipFileReader {
    type V = ArchiveView;

    closed spec fn view(&self) -> ArchiveView {
        ArchiveView { entries: entry_views(self.entries@), comment: text_view(self.comment) }
    }
}

/// Opening the archive held whole in `a`: the trailer is sought in the window
/// at the end, then the directory is decoded from its recorded offset.
pub open spec fn open_outcome(a: Seq<u8>) -> Result<ArchiveView, ZipError> {
    let w = a.subrange(trailer_window_start(a.len() as int), a.len() as int);
    match trailer_outcome(w) {
        Err(e) => Err(e),
        Ok(t) => {
            let off = if t.cent_dir_offset <= a.len() {
                t.cent_dir_offset as int
            } else {
                a.len() as int
            };
            match directory_outcome(a.subrange(off, a.len() as int), t.num_of_entries as nat) {
                Err(e) => Err(e),
                Ok(s) => Ok(ArchiveView { entries: s, comment: archive_comment(w) }),
            }
        },
    }
}

/// The position of the local record's fixed fields of entry `index`.
pub open spec fn local_position_outcome(z: ArchiveView, index: int) -> Result<u64, ZipError> {
    if 0 <= index < z.entries.len() {
        Ok((z.entries[index].offset + 4) as u64)
    } else {
        Err(ZipError::EntryIndexOutOfBounds)
    }
}

/// The distance from the end of the local record's fixed fields `h` to the payload.
pub open spec fn data_skip_outcome(h: Seq<u8>) -> Result<u64, ZipError> {
    if h.len() < LOCAL_FILE_HEADER_SIZE {
        Err(ZipError::UnexpectedEof)
    } else {
        Ok((le16(h, 22) + le16(h, 24)) as u64)
    }
}

/// The payload bytes of entry `e` of the archive `a`. A payload of recorded
/// length stops there or at the end of the bytes; one of unknown length stops
/// at the first descriptor signature after its start, or at the end.
pub open spec fn payload_outcome(a: Seq<u8>, e: EntryView) -> Result<Seq<u8>, ZipError> {
    let h = e.offset + 4;
    if h + LOCAL_FILE_HEADER_SIZE > a.len() {
        Err(ZipError::UnexpectedEof)
    } else {
        let start = h + LOCAL_FILE_HEADER_SIZE + le16(a, h + 22) + le16(a, h + 24);
        if start > a.len() {
            Ok(Seq::empty())
        } else if e.data_descriptor {
            match first_marker_from(a, start, DATA_DESCRIPTOR) {
                Some(k) => Ok(a.subrange(start, k)),
                None => Ok(a.subrange(start, a.len() as int)),
            }
        } else if start + e.compressed_size <= a.len() {
            Ok(a.subrange(start, start + e.compressed_size))
        } else {
            Ok(a.subrange(start, a.len() as int))
        }
    }
}

/// Extracting entry `index` of the index `z` from the archive `a`.
pub open spec fn entry_data_outcome(z: ArchiveView, a: Seq<u8>, index: int) -> Result<
    Seq<u8>,
    ZipError,
> {
    if 0 <= index < z.entries.len() {
        payload_outcome(a, z.entries[index])
    } else {
        Err(ZipError::EntryIndexOutOfBounds)
    }
}

/// Reads the distance from the end of the local record's fixed fields to the
/// payload; `h` holds the bytes that follow the local record's signature.
pub fn local_data_offset(h: &[u8]) -> (r: Result<u64, ZipError>)
    ensures
        r == data_skip_outcome(h@),
{
    if h.len() < LOCAL_FILE_HEADER_SIZE {
        return Err(ZipError::UnexpectedEof);
    }
    Ok(read_u16(h, 22) as u64 + read_u16(h, 24) as u64)
}

impl ZipFileReader {
    /// Builds the index from a decoded trailer, its comment, and the bytes of
    /// the stream from the trailer's directory offset onward.
    pub fn from_parts(
        eocdh: &EndOfCentralDirectoryHeader,
        comment: Option<String>,
        directory: &[u8],
    ) -> (r: Result<ZipFileReader, ZipError>)
        ensures
            match r {
                Ok(z) => directory_outcome(directory@, eocdh.num_of_entries as nat) == Ok::<
                    Seq<EntryView>,
                    ZipError,
                >(z@.entries) && z@.comment == text_view(comment),
                Err(e) => directory_outcome(directory@, eocdh.num_of_entries as nat) == Err::<
                    Seq<EntryView>,
                    ZipError,
                >(e),
            },
    {
        match read_directory(directory, eocdh.num_of_entries) {
            Ok(entries) => Ok(ZipFileReader { entries, comment }),
            Err(e) => Err(e),
        }
    }

    /// Opens an archive held whole in memory.
    pub fn from_bytes(archive: &[u8]) -> (r: Result<ZipFileReader, ZipError>)
        ensures
            match r {
                Ok(z) => open_outcome(archive@) == Ok::<ArchiveView, ZipError>(z@),
                Err(e) => open_outcome(archive@) == Err::<ArchiveView, ZipError>(e),
            },
    {
        let len = archive.len();
        let start = trailer_search_start(len as u64) as usize;
        let window = vstd::slice::slice_subrange(archive, start, len);
        let (eocdh, comment) = match locate_trailer(window) {
            Ok(found) => found,
            Err(e) => return Err(e),
        };
        let off = if (eocdh.cent_dir_offset as u64) <= len as u64 {
            eocdh.cent_dir_offset as usize
        } else {
            len
        };
        let directory = vstd::slice::slice_subrange(archive, off, len);
        ZipFileReader::from_parts(&eocdh, comment, directory)
    }

    /// The entries, in directory order.
    pub fn entries(&self) -> (r: &Vec<ZipEntry>)
        ensures
            entry_views(r@) == self@.entries,
    {
        &self.entries
    }

    /// The first entry, in directory order, whose name is `name`, with its index.
    pub fn entry(&self, name: &str) -> (r: Option<(usize, &ZipEntry)>)
        ensures
            match r {
                Some((i, e)) => i < self@.entries.len() && e@ == self@.entries[i as int]
                    && self@.entries[i as int].name == name@ && forall|j: int|
                    0 <= j < i ==> self@.entries[j].name != name@,
                None => forall|j: int|
                    0 <= j < self@.entries.len() ==> self@.entries[j].name != name@,
            },
    {
        let target = name.to_owned();
        let mut i: usize = 0;
        while i < self.entries.len()
            invariant
                i <= self.entries@.len(),
                target@ == name@,
                forall|j: int| 0 <= j < i ==> self@.entries[j].name != name@,
            decreases self.entries@.len() - i,
        {
            if self.entries[i].name_matches(&target) {
                return Some((i, &self.entries[i]));
            }
            i = i + 1;
        }
        None
    }

    /// The archive comment, when the trailer declares one.
    pub fn comment(&self) -> (r: Option<&str>)
        ensures
            r is Some <==> self@.comment is Some,
            r matches Some(c) ==> self@.comment == Some(c@),
    {
        match &self.comment {
            Some(c) => Some(c.as_str()),
            None => None,
        }
    }

    /// Where the fixed fields of entry `index`'s local record start: just past
    /// the signature at the entry's recorded offset.
    pub fn local_header_position(&self, index: usize) -> (r: Result<u64, ZipError>)
        ensures
            r == local_position_outcome(self@, index as int),
    {
        if index >= self.entries.len() {
            return Err(ZipError::EntryIndexOutOfBounds);
        }
        Ok(self.entries[index].offset() as u64 + 4)
    }

    /// The payload of entry `index` in the archive `archive`, held whole in
    /// memory, before decompression.
    pub fn entry_data(&self, archive: &[u8], index: usize) -> (r: Result<Vec<u8>, ZipError>)
        ensures
            match r {
                Ok(v) => entry_data_outcome(self@, archive@, index as int) == Ok::<
                    Seq<u8>,
                    ZipError,
                >(v@),
                Err(e) => entry_data_outcome(self@, archive@, index as int) == Err::<
                    Seq<u8>,
                    ZipError,
                >(e),
            },
    {
        let h = match self.local_header_position(index) {
            Ok(h) => h,
            Err(e) => return Err(e),
        };
        let entry = &self.entries[index];
        let len = archive.len();
        if h > len as u64 || (len as u64) - h < LOCAL_FILE_HEADER_SIZE as u64 {
            return Err(ZipError::UnexpectedEof);
        }
        let h = h as usize;
        let header = vstd::slice::slice_subrange(archive, h, h + LOCAL_FILE_HEADER_SIZE);
        let skip = match local_data_offset(header) {
            Ok(s) => s,
            Err(e) => return Err(e),
        };
        assert(header@[22] == archive@[h + 22] && header@[23] == archive@[h + 23]);
        assert(header@[24] == archive@[h + 24] && header@[25] == archive@[h + 25]);
        let start = (h + LOCAL_FILE_HEADER_SIZE) as u64 + skip;
        if start > len as u64 {
            return Ok(Vec::new());
        }
        let start = start as usize;
        match entry.payload_limit() {
            PayloadLimit::UntilMarker(m) => {
                match find_marker(archive, start, m) {
                    Some(k) => {
                        proof {
                            crate::format::lemma_first_marker(archive@, start as int, m);
                        }
                        Ok(copy_range(archive, start, k))
                    },
                    None => Ok(copy_range(archive, start, len)),
                }
            },
            PayloadLimit::Exact(n) => {
                if n <= (len - start) as u64 {
                    Ok(copy_range(archive, start, start + n as usize))
                } else {
                    Ok(copy_range(archive, start, len))
                }
            },
        }
    }
}

} // verus!
