//! Locating the trailer record and loading the central directory.
use vstd::prelude::*;
use vstd::utf8::{decode_utf8, valid_utf8};
use crate::entry::{EntryView, ZipEntry, read_cd_entry, record_outcome};
use crate::error::{Feature, ZipError};
use crate::format::{
    END_OF_CENTRAL_DIRECTORY, copy_range, decode_text, find_marker, first_marker_from, le16, le32,
    read_u16, read_u32,
};

verus! {

/// Fixed size of the trailer record, its signature included.
pub const END_OF_CENTRAL_DIRECTORY_SIZE: usize = 22;

/// Largest length of the archive comment that follows the trailer record.
pub const MAX_COMMENT_LENGTH: u64 = 65535;

/// The fixed fields of the trailer record.
#[derive(Debug, Clone, Copy, PartialEq, Eq, Structural)]
pub struct EndOfCentralDirectoryHeader {
    pub disk_num: u16,
    pub start_cent_dir_disk: u16,
    pub num_of_entries_disk: u16,
    pub num_of_entries: u16,
    pub size_cent_dir: u32,
    pub cent_dir_offset: u32,
    pub file_comm_length: u16,
}

/// The trailer fields of a record whose signature stands at `k`.
pub open spec fn trailer_fields(w: Seq<u8>, k: int) -> EndOfCentralDirectoryHeader {
    EndOfCentralDirectoryHeader {
        disk_num: le16(w, k + 4) as u16,
        start_cent_dir_disk: le16(w, k + 6) as u16,
        num_of_entries_disk: le16(w, k + 8) as u16,
        num_of_entries: le16(w, k + 10) as u16,
        size_cent_dir: le32(w, k + 12) as u32,
        cent_dir_offset: le32(w, k + 16) as u32,
        file_comm_length: le16(w, k + 20) as u16,
    }
}

/// The trailer describes an archive spread over several disks.
pub open spec fn is_spanned(t: EndOfCentralDirectoryHeader) -> bool {
    t.disk_num != t.start_cent_dir_disk || t.num_of_entries != t.num_of_entries_disk
}

/// Where the search for the trailer starts in a stream of `len` bytes: far
/// enough back to hold the fixed record and the longest comment.
pub open spec fn trailer_window_start(len: int) -> int {
    let reach = MAX_COMMENT_LENGTH + END_OF_CENTRAL_DIRECTORY_SIZE;
    if len > reach {
        len - reach
    } else {
        0
    }
}

/// Decoding the trailer from the window `w`: found at the first occurrence of
/// its signature, or why that fails.
pub open spec fn trailer_outcome(w: Seq<u8>) -> Result<EndOfCentralDirectoryHeader, ZipError> {
    match first_marker_from(w, 0, END_OF_CENTRAL_DIRECTORY) {
        None => Err(ZipError::UnexpectedHeaderError(0, END_OF_CENTRAL_DIRECTORY)),
        Some(k) => {
            let t = trailer_fields(w, k);
            let start = k + END_OF_CENTRAL_DIRECTORY_SIZE;
            if start > w.len() {
                Err(ZipError::UnexpectedEof)
            } else if is_spanned(t) {
                Err(ZipError::FeatureNotSupported(Feature::SpannedArchive))
            } else if start + t.file_comm_length > w.len() {
                Err(ZipError::UnexpectedEof)
            } else if t.file_comm_length > 0 && !valid_utf8(
                w.subrange(start, start + t.file_comm_length),
            ) {
                Err(ZipError::InvalidText)
            } else {
                Ok(t)
            }
        },
    }
}

/// The archive comment of a window whose trailer decodes: none when its
/// declared length is zero, else the text of that many bytes after the record.
pub open spec fn archive_comment(w: Seq<u8>) -> Option<Seq<char>> {
    match first_marker_from(w, 0, END_OF_CENTRAL_DIRECTORY) {
        None => None,
        Some(k) => {
            let start = k + END_OF_CENTRAL_DIRECTORY_SIZE;
            let n = le16(w, k + 20);
            if n == 0 {
                None
            } else {
                Some(decode_utf8(w.subrange(start, start + n)))
            }
        },
    }
}

/// The characters of an optional text.
pub open spec fn text_view(c: Option<String>) -> Option<Seq<char>> {
    match c {
        Some(s) => Some(s@),
        None => None,
    }
}

/// Where the search for the trailer starts in a stream of `length` bytes.
pub fn trailer_search_start(length: u64) -> (r: u64)
    ensures
        r as int == trailer_window_start(length as int),
{
    length.saturating_sub(MAX_COMMENT_LENGTH + END_OF_CENTRAL_DIRECTORY_SIZE as u64)
}

/// Finds and decodes the trailer record and the archive comment in `w`, the
/// bytes from [`trailer_search_start`] to the end of the stream.
pub fn locate_trailer(w: &[u8]) -> (r: Result<(EndOfCentralDirectoryHeader, Option<String>), ZipError>)
    ensures
        match r {
            Ok((t, c)) => trailer_outcome(w@) == Ok::<EndOfCentralDirectoryHeader, ZipError>(t)
                && text_view(c) == archive_comment(w@),
            Err(e) => trailer_outcome(w@) == Err::<EndOfCentralDirectoryHeader, ZipError>(e),
        },
{
    let k = match find_marker(w, 0, END_OF_CENTRAL_DIRECTORY) {
        Some(k) => k,
        None => return Err(ZipError::UnexpectedHeaderError(0, END_OF_CENTRAL_DIRECTORY)),
    };
    proof {
        crate::format::lemma_first_marker(w@, 0, END_OF_CENTRAL_DIRECTORY);
    }
    let len = w.len();
    if len - k < END_OF_CENTRAL_DIRECTORY_SIZE {
        return Err(ZipError::UnexpectedEof);
    }
    let t = EndOfCentralDirectoryHeader {
        disk_num: read_u16(w, k + 4),
        start_cent_dir_disk: read_u16(w, k + 6),
        num_of_entries_disk: read_u16(w, k + 8),
        num_of_entries: read_u16(w, k + 10),
        size_cent_dir: read_u32(w, k + 12),
        cent_dir_offset: read_u32(w, k + 16),
        file_comm_length: read_u16(w, k + 20),
    };
    if t.disk_num != t.start_cent_dir_disk || t.num_of_entries != t.num_of_entries_disk {
        return Err(ZipError::FeatureNotSupported(Feature::SpannedArchive));
    }
    let start = k + END_OF_CENTRAL_DIRECTORY_SIZE;
    let n = t.file_comm_length as usize;
    if len - start < n {
        return Err(ZipError::UnexpectedEof);
    }
    if n == 0 {
        return Ok((t, None));
    }
    match decode_text(copy_range(w, start, start + n)) {
        Some(c) => Ok((t, Some(c))),
        None => Err(ZipError::InvalidText),
    }
}

/// The views of a sequence of entries.
pub open spec fn entry_views(s: Seq<ZipEntry>) -> Seq<EntryView> {
    s.map_values(|e: ZipEntry| e@)
}

/// Decoding the first `k` directory-entry records of `d`, one after another:
/// the entries and the position after the last, or the first failure.
pub open spec fn directory_prefix(d: Seq<u8>, k: nat) -> Result<(Seq<EntryView>, int), ZipError>
    decreases k,
{
    if k == 0 {
        Ok((Seq::empty(), 0))
    } else {
        match directory_prefix(d, (k - 1) as nat) {
            Err(e) => Err(e),
            Ok((s, p)) => match record_outcome(d, p) {
                Err(e) => Err(e),
                Ok((v, q)) => Ok((s.push(v), q)),
            },
        }
    }
}

/// Decoding exactly `n` directory-entry records from the start of `d`.
pub open spec fn directory_outcome(d: Seq<u8>, n: nat) -> Result<Seq<EntryView>, ZipError> {
    match directory_prefix(d, n) {
        Ok((s, _)) => Ok(s),
        Err(e) => Err(e),
    }
}

/// Once a record fails to decode, the whole directory fails with that error.
proof fn lemma_directory_error_sticks(d: Seq<u8>, k: nat, n: nat)
    requires
        k <= n,
        directory_prefix(d, k) is Err,
    ensures
        directory_prefix(d, n) == directory_prefix(d, k),
    decreases n - k,
{
    if k < n {
        lemma_directory_error_sticks(d, k, (n - 1) as nat);
    }
}

/// A successful decode of `n` records holds exactly `n` entries.
pub proof fn lemma_directory_len(d: Seq<u8>, n: nat)
    ensures
        directory_outcome(d, n) matches Ok(s) ==> s.len() == n,
    decreases n,
{
    if n > 0 {
        lemma_directory_len(d, (n - 1) as nat);
    }
}

/// Decodes exactly `count` directory-entry records from the start of `d`, in order.
pub fn read_directory(d: &[u8], count: u16) -> (r: Result<Vec<ZipEntry>, ZipError>)
    ensures
        match r {
            Ok(v) => directory_outcome(d@, count as nat) == Ok::<Seq<EntryView>, ZipError>(
                entry_views(v@),
            ),
            Err(e) => directory_outcome(d@, count as nat) == Err::<Seq<EntryView>, ZipError>(e),
        },
{
    let mut entries: Vec<ZipEntry> = Vec::new();
    let mut pos: usize = 0;
    let mut i: u16 = 0;
    assert(entry_views(entries@) =~= Seq::<EntryView>::empty());
    while i < count
        invariant
            i <= count,
            pos <= d@.len(),
            directory_prefix(d@, i as nat) == Ok::<(Seq<EntryView>, int), ZipError>(
                (entry_views(entries@), pos as int),
            ),
        decreases count - i,
    {
        match read_cd_entry(d, pos) {
            Ok((e, next)) => {
                entries.push(e);
                pos = next;
                assert(entry_views(entries@) =~= directory_prefix(d@, (i + 1) as nat)->Ok_0.0);
            },
            Err(e) => {
                proof {
                    lemma_directory_error_sticks(d@, (i + 1) as nat, count as nat);
                }
                return Err(e);
            },
        }
        i = i + 1;
    }
    Ok(entries)
}

} // verus!
