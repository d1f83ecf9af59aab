//! Properties that relate the reading functions to one another.
use vstd::prelude::*;
use crate::directory::{
    END_OF_CENTRAL_DIRECTORY_SIZE, MAX_COMMENT_LENGTH, archive_comment, is_spanned,
    lemma_directory_len, trailer_fields, trailer_outcome, trailer_window_start,
};
use crate::entry::EntryView;
use crate::error::{Feature, ZipError};
use crate::format::{
    DATA_DESCRIPTOR, END_OF_CENTRAL_DIRECTORY, first_marker_from, lemma_first_marker, marker_at,
};
use crate::read::{
    ArchiveView, LOCAL_FILE_HEADER_SIZE, entry_data_outcome, local_position_outcome, open_outcome,
    payload_outcome,
};

verus! {

/// The results of extracting the entries listed in `order`, one after another.
pub open spec fn extract_in_order(z: ArchiveView, a: Seq<u8>, order: Seq<int>) -> Seq<
    Result<Seq<u8>, ZipError>,
> {
    order.map_values(|i: int| entry_data_outcome(z, a, i))
}

/// The indices `0..n` in ascending order.
pub open spec fn ascending(n: nat) -> Seq<int> {
    Seq::new(n, |i: int| i)
}

/// An opened archive holds exactly as many entries as its trailer declares.
pub proof fn lemma_open_entry_count(a: Seq<u8>)
    ensures
        open_outcome(a) matches Ok(z) ==> z.entries.len() == trailer_outcome(
            a.subrange(trailer_window_start(a.len() as int), a.len() as int),
        )->Ok_0.num_of_entries,
{
    let w = a.subrange(trailer_window_start(a.len() as int), a.len() as int);
    if let Ok(t) = trailer_outcome(w) {
        let off = if t.cent_dir_offset <= a.len() {
            t.cent_dir_offset as int
        } else {
            a.len() as int
        };
        lemma_directory_len(a.subrange(off, a.len() as int), t.num_of_entries as nat);
    }
}

/// Extracting entries in any order gives each entry the same bytes as
/// extracting them in ascending order.
pub proof fn lemma_extraction_order_independent(z: ArchiveView, a: Seq<u8>, order: Seq<int>)
    requires
        forall|k: int| 0 <= k < order.len() ==> 0 <= #[trigger] order[k] < z.entries.len(),
    ensures
        forall|k: int|
            0 <= k < order.len() ==> #[trigger] extract_in_order(z, a, order)[k]
                == extract_in_order(z, a, ascending(z.entries.len()))[order[k]],
{
}

/// Extracting the same entry twice in succession gives the same result both times.
pub proof fn lemma_reopen_identical(z: ArchiveView, a: Seq<u8>, index: int)
    ensures
        extract_in_order(z, a, seq![index, index])[0] == extract_in_order(
            z,
            a,
            seq![index, index],
        )[1],
{
}

/// A decoded trailer yields no comment exactly when its comment length is zero.
pub proof fn lemma_comment_absent_iff_empty(w: Seq<u8>)
    ensures
        trailer_outcome(w) matches Ok(t) ==> (archive_comment(w) is None <==> t.file_comm_length
            == 0),
{
}

/// A trailer that ends the stream, with a comment of any legal length, lies
/// inside the window where the search for it starts.
pub proof fn lemma_trailer_within_window(len: int, k: int, comment_len: int)
    requires
        0 <= k,
        0 <= comment_len <= MAX_COMMENT_LENGTH,
        k + END_OF_CENTRAL_DIRECTORY_SIZE + comment_len == len,
    ensures
        trailer_window_start(len) <= k,
{
}

/// A stream without the trailer's signature anywhere fails to open with a
/// signature error.
pub proof fn lemma_missing_trailer(a: Seq<u8>)
    requires
        forall|j: int| !marker_at(a, j, END_OF_CENTRAL_DIRECTORY),
    ensures
        open_outcome(a) == Err::<ArchiveView, ZipError>(
            ZipError::UnexpectedHeaderError(0, END_OF_CENTRAL_DIRECTORY),
        ),
{
    let s = trailer_window_start(a.len() as int);
    let w = a.subrange(s, a.len() as int);
    lemma_first_marker(w, 0, END_OF_CENTRAL_DIRECTORY);
    if let Some(k) = first_marker_from(w, 0, END_OF_CENTRAL_DIRECTORY) {
        assert(marker_at(a, s + k, END_OF_CENTRAL_DIRECTORY));
    }
}

/// A trailer whose disk fields disagree is rejected as a spanned archive
/// before anything after it is read.
pub proof fn lemma_spanned_rejected(w: Seq<u8>, k: int)
    requires
        first_marker_from(w, 0, END_OF_CENTRAL_DIRECTORY) == Some(k),
        k + END_OF_CENTRAL_DIRECTORY_SIZE <= w.len(),
        is_spanned(trailer_fields(w, k)),
    ensures
        trailer_outcome(w) == Err::<crate::directory::EndOfCentralDirectoryHeader, ZipError>(
            ZipError::FeatureNotSupported(Feature::SpannedArchive),
        ),
{
}

/// The payload of an entry with a descriptor record ignores the recorded
/// compressed size, and holds no descriptor signature: it ends at the first one.
pub proof fn lemma_unknown_length_payload(a: Seq<u8>, e: EntryView, other_size: u32)
    requires
        e.data_descriptor,
    ensures
        payload_outcome(a, EntryView { compressed_size: other_size, ..e }) == payload_outcome(a, e),
        payload_outcome(a, e) matches Ok(p) ==> forall|j: int| !marker_at(p, j, DATA_DESCRIPTOR),
{
    let h = e.offset + 4;
    if h + LOCAL_FILE_HEADER_SIZE <= a.len() {
        let start = h + LOCAL_FILE_HEADER_SIZE + crate::format::le16(a, h + 22) + crate::format::le16(a, h + 24);
        if start <= a.len() {
            lemma_first_marker(a, start, DATA_DESCRIPTOR);
            if let Ok(p) = payload_outcome(a, e) {
                assert forall|j: int| !marker_at(p, j, DATA_DESCRIPTOR) by {
                    if marker_at(p, j, DATA_DESCRIPTOR) {
                        assert(marker_at(a, start + j, DATA_DESCRIPTOR));
                    }
                }
            }
        }
    }
}

/// Asking for the entry just past the last one is an index error.
pub proof fn lemma_index_past_end(z: ArchiveView, a: Seq<u8>)
    ensures
        entry_data_outcome(z, a, z.entries.len() as int) == Err::<Seq<u8>, ZipError>(
            ZipError::EntryIndexOutOfBounds,
        ),
        local_position_outcome(z, z.entries.len() as int) == Err::<u64, ZipError>(
            ZipError::EntryIndexOutOfBounds,
        ),
{
}

} // verus!
