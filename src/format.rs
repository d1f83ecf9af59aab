//! Byte-level building blocks of the archive format: little-endian fields,
//! record signatures, marker scanning and text decoding.
use vstd::prelude::*;
use vstd::utf8::{decode_utf8, valid_utf8};

verus! {

/// Signature of a local record.
pub const LOCAL_FILE_HEADER: u32 = 0x04034b50;

/// Signature of a directory-entry record.
pub const CENTRAL_DIRECTORY_FILE_HEADER: u32 = 0x02014b50;

/// Signature of the trailer record.
pub const END_OF_CENTRAL_DIRECTORY: u32 = 0x06054b50;

/// Signature of the descriptor record that follows a payload of unknown length.
pub const DATA_DESCRIPTOR: u32 = 0x08074b50;

/// The little-endian 16-bit value stored at `b[i..i + 2]`.
pub open spec fn le16(b: Seq<u8>, i: int) -> int {
    b[i] as int + 256 * b[i + 1] as int
}

/// The little-endian 32-bit value stored at `b[i..i + 4]`.
pub open spec fn le32(b: Seq<u8>, i: int) -> int {
    le16(b, i) + 65536 * le16(b, i + 2)
}

/// The four bytes at `i` are present and spell the marker `m`.
pub open spec fn marker_at(b: Seq<u8>, i: int, m: u32) -> bool {
    0 <= i && i + 4 <= b.len() && le32(b, i) == m
}

/// The position of the first occurrence of `m` at or after `i`, if any.
pub open spec fn first_marker_from(b: Seq<u8>, i: int, m: u32) -> Option<int>
    decreases b.len() - i,
{
    if i < 0 || i + 4 > b.len() {
        None
    } else if marker_at(b, i, m) {
        Some(i)
    } else {
        first_marker_from(b, i + 1, m)
    }
}

/// The first marker found from `i` is an occurrence, and none lies between `i` and it;
/// when none is found, no occurrence lies at or after `i`.
pub proof fn lemma_first_marker(b: Seq<u8>, i: int, m: u32)
    requires
        0 <= i,
    ensures
        match first_marker_from(b, i, m) {
            Some(k) => i <= k && marker_at(b, k, m) && forall|j: int|
                i <= j < k ==> !marker_at(b, j, m),
            None => forall|j: int| i <= j ==> !marker_at(b, j, m),
        },
    decreases b.len() - i,
{
    if i + 4 <= b.len() && !marker_at(b, i, m) {
        lemma_first_marker(b, i + 1, m);
    }
}

/// Reads the little-endian 16-bit value at `i`.
pub fn read_u16(b: &[u8], i: usize) -> (r: u16)
    requires
        i + 2 <= b@.len(),
    ensures
        r as int == le16(b@, i as int),
{
    b[i] as u16 + 256 * (b[i + 1] as u16)
}

/// Reads the little-endian 32-bit value at `i`.
pub fn read_u32(b: &[u8], i: usize) -> (r: u32)
    requires
        i + 4 <= b@.len(),
    ensures
        r as int == le32(b@, i as int),
{
    let len = b.len();
    assert(i + 2 <= len);
    let lo = read_u16(b, i) as u32;
    let hi = read_u16(b, i + 2) as u32;
    lo + 65536 * hi
}

/// Scans forward from `start` for the first occurrence of the marker `m`.
pub fn find_marker(b: &[u8], start: usize, m: u32) -> (r: Option<usize>)
    ensures
        r == (match first_marker_from(b@, start as int, m) {
            Some(k) => Some(k as usize),
            None => None::<usize>,
        }),
{
    let mut i: usize = start;
    while i < b.len() && b.len() - i >= 4
        invariant
            start <= i,
            first_marker_from(b@, start as int, m) == first_marker_from(b@, i as int, m),
        decreases b.len() - i,
    {
        if read_u32(b, i) == m {
            return Some(i);
        }
        i = i + 1;
    }
    None
}

/// Copies `b[i..j]` out of a byte slice.
pub fn copy_range(b: &[u8], i: usize, j: usize) -> (r: Vec<u8>)
    requires
        i <= j <= b@.len(),
    ensures
        r@ == b@.subrange(i as int, j as int),
{
    vstd::slice::slice_to_vec(vstd::slice::slice_subrange(b, i, j))
}

/// Relies on `String::from_utf8`: it accepts exactly the valid UTF-8 byte
/// sequences and yields the characters they encode.
#[verifier::external_body]
pub(crate) fn decode_text(bytes: Vec<u8>) -> (r: Option<String>)
    ensures
        r is Some <==> valid_utf8(bytes@),
        r matches Some(s) ==> s@ == decode_utf8(bytes@),
{
    String::from_utf8(bytes).ok()
}

} // verus!
