use async_zip::directory::{locate_trailer, trailer_search_start};
use async_zip::entry::{Compression, PayloadLimit, ZipDateTime};
use async_zip::error::{Feature, ZipError};
use async_zip::format::{
    find_marker, read_u16, read_u32, CENTRAL_DIRECTORY_FILE_HEADER, DATA_DESCRIPTOR,
    END_OF_CENTRAL_DIRECTORY,
};
use async_zip::read::{local_data_offset, ZipFileReader};

struct Spec {
    name: Vec<u8>,
    data: Vec<u8>,
    crc: u32,
    method: u16,
    descriptor: bool,
    comment: Vec<u8>,
    extra: Vec<u8>,
}

fn spec(name: &str, data: &[u8], crc: u32) -> Spec {
    Spec {
        name: name.as_bytes().to_vec(),
        data: data.to_vec(),
        crc,
        method: 0,
        descriptor: false,
        comment: Vec::new(),
        extra: Vec::new(),
    }
}

fn p16(v: &mut Vec<u8>, x: u16) {
    v.extend_from_slice(&x.to_le_bytes());
}

fn p32(v: &mut Vec<u8>, x: u32) {
    v.extend_from_slice(&x.to_le_bytes());
}

const TIME: u16 = (13 << 11) | (45 << 5) | 15;
const DATE: u16 = ((2021 - 1980) << 9) | (7 << 5) | 24;

fn trailer(out: &mut Vec<u8>, disk: u16, cd_disk: u16, n_disk: u16, n: u16, size: u32, offset: u32, comment: &[u8]) {
    p32(out, END_OF_CENTRAL_DIRECTORY);
    p16(out, disk);
    p16(out, cd_disk);
    p16(out, n_disk);
    p16(out, n);
    p32(out, size);
    p32(out, offset);
    p16(out, comment.len() as u16);
    out.extend_from_slice(comment);
}

fn build(entries: &[Spec], comment: &[u8]) -> Vec<u8> {
    let mut out = Vec::new();
    let mut offsets = Vec::new();
    for e in entries {
        offsets.push(out.len() as u32);
        let flags: u16 = if e.descriptor { 8 } else { 0 };
        let (crc, size) = if e.descriptor { (0, 0) } else { (e.crc, e.data.len() as u32) };
        p32(&mut out, 0x04034b50);
        p16(&mut out, 20);
        p16(&mut out, flags);
        p16(&mut out, e.method);
        p16(&mut out, TIME);
        p16(&mut out, DATE);
        p32(&mut out, crc);
        p32(&mut out, size);
        p32(&mut out, size);
        p16(&mut out, e.name.len() as u16);
        p16(&mut out, e.extra.len() as u16);
        out.extend_from_slice(&e.name);
        out.extend_from_slice(&e.extra);
        out.extend_from_slice(&e.data);
        if e.descriptor {
            p32(&mut out, DATA_DESCRIPTOR);
            p32(&mut out, e.crc);
            p32(&mut out, e.data.len() as u32);
            p32(&mut out, e.data.len() as u32);
        }
    }
    let cd_offset = out.len() as u32;
    for (e, off) in entries.iter().zip(offsets.iter()) {
        let flags: u16 = if e.descriptor { 8 } else { 0 };
        p32(&mut out, CENTRAL_DIRECTORY_FILE_HEADER);
        p16(&mut out, 20);
        p16(&mut out, 20);
        p16(&mut out, flags);
        p16(&mut out, e.method);
        p16(&mut out, TIME);
        p16(&mut out, DATE);
        p32(&mut out, e.crc);
        p32(&mut out, e.data.len() as u32);
        p32(&mut out, e.data.len() as u32 * 2);
        p16(&mut out, e.name.len() as u16);
        p16(&mut out, e.extra.len() as u16);
        p16(&mut out, e.comment.len() as u16);
        p16(&mut out, 0);
        p16(&mut out, 0);
        p32(&mut out, 0);
        p32(&mut out, *off);
        out.extend_from_slice(&e.name);
        out.extend_from_slice(&e.extra);
        out.extend_from_slice(&e.comment);
    }
    let cd_size = out.len() as u32 - cd_offset;
    let n = entries.len() as u16;
    trailer(&mut out, 0, 0, n, n, cd_size, cd_offset, comment);
    out
}

fn three() -> Vec<u8> {
    build(
        &[spec("a.txt", b"alpha", 11), spec("dir/b.bin", b"\x00\x01\x02", 22), spec("c", b"", 33)],
        b"",
    )
}

#[test]
fn round_trip_identity() {
    let archive = three();
    let zip = ZipFileReader::from_bytes(&archive).unwrap();
    let entries = zip.entries();
    assert_eq!(entries.len(), 3);
    assert_eq!(entries[0].name(), "a.txt");
    assert_eq!(entries[1].name(), "dir/b.bin");
    assert_eq!(entries[2].name(), "c");
    assert_eq!(entries[0].crc32(), 11);
    assert_eq!(entries[1].crc32(), 22);
    assert_eq!(entries[2].crc32(), 33);
    assert_eq!(entries[0].compressed_size(), 5);
    assert_eq!(entries[0].uncompressed_size(), 10);
    assert_eq!(entries[1].compressed_size(), 3);
    assert_eq!(entries[0].compression(), Compression::Stored);
    assert_eq!(entries[0].comment(), Some(""));
    assert!(!entries[0].data_descriptor());
    assert_eq!(entries[0].offset(), 0);
    assert_eq!(entries[1].offset(), 30 + 5 + 5);
}

#[test]
fn entry_fields_decoded() {
    let mut e = spec("x", b"data", 7);
    e.comment = b"note".to_vec();
    e.extra = vec![0xAA, 0xBB];
    e.method = 8;
    let archive = build(&[e], b"");
    let zip = ZipFileReader::from_bytes(&archive).unwrap();
    let entry = &zip.entries()[0];
    assert_eq!(entry.comment(), Some("note"));
    assert_eq!(entry.extra(), &vec![0xAA, 0xBB]);
    assert_eq!(entry.compression(), Compression::Deflate);
    assert_eq!(
        entry.last_modified(),
        ZipDateTime { year: 2021, month: 7, day: 24, hour: 13, minute: 45, second: 30 }
    );
    assert_eq!(entry.payload_limit(), PayloadLimit::Exact(4));
}

#[test]
fn non_ascii_name_decoded() {
    let archive = build(&[spec("caf\u{e9}.txt", b"x", 1)], b"");
    let zip = ZipFileReader::from_bytes(&archive).unwrap();
    assert_eq!(zip.entries()[0].name(), "caf\u{e9}.txt");
}

#[test]
fn order_independence() {
    let archive = three();
    let zip = ZipFileReader::from_bytes(&archive).unwrap();
    let ascending: Vec<Vec<u8>> = (0..3).map(|i| zip.entry_data(&archive, i).unwrap()).collect();
    assert_eq!(ascending[0], b"alpha".to_vec());
    assert_eq!(ascending[1], vec![0, 1, 2]);
    assert_eq!(ascending[2], Vec::<u8>::new());
    for &i in &[2usize, 0, 1] {
        assert_eq!(zip.entry_data(&archive, i).unwrap(), ascending[i]);
    }
}

#[test]
fn reopen_idempotence() {
    let archive = three();
    let zip = ZipFileReader::from_bytes(&archive).unwrap();
    let first = zip.entry_data(&archive, 1).unwrap();
    let second = zip.entry_data(&archive, 1).unwrap();
    assert_eq!(first, second);
    assert_eq!(first, vec![0, 1, 2]);
}

#[test]
fn empty_comment_is_none() {
    let zip = ZipFileReader::from_bytes(&three()).unwrap();
    assert_eq!(zip.comment(), None);
}

#[test]
fn short_comment_is_returned() {
    let archive = build(&[spec("a", b"1", 1)], b"hello");
    let zip = ZipFileReader::from_bytes(&archive).unwrap();
    assert_eq!(zip.comment(), Some("hello"));
}

#[test]
fn maximal_comment_is_found() {
    let comment: Vec<u8> = (0..65535u32).map(|i| b'a' + (i % 26) as u8).collect();
    let archive = build(&[spec("a", b"1", 1)], &comment);
    let zip = ZipFileReader::from_bytes(&archive).unwrap();
    assert_eq!(zip.comment().unwrap().as_bytes(), &comment[..]);
    assert_eq!(zip.entries().len(), 1);
}

#[test]
fn maximal_comment_behind_long_data() {
    let comment = vec![b'z'; 65535];
    let archive = build(&[spec("big", &vec![7u8; 100_000], 1)], &comment);
    let zip = ZipFileReader::from_bytes(&archive).unwrap();
    assert_eq!(zip.comment().unwrap().len(), 65535);
    assert_eq!(zip.entry_data(&archive, 0).unwrap().len(), 100_000);
}

#[test]
fn missing_trailer_fails() {
    let archive = vec![0u8; 1000];
    let r = ZipFileReader::from_bytes(&archive);
    assert_eq!(r.err(), Some(ZipError::UnexpectedHeaderError(0, END_OF_CENTRAL_DIRECTORY)));
    let r = ZipFileReader::from_bytes(&[]);
    assert_eq!(r.err(), Some(ZipError::UnexpectedHeaderError(0, END_OF_CENTRAL_DIRECTORY)));
}

#[test]
fn truncated_trailer_fails() {
    let mut archive = three();
    archive.truncate(archive.len() - 5);
    assert_eq!(ZipFileReader::from_bytes(&archive).err(), Some(ZipError::UnexpectedEof));
}

#[test]
fn spanned_archive_rejected() {
    let mut archive = Vec::new();
    trailer(&mut archive, 1, 0, 0, 0, 0, 0, b"");
    let r = ZipFileReader::from_bytes(&archive);
    assert_eq!(r.err(), Some(ZipError::FeatureNotSupported(Feature::SpannedArchive)));
    let mut archive = Vec::new();
    trailer(&mut archive, 0, 0, 1, 2, 0, 0, b"");
    let r = locate_trailer(&archive);
    assert_eq!(r.err(), Some(ZipError::FeatureNotSupported(Feature::SpannedArchive)));
    assert_eq!(Feature::SpannedArchive.name(), "Spanned/split files");
}

#[test]
fn unknown_length_streaming() {
    let mut a = spec("stream.bin", b"payload-bytes", 99);
    a.descriptor = true;
    let archive = build(&[a, spec("next", b"zz", 5)], b"");
    let zip = ZipFileReader::from_bytes(&archive).unwrap();
    let entry = &zip.entries()[0];
    assert!(entry.data_descriptor());
    assert_eq!(entry.compressed_size(), 13);
    assert_eq!(entry.crc32(), 99);
    assert_eq!(entry.payload_limit(), PayloadLimit::UntilMarker(DATA_DESCRIPTOR));
    assert_eq!(zip.entry_data(&archive, 0).unwrap(), b"payload-bytes".to_vec());
    assert_eq!(zip.entry_data(&archive, 1).unwrap(), b"zz".to_vec());
}

#[test]
fn unknown_length_stops_at_first_marker() {
    let mut data = b"ab".to_vec();
    data.extend_from_slice(&DATA_DESCRIPTOR.to_le_bytes());
    data.extend_from_slice(b"cd");
    let mut a = spec("s", &data, 1);
    a.descriptor = true;
    let archive = build(&[a], b"");
    let zip = ZipFileReader::from_bytes(&archive).unwrap();
    assert_eq!(zip.entry_data(&archive, 0).unwrap(), b"ab".to_vec());
}

#[test]
fn out_of_bounds_extraction() {
    let archive = three();
    let zip = ZipFileReader::from_bytes(&archive).unwrap();
    let n = zip.entries().len();
    assert_eq!(zip.entry_data(&archive, n).err(), Some(ZipError::EntryIndexOutOfBounds));
    assert_eq!(zip.local_header_position(n).err(), Some(ZipError::EntryIndexOutOfBounds));
    assert_eq!(zip.local_header_position(1), Ok(44));
}

#[test]
fn name_lookup_first_match() {
    let archive = build(
        &[spec("x", b"1", 1), spec("dup", b"first", 2), spec("dup", b"second", 3)],
        b"",
    );
    let zip = ZipFileReader::from_bytes(&archive).unwrap();
    let (i, e) = zip.entry("dup").unwrap();
    assert_eq!(i, 1);
    assert_eq!(e.crc32(), 2);
    assert_eq!(zip.entry("x").unwrap().0, 0);
    assert!(zip.entry("missing").is_none());
}

#[test]
fn unsupported_compression_rejected() {
    let mut e = spec("a", b"1", 1);
    e.method = 7;
    let archive = build(&[e], b"");
    assert_eq!(
        ZipFileReader::from_bytes(&archive).err(),
        Some(ZipError::UnsupportedCompressionError(7))
    );
}

#[test]
fn invalid_name_rejected() {
    let mut e = spec("a", b"1", 1);
    e.name = vec![0xFF, 0xFE];
    let archive = build(&[e], b"");
    assert_eq!(ZipFileReader::from_bytes(&archive).err(), Some(ZipError::InvalidText));
}

#[test]
fn bad_directory_signature_rejected() {
    let mut archive = three();
    let cd = archive.len() - 22 - (46 * 3 + 5 + 9 + 1);
    archive[cd] = 0;
    let found = u32::from_le_bytes([0, archive[cd + 1], archive[cd + 2], archive[cd + 3]]);
    assert_eq!(
        ZipFileReader::from_bytes(&archive).err(),
        Some(ZipError::UnexpectedHeaderError(found, CENTRAL_DIRECTORY_FILE_HEADER))
    );
}

#[test]
fn directory_count_past_records_fails() {
    let mut archive = three();
    let n = archive.len();
    archive[n - 12] = 4;
    archive[n - 14] = 4;
    assert_eq!(ZipFileReader::from_bytes(&archive).err(), Some(ZipError::UnexpectedHeaderError(END_OF_CENTRAL_DIRECTORY, CENTRAL_DIRECTORY_FILE_HEADER)));
}

#[test]
fn empty_archive_opens() {
    let archive = build(&[], b"");
    let zip = ZipFileReader::from_bytes(&archive).unwrap();
    assert_eq!(zip.entries().len(), 0);
    assert!(zip.entry("a").is_none());
}

#[test]
fn compression_identifiers() {
    assert_eq!(Compression::from_u16(0), Ok(Compression::Stored));
    assert_eq!(Compression::from_u16(8), Ok(Compression::Deflate));
    assert_eq!(Compression::from_u16(12), Ok(Compression::Bz));
    assert_eq!(Compression::from_u16(14), Ok(Compression::Lzma));
    assert_eq!(Compression::from_u16(93), Ok(Compression::Zstd));
    assert_eq!(Compression::from_u16(95), Ok(Compression::Xz));
    assert_eq!(Compression::from_u16(9), Err(ZipError::UnsupportedCompressionError(9)));
}

#[test]
fn packed_date_time() {
    let t = ZipDateTime::from_packed(DATE, TIME);
    assert_eq!(t, ZipDateTime { year: 2021, month: 7, day: 24, hour: 13, minute: 45, second: 30 });
    let t = ZipDateTime::from_packed(0, 0);
    assert_eq!(t, ZipDateTime { year: 1980, month: 0, day: 0, hour: 0, minute: 0, second: 0 });
}

#[test]
fn search_window_start() {
    assert_eq!(trailer_search_start(0), 0);
    assert_eq!(trailer_search_start(65557), 0);
    assert_eq!(trailer_search_start(65558), 1);
    assert_eq!(trailer_search_start(100_000), 100_000 - 65557);
}

#[test]
fn little_endian_reads_and_marker_scan() {
    let b = [0x50, 0x4b, 0x05, 0x06, 0x34, 0x12];
    assert_eq!(read_u16(&b, 4), 0x1234);
    assert_eq!(read_u32(&b, 0), END_OF_CENTRAL_DIRECTORY);
    assert_eq!(find_marker(&b, 0, END_OF_CENTRAL_DIRECTORY), Some(0));
    assert_eq!(find_marker(&b, 1, END_OF_CENTRAL_DIRECTORY), None);
    let c = [1, 2, 0x50, 0x4b, 0x05, 0x06, 0x50, 0x4b, 0x05, 0x06];
    assert_eq!(find_marker(&c, 0, END_OF_CENTRAL_DIRECTORY), Some(2));
    assert_eq!(find_marker(&c, 3, END_OF_CENTRAL_DIRECTORY), Some(6));
}

#[test]
fn local_record_skip_distance() {
    let mut h = vec![0u8; 26];
    h[22] = 5;
    h[24] = 3;
    h[25] = 1;
    assert_eq!(local_data_offset(&h), Ok(5 + 3 + 256));
    assert_eq!(local_data_offset(&h[..25]), Err(ZipError::UnexpectedEof));
}

#[test]
fn truncated_local_record_fails() {
    let archive = three();
    let zip = ZipFileReader::from_bytes(&archive).unwrap();
    let cut = &archive[..20];
    assert_eq!(zip.entry_data(cut, 0).err(), Some(ZipError::UnexpectedEof));
}

#[test]
fn locate_trailer_reports_fields() {
    let archive = build(&[spec("a", b"1", 1)], b"hi");
    let start = trailer_search_start(archive.len() as u64) as usize;
    let (t, c) = locate_trailer(&archive[start..]).unwrap();
    assert_eq!(t.num_of_entries, 1);
    assert_eq!(t.cent_dir_offset, 32);
    assert_eq!(t.size_cent_dir, 47);
    assert_eq!(c, Some("hi".to_string()));
    let zip = ZipFileReader::from_parts(&t, c, &archive[t.cent_dir_offset as usize..]).unwrap();
    assert_eq!(zip.entries()[0].name(), "a");
}
