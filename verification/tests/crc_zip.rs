use mor_steg::crc::{crc32_bytes, Crc32};
use mor_steg::zip::{
    current_offset_u32, file_size_u32, write_end_of_central_directory, write_local_header,
    ZipError, ZipWriter,
};

#[test]
fn crc32_of_check_string() {
    assert_eq!(crc32_bytes(b"123456789"), 0xCBF4_3926);
}

#[test]
fn crc32_of_empty_input() {
    assert_eq!(crc32_bytes(b""), 0);
}

#[test]
fn crc32_in_chunks_matches_whole() {
    let data = b"The quick brown fox jumps over the lazy dog";
    let mut c = Crc32::new();
    c.update(&data[..10]);
    c.update(&data[10..]);
    assert_eq!(c.finalize(), crc32_bytes(data));
    assert_eq!(crc32_bytes(data), 0x414F_A339);
}

#[test]
fn local_header_layout() {
    let h = write_local_header(b"a.txt", 0x1122_3344, 7).unwrap();
    assert_eq!(h.len(), 30 + 5);
    assert_eq!(&h[0..4], &[0x50, 0x4b, 0x03, 0x04]);
    assert_eq!(&h[4..6], &[20, 0]);
    assert_eq!(&h[6..8], &[0x00, 0x08]);
    assert_eq!(&h[14..18], &[0x44, 0x33, 0x22, 0x11]);
    assert_eq!(&h[18..22], &[7, 0, 0, 0]);
    assert_eq!(&h[22..26], &[7, 0, 0, 0]);
    assert_eq!(&h[26..28], &[5, 0]);
    assert_eq!(&h[30..], b"a.txt");
}

#[test]
fn local_header_refuses_long_name() {
    let name = vec![b'x'; 65536];
    assert_eq!(write_local_header(&name, 0, 0), Err(ZipError::NameTooLong));
    let name = vec![b'x'; 65535];
    assert!(write_local_header(&name, 0, 0).is_ok());
}

#[test]
fn end_record_layout() {
    let e = write_end_of_central_directory(3, 0x100, 0x2000);
    assert_eq!(
        e,
        vec![0x50, 0x4b, 0x05, 0x06, 0, 0, 0, 0, 3, 0, 3, 0, 0x00, 0x01, 0, 0, 0x00, 0x20, 0, 0, 0, 0]
    );
}

#[test]
fn offsets_and_sizes_that_do_not_fit() {
    assert_eq!(current_offset_u32(u32::MAX as u64), Ok(u32::MAX));
    assert_eq!(current_offset_u32(u32::MAX as u64 + 1), Err(ZipError::ArchiveTooLarge));
    assert_eq!(file_size_u32(5), Ok(5));
    assert_eq!(file_size_u32(1 << 32), Err(ZipError::FileTooLarge));
}

#[test]
fn writer_records_offsets() {
    let mut w = ZipWriter::new();
    let a = w.add_bytes_entry("a", b"hello").unwrap();
    assert_eq!(a.len(), 30 + 1 + 5);
    assert_eq!(&a[31..], b"hello");
    assert_eq!(w.written(), 36);
    let b = w.add_file_entry("bb", 0xdead_beef, 10).unwrap();
    assert_eq!(b.len(), 32);
    assert_eq!(w.written(), 36 + 32 + 10);
    let (tail, closed) = w.finish();
    assert_eq!(closed, Ok(()));
    // two central headers (46 + 1, 46 + 2) and the end record
    assert_eq!(tail.len(), 47 + 48 + 22);
    // the second central header records the offset of the second local header
    let second = &tail[47..];
    assert_eq!(&second[0..4], &[0x50, 0x4b, 0x01, 0x02]);
    assert_eq!(&second[42..46], &[36, 0, 0, 0]);
    let end = &tail[95..];
    assert_eq!(&end[8..10], &[2, 0]);
    assert_eq!(&end[12..16], &[95, 0, 0, 0]);
    assert_eq!(&end[16..20], &[78, 0, 0, 0]);
}

#[test]
fn writer_checksums_in_memory_entries() {
    let mut w = ZipWriter::new();
    let out = w.add_bytes_entry("n", b"123456789").unwrap();
    assert_eq!(&out[14..18], &0xCBF4_3926u32.to_le_bytes());
}

#[test]
fn crc_of_empty_update_changes_nothing() {
    let mut a = Crc32::new();
    a.update(b"abc");
    a.update(&[]);
    let mut b = Crc32::new();
    b.update(b"abc");
    assert_eq!(a.finalize(), b.finalize());
}
