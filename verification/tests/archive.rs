use souls_types::bnd4::Bnd4Archive;
use souls_types::io::Error;

fn w32(out: &mut Vec<u8>, v: u32, be: bool) {
    if be {
        out.extend_from_slice(&v.to_be_bytes());
    } else {
        out.extend_from_slice(&v.to_le_bytes());
    }
}

fn w64(out: &mut Vec<u8>, v: u64, be: bool) {
    if be {
        out.extend_from_slice(&v.to_be_bytes());
    } else {
        out.extend_from_slice(&v.to_le_bytes());
    }
}

fn prologue(out: &mut Vec<u8>, be: bool, fle: bool) {
    out.extend_from_slice(b"BND4");
    out.extend_from_slice(&[0, 0]); // two recorded booleans
    out.extend_from_slice(&[0, 0, 0]); // asserted zeros
    out.push(if be { 1 } else { 0 });
    out.push(if fle { 1 } else { 0 });
    out.push(0);
}

fn header(out: &mut Vec<u8>, file_count: u32, unicode: bool, format_stored: u8, be: bool) {
    w32(out, file_count, be);
    w64(out, 64, be); // header_size
    out.extend_from_slice(b"00000001"); // version stamp
    w64(out, 0, be); // file_header_size (informational)
    w64(out, 0, be); // file_header_end (informational)
    out.push(if unicode { 1 } else { 0 });
    out.push(format_stored);
    out.push(0); // extended
    out.push(0); // asserted zero
    w32(out, 0, be); // unknown
    w64(out, 0, be); // name_buckets_offset
}

fn zlib_compress(data: &[u8]) -> Vec<u8> {
    let mut enc = flate2::write::ZlibEncoder::new(Vec::new(), flate2::Compression::default());
    std::io::Write::write_all(&mut enc, data).unwrap();
    enc.finish().unwrap()
}

fn dcx_container(algorithm: &[u8; 4], payload: &[u8], decompressed_len: u32) -> Vec<u8> {
    let mut out = Vec::new();
    out.extend_from_slice(b"DCX\0");
    out.extend_from_slice(b"DFLT"); // inner format magic
    w32(&mut out, 24, true); // dcs_offset
    w32(&mut out, 36, true); // dcp_offset
    w32(&mut out, 0, true);
    w32(&mut out, 0, true);
    out.extend_from_slice(b"DCS\0");
    w32(&mut out, payload.len() as u32, true); // compressed_size
    w32(&mut out, decompressed_len, true); // size
    out.extend_from_slice(b"DCP\0");
    out.extend_from_slice(algorithm);
    out.extend_from_slice(&[0u8; 24]); // six unknown words
    out.extend_from_slice(b"DCA\0");
    w32(&mut out, 8, true); // dca_size
    assert_eq!(out.len(), 76);
    out.extend_from_slice(payload);
    out
}

#[test]
fn end_to_end_single_named_entry() {
    let mut a = Vec::new();
    prologue(&mut a, false, true);
    header(&mut a, 1, false, 0x04, false);
    // one entry record: flag byte, zeros, reserved -1, size, offset, name offset
    a.push(0x04);
    a.extend_from_slice(&[0, 0, 0]);
    w32(&mut a, 0xFFFF_FFFF, false);
    w64(&mut a, 4, false);
    w32(&mut a, 96, false);
    w32(&mut a, 100, false);
    assert_eq!(a.len(), 88);
    a.extend_from_slice(&[0u8; 8]);
    a.extend_from_slice(b"ABCD");
    a.extend_from_slice(b"a.txt\0");

    let mut archive = Bnd4Archive::new(a).expect("archive parses");
    assert_eq!(archive.len(), 1);
    let mut f = archive.file(0).expect("entry opens");
    assert_eq!(f.name(), Some("a.txt"));
    assert_eq!(f.entry.size, 4);
    assert_eq!(f.entry.decompressed_size, None);
    assert_eq!(f.entry.id, None);
    let bytes = f.read_all();
    assert_eq!(bytes, b"ABCD".to_vec());
    assert!(f.read(16).is_empty());
}

#[test]
fn boundary_indices_are_recoverable_errors() {
    let mut a = Vec::new();
    prologue(&mut a, false, true);
    header(&mut a, 1, false, 0x04, false);
    a.push(0x04);
    a.extend_from_slice(&[0, 0, 0]);
    w32(&mut a, 0xFFFF_FFFF, false);
    w64(&mut a, 4, false);
    w32(&mut a, 96, false);
    w32(&mut a, 100, false);
    a.extend_from_slice(&[0u8; 8]);
    a.extend_from_slice(b"ABCD");
    a.extend_from_slice(b"a.txt\0");

    let mut archive = Bnd4Archive::new(a).unwrap();
    let n = archive.len();
    assert_eq!(archive.file(n).unwrap_err(), Error::IndexOutOfRange);
    assert_eq!(archive.file(n + 1).unwrap_err(), Error::IndexOutOfRange);
    assert_eq!(archive.file(usize::MAX).unwrap_err(), Error::IndexOutOfRange);
    // the archive still serves valid indices afterwards
    let mut f = archive.file(0).unwrap();
    assert_eq!(f.read_all(), b"ABCD".to_vec());
}

fn ids_and_paths_archive(fle: bool) -> Vec<u8> {
    // logical format flags {SUPPORTS_IDS, SUPPORTS_PATHS} = 0x06,
    // logical entry flags {HAS_ID, HAS_NAME} = 0x06
    let format_stored = if fle { 0x06 } else { 0x06u8.reverse_bits() };
    let entry_stored = if fle { 0x06 } else { 0x06u8.reverse_bits() };
    let mut a = Vec::new();
    prologue(&mut a, false, fle);
    header(&mut a, 1, false, format_stored, false);
    // entry record: flag, zeros, -1, size u64, offset u32, id i32, name u32
    a.push(entry_stored);
    a.extend_from_slice(&[0, 0, 0]);
    w32(&mut a, 0xFFFF_FFFF, false);
    w64(&mut a, 4, false);
    w32(&mut a, 96, false);
    w32(&mut a, 7u32, false); // id 7
    w32(&mut a, 100, false);
    assert_eq!(a.len(), 92);
    a.extend_from_slice(&[0u8; 4]);
    a.extend_from_slice(b"WXYZ");
    a.extend_from_slice(b"n\0");
    a
}

#[test]
fn flag_bit_order_is_independent_of_storage() {
    let mut direct = Bnd4Archive::new(ids_and_paths_archive(true)).expect("direct flags parse");
    let mut reversed = Bnd4Archive::new(ids_and_paths_archive(false)).expect("reversed flags parse");
    assert_eq!(direct.archive_info.format.bits, 0x06);
    assert_eq!(reversed.archive_info.format.bits, 0x06);
    assert!(direct.archive_info.format.supports_ids());
    assert!(direct.archive_info.format.supports_filenames());
    assert!(!direct.archive_info.format.has_long_offsets());

    let mut fd = direct.file(0).unwrap();
    let mut fr = reversed.file(0).unwrap();
    assert_eq!(fd.entry, fr.entry);
    assert_eq!(fd.entry.id, Some(7));
    assert_eq!(fd.name(), Some("n"));
    assert_eq!(fr.name(), Some("n"));
    assert_eq!(fd.read_all(), fr.read_all());
}

#[test]
fn name_resolution_preserves_entry_reads() {
    let mut a = Vec::new();
    prologue(&mut a, false, true);
    header(&mut a, 2, false, 0x04, false);
    // entry 0: 3 bytes at 112, name "first" at 119
    a.push(0x04);
    a.extend_from_slice(&[0, 0, 0]);
    w32(&mut a, 0xFFFF_FFFF, false);
    w64(&mut a, 3, false);
    w32(&mut a, 112, false);
    w32(&mut a, 119, false);
    // entry 1: 4 bytes at 115, name "second" at 125
    a.push(0x04);
    a.extend_from_slice(&[0, 0, 0]);
    w32(&mut a, 0xFFFF_FFFF, false);
    w64(&mut a, 4, false);
    w32(&mut a, 115, false);
    w32(&mut a, 125, false);
    assert_eq!(a.len(), 112);
    a.extend_from_slice(b"one");
    a.extend_from_slice(b"two!");
    a.extend_from_slice(b"first\0");
    a.extend_from_slice(b"second\0");

    let mut archive = Bnd4Archive::new(a).unwrap();
    let mut fa = archive.file(0).unwrap();
    assert_eq!(fa.name(), Some("first"));
    assert_eq!(fa.read_all(), b"one".to_vec());
    drop(fa);
    let mut fb = archive.file(1).unwrap();
    assert_eq!(fb.name(), Some("second"));
    assert_eq!(fb.read_all(), b"two!".to_vec());
    // and in the other order on a fresh cursor position
    let mut fa2 = archive.file(0).unwrap();
    assert_eq!(fa2.read_all(), b"one".to_vec());
}

#[test]
fn drained_length_matches_declared_length() {
    let inner = b"decompressed payload bytes!";
    let container = dcx_container(b"DFLT", &zlib_compress(inner), inner.len() as u32);

    // format {SUPPORTS_COMPRESSION, SUPPORTS_PATHS} = 0x24; records are 32 bytes
    let data0_off = 128u32;
    let data1_off = data0_off + 5;
    let name0_off = data1_off + container.len() as u32;
    let name1_off = name0_off + 4;
    let mut a = Vec::new();
    prologue(&mut a, false, true);
    header(&mut a, 2, false, 0x24, false);
    // entry 0, stored uncompressed: declared decompressed size equals size
    a.push(0x04);
    a.extend_from_slice(&[0, 0, 0]);
    w32(&mut a, 0xFFFF_FFFF, false);
    w64(&mut a, 5, false);
    w64(&mut a, 5, false);
    w32(&mut a, data0_off, false);
    w32(&mut a, name0_off, false);
    // entry 1, individually compressed: payload is a whole container
    a.push(0x24);
    a.extend_from_slice(&[0, 0, 0]);
    w32(&mut a, 0xFFFF_FFFF, false);
    w64(&mut a, container.len() as u64, false);
    w64(&mut a, inner.len() as u64, false);
    w32(&mut a, data1_off, false);
    w32(&mut a, name1_off, false);
    assert_eq!(a.len(), 128);
    a.extend_from_slice(b"plain");
    a.extend_from_slice(&container);
    a.extend_from_slice(b"one\0");
    a.extend_from_slice(b"two\0");

    let mut archive = Bnd4Archive::new(a).unwrap();
    for index in 0..archive.len() {
        let mut f = archive.file(index).expect("every entry of a valid archive opens");
        let declared = f.entry.decompressed_size.unwrap_or(f.entry.size);
        let drained = f.read_all();
        assert_eq!(drained.len() as u64, declared);
    }
    let mut f1 = archive.file(1).unwrap();
    assert_eq!(f1.name(), Some("two"));
    assert_eq!(f1.read_all(), inner.to_vec());
}

#[test]
fn unsupported_entry_compression_is_recoverable_per_entry() {
    let container = dcx_container(b"KRAK", b"whatever", 8);
    let data0_off = 128u32;
    let data1_off = data0_off + container.len() as u32;
    let name0_off = data1_off + 5;
    let name1_off = name0_off + 4;
    let mut a = Vec::new();
    prologue(&mut a, false, true);
    header(&mut a, 2, false, 0x24, false);
    a.push(0x24);
    a.extend_from_slice(&[0, 0, 0]);
    w32(&mut a, 0xFFFF_FFFF, false);
    w64(&mut a, container.len() as u64, false);
    w64(&mut a, 8, false);
    w32(&mut a, data0_off, false);
    w32(&mut a, name0_off, false);
    a.push(0x04);
    a.extend_from_slice(&[0, 0, 0]);
    w32(&mut a, 0xFFFF_FFFF, false);
    w64(&mut a, 5, false);
    w64(&mut a, 5, false);
    w32(&mut a, data1_off, false);
    w32(&mut a, name1_off, false);
    a.extend_from_slice(&container);
    a.extend_from_slice(b"plain");
    a.extend_from_slice(b"bad\0");
    a.extend_from_slice(b"ok\0");

    let mut archive = Bnd4Archive::new(a).unwrap();
    let err = archive.file(0).unwrap_err();
    assert_eq!(
        err,
        Error::UnsupportedAlgorithm { code0: b'K', code1: b'R', code2: b'A', code3: b'K' }
    );
    // the caller can skip the entry and continue with the next one
    let mut ok = archive.file(1).unwrap();
    assert_eq!(ok.read_all(), b"plain".to_vec());
}

#[test]
fn big_endian_archive_with_utf16_names() {
    let mut a = Vec::new();
    prologue(&mut a, true, true);
    header(&mut a, 1, true, 0x04, true);
    a.push(0x04);
    a.extend_from_slice(&[0, 0, 0]);
    w32(&mut a, 0xFFFF_FFFF, true);
    w64(&mut a, 2, true);
    w32(&mut a, 96, true);
    w32(&mut a, 100, true);
    a.extend_from_slice(&[0u8; 8]);
    a.extend_from_slice(b"Hi");
    a.extend_from_slice(&[0u8; 2]);
    // "Hi" in UTF-16BE, then the two-byte terminator
    a.extend_from_slice(&[0x00, 0x48, 0x00, 0x69, 0x00, 0x00]);

    let mut archive = Bnd4Archive::new(a).unwrap();
    assert!(archive.is_big_endian);
    assert!(archive.archive_info.unicode);
    let mut f = archive.file(0).unwrap();
    assert_eq!(f.name(), Some("Hi"));
    assert_eq!(f.read_all(), b"Hi".to_vec());
}

#[test]
fn little_endian_utf16_names_decode() {
    let mut a = Vec::new();
    prologue(&mut a, false, true);
    header(&mut a, 1, true, 0x04, false);
    a.push(0x04);
    a.extend_from_slice(&[0, 0, 0]);
    w32(&mut a, 0xFFFF_FFFF, false);
    w64(&mut a, 1, false);
    w32(&mut a, 96, false);
    w32(&mut a, 100, false);
    a.extend_from_slice(&[0u8; 8]);
    a.push(b'!');
    a.extend_from_slice(&[0u8; 3]);
    // "a.txt" in UTF-16LE, then the two-byte terminator
    a.extend_from_slice(&[0x61, 0x00, 0x2E, 0x00, 0x74, 0x00, 0x78, 0x00, 0x74, 0x00, 0x00, 0x00]);

    let mut archive = Bnd4Archive::new(a).unwrap();
    let mut f = archive.file(0).unwrap();
    assert_eq!(f.name(), Some("a.txt"));
    assert_eq!(f.read_all(), b"!".to_vec());
}

#[test]
fn legacy_encoding_names_decode() {
    let mut a = Vec::new();
    prologue(&mut a, false, true);
    header(&mut a, 1, false, 0x04, false);
    a.push(0x04);
    a.extend_from_slice(&[0, 0, 0]);
    w32(&mut a, 0xFFFF_FFFF, false);
    w64(&mut a, 1, false);
    w32(&mut a, 96, false);
    w32(&mut a, 100, false);
    a.extend_from_slice(&[0u8; 8]);
    a.push(b'#');
    a.extend_from_slice(&[0u8; 3]);
    // 0xB1 is halfwidth katakana in the legacy encoding, not U+00B1
    a.extend_from_slice(&[0xB1, 0x00]);

    let mut archive = Bnd4Archive::new(a).unwrap();
    let mut f = archive.file(0).unwrap();
    assert_eq!(f.name(), Some("\u{FF71}"));
    assert_eq!(f.read_all(), b"#".to_vec());
}

#[test]
fn bad_archive_magic_is_format_error() {
    let mut a = Vec::new();
    prologue(&mut a, false, true);
    header(&mut a, 0, false, 0x00, false);
    a[3] = b'X';
    assert_eq!(Bnd4Archive::new(a).unwrap_err(), Error::Format { offset: 3 });
}

#[test]
fn truncated_prologue_is_eof_error() {
    let a = b"BND4\0\0\0\0\0\0".to_vec();
    assert_eq!(Bnd4Archive::new(a).unwrap_err(), Error::UnexpectedEof { offset: 10 });
}

#[test]
fn invalid_format_flag_byte_is_format_error() {
    let mut a = Vec::new();
    prologue(&mut a, false, true);
    header(&mut a, 0, false, 0x80, false); // 0x80 is no known format flag
    assert_eq!(Bnd4Archive::new(a).unwrap_err(), Error::Format { offset: 49 });
}

#[test]
fn invalid_entry_flag_byte_is_format_error() {
    let mut a = Vec::new();
    prologue(&mut a, false, true);
    header(&mut a, 1, false, 0x04, false);
    a.push(0x81); // no known entry flag
    a.extend_from_slice(&[0, 0, 0]);
    w32(&mut a, 0xFFFF_FFFF, false);
    w64(&mut a, 0, false);
    w32(&mut a, 0, false);
    w32(&mut a, 0, false);
    assert_eq!(Bnd4Archive::new(a).unwrap_err(), Error::Format { offset: 64 });
}

#[test]
fn entry_reserved_word_must_read_minus_one() {
    let mut a = Vec::new();
    prologue(&mut a, false, true);
    header(&mut a, 1, false, 0x04, false);
    a.push(0x04);
    a.extend_from_slice(&[0, 0, 0]);
    w32(&mut a, 0xFFFF_FFFE, false); // not -1
    w64(&mut a, 0, false);
    w32(&mut a, 0, false);
    w32(&mut a, 0, false);
    assert_eq!(Bnd4Archive::new(a).unwrap_err(), Error::Format { offset: 68 });
}

#[test]
fn unterminated_name_is_eof_error() {
    let mut a = Vec::new();
    prologue(&mut a, false, true);
    header(&mut a, 1, false, 0x04, false);
    a.push(0x04);
    a.extend_from_slice(&[0, 0, 0]);
    w32(&mut a, 0xFFFF_FFFF, false);
    w64(&mut a, 4, false);
    w32(&mut a, 88, false);
    w32(&mut a, 92, false);
    a.extend_from_slice(b"DATA");
    a.extend_from_slice(b"name"); // no terminator before the end
    let total = a.len();
    let mut archive = Bnd4Archive::new(a).unwrap();
    assert_eq!(archive.file(0).unwrap_err(), Error::UnexpectedEof { offset: total });
}

#[test]
fn payload_is_bounded_by_entry_size() {
    // the declared size runs past the end of the archive: reads stop at
    // the end instead of failing or touching anything else
    let mut a = Vec::new();
    prologue(&mut a, false, true);
    header(&mut a, 1, false, 0x00, false); // no names, no ids
    a.push(0x00);
    a.extend_from_slice(&[0, 0, 0]);
    w32(&mut a, 0xFFFF_FFFF, false);
    w64(&mut a, 1000, false);
    w32(&mut a, 84, false);
    assert_eq!(a.len(), 84);
    a.extend_from_slice(b"tail");
    let mut archive = Bnd4Archive::new(a).unwrap();
    let mut f = archive.file(0).unwrap();
    assert_eq!(f.name(), None);
    assert_eq!(f.read_all(), b"tail".to_vec());
}

#[test]
fn empty_archive_parses_and_serves_no_entries() {
    let mut a = Vec::new();
    prologue(&mut a, false, true);
    header(&mut a, 0, false, 0x04, false);
    let mut archive = Bnd4Archive::new(a).unwrap();
    assert_eq!(archive.len(), 0);
    assert_eq!(archive.file(0).unwrap_err(), Error::IndexOutOfRange);
}

#[test]
fn empty_name_is_resolved_as_empty_string() {
    let mut a = Vec::new();
    prologue(&mut a, false, true);
    header(&mut a, 1, false, 0x04, false);
    a.push(0x04);
    a.extend_from_slice(&[0, 0, 0]);
    w32(&mut a, 0xFFFF_FFFF, false);
    w64(&mut a, 2, false);
    w32(&mut a, 88, false);
    w32(&mut a, 90, false);
    a.extend_from_slice(b"ok");
    a.push(0); // the name is a bare terminator
    let mut archive = Bnd4Archive::new(a).unwrap();
    let mut f = archive.file(0).unwrap();
    assert_eq!(f.name(), Some(""));
    assert_eq!(f.read_all(), b"ok".to_vec());
}

#[test]
fn long_offsets_store_the_data_offset_in_eight_bytes() {
    // format {LONG_OFFSETS, SUPPORTS_PATHS} = 0x14; records are 28 bytes
    let mut a = Vec::new();
    prologue(&mut a, false, true);
    header(&mut a, 1, false, 0x14, false);
    a.push(0x04);
    a.extend_from_slice(&[0, 0, 0]);
    w32(&mut a, 0xFFFF_FFFF, false);
    w64(&mut a, 3, false);
    w64(&mut a, 96, false); // 64-bit data offset
    w32(&mut a, 100, false);
    assert_eq!(a.len(), 92);
    a.extend_from_slice(&[0u8; 4]);
    a.extend_from_slice(b"big");
    a.push(0);
    a.extend_from_slice(b"l\0");
    let mut archive = Bnd4Archive::new(a).unwrap();
    assert!(archive.archive_info.format.has_long_offsets());
    let mut f = archive.file(0).unwrap();
    assert_eq!(f.entry.data_offset, 96);
    assert_eq!(f.name(), Some("l"));
    assert_eq!(f.read_all(), b"big".to_vec());
}
