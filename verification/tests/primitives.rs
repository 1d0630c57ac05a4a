use souls_types::flags::{reverse_bits, Bnd4EntryFlags, Bnd4Flags};
use souls_types::io::{invalid_data, Cursor, Error};

#[test]
fn integer_reads_follow_the_selected_byte_order() {
    let mut c = Cursor::new(vec![0x01, 0x02, 0x03, 0x04, 0x01, 0x02, 0x03, 0x04]);
    assert_eq!(c.read_u32(false).unwrap(), 0x04030201);
    assert_eq!(c.read_u32(true).unwrap(), 0x01020304);
    assert_eq!(c.position(), 8);

    let mut c = Cursor::new(vec![0x88, 0x77, 0x66, 0x55, 0x44, 0x33, 0x22, 0x11]);
    assert_eq!(c.read_u64(false).unwrap(), 0x1122334455667788);
    c.seek(0);
    assert_eq!(c.read_u64(true).unwrap(), 0x8877665544332211);
}

#[test]
fn signed_reads_are_twos_complement() {
    let mut c = Cursor::new(vec![0xFF, 0xFF, 0xFF, 0xFF, 0xFE, 0xFF, 0xFF, 0xFF]);
    assert_eq!(c.read_i32(false).unwrap(), -1);
    assert_eq!(c.read_i32(false).unwrap(), -2);
    let mut c = Cursor::new(vec![0x00, 0x00, 0x00, 0x2A]);
    assert_eq!(c.read_i32(true).unwrap(), 42);
}

#[test]
fn reads_past_the_end_fail_with_the_eof_offset() {
    let mut c = Cursor::new(vec![1, 2]);
    assert_eq!(c.read_u32(false).unwrap_err(), Error::UnexpectedEof { offset: 2 });
    c.seek(10);
    assert_eq!(c.read_u8().unwrap_err(), Error::UnexpectedEof { offset: 10 });
}

#[test]
fn expectations_report_the_first_differing_byte() {
    let mut c = Cursor::new(b"BND3".to_vec());
    assert_eq!(c.expect_magic(b'B', b'N', b'D', b'4').unwrap_err(), Error::Format { offset: 3 });
    let mut c = Cursor::new(b"BND4".to_vec());
    assert!(c.expect_magic(b'B', b'N', b'D', b'4').is_ok());
    assert_eq!(c.position(), 4);
    let mut c = Cursor::new(vec![9]);
    assert_eq!(c.expect_u8(0).unwrap_err(), Error::Format { offset: 0 });
}

#[test]
fn bool_reads_treat_only_one_as_true() {
    let mut c = Cursor::new(vec![1, 0, 2]);
    assert_eq!(c.read_bool().unwrap(), true);
    assert_eq!(c.read_bool().unwrap(), false);
    assert_eq!(c.read_bool().unwrap(), false);
}

#[test]
fn null_terminated_runs_stop_at_the_terminator() {
    let mut c = Cursor::new(b"abc\0def".to_vec());
    assert_eq!(c.read_cstr_bytes().unwrap(), b"abc".to_vec());
    assert_eq!(c.position(), 4);
    assert_eq!(c.read_cstr_bytes().unwrap_err(), Error::UnexpectedEof { offset: 7 });
}

#[test]
fn utf16_runs_consume_byte_pairs() {
    let mut c = Cursor::new(vec![0x61, 0x00, 0x00, 0x62, 0x00, 0x00, 0x63, 0x64]);
    // the lone zero bytes above are halves of different pairs, not a terminator
    assert_eq!(c.read_utf16_bytes().unwrap(), vec![0x61, 0x00, 0x00, 0x62]);
    assert_eq!(c.position(), 6);
    let mut c = Cursor::new(vec![0x61, 0x00, 0x62]);
    assert_eq!(c.read_utf16_bytes().unwrap_err(), Error::UnexpectedEof { offset: 3 });
}

#[test]
fn bulk_reads_stop_short_at_the_end() {
    let mut c = Cursor::new(b"hello".to_vec());
    assert_eq!(c.read(3), b"hel".to_vec());
    assert_eq!(c.read(99), b"lo".to_vec());
    assert_eq!(c.read(1), Vec::<u8>::new());
    c.seek(2);
    assert_eq!(c.read_bytes(3).unwrap(), b"llo".to_vec());
    assert_eq!(c.read_bytes(1).unwrap_err(), Error::UnexpectedEof { offset: 5 });
}

#[test]
fn bit_reversal_mirrors_every_bit() {
    assert_eq!(reverse_bits(0x01), 0x80);
    assert_eq!(reverse_bits(0x80), 0x01);
    assert_eq!(reverse_bits(0x06), 0x60);
    assert_eq!(reverse_bits(0x00), 0x00);
    assert_eq!(reverse_bits(0xFF), 0xFF);
    for b in 0..=255u8 {
        assert_eq!(reverse_bits(reverse_bits(b)), b);
        assert_eq!(reverse_bits(b), b.reverse_bits());
    }
}

#[test]
fn format_flags_reject_unknown_bits() {
    assert!(Bnd4Flags::from_bits(0x3F).is_some());
    assert!(Bnd4Flags::from_bits(0x40).is_none());
    assert!(Bnd4Flags::from_bits(0x80).is_none());
    let f = Bnd4Flags::from_bits(0x16).unwrap();
    assert!(f.has_long_offsets());
    assert!(f.supports_filenames());
    assert!(f.supports_ids());
    assert!(!f.supports_compression());
    let none = Bnd4Flags::from_bits(0x01).unwrap();
    assert!(!none.has_long_offsets());
    assert!(!none.supports_filenames());
    assert!(!none.supports_ids());
}

#[test]
fn entry_flags_reject_unknown_bits() {
    assert!(Bnd4EntryFlags::from_bits(0x6E).is_some());
    assert!(Bnd4EntryFlags::from_bits(0x01).is_none());
    assert!(Bnd4EntryFlags::from_bits(0x10).is_none());
    assert!(Bnd4EntryFlags::from_bits(0x80).is_none());
    assert!(Bnd4EntryFlags::from_bits(0x20).unwrap().is_compressed());
    assert!(!Bnd4EntryFlags::from_bits(0x04).unwrap().is_compressed());
}

#[test]
fn invalid_data_builds_a_format_error() {
    assert_eq!(invalid_data(17), Error::Format { offset: 17 });
}
