use bmw::ser::{Reader, Serializable, SliceReader, VecWriter, Writer};

#[test]
fn ints_write_big_endian() {
    let mut w = VecWriter { buf: vec![] };
    w.write_u16(0x0102).unwrap();
    w.write_u32(0x03040506).unwrap();
    w.write_i8(-1).unwrap();
    w.write_bytes(b"ab").unwrap();
    assert_eq!(w.buf, vec![1, 2, 3, 4, 5, 6, 0xff, 0, 0, 0, 0, 0, 0, 0, 2, b'a', b'b']);
}

#[test]
fn what_is_written_reads_back() {
    let mut w = VecWriter { buf: vec![] };
    1234u64.write(&mut w).unwrap();
    true.write(&mut w).unwrap();
    65535u16.write(&mut w).unwrap();
    7u8.write(&mut w).unwrap();
    u128::MAX.write(&mut w).unwrap();
    99usize.write(&mut w).unwrap();
    w.write_i64(-5).unwrap();
    w.write_empty_bytes(3).unwrap();
    let mut r = SliceReader::new(w.buf.clone());
    assert_eq!(u64::read(&mut r).unwrap(), 1234);
    assert_eq!(bool::read(&mut r).unwrap(), true);
    assert_eq!(u16::read(&mut r).unwrap(), 65535);
    assert_eq!(u8::read(&mut r).unwrap(), 7);
    assert_eq!(u128::read(&mut r).unwrap(), u128::MAX);
    assert_eq!(usize::read(&mut r).unwrap(), 99);
    assert_eq!(r.read_i64().unwrap(), -5);
    assert!(r.read_empty_bytes(3).is_ok());
    assert!(r.read_u8().is_err());
}

#[test]
fn reader_errors() {
    let mut r = SliceReader::new(vec![2, 1]);
    assert!(bool::read(&mut r).unwrap());
    assert!(r.expect_u8(2).is_err());
    let mut r = SliceReader::new(vec![0, 5]);
    assert!(r.read_empty_bytes(2).is_err());
    let mut r = SliceReader::new(vec![1]);
    assert!(r.read_u32().is_err());
}

#[test]
fn options_and_pairs_read_back() {
    let mut w = VecWriter { buf: vec![] };
    Some(5u32).write(&mut w).unwrap();
    let none: Option<u16> = None;
    none.write(&mut w).unwrap();
    (7u8, 9u64).write(&mut w).unwrap();
    ().write(&mut w).unwrap();
    assert_eq!(w.buf[0], 1);
    assert_eq!(w.buf.len(), 1 + 4 + 1 + 1 + 8);
    let mut r = SliceReader::new(w.buf.clone());
    assert_eq!(Option::<u32>::read(&mut r).unwrap(), Some(5));
    assert_eq!(Option::<u16>::read(&mut r).unwrap(), None);
    assert_eq!(<(u8, u64)>::read(&mut r).unwrap(), (7, 9));
    assert_eq!(<()>::read(&mut r).unwrap(), ());
    let mut r = SliceReader::new(vec![3, 0, 1]);
    assert_eq!(Option::<u16>::read(&mut r).unwrap(), Some(1));
}

#[test]
fn strings_chars_and_vecs_read_back() {
    let mut w = VecWriter { buf: vec![] };
    String::from("hi").write(&mut w).unwrap();
    'x'.write(&mut w).unwrap();
    vec![3u16, 4u16].write(&mut w).unwrap();
    assert_eq!(
        w.buf,
        vec![0, 0, 0, 0, 0, 0, 0, 2, b'h', b'i', b'x', 0, 0, 0, 0, 0, 0, 0, 2, 0, 3, 0, 4]
    );
    let mut r = SliceReader::new(w.buf.clone());
    assert_eq!(String::read(&mut r).unwrap(), "hi".to_string());
    assert_eq!(char::read(&mut r).unwrap(), 'x');
    assert_eq!(Vec::<u16>::read(&mut r).unwrap(), vec![3, 4]);
    assert!(r.read_u8().is_err());
    let mut r = SliceReader::new(vec![0, 0, 0, 0, 0, 0, 0, 5, b'a']);
    assert!(String::read(&mut r).is_err());
}

#[test]
fn signed_ints_arrays_and_references() {
    let mut w = VecWriter { buf: vec![] };
    (-2i32).write(&mut w).unwrap();
    (-1i64).write(&mut w).unwrap();
    (-3i8).write(&mut w).unwrap();
    (-4i16).write(&mut w).unwrap();
    i128::MIN.write(&mut w).unwrap();
    [9u8, 8, 7].write(&mut w).unwrap();
    (&5u16).write(&mut w).unwrap();
    let mut expected = vec![0xff, 0xff, 0xff, 0xfe];
    expected.extend_from_slice(&[0xff; 8]);
    expected.push(0xfd);
    expected.extend_from_slice(&[0xff, 0xfc]);
    expected.extend_from_slice(&i128::MIN.to_be_bytes());
    expected.extend_from_slice(&[9, 8, 7, 0, 5]);
    assert_eq!(w.buf, expected);
    let mut r = SliceReader::new(w.buf.clone());
    assert_eq!(i32::read(&mut r).unwrap(), -2);
    assert_eq!(i64::read(&mut r).unwrap(), -1);
    assert_eq!(i8::read(&mut r).unwrap(), -3);
    assert_eq!(i16::read(&mut r).unwrap(), -4);
    assert_eq!(i128::read(&mut r).unwrap(), i128::MIN);
    assert_eq!(<[u8; 3]>::read(&mut r).unwrap(), [9, 8, 7]);
    assert!(<&u16>::read(&mut r).is_err());
    assert_eq!(u16::read(&mut r).unwrap(), 5);
}

#[test]
fn non_ascii_strings_read_back() {
    let mut w = VecWriter { buf: vec![] };
    String::from("é✓").write(&mut w).unwrap();
    assert_eq!(&w.buf[..8], &[0, 0, 0, 0, 0, 0, 0, 5]);
    let mut r = SliceReader::new(w.buf.clone());
    assert_eq!(String::read(&mut r).unwrap(), "é✓".to_string());
    let mut r = SliceReader::new(vec![0, 0, 0, 0, 0, 0, 0, 1, 0xff]);
    let e = String::read(&mut r).unwrap_err();
    assert_eq!(e.kind().kind_name(), bmw::error::ErrKind::Utf8);
}

#[test]
fn empty_bytes_stop_at_the_first_nonzero_byte() {
    let mut r = SliceReader::new(vec![0, 0, 7, 9, 4]);
    let e = r.read_empty_bytes(4).unwrap_err();
    assert_eq!(e.kind().message_string(), "expected 0u8".to_string());
    // the bytes up to and including the nonzero one are consumed
    assert_eq!(r.read_u8().unwrap(), 9);
    let mut w = VecWriter { buf: vec![] };
    w.write_empty_bytes(2).unwrap();
    w.write_u8(5).unwrap();
    let mut r = SliceReader::new(w.buf.clone());
    assert!(r.read_empty_bytes(2).is_ok());
    assert_eq!(r.read_u8().unwrap(), 5);
}
