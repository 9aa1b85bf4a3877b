use bytebuffer_adv::{BufferError, ByteBufferAdv, Endian};

#[test]
fn new_buffer_is_empty_and_big_endian() {
    let buf = ByteBufferAdv::new();
    assert_eq!(buf.len(), 0);
    assert!(buf.is_empty());
    assert_eq!(buf.wpos(), 0);
    assert_eq!(buf.rpos(), 0);
    assert_eq!(buf.endian(), Endian::BigEndian);
    let d = ByteBufferAdv::default();
    assert!(d.is_empty());
    assert_eq!(d.endian(), Endian::BigEndian);
}

#[test]
fn from_bytes_copies_and_sets_write_cursor() {
    let buf = ByteBufferAdv::from_bytes(&[1, 2, 3]);
    assert_eq!(buf.as_bytes(), &[1, 2, 3]);
    assert_eq!(buf.wpos(), 3);
    assert_eq!(buf.rpos(), 0);
    assert!(!buf.is_empty());
}

#[test]
fn from_vec_and_into_vec() {
    let buf = ByteBufferAdv::from_vec(vec![9, 8, 7, 6]);
    assert_eq!(buf.len(), 4);
    assert_eq!(buf.wpos(), 4);
    assert_eq!(buf.rpos(), 0);
    assert_eq!(buf.into_vec(), vec![9, 8, 7, 6]);
}

#[test]
fn raw_round_trip() {
    let mut buf = ByteBufferAdv::new();
    let data = [0u8, 255, 17, 42, 128];
    buf.write_bytes(&data);
    assert_eq!(buf.read_bytes(data.len()), Ok(data.to_vec()));
    let mut empty = ByteBufferAdv::new();
    empty.write_bytes(&[]);
    assert_eq!(empty.read_bytes(0), Ok(vec![]));
}

#[test]
fn u32_big_endian_bytes() {
    let mut buf = ByteBufferAdv::new();
    buf.write_u32(0x01020304);
    assert_eq!(buf.read_bytes(4), Ok(vec![1, 2, 3, 4]));
}

#[test]
fn u32_little_endian_bytes() {
    let mut buf = ByteBufferAdv::new();
    buf.set_endian(Endian::LittleEndian);
    assert_eq!(buf.endian(), Endian::LittleEndian);
    buf.write_u32(0x01020304);
    assert_eq!(buf.read_bytes(4), Ok(vec![4, 3, 2, 1]));
}

#[test]
fn other_widths_in_both_orders() {
    let mut buf = ByteBufferAdv::new();
    buf.write_u8(0xAB);
    buf.write_u16(0x0102);
    buf.write_u64(0x0102030405060708);
    buf.write_u128(0x0102030405060708090A0B0C0D0E0F10);
    let mut expected = vec![0xAB, 1, 2, 1, 2, 3, 4, 5, 6, 7, 8];
    expected.extend(1u8..=16);
    assert_eq!(buf.as_bytes(), expected.as_slice());

    let mut le = ByteBufferAdv::new();
    le.set_endian(Endian::LittleEndian);
    le.write_u16(0x0102);
    le.write_u64(0x0102030405060708);
    le.write_u128(0x0102030405060708090A0B0C0D0E0F10);
    let mut expected = vec![2, 1, 8, 7, 6, 5, 4, 3, 2, 1];
    expected.extend((1u8..=16).rev());
    assert_eq!(le.as_bytes(), expected.as_slice());
}

#[test]
fn signed_writes_keep_twos_complement_bits() {
    let mut buf = ByteBufferAdv::new();
    buf.write_i8(-1);
    buf.write_i16(-2);
    buf.write_i32(-3);
    buf.write_i64(1);
    buf.write_i128(-1);
    let mut expected = vec![0xFF, 0xFF, 0xFE, 0xFF, 0xFF, 0xFF, 0xFD, 0, 0, 0, 0, 0, 0, 0, 1];
    expected.extend([0xFFu8; 16]);
    assert_eq!(buf.as_bytes(), expected.as_slice());
}

#[test]
fn typed_reads_round_trip_in_both_orders() {
    for endian in [Endian::BigEndian, Endian::LittleEndian] {
        let mut buf = ByteBufferAdv::new();
        buf.set_endian(endian);
        buf.write_u8(200);
        buf.write_u16(0xBEEF);
        buf.write_u32(0xDEADBEEF);
        buf.write_u64(0x0123456789ABCDEF);
        buf.write_u128(u128::MAX - 5);
        buf.write_i8(-100);
        buf.write_i16(-12345);
        buf.write_i32(i32::MIN);
        buf.write_i64(-42);
        buf.write_i128(i128::MIN + 7);
        assert_eq!(buf.read_u8(), Ok(200));
        assert_eq!(buf.read_u16(), Ok(0xBEEF));
        assert_eq!(buf.read_u32(), Ok(0xDEADBEEF));
        assert_eq!(buf.read_u64(), Ok(0x0123456789ABCDEF));
        assert_eq!(buf.read_u128(), Ok(u128::MAX - 5));
        assert_eq!(buf.read_i8(), Ok(-100));
        assert_eq!(buf.read_i16(), Ok(-12345));
        assert_eq!(buf.read_i32(), Ok(i32::MIN));
        assert_eq!(buf.read_i64(), Ok(-42));
        assert_eq!(buf.read_i128(), Ok(i128::MIN + 7));
        assert_eq!(buf.read_u8(), Err(BufferError::InsufficientData));
    }
}

#[test]
fn typed_reads_decode_given_bytes() {
    let mut buf = ByteBufferAdv::from_bytes(&[1, 2, 1, 2, 3, 4]);
    assert_eq!(buf.read_u16(), Ok(0x0102));
    assert_eq!(buf.read_u32(), Ok(0x01020304));
    let mut le = ByteBufferAdv::from_bytes(&[1, 2, 1, 2, 3, 4, 5, 6, 7, 8]);
    le.set_endian(Endian::LittleEndian);
    assert_eq!(le.read_u16(), Ok(0x0201));
    assert_eq!(le.read_u64(), Ok(0x0807060504030201));
    let mut wide = ByteBufferAdv::from_bytes(&[0xFF; 16]);
    assert_eq!(wide.read_i128(), Ok(-1));
}

#[test]
fn writes_never_shrink_storage() {
    let mut buf = ByteBufferAdv::from_bytes(&[1, 2, 3, 4, 5, 6]);
    buf.reset_cursors();
    let before = buf.len();
    buf.write_u16(0xAAAA);
    assert_eq!(buf.len(), before);
    assert_eq!(buf.as_bytes(), &[0xAA, 0xAA, 3, 4, 5, 6]);
    buf.write_bytes(&[7, 7, 7, 7, 7]);
    assert_eq!(buf.len(), 7);
    assert_eq!(buf.as_bytes(), &[0xAA, 0xAA, 7, 7, 7, 7, 7]);
}

#[test]
fn resize_grows_with_zeros_and_refuses_to_shrink() {
    let mut buf = ByteBufferAdv::from_bytes(&[1, 2]);
    assert_eq!(buf.resize(5), Ok(()));
    assert_eq!(buf.as_bytes(), &[1, 2, 0, 0, 0]);
    assert_eq!(buf.resize(5), Ok(()));
    assert_eq!(buf.len(), 5);
    assert_eq!(buf.resize(3), Err(BufferError::WouldShrink));
    assert_eq!(buf.as_bytes(), &[1, 2, 0, 0, 0]);
    assert_eq!(buf.wpos(), 2);
}

#[test]
fn cursors_advance_by_exactly_the_byte_count() {
    let mut buf = ByteBufferAdv::new();
    buf.write_bytes(&[1, 2, 3]);
    assert_eq!(buf.wpos(), 3);
    buf.write_u64(7);
    assert_eq!(buf.wpos(), 11);
    buf.write_string("abc");
    assert_eq!(buf.wpos(), 18);
    assert_eq!(buf.read_bytes(2), Ok(vec![1, 2]));
    assert_eq!(buf.rpos(), 2);
    assert_eq!(buf.read_bytes(5).map(|v| v.len()), Ok(5));
    assert_eq!(buf.rpos(), 7);
    assert_eq!(buf.wpos(), 18);
}

#[test]
fn reading_past_the_end_fails_and_keeps_the_cursor() {
    let mut buf = ByteBufferAdv::from_bytes(&[1, 2, 3]);
    assert_eq!(buf.read_bytes(1), Ok(vec![1]));
    assert_eq!(buf.read_bytes(3), Err(BufferError::InsufficientData));
    assert_eq!(buf.rpos(), 1);
    assert_eq!(buf.read_u32(), Err(BufferError::InsufficientData));
    assert_eq!(buf.rpos(), 1);
    assert_eq!(buf.read_bytes(usize::MAX), Err(BufferError::InsufficientData));
    assert_eq!(buf.read_bytes(2), Ok(vec![2, 3]));
    assert_eq!(buf.read_bytes(1), Err(BufferError::InsufficientData));
}

#[test]
fn string_is_length_prefixed() {
    let mut buf = ByteBufferAdv::new();
    buf.write_string("hi");
    assert_eq!(buf.as_bytes(), &[0, 0, 0, 2, 0x68, 0x69]);
    let mut le = ByteBufferAdv::new();
    le.set_endian(Endian::LittleEndian);
    le.write_string("hi");
    assert_eq!(le.as_bytes(), &[2, 0, 0, 0, 0x68, 0x69]);
    let mut empty = ByteBufferAdv::new();
    empty.write_string("");
    assert_eq!(empty.as_bytes(), &[0, 0, 0, 0]);
}

#[test]
fn strings_read_back() {
    let mut buf = ByteBufferAdv::new();
    buf.write_string("hé!");
    buf.write_string("");
    assert_eq!(buf.read_string(), Ok(String::from("hé!")));
    assert_eq!(buf.read_string(), Ok(String::new()));
    assert_eq!(buf.read_string(), Err(BufferError::InsufficientData));
}

#[test]
fn failed_string_reads_consume_nothing() {
    let mut short = ByteBufferAdv::from_bytes(&[0, 0, 0, 5, b'a']);
    assert_eq!(short.read_string(), Err(BufferError::InsufficientData));
    assert_eq!(short.rpos(), 0);
    let mut bad = ByteBufferAdv::from_bytes(&[0, 0, 0, 2, 0xC3, 0x28]);
    assert_eq!(bad.read_string(), Err(BufferError::InvalidUtf8));
    assert_eq!(bad.rpos(), 0);
    assert_eq!(bad.read_u32(), Ok(2));
}

#[test]
fn clear_resets_everything() {
    let mut buf = ByteBufferAdv::from_bytes(&[1, 2, 3, 4]);
    buf.set_endian(Endian::LittleEndian);
    assert_eq!(buf.read_bytes(2), Ok(vec![1, 2]));
    buf.clear();
    assert_eq!(buf.len(), 0);
    assert!(buf.is_empty());
    assert_eq!(buf.wpos(), 0);
    assert_eq!(buf.rpos(), 0);
    assert_eq!(buf.wbit(), 0);
    assert_eq!(buf.rbit(), 0);
    assert_eq!(buf.endian(), Endian::LittleEndian);
}

#[test]
fn reset_cursors_and_bits_keep_storage() {
    let mut buf = ByteBufferAdv::from_bytes(&[5, 6, 7]);
    assert_eq!(buf.read_bytes(2), Ok(vec![5, 6]));
    buf.reset_cursors();
    assert_eq!(buf.wpos(), 0);
    assert_eq!(buf.rpos(), 0);
    assert_eq!(buf.as_bytes(), &[5, 6, 7]);
    buf.reset_bits_cursors();
    assert_eq!(buf.wbit(), 0);
    assert_eq!(buf.rbit(), 0);
    buf.flush_bits();
    assert_eq!(buf.rpos(), 0);
    assert_eq!(buf.wpos(), 0);
    assert_eq!(buf.read_bytes(3), Ok(vec![5, 6, 7]));
}

#[test]
fn read_into_larger_destination_returns_remaining() {
    let mut buf = ByteBufferAdv::from_bytes(&[1, 2, 3, 4, 5]);
    assert_eq!(buf.read_bytes(2), Ok(vec![1, 2]));
    let mut dest = [9u8; 8];
    assert_eq!(buf.read_into(&mut dest), 3);
    assert_eq!(dest, [3, 4, 5, 9, 9, 9, 9, 9]);
    assert_eq!(buf.rpos(), 5);
    assert_eq!(buf.read_into(&mut dest), 0);
    assert_eq!(dest, [3, 4, 5, 9, 9, 9, 9, 9]);
}

#[test]
fn read_into_smaller_destination_fills_it() {
    let mut buf = ByteBufferAdv::from_bytes(&[1, 2, 3, 4, 5]);
    let mut dest = [0u8; 2];
    assert_eq!(buf.read_into(&mut dest), 2);
    assert_eq!(dest, [1, 2]);
    assert_eq!(buf.rpos(), 2);
    let mut none: [u8; 0] = [];
    assert_eq!(buf.read_into(&mut none), 0);
    assert_eq!(buf.rpos(), 2);
}

#[test]
fn remaining_data_is_the_unread_tail() {
    let mut buf = ByteBufferAdv::from_bytes(&[1, 2, 3, 4]);
    assert_eq!(buf.remaining_data(), vec![1, 2, 3, 4]);
    assert_eq!(buf.read_bytes(3), Ok(vec![1, 2, 3]));
    assert_eq!(buf.remaining_data(), vec![4]);
    assert_eq!(buf.len(), 4);
}

#[test]
fn error_messages_describe_the_failure() {
    assert_eq!(
        BufferError::InsufficientData.message(),
        "Could not read enough bytes from buffer"
    );
    assert!(!BufferError::WouldShrink.message().is_empty());
    assert!(!BufferError::InvalidUtf8.message().is_empty());
}
