use wire_decoder::decoder::Decoder;
use wire_decoder::error::DecodeError;

#[test]
fn read_u8_returns_each_byte_in_turn() {
    let buffer = [0x00u8, 0x7f, 0xff];
    let mut decoder = Decoder::new(&buffer);
    assert_eq!(decoder.read_u8(), Ok(0));
    assert_eq!(decoder.read_u8(), Ok(0x7f));
    assert_eq!(decoder.read_u8(), Ok(0xff));
    assert_eq!(decoder.read_u8(), Err(DecodeError::EndOfBuffer { index: 4 }));
}

#[test]
fn read_u16_is_big_endian() {
    let buffer = [0x12u8, 0x34];
    let mut decoder = Decoder::new(&buffer);
    assert_eq!(decoder.read_u16(), Ok(0x1234));
    assert_eq!(decoder.buffer(), &[] as &[u8]);
}

#[test]
fn read_u32_is_big_endian() {
    let buffer = [0x12u8, 0x34, 0x56, 0x78];
    let mut decoder = Decoder::new(&buffer);
    assert_eq!(decoder.read_u32(), Ok(0x1234_5678));
    assert_eq!(decoder.buffer(), &[] as &[u8]);
}

#[test]
fn read_u64_is_big_endian() {
    let buffer = [0x01u8, 0x23, 0x45, 0x67, 0x89, 0xab, 0xcd, 0xef];
    let mut decoder = Decoder::new(&buffer);
    assert_eq!(decoder.read_u64(), Ok(0x0123_4567_89ab_cdef));
    assert_eq!(decoder.buffer(), &[] as &[u8]);
}

#[test]
fn read_i32_is_twos_complement() {
    let buffer = [0xffu8, 0xff, 0xff, 0xfe, 0x00, 0x00, 0x00, 0x02, 0x80, 0x00, 0x00, 0x01];
    let mut decoder = Decoder::new(&buffer);
    assert_eq!(decoder.read_i32(), Ok(-2));
    assert_eq!(decoder.read_i32(), Ok(2));
    assert_eq!(decoder.read_i32(), Ok(-2147483647));
}

#[test]
fn u8_round_trip_at_the_bounds() {
    for value in [0u8, 1, u8::MAX] {
        let buffer = value.to_be_bytes();
        assert_eq!(Decoder::new(&buffer).read_u8(), Ok(value));
    }
}

#[test]
fn u16_round_trip_at_the_bounds() {
    for value in [0u16, 1, 0x00ff, 0x0100, u16::MAX] {
        let buffer = value.to_be_bytes();
        assert_eq!(Decoder::new(&buffer).read_u16(), Ok(value));
    }
}

#[test]
fn u32_round_trip_at_the_bounds() {
    for value in [0u32, 1, 42, 0x7fff_ffff, 0x8000_0000, u32::MAX] {
        let buffer = value.to_be_bytes();
        assert_eq!(Decoder::new(&buffer).read_u32(), Ok(value));
    }
}

#[test]
fn u64_round_trip_at_the_bounds() {
    for value in [0u64, 1, 0xffff_ffff, 0x1_0000_0000, 0x7fff_ffff_ffff_ffff, u64::MAX] {
        let buffer = value.to_be_bytes();
        assert_eq!(Decoder::new(&buffer).read_u64(), Ok(value));
    }
}

#[test]
fn i32_round_trip_at_the_bounds() {
    for value in [0i32, 1, -1, 42, -42, i32::MAX, i32::MIN] {
        let buffer = value.to_be_bytes();
        assert_eq!(Decoder::new(&buffer).read_i32(), Ok(value));
    }
}

#[test]
fn typed_reads_advance_by_their_width() {
    let buffer = [0u8; 32];
    let mut decoder = Decoder::new(&buffer);
    assert_eq!(decoder.buffer().len(), 32);
    decoder.read_u8().unwrap();
    assert_eq!(decoder.buffer().len(), 31);
    decoder.read_u16().unwrap();
    assert_eq!(decoder.buffer().len(), 29);
    decoder.read_u32().unwrap();
    assert_eq!(decoder.buffer().len(), 25);
    decoder.read_i32().unwrap();
    assert_eq!(decoder.buffer().len(), 21);
    decoder.read_u64().unwrap();
    assert_eq!(decoder.buffer().len(), 13);
    decoder.read_bool().unwrap();
    assert_eq!(decoder.buffer().len(), 12);
    decoder.read::<5>().unwrap();
    assert_eq!(decoder.buffer().len(), 7);
    decoder.read_slice(7).unwrap();
    assert_eq!(decoder.buffer().len(), 0);
}

#[test]
fn short_buffer_fails_each_typed_read_and_keeps_the_position() {
    let buffer = [0xaau8];
    let mut decoder = Decoder::new(&buffer);
    assert_eq!(decoder.read_u16(), Err(DecodeError::EndOfBuffer { index: 2 }));
    assert_eq!(decoder.read_u32(), Err(DecodeError::EndOfBuffer { index: 4 }));
    assert_eq!(decoder.read_i32(), Err(DecodeError::EndOfBuffer { index: 4 }));
    assert_eq!(decoder.read_u64(), Err(DecodeError::EndOfBuffer { index: 8 }));
    assert_eq!(decoder.buffer(), &[0xaau8]);
    assert_eq!(decoder.read_u8(), Ok(0xaa));
    assert_eq!(decoder.read_u8(), Err(DecodeError::EndOfBuffer { index: 2 }));
    assert_eq!(decoder.read_bool(), Err(DecodeError::EndOfBuffer { index: 2 }));
    assert_eq!(decoder.buffer(), &[] as &[u8]);
}

#[test]
fn read_bool_is_true_for_one_only() {
    let buffer = [0x01u8, 0x00, 0x02, 0xff];
    let mut decoder = Decoder::new(&buffer);
    assert_eq!(decoder.read_bool(), Ok(true));
    assert_eq!(decoder.read_bool(), Ok(false));
    assert_eq!(decoder.read_bool(), Ok(false));
    assert_eq!(decoder.read_bool(), Ok(false));
}

#[test]
fn read_u32_of_forty_two_leaves_nothing() {
    let buffer = [0x00u8, 0x00, 0x00, 0x2a];
    let mut decoder = Decoder::new(&buffer);
    assert_eq!(decoder.read_u32(), Ok(42));
    assert!(decoder.buffer().is_empty());
}

#[test]
fn be_value_reads_up_to_eight_bytes() {
    assert_eq!(wire_decoder::endian::be_value(&[]), 0);
    assert_eq!(wire_decoder::endian::be_value(&[0x2a]), 42);
    assert_eq!(wire_decoder::endian::be_value(&[0x01, 0x00]), 256);
    assert_eq!(wire_decoder::endian::be_value(&[0x01, 0x02, 0x03]), 0x010203);
    assert_eq!(wire_decoder::endian::be_value(&[0xff; 8]), u64::MAX);
}
