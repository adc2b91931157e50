use amethyst_proto::error::DecodeError;
use amethyst_proto::error::EncodeError;
use amethyst_proto::position::Position;
use amethyst_proto::reader::DataReader;
use amethyst_proto::writer::DataWriter;

#[test]
fn reads_unsigned_integers_in_network_order() {
    let bytes = [
        0xab, 0x12, 0x34, 0xde, 0xad, 0xbe, 0xef, 0x01, 0x23, 0x45, 0x67, 0x89, 0xab, 0xcd, 0xef,
    ];
    let mut reader = DataReader::new(&bytes);
    assert_eq!(reader.remaining(), 15);
    assert_eq!(reader.read_u8(), Ok(0xab));
    assert_eq!(reader.read_u16(), Ok(0x1234));
    assert_eq!(reader.read_u32(), Ok(0xdead_beef));
    assert_eq!(reader.read_u64(), Ok(0x0123_4567_89ab_cdef));
    assert_eq!(reader.remaining(), 0);
}

#[test]
fn reads_signed_integers_in_twos_complement() {
    let bytes = [
        0xff, 0x80, 0x7f, 0xff, 0xfe, 0x80, 0x00, 0xff, 0xff, 0xff, 0xff, 0x80, 0x00, 0x00, 0x00,
        0xff, 0xff, 0xff, 0xff, 0xff, 0xff, 0xff, 0xfd, 0x80, 0, 0, 0, 0, 0, 0, 0,
    ];
    let mut reader = DataReader::new(&bytes);
    assert_eq!(reader.read_i8(), Ok(-1));
    assert_eq!(reader.read_i8(), Ok(i8::MIN));
    assert_eq!(reader.read_i8(), Ok(i8::MAX));
    assert_eq!(reader.read_i16(), Ok(-2));
    assert_eq!(reader.read_i16(), Ok(i16::MIN));
    assert_eq!(reader.read_i32(), Ok(-1));
    assert_eq!(reader.read_i32(), Ok(i32::MIN));
    assert_eq!(reader.read_i64(), Ok(-3));
    assert_eq!(reader.read_i64(), Ok(i64::MIN));
    assert_eq!(reader.remaining(), 0);
}

#[test]
fn reads_largest_signed_values() {
    let bytes = [0x7f, 0xff, 0x7f, 0xff, 0xff, 0xff, 0x7f, 0xff, 0xff, 0xff, 0xff, 0xff, 0xff, 0xff];
    let mut reader = DataReader::new(&bytes);
    assert_eq!(reader.read_i16(), Ok(i16::MAX));
    assert_eq!(reader.read_i32(), Ok(i32::MAX));
    assert_eq!(reader.read_i64(), Ok(i64::MAX));
}

#[test]
fn reading_past_the_end_is_unexpected_eof_and_moves_nothing() {
    let bytes = [0x01, 0x02, 0x03];
    let mut reader = DataReader::new(&bytes);
    assert_eq!(reader.read_u32(), Err(DecodeError::UnexpectedEof));
    assert_eq!(reader.read_i32(), Err(DecodeError::UnexpectedEof));
    assert_eq!(reader.read_u64(), Err(DecodeError::UnexpectedEof));
    assert_eq!(reader.read_i64(), Err(DecodeError::UnexpectedEof));
    assert_eq!(reader.read_position(), Err(DecodeError::UnexpectedEof));
    assert_eq!(reader.read_data_fixed(4), Err(DecodeError::UnexpectedEof));
    assert_eq!(reader.remaining(), 3);
    assert_eq!(reader.read_u16(), Ok(0x0102));
    assert_eq!(reader.read_u16(), Err(DecodeError::UnexpectedEof));
    assert_eq!(reader.read_i16(), Err(DecodeError::UnexpectedEof));
    assert_eq!(reader.read_u8(), Ok(0x03));
    assert_eq!(reader.read_u8(), Err(DecodeError::UnexpectedEof));
    assert_eq!(reader.read_i8(), Err(DecodeError::UnexpectedEof));
    assert_eq!(reader.read_bool(), Err(DecodeError::UnexpectedEof));
}

#[test]
fn reads_booleans_and_refuses_other_bytes() {
    let bytes = [0x00, 0x01, 0x02];
    let mut reader = DataReader::new(&bytes);
    assert_eq!(reader.read_bool(), Ok(false));
    assert_eq!(reader.read_bool(), Ok(true));
    assert_eq!(reader.read_bool(), Err(DecodeError::InvalidValue));
    assert_eq!(reader.remaining(), 1);
    assert_eq!(reader.read_u8(), Ok(2));
}

#[test]
fn reads_fixed_blocks() {
    let bytes = [9, 8, 7, 6, 5];
    let mut reader = DataReader::new(&bytes);
    assert_eq!(reader.read_data_fixed(0), Ok(vec![]));
    assert_eq!(reader.read_data_fixed(2), Ok(vec![9, 8]));
    assert_eq!(reader.read_data_fixed(3), Ok(vec![7, 6, 5]));
    assert_eq!(reader.read_data_fixed(0), Ok(vec![]));
    assert_eq!(reader.read_data_fixed(1), Err(DecodeError::UnexpectedEof));
}

#[test]
fn reads_blocks_behind_their_length() {
    let bytes = [0x03, 1, 2, 3, 0x00, 0x02, 4];
    let mut reader = DataReader::new(&bytes);
    assert_eq!(reader.read_data(), Ok(vec![1, 2, 3]));
    assert_eq!(reader.read_data(), Ok(vec![]));
    assert_eq!(reader.read_data(), Err(DecodeError::UnexpectedEof));
    assert_eq!(reader.remaining(), 2);
    assert_eq!(reader.read_varint(), Ok(2));
}

#[test]
fn a_negative_length_names_bytes_that_are_not_there() {
    let bytes = [0xff, 0xff, 0xff, 0xff, 0x0f, 1, 2, 3];
    let mut reader = DataReader::new(&bytes);
    assert_eq!(reader.read_data(), Err(DecodeError::UnexpectedEof));
    assert_eq!(reader.remaining(), 8);
    assert_eq!(reader.read_string(), Err(DecodeError::UnexpectedEof));
    assert_eq!(reader.remaining(), 8);
}

#[test]
fn a_length_with_a_malformed_varint_is_malformed() {
    let bytes = [0x80];
    let mut reader = DataReader::new(&bytes);
    assert_eq!(reader.read_data(), Err(DecodeError::MalformedVarint));
    assert_eq!(reader.read_string(), Err(DecodeError::MalformedVarint));
    assert_eq!(reader.remaining(), 1);
}

#[test]
fn reads_text_in_utf8() {
    let bytes = [0x05, b'h', b'e', b'l', b'l', b'o', 0x00, 0x03, 0xe2, 0x82, 0xac, 0x01, b'x'];
    let mut reader = DataReader::new(&bytes);
    assert_eq!(reader.read_string(), Ok("hello".to_string()));
    assert_eq!(reader.read_string(), Ok(String::new()));
    assert_eq!(reader.read_string(), Ok("\u{20ac}".to_string()));
    assert_eq!(reader.read_string(), Ok("x".to_string()));
    assert_eq!(reader.remaining(), 0);
}

#[test]
fn text_that_is_not_utf8_is_refused_and_moves_nothing() {
    let bytes = [0x02, 0xc3, 0x28, 0x07];
    let mut reader = DataReader::new(&bytes);
    assert_eq!(reader.read_string(), Err(DecodeError::InvalidValue));
    assert_eq!(reader.remaining(), 4);
    assert_eq!(reader.read_data(), Ok(vec![0xc3, 0x28]));
    assert_eq!(reader.read_u8(), Ok(7));
}

#[test]
fn text_cut_short_is_unexpected_eof() {
    let bytes = [0x05, b'h', b'e'];
    let mut reader = DataReader::new(&bytes);
    assert_eq!(reader.read_string(), Err(DecodeError::UnexpectedEof));
    assert_eq!(reader.remaining(), 3);
}

#[test]
fn writes_unsigned_integers_in_network_order() {
    let mut writer = DataWriter::new();
    writer.write_u8(0xab);
    writer.write_u16(0x1234);
    writer.write_u32(0xdead_beef);
    writer.write_u64(0x0123_4567_89ab_cdef);
    assert_eq!(
        writer.into_bytes(),
        vec![0xab, 0x12, 0x34, 0xde, 0xad, 0xbe, 0xef, 0x01, 0x23, 0x45, 0x67, 0x89, 0xab, 0xcd, 0xef]
    );
}

#[test]
fn writes_signed_integers_in_twos_complement() {
    let mut writer = DataWriter::new();
    writer.write_i8(-1);
    writer.write_i8(i8::MIN);
    writer.write_i8(5);
    writer.write_i16(-2);
    writer.write_i16(i16::MAX);
    writer.write_i32(-1);
    writer.write_i32(i32::MIN);
    writer.write_i32(1);
    writer.write_i64(-3);
    writer.write_i64(i64::MIN);
    writer.write_i64(i64::MAX);
    assert_eq!(
        writer.data,
        vec![
            0xff, 0x80, 0x05, 0xff, 0xfe, 0x7f, 0xff, 0xff, 0xff, 0xff, 0xff, 0x80, 0, 0, 0, 0, 0, 0,
            1, 0xff, 0xff, 0xff, 0xff, 0xff, 0xff, 0xff, 0xfd, 0x80, 0, 0, 0, 0, 0, 0, 0, 0x7f, 0xff,
            0xff, 0xff, 0xff, 0xff, 0xff, 0xff,
        ]
    );
}

#[test]
fn writes_booleans_varints_and_raw_bytes() {
    let mut writer = DataWriter::new();
    writer.write_bool(true);
    writer.write_bool(false);
    writer.write_varint(300);
    writer.write_varint(-1);
    writer.write_data(&[7, 8, 9]);
    writer.write_data(&[]);
    assert_eq!(writer.into_bytes(), vec![1, 0, 0xac, 0x02, 0xff, 0xff, 0xff, 0xff, 0x0f, 7, 8, 9]);
}

#[test]
fn writes_text_and_blocks_behind_their_length() {
    let mut writer = DataWriter::new();
    assert_eq!(writer.write_string("hello"), Ok(()));
    assert_eq!(writer.write_string(""), Ok(()));
    assert_eq!(writer.write_string("\u{20ac}"), Ok(()));
    assert_eq!(writer.write_prefixed(&[1, 2, 3]), Ok(()));
    assert_eq!(writer.write_len(128), Ok(()));
    assert_eq!(
        writer.into_bytes(),
        vec![5, b'h', b'e', b'l', b'l', b'o', 0, 3, 0xe2, 0x82, 0xac, 3, 1, 2, 3, 0x80, 0x01]
    );
}

#[test]
fn text_length_counts_bytes_not_characters() {
    let text = "a".repeat(200);
    let mut writer = DataWriter::new();
    assert_eq!(writer.write_string(&text), Ok(()));
    let bytes = writer.into_bytes();
    assert_eq!(bytes.len(), 202);
    assert_eq!(bytes[0], 0xc8);
    assert_eq!(bytes[1], 0x01);
    let mut reader = DataReader::new(&bytes);
    assert_eq!(reader.read_string(), Ok(text));
}

#[test]
fn a_length_above_the_prefix_is_refused_and_writes_nothing() {
    let mut writer = DataWriter::new();
    writer.write_u8(1);
    assert_eq!(writer.write_len(0x8000_0000), Err(EncodeError::NotEncodable));
    assert_eq!(writer.write_len(usize::MAX), Err(EncodeError::NotEncodable));
    assert_eq!(writer.write_len(0x7fff_ffff), Ok(()));
    assert_eq!(writer.into_bytes(), vec![1, 0xff, 0xff, 0xff, 0xff, 0x07]);
}

#[test]
fn packs_positions() {
    assert_eq!(Position { x: 0, y: 0, z: 0 }.pack(), 0);
    assert_eq!(Position { x: 1, y: 2, z: 3 }.pack(), 0x0000_0040_0800_0003);
    assert_eq!(Position { x: -1, y: -1, z: -1 }.pack(), u64::MAX);
    assert_eq!(Position { x: 18357644, y: 831, z: -20882616 }.pack(), 0x4607_630c_fec1_5b48);
    assert_eq!(Position { x: -33554432, y: -2048, z: -33554432 }.pack(), 0x8000_0020_0200_0000);
    assert_eq!(Position { x: 33554431, y: 2047, z: 33554431 }.pack(), 0x7fff_ffdf_fdff_ffff);
}

#[test]
fn packing_keeps_the_low_bits_of_coordinates_out_of_range() {
    assert_eq!(Position { x: 100000000, y: 5000, z: -100000000 }.pack(), 0x7d78_400e_220a_1f00);
}

#[test]
fn unpacks_positions() {
    assert_eq!(Position::unpack(0), Position { x: 0, y: 0, z: 0 });
    assert_eq!(Position::unpack(0x0000_0040_0800_0003), Position { x: 1, y: 2, z: 3 });
    assert_eq!(Position::unpack(u64::MAX), Position { x: -1, y: -1, z: -1 });
    assert_eq!(
        Position::unpack(0x4607_630c_fec1_5b48),
        Position { x: 18357644, y: 831, z: -20882616 }
    );
    assert_eq!(
        Position::unpack(0x8000_0020_0200_0000),
        Position { x: -33554432, y: -2048, z: -33554432 }
    );
}

#[test]
fn positions_in_range_round_trip() {
    let positions = [
        Position { x: 0, y: 0, z: 0 },
        Position { x: 33554431, y: 2047, z: 33554431 },
        Position { x: -33554432, y: -2048, z: -33554432 },
        Position { x: -7, y: 64, z: 12345 },
    ];
    for p in positions.iter() {
        assert_eq!(Position::unpack(p.pack()), *p);
        let mut writer = DataWriter::new();
        writer.write_position(p);
        let bytes = writer.into_bytes();
        assert_eq!(bytes.len(), 8);
        let mut reader = DataReader::new(&bytes);
        assert_eq!(reader.read_position(), Ok(*p));
    }
}

#[test]
fn writes_a_position_as_eight_bytes() {
    let mut writer = DataWriter::new();
    writer.write_position(&Position { x: 18357644, y: 831, z: -20882616 });
    assert_eq!(writer.into_bytes(), vec![70, 7, 99, 12, 254, 193, 91, 72]);
}

#[test]
fn fixed_width_values_round_trip() {
    let mut writer = DataWriter::new();
    writer.write_i64(-1234567890123);
    writer.write_u16(25565);
    writer.write_i8(-100);
    writer.write_bool(true);
    writer.write_u64(u64::MAX);
    let bytes = writer.into_bytes();
    let mut reader = DataReader::new(&bytes);
    assert_eq!(reader.read_i64(), Ok(-1234567890123));
    assert_eq!(reader.read_u16(), Ok(25565));
    assert_eq!(reader.read_i8(), Ok(-100));
    assert_eq!(reader.read_bool(), Ok(true));
    assert_eq!(reader.read_u64(), Ok(u64::MAX));
    assert_eq!(reader.remaining(), 0);
}
