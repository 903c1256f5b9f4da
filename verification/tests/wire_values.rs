use mcproto::bytebuf::ByteBuf;
use mcproto::wire::WireError;

#[test]
fn varint_exact_encodings() {
    let mut buf = ByteBuf::new();
    buf.write_varint(0);
    assert_eq!(buf.data, vec![0x00]);

    let mut buf = ByteBuf::new();
    buf.write_varint(127);
    assert_eq!(buf.data, vec![0x7F]);

    let mut buf = ByteBuf::new();
    buf.write_varint(128);
    assert_eq!(buf.data, vec![0x80, 0x01]);

    let mut buf = ByteBuf::new();
    buf.write_varint(-1);
    assert_eq!(buf.data.len(), 5);
    assert_eq!(buf.data, vec![0xFF, 0xFF, 0xFF, 0xFF, 0x0F]);
}

#[test]
fn varint_round_trip_extremes() {
    for v in [0, 1, -1, 127, 128, 255, 2097151, i32::MAX, i32::MIN, -2147483647] {
        let mut buf = ByteBuf::new();
        buf.write_varint(v);
        assert_eq!(buf.read_varint().unwrap(), v);
        assert_eq!(buf.remaining_len(), 0);
    }
}

#[test]
fn varint_rejects_sixth_continuation_byte() {
    let mut buf = ByteBuf::new();
    for _ in 0..5 {
        buf.write_u8(0xFF);
    }
    assert_eq!(buf.read_varint(), Err(WireError::MalformedVarInt));
}

#[test]
fn varint_incomplete_is_underrun() {
    let mut buf = ByteBuf::new();
    buf.write_u8(0x80);
    assert_eq!(buf.read_varint(), Err(WireError::BufferUnderrun));
}

#[test]
fn fixed_width_big_endian_bytes() {
    let mut buf = ByteBuf::new();
    buf.write_u16(0x0102);
    assert_eq!(buf.data, vec![0x01, 0x02]);
    assert_eq!(buf.read_u16().unwrap(), 0x0102);

    let mut buf = ByteBuf::new();
    buf.write_u32(0x01020304);
    assert_eq!(buf.data, vec![0x01, 0x02, 0x03, 0x04]);
    assert_eq!(buf.read_u32().unwrap(), 0x01020304);

    let mut buf = ByteBuf::new();
    buf.write_u64(0x0102030405060708);
    assert_eq!(buf.data, vec![0x01, 0x02, 0x03, 0x04, 0x05, 0x06, 0x07, 0x08]);
    assert_eq!(buf.read_u64().unwrap(), 0x0102030405060708);

    let mut buf = ByteBuf::new();
    buf.write_i64(-2);
    assert_eq!(buf.read_i64().unwrap(), -2);

    let mut buf = ByteBuf::new();
    buf.write_i8(-1);
    assert_eq!(buf.data, vec![0xFF]);
    assert_eq!(buf.read_i8().unwrap(), -1);

    let mut buf = ByteBuf::new();
    buf.write_i16(-1);
    assert_eq!(buf.data, vec![0xFF, 0xFF]);

    let mut buf = ByteBuf::new();
    buf.write_i32(-1);
    assert_eq!(buf.data, vec![0xFF, 0xFF, 0xFF, 0xFF]);
}

#[test]
fn read_past_end_is_underrun_not_panic() {
    let mut buf = ByteBuf::new();
    buf.write_u8(1);
    assert_eq!(buf.read_u16(), Err(WireError::BufferUnderrun));
    assert_eq!(buf.read_u32(), Err(WireError::BufferUnderrun));
    assert_eq!(buf.read_u64(), Err(WireError::BufferUnderrun));
    assert_eq!(buf.read_uuid(), Err(WireError::BufferUnderrun));
    // the failed reads consumed nothing
    assert_eq!(buf.read_u8().unwrap(), 1);
}

#[test]
fn string_round_trip_multibyte() {
    let mut buf = ByteBuf::new();
    buf.write_string("héllo wörld ✓");
    assert_eq!(buf.read_string().unwrap(), "héllo wörld ✓");
    assert_eq!(buf.remaining_len(), 0);
}

#[test]
fn string_length_beyond_buffer_is_underrun() {
    let mut buf = ByteBuf::new();
    buf.write_varint(10);
    buf.write_u8(b'a');
    buf.write_u8(b'b');
    assert_eq!(buf.read_string(), Err(WireError::BufferUnderrun));
}

#[test]
fn string_negative_length_is_malformed() {
    let mut buf = ByteBuf::new();
    buf.write_varint(-5);
    assert_eq!(buf.read_string(), Err(WireError::MalformedVarInt));
}

#[test]
fn string_invalid_utf8_is_malformed() {
    let mut buf = ByteBuf::new();
    buf.write_varint(2);
    buf.write_u8(0xC3);
    buf.write_u8(0x28);
    assert_eq!(buf.read_string(), Err(WireError::MalformedString));
}

#[test]
fn uuid_round_trip_fixed_value() {
    let mut buf = ByteBuf::new();
    let v: u128 = 0x0123456789ABCDEF_FEDCBA9876543210;
    buf.write_uuid(v);
    assert_eq!(
        buf.data,
        vec![
            0x01, 0x23, 0x45, 0x67, 0x89, 0xAB, 0xCD, 0xEF, 0xFE, 0xDC, 0xBA, 0x98, 0x76, 0x54,
            0x32, 0x10
        ]
    );
    assert_eq!(buf.read_uuid().unwrap(), v);
    assert_eq!(buf.remaining_len(), 0);
}

#[test]
fn properties_empty_list_round_trip() {
    let mut buf = ByteBuf::new();
    let properties: Vec<mcproto::property::Property> = vec![];
    buf.write_properties(&properties);
    assert_eq!(buf.data, vec![0x00]);
    let read = buf.read_properties().unwrap();
    assert_eq!(read.len(), 0);
    assert_eq!(buf.remaining_len(), 0);
}

#[test]
fn write_nbt_appends_raw_bytes() {
    let mut buf = ByteBuf::new();
    buf.write_nbt(&[0x0A, 0x00, 0x00, 0x00]);
    assert_eq!(buf.data, vec![0x0A, 0x00, 0x00, 0x00]);
}

#[test]
fn read_buf_and_read_all() {
    let mut buf = ByteBuf::new();
    buf.write_u8(1);
    buf.write_u8(2);
    buf.write_u8(3);
    assert_eq!(buf.read_u8().unwrap(), 1);
    assert_eq!(buf.read_buf(), vec![2, 3]);
    assert_eq!(buf.remaining_len(), 0);
    buf.reset_read_offset();
    assert_eq!(buf.read_all(), vec![1, 2, 3]);
    assert_eq!(buf.len(), 0);
}

#[test]
fn property_exact_wire_bytes() {
    let mut buf = ByteBuf::new();
    buf.write_property(&mcproto::property::Property {
        name: "ab".to_string(),
        value: "c".to_string(),
        signature: None,
    });
    assert_eq!(buf.data, vec![2, b'a', b'b', 1, b'c', 0]);

    let mut buf = ByteBuf::new();
    buf.write_property(&mcproto::property::Property {
        name: "a".to_string(),
        value: "b".to_string(),
        signature: Some("s".to_string()),
    });
    assert_eq!(buf.data, vec![1, b'a', 1, b'b', 1, 1, b's']);
}

#[test]
fn bool_reads_exactly_one_as_true() {
    let mut buf = ByteBuf::new();
    buf.write_bool(true);
    buf.write_bool(false);
    buf.write_u8(2);
    assert_eq!(buf.read_bool().unwrap(), true);
    assert_eq!(buf.read_bool().unwrap(), false);
    assert_eq!(buf.read_bool().unwrap(), false);
}
