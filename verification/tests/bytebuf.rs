use mcproto::bytebuf::ByteBuf;
use mcproto::property::Property;
use uuid::Uuid;

#[test]
pub fn test_buf_write_varint() {
    let mut buf = ByteBuf::new();
    buf.write_varint(156);

    assert_eq!(buf.read_varint().unwrap(), 156);
    assert_eq!(buf.remaining_len(), 0);
}

#[test]
pub fn test_buf_write_varint_multiple() {
    let mut buf = ByteBuf::new();
    buf.write_varint(2611);
    buf.write_varint(2611);

    assert_eq!(buf.read_varint().unwrap(), 2611);
    assert_eq!(buf.read_varint().unwrap(), 2611);
    assert_eq!(buf.remaining_len(), 0);
}

#[test]
pub fn test_buf_write_string() {
    let mut buf = ByteBuf::new();
    buf.write_string("abcde");

    let str = String::from("abcde");
    let buf_str = buf.read_string().unwrap();

    assert_eq!(str, buf_str);
    assert_eq!(buf.remaining_len(), 0);
}

#[test]
pub fn test_buf_clear() {
    let mut buf = ByteBuf::new();

    buf.write_u8(0u8);
    assert_eq!(buf.len(), 1);
    buf.clear();
    assert_eq!(buf.len(), 0);
}

#[test]
pub fn test_buf_write_uuid() {
    let mut buf = ByteBuf::new();
    let uuid = Uuid::new_v4();
    buf.write_uuid(uuid.as_u128());

    let read_uuid = Uuid::from_u128(buf.read_uuid().unwrap());
    assert_eq!(uuid, read_uuid);
    assert_eq!(buf.remaining_len(), 0);
}

#[test]
pub fn test_buf_write_property_no_signature() {
    let mut buf = ByteBuf::new();
    let property = Property {
        name: "name".to_string(),
        value: "value".to_string(),
        signature: None,
    };

    buf.write_property(&property);

    let read_property = buf.read_property().unwrap();
    assert_eq!(property, read_property);
    assert_eq!(buf.remaining_len(), 0);
}

#[test]
pub fn test_buf_write_property_with_signature() {
    let mut buf = ByteBuf::new();
    let property = Property {
        name: "name".to_string(),
        value: "value".to_string(),
        signature: Some("signature".to_string()),
    };

    buf.write_property(&property);

    let read_property = buf.read_property().unwrap();
    assert_eq!(property, read_property);
    assert_eq!(buf.remaining_len(), 0);
}

#[test]
pub fn test_buf_write_properties_no_signature() {
    let mut buf = ByteBuf::new();
    let properties = vec![
        Property {
            name: "name".to_string(),
            value: "value".to_string(),
            signature: None,
        },
        Property {
            name: "name2".to_string(),
            value: "value2".to_string(),
            signature: None,
        },
    ];

    buf.write_properties(&properties);

    let read_properties = buf.read_properties().unwrap();
    assert_eq!(properties, read_properties);
    assert_eq!(buf.remaining_len(), 0);
}

#[test]
pub fn test_buf_write_properties_with_signature() {
    let mut buf = ByteBuf::new();
    let properties = vec![
        Property {
            name: "name".to_string(),
            value: "value".to_string(),
            signature: Some("signature".to_string()),
        },
        Property {
            name: "name2".to_string(),
            value: "value2".to_string(),
            signature: Some("signature2".to_string()),
        },
    ];

    buf.write_properties(&properties);

    let read_properties = buf.read_properties().unwrap();
    assert_eq!(properties, read_properties);
    assert_eq!(buf.remaining_len(), 0);
}

#[test]
pub fn test_buf_write_properties_mixed() {
    let mut buf = ByteBuf::new();
    let properties = vec![
        Property {
            name: "name".to_string(),
            value: "value".to_string(),
            signature: None,
        },
        Property {
            name: "name2".to_string(),
            value: "value2".to_string(),
            signature: Some("signature2".to_string()),
        },
    ];

    buf.write_properties(&properties);

    let read_properties = buf.read_properties().unwrap();
    assert_eq!(properties, read_properties);
    assert_eq!(buf.remaining_len(), 0);
}

#[test]
pub fn test_buf_pop_front_i8() {
    let mut buf = ByteBuf::new();
    buf.write_u8(0x01);
    buf.write_u8(0x02);
    buf.write_u8(0x03);

    assert_eq!(buf.pop_front_i8(), 0x01);
    assert_eq!(buf.pop_front_i8(), 0x02);
    assert_eq!(buf.pop_front_i8(), 0x03);
    assert_eq!(buf.len(), 0);
}
