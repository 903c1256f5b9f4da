use mcproto::bytebuf::ByteBuf;
use mcproto::frame::FrameReader;
use mcproto::wire::WireError;

fn framed(body: &[u8]) -> Vec<u8> {
    let mut buf = ByteBuf::new();
    buf.write_varint(body.len() as i32);
    buf.write_buf(body);
    buf.read_all()
}

#[test]
fn one_frame_in_one_chunk() {
    let body = [0x27, 1, 2, 3, 4, 5, 6, 7, 8];
    let wire = framed(&body);
    let mut reader = FrameReader::new();
    reader.push_chunk(&wire);
    let frame = reader.next_frame().unwrap().unwrap();
    assert_eq!(frame, body.to_vec());
    assert_eq!(reader.next_frame().unwrap(), None);
}

#[test]
fn one_frame_in_two_chunks() {
    let body = [0x27, 1, 2, 3, 4, 5, 6, 7, 8];
    let wire = framed(&body);
    let mut reader = FrameReader::new();
    reader.push_chunk(&wire[..4]);
    assert_eq!(reader.next_frame().unwrap(), None);
    reader.push_chunk(&wire[4..]);
    let frame = reader.next_frame().unwrap().unwrap();
    assert_eq!(frame, body.to_vec());
    assert_eq!(reader.next_frame().unwrap(), None);
}

#[test]
fn one_frame_byte_by_byte() {
    let body = [0x00, 0xAB, 0xCD];
    let wire = framed(&body);
    let mut reader = FrameReader::new();
    for i in 0..wire.len() {
        if i + 1 < wire.len() {
            reader.push_chunk(&wire[i..i + 1]);
            assert_eq!(reader.next_frame().unwrap(), None);
        } else {
            reader.push_chunk(&wire[i..i + 1]);
        }
    }
    let frame = reader.next_frame().unwrap().unwrap();
    assert_eq!(frame, body.to_vec());
}

#[test]
fn two_frames_in_one_chunk_in_order() {
    let body1 = [0x01, 0x11];
    let body2 = [0x02, 0x22, 0x33];
    let mut wire = framed(&body1);
    wire.extend_from_slice(&framed(&body2));
    let mut reader = FrameReader::new();
    reader.push_chunk(&wire);
    assert_eq!(reader.next_frame().unwrap().unwrap(), body1.to_vec());
    assert_eq!(reader.next_frame().unwrap().unwrap(), body2.to_vec());
    assert_eq!(reader.next_frame().unwrap(), None);
}

#[test]
fn split_frames_match_unsplit() {
    let body = [0x07, 9, 8, 7, 6, 5];
    let wire = framed(&body);

    let mut whole = FrameReader::new();
    whole.push_chunk(&wire);
    let unsplit = whole.next_frame().unwrap().unwrap();

    for cut in 1..wire.len() {
        let mut reader = FrameReader::new();
        reader.push_chunk(&wire[..cut]);
        let early = reader.next_frame().unwrap();
        assert_eq!(early, None);
        reader.push_chunk(&wire[cut..]);
        let frame = reader.next_frame().unwrap().unwrap();
        assert_eq!(frame, unsplit);
    }
}

#[test]
fn bad_length_prefix_is_fatal() {
    let mut reader = FrameReader::new();
    reader.push_chunk(&[0xFF, 0xFF, 0xFF, 0xFF, 0xFF]);
    assert_eq!(reader.next_frame(), Err(WireError::MalformedVarInt));
}

#[test]
fn negative_length_prefix_is_fatal() {
    let mut buf = ByteBuf::new();
    buf.write_varint(-1);
    let wire = buf.read_all();
    let mut reader = FrameReader::new();
    reader.push_chunk(&wire);
    assert_eq!(reader.next_frame(), Err(WireError::MalformedVarInt));
}

#[test]
fn empty_reader_waits() {
    let mut reader = FrameReader::new();
    assert_eq!(reader.next_frame().unwrap(), None);
}
