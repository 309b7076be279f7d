use neora_protocol::wire::{
    decode_header, encode_frame, encode_header, split_frames, FramingError, WireHeader,
};

fn frame(sender: u32, opcode: u16, body: &[u8]) -> Vec<u8> {
    encode_frame(sender, opcode, body).unwrap()
}

#[test]
fn header_encodes_little_endian_words() {
    let mut out = Vec::new();
    encode_header(&mut out, WireHeader { sender_id: 0x01020304, opcode: 0x0506, body_size: 0x0708 });
    assert_eq!(out, vec![4, 3, 2, 1, 6, 5, 8, 7]);
}

#[test]
fn header_round_trip() {
    let h = WireHeader { sender_id: 77, opcode: 3, body_size: 12 };
    let mut out = vec![9u8, 9];
    encode_header(&mut out, h);
    assert_eq!(decode_header(&out, 2), h);
}

#[test]
fn two_empty_frames_yield_two_messages() {
    let mut buf = vec![0u8; 1024];
    let mut bytes = frame(1, 0, &[]);
    bytes.extend(frame(2, 1, &[]));
    buf[..bytes.len()].copy_from_slice(&bytes);
    let msgs = split_frames(&buf, bytes.len()).unwrap();
    assert_eq!(msgs.len(), 2);
    assert_eq!(msgs[0].header, WireHeader { sender_id: 1, opcode: 0, body_size: 0 });
    assert_eq!(msgs[1].header, WireHeader { sender_id: 2, opcode: 1, body_size: 0 });
    assert!(msgs[0].body.is_empty() && msgs[1].body.is_empty());
}

#[test]
fn frames_come_out_in_wire_order_with_declared_sizes() {
    let mut bytes = frame(5, 2, &[1, 2, 3, 4]);
    bytes.extend(frame(6, 0, &[]));
    bytes.extend(frame(7, 9, &[9, 8, 7, 6, 5, 4, 3, 2]));
    let msgs = split_frames(&bytes, bytes.len()).unwrap();
    assert_eq!(msgs.len(), 3);
    assert_eq!(msgs[0].header.sender_id, 5);
    assert_eq!(msgs[0].body, vec![1, 2, 3, 4]);
    assert_eq!(msgs[1].header.sender_id, 6);
    assert_eq!(msgs[1].body.len(), 0);
    assert_eq!(msgs[2].header.opcode, 9);
    assert_eq!(msgs[2].body, vec![9, 8, 7, 6, 5, 4, 3, 2]);
    for m in &msgs {
        assert_eq!(m.body.len(), m.header.body_size as usize);
    }
}

#[test]
fn empty_read_yields_no_message() {
    let buf = vec![0u8; 16];
    assert_eq!(split_frames(&buf, 0).unwrap().len(), 0);
}

#[test]
fn short_header_is_a_framing_error() {
    let bytes = frame(1, 0, &[]);
    let mut buf = bytes.clone();
    buf.extend([1u8, 2, 3]);
    assert_eq!(split_frames(&buf, buf.len()).unwrap_err(), FramingError::TruncatedHeader);
}

#[test]
fn oversized_body_is_a_framing_error() {
    let bytes = frame(1, 0, &[1, 2, 3, 4, 5, 6, 7, 8]);
    assert_eq!(split_frames(&bytes, 12).unwrap_err(), FramingError::TruncatedBody);
}

#[test]
fn frame_layout_is_header_then_body() {
    let bytes = frame(3, 1, &[0xaa, 0xbb, 0xcc, 0xdd]);
    assert_eq!(bytes, vec![3, 0, 0, 0, 1, 0, 4, 0, 0xaa, 0xbb, 0xcc, 0xdd]);
}

#[test]
fn body_longer_than_size_field_is_refused() {
    let body = vec![0u8; 0x10000];
    assert_eq!(encode_frame(1, 0, &body).unwrap_err(), FramingError::BodyTooLarge);
    assert!(encode_frame(1, 0, &body[..0xffff]).is_ok());
}
