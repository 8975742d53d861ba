use oxui::bytes::ByteReader;
use oxui::bytes::ByteWriter;
use oxui::cipher::Uncreative;
use oxui::hash::hash;
use oxui::ws::encode_frame;
use oxui::ws::get_payloadlen;
use oxui::ws::ping_frame;
use oxui::ws::pong_frame;
use oxui::ws::websocket_accept_key;
use oxui::ws::websocket_handshake_response;
use oxui::ws::MessageDataType;
use oxui::ws::MessageLen;
use oxui::RGB;
use oxui::RGBA;

#[test]
fn rgba_packs_little_endian() {
    let c = RGBA::new(1, 2, 3, 4);
    assert_eq!(c.as_u32(), 0x04030201);
    assert_eq!(c.to_rgb(), RGB::new(1, 2, 3));
}

#[test]
fn hash_exact_values() {
    assert_eq!(hash(0), 1739749167);
    assert_eq!(hash(1), 150776505);
    assert_eq!(hash(100), 3591496438);
}

#[test]
fn byte_writer_reader_round_trip() {
    let mut w = ByteWriter::new();
    w.write_byte(7);
    w.write_bool(true);
    w.write_be_u16(0x1234);
    w.write_u16(0x5678);
    w.write_be_u32(0xdeadbeef);
    w.write_u32(0xcafef00d);
    let buf = w.finish();
    let mut r = ByteReader::new(buf);
    assert_eq!(r.read_byte(), 7);
    assert!(r.read_bool());
    assert_eq!(r.read_be_u16(), 0x1234);
    assert_eq!(r.read_le_u16(), 0x5678);
    assert_eq!(r.read_be_u32(), 0xdeadbeef);
    assert_eq!(r.read_le_u32(), 0xcafef00d);
    assert!(r.is_read_finished());
}

#[test]
fn byte_writer_be_u64_and_strings() {
    let mut w = ByteWriter::new();
    w.write_be_u64(0x0102030405060708);
    w.write_string("ok");
    let buf = w.finish();
    assert_eq!(&buf[..8], &[1, 2, 3, 4, 5, 6, 7, 8]);
    assert_eq!(&buf[8..], b"ok");
    let mut r = ByteReader::new(buf);
    assert_eq!(r.read_be_u64(), 0x0102030405060708);
    assert_eq!(r.read_string(2), "ok");
}

#[test]
fn byte_reader_positions() {
    let mut r = ByteReader::new(vec![1, 2, 3, 4, 5]);
    r.skip_bytes(1);
    assert_eq!(r.position(), 1);
    assert_eq!(r.read_byte(), 2);
    r.set_position(0);
    assert_eq!(r.read_bytes(3), vec![1, 2, 3]);
    assert_eq!(r.remaining_bytes(), &[4, 5]);
    assert_eq!(r.get_remaining(), &[4]);
    assert_eq!(r.as_ref().len(), 5);
    let back = r.into_inner();
    assert_eq!(back, vec![1, 2, 3, 4, 5]);
}

#[test]
fn cipher_round_trip() {
    let data = b"hello";
    let enc = Uncreative::encrypt_data(data, data.len(), 0x1234).unwrap();
    assert_eq!(enc.len(), 15);
    assert_eq!(&enc[10..], &[178, 68, 242, 212, 194]);
    let dec = Uncreative::decrypt_data(&enc, enc.len()).unwrap();
    assert_eq!(dec, data.to_vec());
}

#[test]
fn cipher_rejects_bad_input() {
    assert!(Uncreative::encrypt_data(b"", 0, 1).is_none());
    assert!(Uncreative::decrypt_data(b"short", 5).is_none());
    let mut bad = vec![0u8; 20];
    bad[0] = 99;
    assert!(Uncreative::decrypt_data(&bad, 20).is_none());
}

#[test]
fn ws_frames() {
    let f = encode_frame(b"hi", MessageDataType::Text);
    assert_eq!(f, vec![0x81, 2, b'h', b'i']);
    let long = vec![7u8; 200];
    let f2 = encode_frame(&long, MessageDataType::Binary);
    assert_eq!(&f2[..4], &[0x82, 126, 0, 200]);
    assert_eq!(f2.len(), 204);
    assert_eq!(ping_frame(), vec![0b1000_1001, 1, 95]);
    assert_eq!(pong_frame(b"x"), vec![0b1000_1000, 1, b'x']);
}

#[test]
fn ws_payload_len() {
    assert_eq!(get_payloadlen(&[0x81]), MessageLen::TooShort);
    assert_eq!(get_payloadlen(&[0x81, 5, 0]), MessageLen::Len(11));
    assert_eq!(get_payloadlen(&[0x81, 126, 0]), MessageLen::MissingBytes(1));
    assert_eq!(get_payloadlen(&[0x81, 126, 0, 200]), MessageLen::Len(208));
    assert_eq!(get_payloadlen(&[0x81, 127, 0, 0]), MessageLen::MissingBytes(6));
    assert_eq!(
        get_payloadlen(&[0x81, 127, 0, 0, 0, 0, 0, 0, 1, 0]),
        MessageLen::Len(256 + 14),
    );
}

#[test]
fn ws_handshake_accept_key() {
    // The worked example from the protocol specification.
    let key = websocket_accept_key(b"dGhlIHNhbXBsZSBub25jZQ==");
    assert_eq!(key, b"s3pPLMBiTxaQ9kYGzzhZRbK+xOo=".to_vec());
    let resp = websocket_handshake_response(b"dGhlIHNhbXBsZSBub25jZQ==");
    let text = String::from_utf8(resp).unwrap();
    assert!(text.starts_with("HTTP/1.1 101 Switching Protocols\r\n"));
    assert!(text.ends_with("Sec-WebSocket-Accept: s3pPLMBiTxaQ9kYGzzhZRbK+xOo=\r\n\r\n"));
}

#[test]
fn font_table_entries() {
    let mut table: Vec<u8> = Vec::new();
    for i in 0..1024u32 {
        let v = (i % 251) as u16;
        table.extend_from_slice(&v.to_le_bytes());
    }
    let font = oxui::Font::parse_from_bytes(&table);
    let (ax, ay, w, h) = font.get_data(32);
    assert_eq!((ax, ay, w, h), (0, 1, 2, 3));
    let (ax2, _, _, _) = font.get_data(33);
    assert_eq!(ax2, 4);
}
