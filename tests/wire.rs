use revconn::channel::{Opener, Sealer};
use revconn::cipher::CipherStream;
use revconn::error::ProtocolError;
use revconn::frame::{decode_frame, encode_frame, FrameDecode, FrameError, MAX_FRAME_LEN};
use revconn::protocol::Message;

fn same(a: &Message, b: &Message) -> bool {
    match (a, b) {
        (
            Message::ClientHello { domain: d1, path: p1 },
            Message::ClientHello { domain: d2, path: p2 },
        ) => d1 == d2 && p1 == p2,
        (
            Message::ServerHello { domain: d1, path: p1 },
            Message::ServerHello { domain: d2, path: p2 },
        ) => d1 == d2 && p1 == p2,
        (Message::NewConnection { id: a }, Message::NewConnection { id: b }) => a == b,
        (Message::Data { id: a, data: x }, Message::Data { id: b, data: y }) => a == b && x == y,
        (Message::CloseConnection { id: a }, Message::CloseConnection { id: b }) => a == b,
        (Message::Shutdown { message: a }, Message::Shutdown { message: b }) => a == b,
        _ => false,
    }
}

fn samples() -> Vec<Message> {
    vec![
        Message::ClientHello { domain: "example.test".to_string(), path: Some("/".to_string()) },
        Message::ClientHello { domain: "ünïcødé".to_string(), path: None },
        Message::ServerHello { domain: "example.test".to_string(), path: "".to_string() },
        Message::NewConnection { id: 1 },
        Message::Data { id: 7, data: vec![0, 1, 2, 255] },
        Message::Data { id: 8, data: vec![] },
        Message::CloseConnection { id: u32::MAX },
        Message::Shutdown { message: Some("bye".to_string()) },
        Message::Shutdown { message: None },
    ]
}

#[test]
fn encode_then_decode_gives_the_message_back() {
    for m in samples() {
        let bytes = m.encode();
        let back = Message::decode(&bytes).expect("decodes");
        assert!(same(&m, &back));
    }
}

#[test]
fn encoding_of_new_connection_is_exact() {
    let m = Message::NewConnection { id: 0x01020304 };
    assert_eq!(m.encode(), vec![2, 0, 0, 0, 4, 3, 2, 1]);
}

#[test]
fn encoding_of_data_is_exact() {
    let m = Message::Data { id: 1, data: b"ping".to_vec() };
    assert_eq!(
        m.encode(),
        vec![3, 0, 0, 0, 1, 0, 0, 0, 4, 0, 0, 0, 0, 0, 0, 0, b'p', b'i', b'n', b'g']
    );
}

#[test]
fn encoding_of_client_hello_is_exact() {
    let m = Message::ClientHello { domain: "ab".to_string(), path: None };
    assert_eq!(m.encode(), vec![0, 0, 0, 0, 2, 0, 0, 0, 0, 0, 0, 0, b'a', b'b', 0]);
    let m = Message::Shutdown { message: Some("x".to_string()) };
    assert_eq!(m.encode(), vec![5, 0, 0, 0, 1, 1, 0, 0, 0, 0, 0, 0, 0, b'x']);
}

#[test]
fn decode_refuses_bad_input() {
    assert!(Message::decode(&[]).is_none());
    assert!(Message::decode(&[6, 0, 0, 0]).is_none());
    // trailing byte
    assert!(Message::decode(&[4, 0, 0, 0, 1, 0, 0, 0, 9]).is_none());
    // truncated id
    assert!(Message::decode(&[4, 0, 0, 0, 1, 0]).is_none());
    // invalid utf-8 in a string
    assert!(Message::decode(&[1, 0, 0, 0, 1, 0, 0, 0, 0, 0, 0, 0, 0xff, 0, 0, 0, 0, 0, 0, 0, 0])
        .is_none());
    // bad option byte
    assert!(Message::decode(&[5, 0, 0, 0, 2]).is_none());
    // payload length past the end
    assert!(Message::decode(&[3, 0, 0, 0, 1, 0, 0, 0, 9, 0, 0, 0, 0, 0, 0, 0, 1]).is_none());
}

#[test]
fn frame_round_trip_and_exact_bytes() {
    let f = encode_frame(b"abc").unwrap();
    assert_eq!(f, vec![0, 0, 0, 3, b'a', b'b', b'c']);
    let mut buf = f.clone();
    buf.extend_from_slice(&[9, 9]);
    match decode_frame(&buf) {
        FrameDecode::Frame { payload, consumed } => {
            assert_eq!(payload, b"abc".to_vec());
            assert_eq!(consumed, 7);
        }
        _ => panic!("expected a frame"),
    }
    assert!(matches!(decode_frame(&f[..2]), FrameDecode::NeedMore));
    assert!(matches!(decode_frame(&f[..5]), FrameDecode::NeedMore));
}

#[test]
fn empty_frame_is_legal() {
    let f = encode_frame(&[]).unwrap();
    assert_eq!(f, vec![0, 0, 0, 0]);
    match decode_frame(&f) {
        FrameDecode::Frame { payload, consumed } => {
            assert!(payload.is_empty());
            assert_eq!(consumed, 4);
        }
        _ => panic!("expected a frame"),
    }
}

#[test]
fn oversized_frames_are_refused() {
    let big = vec![0u8; MAX_FRAME_LEN + 1];
    assert_eq!(encode_frame(&big), Err(FrameError::TooLarge));
    let exact = vec![0u8; MAX_FRAME_LEN];
    assert!(encode_frame(&exact).is_ok());
    // 8 MiB + 1 announced
    assert!(matches!(decode_frame(&[0, 0x80, 0, 1]), FrameDecode::TooLarge));
    assert!(matches!(decode_frame(&[0, 0x80, 0, 0]), FrameDecode::NeedMore));
}

#[test]
fn oversized_frame_closes_the_session_with_a_protocol_error() {
    let key = [1u8; 32];
    let nonce = [2u8; 12];
    let mut wire = vec![0x7f, 0xff, 0xff, 0xff];
    CipherStream::new(key, nonce).apply(&mut wire).unwrap();
    let mut op = Opener::new(key, nonce);
    op.feed(wire).unwrap();
    assert_eq!(op.next_message().err(), Some(ProtocolError::FrameTooLarge));
}

#[test]
fn cipher_round_trip_in_any_chunks() {
    let key = [7u8; 32];
    let nonce = [3u8; 12];
    let plain: Vec<u8> = (0..300u32).map(|i| (i * 31 % 251) as u8).collect();
    let mut enc = CipherStream::new(key, nonce);
    let mut wire = Vec::new();
    for chunk in plain.chunks(37) {
        let mut c = chunk.to_vec();
        enc.apply(&mut c).unwrap();
        wire.extend_from_slice(&c);
    }
    assert_ne!(wire, plain);
    assert_eq!(enc.offset(), 300);
    let mut dec = CipherStream::new(key, nonce);
    let mut back = Vec::new();
    for chunk in wire.chunks(64) {
        let mut c = chunk.to_vec();
        dec.apply(&mut c).unwrap();
        back.extend_from_slice(&c);
    }
    assert_eq!(back, plain);
}

#[test]
fn cipher_matches_chacha20_test_vector() {
    // RFC 8439, section 2.4.2: block counter 1, so the keystream starts at byte 64.
    let mut key = [0u8; 32];
    for (i, k) in key.iter_mut().enumerate() {
        *k = i as u8;
    }
    let nonce = [0, 0, 0, 0, 0, 0, 0, 0x4a, 0, 0, 0, 0];
    let mut c = CipherStream::new(key, nonce);
    let mut skip = vec![0u8; 64];
    c.apply(&mut skip).unwrap();
    let mut data = b"Ladies and Gentlemen of the class of '99".to_vec();
    c.apply(&mut data).unwrap();
    assert_eq!(&data[..8], &[0x6e, 0x2e, 0x35, 0x9a, 0x25, 0x68, 0xf9, 0x80]);
}

#[test]
fn sealed_messages_open_on_the_other_side() {
    let key = [9u8; 32];
    let nonce = [4u8; 12];
    let mut sealer = Sealer::new(key, nonce);
    let mut opener = Opener::new(key, nonce);
    let mut wire = Vec::new();
    for m in samples() {
        wire.extend_from_slice(&sealer.seal(&m).unwrap());
    }
    for chunk in wire.chunks(5) {
        opener.feed(chunk.to_vec()).unwrap();
    }
    for m in samples() {
        let got = opener.next_message().unwrap().expect("a message");
        assert!(same(&m, &got));
    }
    assert!(opener.next_message().unwrap().is_none());
}

#[test]
fn key_mismatch_fails_the_first_frame() {
    let mut sealer = Sealer::new([1u8; 32], [5u8; 12]);
    let mut opener = Opener::new([2u8; 32], [5u8; 12]);
    let wire = sealer
        .seal(&Message::ClientHello { domain: "example.test".to_string(), path: Some("/".to_string()) })
        .unwrap();
    opener.feed(wire).unwrap();
    assert!(opener.next_message().is_err());
}

#[test]
fn messages_describe_themselves() {
    assert_eq!(Message::NewConnection { id: 12 }.describe(), "Message::NewConnection id=12");
    assert_eq!(Message::Data { id: 1, data: vec![0; 1024] }.describe(), "Message::Data id=1, bytes=1024");
    assert_eq!(Message::CloseConnection { id: 0 }.describe(), "Message::CloseConnection id=0");
    assert_eq!(
        Message::ClientHello { domain: "a\"b".to_string(), path: None }.describe(),
        "Message::ClientHello domain=\"a\\\"b\", path=None"
    );
    assert_eq!(
        Message::ServerHello { domain: "example.test".to_string(), path: "/".to_string() }.describe(),
        "Message::ServerHello domain=example.test, path=/"
    );
    assert_eq!(
        Message::Shutdown { message: Some("bye".to_string()) }.describe(),
        "Message::Shutdown message=Some(\"bye\")"
    );
    assert_eq!(revconn::protocol::decimal(4294967295), "4294967295");
    assert_eq!(Message::Shutdown { message: None }.tag(), 5);
}
