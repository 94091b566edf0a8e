//! The wire: envelopes, their bytes and their frames.

use bytes::BytesMut;
use patina_rpc::body::{body_len, decode_body, encode_body};
use patina_rpc::codec::DEFAULT_MAX_FRAME_LEN;
use patina_rpc::error::IoKind;
use patina_rpc::{Envelope, ErrorData, RequestData, ResponseData, WireCodec, WireError};

fn request(id: u64, method: &str, payload: Vec<u8>) -> Envelope {
    Envelope::Request(RequestData { id, method: method.to_string(), payload })
}

fn response(id: u64, payload: Vec<u8>) -> Envelope {
    Envelope::Response(ResponseData { id, payload })
}

fn error(id: u64, code: u16, message: &str) -> Envelope {
    Envelope::Error(ErrorData { id, code, message: message.to_string() })
}

/// Encode, decode, compare. Decoding has to consume the whole buffer.
fn roundtrip(envelope: Envelope) {
    let mut codec = WireCodec::new();
    let mut buf = BytesMut::new();
    codec.encode(envelope.clone(), &mut buf).unwrap();
    let decoded = codec.decode(&mut buf).unwrap().expect("one full frame");
    assert_eq!(decoded, envelope);
    assert!(buf.is_empty(), "decoder consumed the whole frame");
}

#[test]
fn roundtrip_request() {
    roundtrip(request(42, "store.put", vec![1, 2, 3, 4, 5]));
}

#[test]
fn roundtrip_response() {
    roundtrip(response(42, vec![9, 8, 7]));
}

#[test]
fn roundtrip_error() {
    roundtrip(error(42, 404, "not found"));
}

#[test]
fn roundtrip_heartbeat() {
    roundtrip(Envelope::Heartbeat);
}

#[test]
fn heartbeat_is_tiny() {
    let mut codec = WireCodec::new();
    let mut buf = BytesMut::new();
    codec.encode(Envelope::Heartbeat, &mut buf).unwrap();
    assert_eq!(buf.len(), 5, "got {:?}", &buf[..]);
}

#[test]
fn partial_frame_yields_none_until_complete() {
    let mut codec = WireCodec::new();
    let mut buf = BytesMut::new();
    codec.encode(request(1, "m", vec![0; 16]), &mut buf).unwrap();

    let full = buf.split().freeze();
    let mid = full.len() / 2;
    let (head, tail) = full.split_at(mid);

    let mut staging = BytesMut::from(head);
    assert!(codec.decode(&mut staging).unwrap().is_none(), "head only");

    staging.extend_from_slice(tail);
    let decoded = codec.decode(&mut staging).unwrap().expect("frame complete");
    assert!(matches!(decoded, Envelope::Request(_)));
    assert!(staging.is_empty());
}

#[test]
fn back_to_back_frames_decode_independently() {
    let mut codec = WireCodec::new();
    let mut buf = BytesMut::new();
    codec.encode(Envelope::Heartbeat, &mut buf).unwrap();
    codec.encode(response(7, vec![0xab, 0xcd]), &mut buf).unwrap();

    let first = codec.decode(&mut buf).unwrap().expect("first frame");
    assert_eq!(first, Envelope::Heartbeat);

    let second = codec.decode(&mut buf).unwrap().expect("second frame");
    match second {
        Envelope::Response(r) => {
            assert_eq!(r.id, 7);
            assert_eq!(r.payload, vec![0xab, 0xcd]);
        }
        other => panic!("expected Response, got {other:?}"),
    }
    assert!(buf.is_empty());
}

#[test]
fn oversized_frame_prefix_is_rejected() {
    let mut codec = WireCodec::with_max_frame_length(100);
    let mut buf = BytesMut::new();
    buf.extend_from_slice(&1000u32.to_be_bytes());

    match codec.decode(&mut buf) {
        Err(WireError::Io(e)) => {
            assert_eq!(e.kind(), std::io::ErrorKind::InvalidData);
        }
        other => panic!("expected Io(InvalidData), got {other:?}"),
    }
}

#[test]
fn corrupted_body_surfaces_decode_error() {
    let mut codec = WireCodec::new();
    let mut buf = BytesMut::new();
    buf.extend_from_slice(&3u32.to_be_bytes());
    buf.extend_from_slice(&[0xff, 0xff, 0xff]);

    match codec.decode(&mut buf) {
        Err(WireError::Decode(_)) => {}
        other => panic!("expected Decode error, got {other:?}"),
    }
}

fn sample_envelopes() -> Vec<Envelope> {
    vec![
        request(1, "store.get", vec![0xde, 0xad, 0xbe, 0xef]),
        response(1, b"hello world".to_vec()),
        error(1, 500, "internal"),
        Envelope::Heartbeat,
    ]
}

#[test]
fn each_variant_round_trips_over_duplex() {
    let mut client = WireCodec::new();
    let mut server = WireCodec::new();
    for envelope in sample_envelopes() {
        let mut wire = BytesMut::new();
        client.encode(envelope.clone(), &mut wire).expect("send");
        let received = server.decode(&mut wire).expect("decode ok").expect("frame arrives");
        assert_eq!(received, envelope);
    }
}

#[test]
fn burst_of_envelopes_preserves_order_and_content() {
    let burst: Vec<Envelope> = (0..50u64)
        .map(|i| request(i, &format!("m{i}"), vec![i as u8; (i as usize) % 17]))
        .collect();

    let mut writer = WireCodec::new();
    let mut sent = BytesMut::new();
    for envelope in &burst {
        writer.encode(envelope.clone(), &mut sent).expect("send");
    }

    // The bytes arrive seven at a time; whatever is whole is read at once.
    let mut reader = WireCodec::new();
    let mut arrived = BytesMut::new();
    let mut received = Vec::new();
    for chunk in sent.chunks(7) {
        arrived.extend_from_slice(chunk);
        while let Some(envelope) = reader.decode(&mut arrived).expect("decode ok") {
            received.push(envelope);
        }
    }
    assert_eq!(received, burst);
    assert!(arrived.is_empty());
    assert!(reader.decode(&mut arrived).unwrap().is_none());
}

#[test]
fn every_strict_prefix_of_a_frame_waits() {
    let mut codec = WireCodec::new();
    let mut frame = BytesMut::new();
    codec.encode(error(300, 404, "gone"), &mut frame).unwrap();
    for n in 0..frame.len() {
        let mut reader = WireCodec::new();
        let mut arrived = BytesMut::from(&frame[..n]);
        assert!(reader.decode(&mut arrived).unwrap().is_none(), "{n} bytes");
        // The rest completes the frame, wherever it was cut.
        arrived.extend_from_slice(&frame[n..]);
        assert_eq!(reader.decode(&mut arrived).unwrap(), Some(error(300, 404, "gone")));
    }
}

#[test]
fn prefix_is_big_endian_and_excludes_itself() {
    let mut codec = WireCodec::new();
    let mut buf = BytesMut::new();
    codec.encode(response(1, vec![0; 300]), &mut buf).unwrap();
    // Variant, id, length marker with two bytes, payload.
    let body = 1 + 1 + 3 + 300;
    assert_eq!(&buf[..4], (body as u32).to_be_bytes());
    assert_eq!(buf.len(), 4 + body);
}

#[test]
fn layout_of_each_variant() {
    assert_eq!(
        encode_body(&request(42, "ab", vec![7, 8])).unwrap(),
        vec![0, 42, 2, b'a', b'b', 2, 7, 8]
    );
    assert_eq!(encode_body(&response(250, vec![])).unwrap(), vec![1, 250, 0]);
    assert_eq!(
        encode_body(&error(251, 404, "x")).unwrap(),
        vec![2, 251, 251, 0, 251, 0x94, 0x01, 1, b'x']
    );
    assert_eq!(encode_body(&Envelope::Heartbeat).unwrap(), vec![3]);
}

#[test]
fn integers_grow_with_their_value() {
    let cases: Vec<(u64, Vec<u8>)> = vec![
        (0, vec![0]),
        (250, vec![250]),
        (251, vec![251, 251, 0]),
        (65_535, vec![251, 255, 255]),
        (65_536, vec![252, 0, 0, 1, 0]),
        (4_294_967_295, vec![252, 255, 255, 255, 255]),
        (4_294_967_296, vec![253, 0, 0, 0, 0, 1, 0, 0, 0]),
        (u64::MAX, vec![253, 255, 255, 255, 255, 255, 255, 255, 255]),
    ];
    for (id, bytes) in cases {
        let mut expected = vec![1];
        expected.extend_from_slice(&bytes);
        expected.push(0);
        let encoded = encode_body(&response(id, vec![])).unwrap();
        assert_eq!(encoded, expected, "id {id}");
        assert_eq!(decode_body(&encoded).unwrap(), response(id, vec![]));
    }
}

#[test]
fn layout_is_that_of_a_serialized_enum() {
    // An enum is its variant's index as a `u32`, then its fields.
    let config = bincode::config::standard();
    let text = "grüße, 世界";
    let fields = (0u32, 70_000u64, text, vec![1u8; 260]);
    assert_eq!(
        encode_body(&request(70_000, text, vec![1; 260])).unwrap(),
        bincode::serde::encode_to_vec(fields, config).unwrap()
    );
    let fields = (1u32, 5_000_000_000u64, vec![9u8, 250, 251, 255]);
    assert_eq!(
        encode_body(&response(5_000_000_000, vec![9, 250, 251, 255])).unwrap(),
        bincode::serde::encode_to_vec(fields, config).unwrap()
    );
    let fields = (2u32, 3u64, 65_535u16, text);
    assert_eq!(
        encode_body(&error(3, 65_535, text)).unwrap(),
        bincode::serde::encode_to_vec(fields, config).unwrap()
    );
    assert_eq!(
        encode_body(&Envelope::Heartbeat).unwrap(),
        bincode::serde::encode_to_vec(3u32, config).unwrap()
    );
}

#[test]
fn bodies_that_are_no_envelope_are_refused() {
    let bad: Vec<Vec<u8>> = vec![
        // Nothing, an unknown variant, a variant index wider than four bytes.
        vec![],
        vec![4],
        vec![253, 0, 0, 0, 0, 0, 0, 0, 0],
        // A request that stops at each field in turn.
        vec![0],
        vec![0, 1],
        vec![0, 1, 2, b'a'],
        vec![0, 1, 1, b'a'],
        vec![0, 1, 1, b'a', 2, 9],
        // A method that is not UTF-8, and one with an absurd length.
        vec![0, 1, 1, 0xff, 0],
        vec![0, 1, 253, 255, 255, 255, 255, 255, 255, 255, 127, 0],
        vec![0, 1, 253, 255, 255, 255, 255, 255, 255, 255, 255, 0],
        // A payload with an absurd length.
        vec![1, 1, 253, 255, 255, 255, 255, 255, 255, 255, 127],
        // A code wider than two bytes.
        vec![2, 1, 252, 0, 0, 1, 0, 0],
    ];
    for bytes in bad {
        assert!(decode_body(&bytes).is_err(), "{bytes:?}");
    }
}

#[test]
fn bytes_behind_an_envelope_are_not_looked_at() {
    assert_eq!(decode_body(&[3, 1, 2, 3]).unwrap(), Envelope::Heartbeat);
    // A value may be written wider than it needs to be.
    assert_eq!(decode_body(&[1, 251, 7, 0, 0]).unwrap(), response(7, vec![]));
}

#[test]
fn limit_holds_in_both_directions() {
    // A response with an empty payload and a small id takes three bytes.
    let mut codec = WireCodec::with_max_frame_length(3);
    let mut buf = BytesMut::new();
    codec.encode(response(1, vec![]), &mut buf).unwrap();
    assert_eq!(&buf[..], &[0, 0, 0, 3, 1, 1, 0]);
    assert_eq!(codec.decode(&mut buf).unwrap(), Some(response(1, vec![])));

    match codec.encode(response(1, vec![5]), &mut buf) {
        Err(WireError::Io(e)) => assert_eq!(e.kind(), std::io::ErrorKind::InvalidInput),
        other => panic!("expected Io(InvalidInput), got {other:?}"),
    }
    assert!(buf.is_empty(), "a refused envelope leaves the buffer alone");

    buf.extend_from_slice(&[0, 0, 0, 4, 1, 1, 1, 5]);
    assert!(matches!(codec.decode(&mut buf), Err(WireError::Io(_))));
    assert_eq!(buf.len(), 8);
}

#[test]
fn default_limit_is_64_mib() {
    assert_eq!(DEFAULT_MAX_FRAME_LEN, 64 * 1024 * 1024);
    let limit = DEFAULT_MAX_FRAME_LEN as u32;
    for mut codec in [WireCodec::new(), WireCodec::default()] {
        let mut buf = BytesMut::from(&limit.to_be_bytes()[..]);
        assert!(codec.decode(&mut buf).unwrap().is_none());
    }
    let mut codec = WireCodec::new();
    let mut buf = BytesMut::from(&(limit + 1).to_be_bytes()[..]);
    match codec.decode(&mut buf) {
        Err(e) => assert_eq!(e.io_kind(), Some(IoKind::InvalidData)),
        other => panic!("expected Io(InvalidData), got {other:?}"),
    }
}

#[test]
fn limit_is_clipped_to_what_a_prefix_announces() {
    let mut codec = WireCodec::with_max_frame_length(usize::MAX);
    let mut buf = BytesMut::new();
    codec.encode(Envelope::Heartbeat, &mut buf).unwrap();
    assert_eq!(codec.decode(&mut buf).unwrap(), Some(Envelope::Heartbeat));
}

#[test]
fn length_of_a_body_is_known_beforehand() {
    let envelopes = vec![
        request(0, "", vec![]),
        request(250, "grüße", vec![1; 250]),
        request(65_536, &"x".repeat(251), vec![0; 70_000]),
        response(251, vec![2; 251]),
        response(u64::MAX, vec![]),
        error(4_294_967_296, 250, "x"),
        error(7, 251, &"y".repeat(65_536)),
        Envelope::Heartbeat,
    ];
    for envelope in envelopes {
        let bytes = encode_body(&envelope).unwrap();
        assert_eq!(body_len(&envelope), Some(bytes.len()), "{} bytes", bytes.len());
    }
}

#[test]
fn envelope_is_appended_if_there_is_room() {
    let mut codec = WireCodec::with_max_frame_length(3);
    let mut buf = BytesMut::from(&[9u8][..]);
    assert!(matches!(codec.encode_if_room(response(1, vec![]), &mut buf), Some(Ok(()))));
    assert_eq!(&buf[..], &[9, 0, 0, 0, 3, 1, 1, 0]);
    match codec.encode_if_room(response(1, vec![5]), &mut buf) {
        Some(Err(e)) => assert_eq!(e.io_kind(), Some(IoKind::InvalidInput)),
        other => panic!("expected Io(InvalidInput), got {other:?}"),
    }
    assert_eq!(buf.len(), 8);
}

#[test]
fn text_that_ends_too_soon_says_by_how_much() {
    // A method of nine bytes of which two are there.
    match decode_body(&[0, 1, 9, b'a', b'b']) {
        Err(bincode::error::DecodeError::UnexpectedEnd { additional }) => assert_eq!(additional, 7),
        other => panic!("expected UnexpectedEnd, got {other:?}"),
    }
}

#[test]
fn unknown_variant_is_named() {
    match decode_body(&[4]) {
        Err(bincode::error::DecodeError::OtherString(text)) => assert_eq!(
            text,
            "invalid value: integer `4`, expected variant index 0 <= i < 4"
        ),
        other => panic!("expected OtherString, got {other:?}"),
    }
}
