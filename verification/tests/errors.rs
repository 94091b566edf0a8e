//! Errors and what stubs report.

use patina_rpc::body::decode_body;
use patina_rpc::error::IoKind;
use patina_rpc::stub::{decode, encode, DECODE_ERROR_CODE, ENCODE_ERROR_CODE};
use patina_rpc::{ErrorData, PatinaError, RpcError, WireError};
use std::io::{Error, ErrorKind};

#[test]
fn application_error_is_remote() {
    match PatinaError::application(503, "service down".to_string()) {
        PatinaError::Remote { code: 503, message } => assert_eq!(message, "service down"),
        other => panic!("expected Remote {{ code: 503 }}, got {other:?}"),
    }
}

#[test]
fn error_envelope_becomes_remote() {
    let data = ErrorData { id: 4, code: 404, message: "unknown".to_string() };
    match RpcError::from(data) {
        RpcError::Remote { code, message } => {
            assert_eq!(code, 404);
            assert_eq!(message, "unknown");
        }
        other => panic!("expected Remote, got {other:?}"),
    }
}

#[test]
fn lower_errors_convert_upwards() {
    let io = || Error::new(ErrorKind::BrokenPipe, "gone");
    assert!(matches!(WireError::from(io()), WireError::Io(e) if e.kind() == ErrorKind::BrokenPipe));
    assert!(matches!(
        PatinaError::from(io()),
        PatinaError::Wire(WireError::Io(e)) if e.kind() == ErrorKind::BrokenPipe
    ));
    assert!(matches!(
        PatinaError::from(WireError::from(io())),
        PatinaError::Wire(WireError::Io(_))
    ));
    let undecodable = decode_body(&[]).unwrap_err();
    assert!(matches!(WireError::from(undecodable), WireError::Decode(_)));
    let unencodable = bincode::error::EncodeError::Other("no");
    assert!(matches!(WireError::from(unencodable), WireError::Encode(_)));
}

#[test]
fn stub_encode_reports_an_internal_error() {
    assert_eq!(encode(Ok(vec![1, 2])).unwrap(), vec![1, 2]);
    match encode(Err("not serializable".to_string())) {
        Err(PatinaError::Remote { code, message }) => {
            assert_eq!(code, 500);
            assert_eq!(message, "encode: not serializable");
        }
        other => panic!("expected Remote, got {other:?}"),
    }
    assert_eq!(ENCODE_ERROR_CODE, 500);
}

#[test]
fn stub_decode_reports_a_bad_request() {
    assert_eq!(decode(Ok(("five", 5))).unwrap(), "five");
    match decode::<u8>(Err("unexpected end".to_string())) {
        Err(PatinaError::Remote { code, message }) => {
            assert_eq!(code, 400);
            assert_eq!(message, "decode: unexpected end");
        }
        other => panic!("expected Remote, got {other:?}"),
    }
    assert_eq!(DECODE_ERROR_CODE, 400);
}

#[test]
fn stub_round_trips_arguments_as_a_tuple() {
    let config = bincode::config::standard();
    let payload = encode(
        bincode::serde::encode_to_vec((2i32, 3i32), config).map_err(|e| e.to_string()),
    )
    .unwrap();
    let args: (i32, i32) = decode(
        bincode::serde::decode_from_slice(&payload, config).map_err(|e| e.to_string()),
    )
    .unwrap();
    assert_eq!(args, (2, 3));
}

#[test]
fn kinds_of_wire_errors() {
    let kind = |kind| WireError::from(Error::new(kind, "x")).io_kind();
    assert_eq!(kind(ErrorKind::InvalidData), Some(IoKind::InvalidData));
    assert_eq!(kind(ErrorKind::InvalidInput), Some(IoKind::InvalidInput));
    assert_eq!(kind(ErrorKind::BrokenPipe), Some(IoKind::Other));
    assert_eq!(WireError::from(decode_body(&[]).unwrap_err()).io_kind(), None);
}
