//! What generated stubs do with arguments and return values.
//!
//! Generated clients and servers serialize arguments and return values on
//! their own and report through these functions what became of it. A value
//! that cannot be serialized is an internal error; bytes that do not fit the
//! expected type are a bad request.

use crate::error::PatinaError;
use vstd::prelude::*;
use vstd::string::StringExecFns;

verus! {

/// Status code for a value that cannot be serialized.
pub const ENCODE_ERROR_CODE: u16 = 500;

/// Status code for bytes that do not fit the expected type.
pub const DECODE_ERROR_CODE: u16 = 400;

/// The payload of a serialized value, or the failure to serialize it in the
/// serializer's words.
pub fn encode(serialized: Result<Vec<u8>, String>) -> (r: Result<Vec<u8>, PatinaError>)
    ensures
        match serialized {
            Ok(payload) => r == Ok::<Vec<u8>, PatinaError>(payload),
            Err(text) => r matches Err(PatinaError::Remote { code, message }) && code
                == 500 && message@ == "encode: "@ + text@,
        },
{
    match serialized {
        Ok(payload) => Ok(payload),
        Err(text) => Err(
            PatinaError::Remote {
                code: ENCODE_ERROR_CODE,
                message: "encode: ".to_owned().concat(text.as_str()),
            },
        ),
    }
}

/// The value of a payload, whatever number of bytes it took up, or the failure
/// to read it in the deserializer's words.
pub fn decode<T>(deserialized: Result<(T, usize), String>) -> (r: Result<T, PatinaError>)
    ensures
        match deserialized {
            Ok((value, _)) => r == Ok::<T, PatinaError>(value),
            Err(text) => r matches Err(PatinaError::Remote { code, message }) && code
                == 400 && message@ == "decode: "@ + text@,
        },
{
    match deserialized {
        Ok((value, _)) => Ok(value),
        Err(text) => Err(
            PatinaError::Remote {
                code: DECODE_ERROR_CODE,
                message: "decode: ".to_owned().concat(text.as_str()),
            },
        ),
    }
}

} // verus!
