//! The bytes of one envelope: bincode's standard encoding.
//!
//! Integers are variable-length and little-endian, texts and payloads carry
//! their length first, and an enum starts with the index of its variant. The
//! layout is written down here as spec functions; the executable functions
//! call bincode field by field and are proved against that layout.

use crate::envelope::{Envelope, ErrorData, Message, RequestData, ResponseData};
use bincode::error::{DecodeError, EncodeError};
use vstd::prelude::*;
use vstd::slice::slice_subrange;
use vstd::utf8::{
    decode_utf8, encode_utf8, encode_utf8_decode_utf8, encode_utf8_valid_utf8, valid_utf8,
};

verus! {

// ---------------------------------------------------------------------------
// Layout
// ---------------------------------------------------------------------------

/// The `n` least significant bytes of `v`, least significant first.
pub open spec fn le_bytes(v: nat, n: nat) -> Seq<u8>
    decreases n,
{
    if n == 0 {
        seq![]
    } else {
        seq![(v % 256) as u8] + le_bytes(v / 256, (n - 1) as nat)
    }
}

/// The number that `s` writes out, least significant byte first.
pub open spec fn le_value(s: Seq<u8>) -> nat
    decreases s.len(),
{
    if s.len() == 0 {
        0
    } else {
        s[0] as nat + 256 * le_value(s.drop_first())
    }
}

/// A variable-length integer: one byte below 251, else a marker byte and the
/// value in two, four or eight bytes.
pub open spec fn varint(v: nat) -> Seq<u8> {
    if v < 251 {
        seq![v as u8]
    } else if v < 0x1_0000 {
        seq![251u8] + le_bytes(v, 2)
    } else if v < 0x1_0000_0000 {
        seq![252u8] + le_bytes(v, 4)
    } else {
        seq![253u8] + le_bytes(v, 8)
    }
}

/// The variable-length integer at the front of `s`, read into a type of
/// `width` bytes, with the number of bytes it takes up. A marker for more than
/// `width` bytes is no such integer, nor is one whose bytes are not all there.
pub open spec fn read_varint(s: Seq<u8>, width: nat) -> Option<(nat, nat)> {
    if s.len() == 0 {
        None
    } else if s[0] < 251 {
        Some((s[0] as nat, 1))
    } else if s[0] == 251 && s.len() >= 3 {
        Some((le_value(s.subrange(1, 3)), 3))
    } else if s[0] == 252 && width >= 4 && s.len() >= 5 {
        Some((le_value(s.subrange(1, 5)), 5))
    } else if s[0] == 253 && width >= 8 && s.len() >= 9 {
        Some((le_value(s.subrange(1, 9)), 9))
    } else {
        None
    }
}

/// A byte string: its length, then its bytes.
pub open spec fn bytes_field(bytes: Seq<u8>) -> Seq<u8> {
    varint(bytes.len()) + bytes
}

/// The byte string at the front of `s`, with the number of bytes it takes up.
/// The length is read as a machine word.
pub open spec fn read_bytes(s: Seq<u8>) -> Option<(Seq<u8>, nat)> {
    match read_varint(s, 8) {
        Some((n, used)) => {
            let len = (n as usize) as nat;
            if used + len <= s.len() {
                Some((s.subrange(used as int, (used + len) as int), used + len))
            } else {
                None
            }
        },
        None => None,
    }
}

/// A text: the byte string of its UTF-8 encoding.
pub open spec fn text_field(text: Seq<char>) -> Seq<u8> {
    bytes_field(encode_utf8(text))
}

/// The text at the front of `s`, with the number of bytes it takes up.
pub open spec fn read_text(s: Seq<u8>) -> Option<(Seq<char>, nat)> {
    match read_varint(s, 8) {
        Some((n, used)) => {
            if used + n <= s.len() && valid_utf8(s.subrange(used as int, (used + n) as int)) {
                Some((decode_utf8(s.subrange(used as int, (used + n) as int)), used + n))
            } else {
                None
            }
        },
        None => None,
    }
}

/// The bytes of a whole message: the index of its variant, then its fields in
/// order.
pub open spec fn body(m: Message) -> Seq<u8> {
    match m {
        Message::Request { id, method, payload } => varint(0) + varint(id as nat) + text_field(
            method,
        ) + bytes_field(payload),
        Message::Response { id, payload } => varint(1) + varint(id as nat) + bytes_field(payload),
        Message::Error { id, code, message } => varint(2) + varint(id as nat) + varint(
            code as nat,
        ) + text_field(message),
        Message::Heartbeat => varint(3),
    }
}

/// The fields of a request at the front of `s`.
pub open spec fn read_request(s: Seq<u8>) -> Option<Message> {
    match read_varint(s, 8) {
        Some((id, a)) => match read_text(s.skip(a as int)) {
            Some((method, b)) => match read_bytes(s.skip((a + b) as int)) {
                Some((payload, _)) => Some(Message::Request { id: id as u64, method, payload }),
                None => None,
            },
            None => None,
        },
        None => None,
    }
}

/// The fields of a response at the front of `s`.
pub open spec fn read_response(s: Seq<u8>) -> Option<Message> {
    match read_varint(s, 8) {
        Some((id, a)) => match read_bytes(s.skip(a as int)) {
            Some((payload, _)) => Some(Message::Response { id: id as u64, payload }),
            None => None,
        },
        None => None,
    }
}

/// The fields of an error at the front of `s`.
pub open spec fn read_error(s: Seq<u8>) -> Option<Message> {
    match read_varint(s, 8) {
        Some((id, a)) => match read_varint(s.skip(a as int), 2) {
            Some((code, b)) => match read_text(s.skip((a + b) as int)) {
                Some((message, _)) => Some(
                    Message::Error { id: id as u64, code: code as u16, message },
                ),
                None => None,
            },
            None => None,
        },
        None => None,
    }
}

/// The message at the front of `s`. Bytes behind it are not looked at.
pub open spec fn read_body(s: Seq<u8>) -> Option<Message> {
    match read_varint(s, 4) {
        Some((variant, a)) => {
            let fields = s.skip(a as int);
            if variant == 0 {
                read_request(fields)
            } else if variant == 1 {
                read_response(fields)
            } else if variant == 2 {
                read_error(fields)
            } else if variant == 3 {
                Some(Message::Heartbeat)
            } else {
                None
            }
        },
        None => None,
    }
}

// ---------------------------------------------------------------------------
// bincode, one field at a time
// ---------------------------------------------------------------------------

/// The error on bytes that do not start with a `u16`.
pub uninterp spec fn u16_error(input: Seq<u8>) -> DecodeError;

/// The error on bytes that do not start with a `u32`.
pub uninterp spec fn u32_error(input: Seq<u8>) -> DecodeError;

/// The error on bytes that do not start with a `u64`.
pub uninterp spec fn u64_error(input: Seq<u8>) -> DecodeError;

/// The error on bytes that do not start with a byte string.
pub uninterp spec fn bytes_error(input: Seq<u8>) -> DecodeError;

/// The error on bytes that do not start with a text.
pub uninterp spec fn text_error(input: Seq<u8>) -> DecodeError;

/// The error on bytes that end too soon by `additional` bytes.
pub uninterp spec fn end_error(additional: usize) -> DecodeError;

/// The error on a variant index that is not one of the expected.
pub uninterp spec fn variant_error(index: u32, expected: Seq<char>) -> DecodeError;

/// `bincode::serde::encode_to_vec` of an integer. Its bytes depend on the
/// value alone, not on the width of its type, and writing into a vector does
/// not fail.
#[verifier::external_body]
fn encode_uint(value: u64) -> (r: Result<Vec<u8>, EncodeError>)
    ensures
        r is Ok,
        r->Ok_0@ == varint(value as nat),
{
    bincode::serde::encode_to_vec(value, bincode::config::standard())
}

/// `bincode::serde::encode_to_vec` of a text: the length of its UTF-8 bytes,
/// then those bytes. Writing into a vector does not fail, as long as the vector
/// can double what it has.
#[verifier::external_body]
fn encode_text(value: &str) -> (r: Result<Vec<u8>, EncodeError>)
    requires
        text_field(value@).len() <= isize::MAX / 2,
    ensures
        r is Ok,
        r->Ok_0@ == text_field(value@),
{
    bincode::serde::encode_to_vec(value, bincode::config::standard())
}

/// `bincode::serde::encode_to_vec` of a byte slice: its length, then one byte
/// per element. Writing into a vector does not fail, as long as the vector can
/// double what it has.
#[verifier::external_body]
fn encode_bytes(value: &[u8]) -> (r: Result<Vec<u8>, EncodeError>)
    requires
        bytes_field(value@).len() <= isize::MAX / 2,
    ensures
        r is Ok,
        r->Ok_0@ == bytes_field(value@),
{
    bincode::serde::encode_to_vec(value, bincode::config::standard())
}

/// `bincode::serde::decode_from_slice` into a `u16`: the value and the number
/// of bytes read, or an error where no such integer stands at the front.
#[verifier::external_body]
fn decode_u16(input: &[u8]) -> (r: Result<(u16, usize), DecodeError>)
    ensures
        match read_varint(input@, 2) {
            Some((value, used)) => r matches Ok((v, n)) && v == value && n == used,
            None => r matches Err(e) && e == u16_error(input@),
        },
{
    bincode::serde::decode_from_slice(input, bincode::config::standard())
}

/// `bincode::serde::decode_from_slice` into a `u32`: the value and the number
/// of bytes read, or an error where no such integer stands at the front.
#[verifier::external_body]
fn decode_u32(input: &[u8]) -> (r: Result<(u32, usize), DecodeError>)
    ensures
        match read_varint(input@, 4) {
            Some((value, used)) => r matches Ok((v, n)) && v == value && n == used,
            None => r matches Err(e) && e == u32_error(input@),
        },
{
    bincode::serde::decode_from_slice(input, bincode::config::standard())
}

/// `bincode::serde::decode_from_slice` into a `u64`: the value and the number
/// of bytes read, or an error where no such integer stands at the front.
#[verifier::external_body]
fn decode_u64(input: &[u8]) -> (r: Result<(u64, usize), DecodeError>)
    ensures
        match read_varint(input@, 8) {
            Some((value, used)) => r matches Ok((v, n)) && v == value && n == used,
            None => r matches Err(e) && e == u64_error(input@),
        },
{
    bincode::serde::decode_from_slice(input, bincode::config::standard())
}

/// `bincode::serde::decode_from_slice` into a `Vec<u8>`: the bytes and the
/// number of bytes read, or an error where the length or some of the bytes are
/// missing. The length is truncated to a `usize`. The bytes are pushed one by
/// one, so that the vector has to be able to double what it has.
#[verifier::external_body]
fn decode_bytes(input: &[u8]) -> (r: Result<(Vec<u8>, usize), DecodeError>)
    requires
        input@.len() <= isize::MAX / 2,
    ensures
        match read_bytes(input@) {
            Some((bytes, used)) => r matches Ok((v, n)) && v@ == bytes && n == used,
            None => r matches Err(e) && e == bytes_error(input@),
        },
{
    bincode::serde::decode_from_slice(input, bincode::config::standard())
}

/// `bincode::serde::decode_from_slice` into a `String`: the text and the
/// number of bytes read, or an error where the length or some of the bytes are
/// missing or where they are not UTF-8. bincode allocates the announced length
/// before it reads, which panics on a length that no allocation can have, so a
/// length that fits a `usize` has to be there in full.
#[verifier::external_body]
fn decode_text(input: &[u8]) -> (r: Result<(String, usize), DecodeError>)
    requires
        read_varint(input@, 8) matches Some((len, used)) ==> len > usize::MAX || used + len
            <= input@.len(),
    ensures
        match read_text(input@) {
            Some((text, used)) => r matches Ok((v, n)) && v@ == text && n == used,
            None => r matches Err(e) && e == text_error(input@),
        },
{
    bincode::serde::decode_from_slice(input, bincode::config::standard())
}

/// `bincode::error::DecodeError::UnexpectedEnd`, which holds `additional`.
#[verifier::external_body]
fn unexpected_end(additional: usize) -> (e: DecodeError)
    ensures
        e == end_error(additional),
{
    DecodeError::UnexpectedEnd { additional }
}

/// The error that `serde::de::Error::invalid_value` makes of a variant index
/// that names no variant, and of what was expected in its place. Its text depends
/// on these two alone.
#[verifier::external_body]
fn unknown_variant(index: u32, expected: &str) -> (e: DecodeError)
    ensures
        e == variant_error(index, expected@),
{
    serde::de::Error::invalid_value(serde::de::Unexpected::Unsigned(index as u64), &expected)
}

// ---------------------------------------------------------------------------
// Whole envelopes
// ---------------------------------------------------------------------------

/// The error on bytes that do not start with a text, of which the announced
/// length is looked at first.
pub open spec fn checked_text_error(s: Seq<u8>) -> DecodeError {
    match read_varint(s, 8) {
        Some((n, used)) => if n <= usize::MAX && used + n > s.len() {
            end_error((used + n - s.len()) as usize)
        } else {
            text_error(s)
        },
        None => u64_error(s),
    }
}

/// The error on bytes that do not start with the fields of a request.
pub open spec fn request_error(s: Seq<u8>) -> DecodeError {
    match read_varint(s, 8) {
        Some((_, a)) => match read_text(s.skip(a as int)) {
            Some((_, b)) => bytes_error(s.skip((a + b) as int)),
            None => checked_text_error(s.skip(a as int)),
        },
        None => u64_error(s),
    }
}

/// The error on bytes that do not start with the fields of a response.
pub open spec fn response_error(s: Seq<u8>) -> DecodeError {
    match read_varint(s, 8) {
        Some((_, a)) => bytes_error(s.skip(a as int)),
        None => u64_error(s),
    }
}

/// The error on bytes that do not start with the fields of an error.
pub open spec fn error_fields_error(s: Seq<u8>) -> DecodeError {
    match read_varint(s, 8) {
        Some((_, a)) => match read_varint(s.skip(a as int), 2) {
            Some((_, b)) => checked_text_error(s.skip((a + b) as int)),
            None => u16_error(s.skip(a as int)),
        },
        None => u64_error(s),
    }
}

/// The error on bytes that do not start with a message: that of the first field
/// that is not there.
pub open spec fn body_error(s: Seq<u8>) -> DecodeError {
    match read_varint(s, 4) {
        Some((variant, a)) => {
            let fields = s.skip(a as int);
            if variant == 0 {
                request_error(fields)
            } else if variant == 1 {
                response_error(fields)
            } else if variant == 2 {
                error_fields_error(fields)
            } else {
                variant_error(variant as u32, "variant index 0 <= i < 4"@)
            }
        },
        None => u32_error(s),
    }
}

/// The bytes of `envelope`.
pub fn encode_body(envelope: &Envelope) -> (r: Result<Vec<u8>, EncodeError>)
    requires
        body(envelope@).len() <= isize::MAX / 2,
    ensures
        r is Ok,
        r->Ok_0@ == body(envelope@),
{
    match envelope {
        Envelope::Request(request) => {
            let mut out = encode_uint(0)?;
            out.append(&mut encode_uint(request.id)?);
            out.append(&mut encode_text(request.method.as_str())?);
            out.append(&mut encode_bytes(request.payload.as_slice())?);
            Ok(out)
        },
        Envelope::Response(response) => {
            let mut out = encode_uint(1)?;
            out.append(&mut encode_uint(response.id)?);
            out.append(&mut encode_bytes(response.payload.as_slice())?);
            Ok(out)
        },
        Envelope::Error(error) => {
            let mut out = encode_uint(2)?;
            out.append(&mut encode_uint(error.id)?);
            out.append(&mut encode_uint(error.code as u64)?);
            out.append(&mut encode_text(error.message.as_str())?);
            Ok(out)
        },
        Envelope::Heartbeat => encode_uint(3),
    }
}

proof fn lemma_le_bytes_len(v: nat, n: nat)
    ensures
        le_bytes(v, n).len() == n,
    decreases n,
{
    if n > 0 {
        lemma_le_bytes_len(v / 256, (n - 1) as nat);
    }
}

/// The number of bytes of a variable-length integer.
fn varint_len(v: u64) -> (n: usize)
    ensures
        n == varint(v as nat).len(),
        n <= 9,
{
    proof {
        lemma_le_bytes_len(v as nat, 2);
        lemma_le_bytes_len(v as nat, 4);
        lemma_le_bytes_len(v as nat, 8);
    }
    if v < 251 {
        1
    } else if v < 0x1_0000 {
        3
    } else if v < 0x1_0000_0000 {
        5
    } else {
        9
    }
}

/// The number of bytes of `envelope`, unless there are more than a machine word
/// counts.
pub fn body_len(envelope: &Envelope) -> (n: Option<usize>)
    ensures
        match n {
            Some(n) => n == body(envelope@).len(),
            None => body(envelope@).len() > usize::MAX,
        },
{
    match envelope {
        Envelope::Request(request) => {
            let method: usize = request.method.as_str().as_bytes().len();
            let payload: usize = request.payload.len();
            let rest: usize = 1 + varint_len(request.id) + varint_len(method as u64) + varint_len(
                payload as u64,
            );
            match method.checked_add(payload) {
                Some(fields) => fields.checked_add(rest),
                None => None,
            }
        },
        Envelope::Response(response) => {
            let payload: usize = response.payload.len();
            payload.checked_add(1 + varint_len(response.id) + varint_len(payload as u64))
        },
        Envelope::Error(error) => {
            let message: usize = error.message.as_str().as_bytes().len();
            let rest: usize = 1 + varint_len(error.id) + varint_len(error.code as u64)
                + varint_len(message as u64);
            message.checked_add(rest)
        },
        Envelope::Heartbeat => Some(1),
    }
}

/// The text at the front of `input`. A length that runs past the end of
/// `input` is refused before anything is allocated for it.
fn decode_checked_text(input: &[u8]) -> (r: Result<(String, usize), DecodeError>)
    ensures
        match read_text(input@) {
            Some((text, used)) => r matches Ok((v, n)) && v@ == text && n == used,
            None => r matches Err(e) && e == checked_text_error(input@),
        },
{
    let (len, used) = decode_u64(input)?;
    let there: usize = input.len() - used;
    if len <= usize::MAX as u64 && len as usize > there {
        return Err(unexpected_end(len as usize - there));
    }
    decode_text(input)
}

/// The envelope at the front of `input`. Bytes behind it are not looked at.
pub fn decode_body(input: &[u8]) -> (r: Result<Envelope, DecodeError>)
    requires
        input@.len() <= isize::MAX / 2,
    ensures
        match read_body(input@) {
            Some(m) => r matches Ok(envelope) && envelope@ == m,
            None => r matches Err(e) && e == body_error(input@),
        },
{
    let (variant, a) = decode_u32(input)?;
    let fields = slice_subrange(input, a, input.len());
    assert(fields@ =~= input@.skip(a as int));
    if variant == 0 {
        let (id, b) = decode_u64(fields)?;
        let tail = slice_subrange(fields, b, fields.len());
        assert(tail@ =~= fields@.skip(b as int));
        let (method, c) = decode_checked_text(tail)?;
        let tail = slice_subrange(tail, c, tail.len());
        assert(tail@ =~= fields@.skip(b + c));
        let (payload, _) = decode_bytes(tail)?;
        Ok(Envelope::Request(RequestData { id, method, payload }))
    } else if variant == 1 {
        let (id, b) = decode_u64(fields)?;
        let tail = slice_subrange(fields, b, fields.len());
        assert(tail@ =~= fields@.skip(b as int));
        let (payload, _) = decode_bytes(tail)?;
        Ok(Envelope::Response(ResponseData { id, payload }))
    } else if variant == 2 {
        let (id, b) = decode_u64(fields)?;
        let tail = slice_subrange(fields, b, fields.len());
        assert(tail@ =~= fields@.skip(b as int));
        let (code, c) = decode_u16(tail)?;
        let tail = slice_subrange(tail, c, tail.len());
        assert(tail@ =~= fields@.skip(b + c));
        let (message, _) = decode_checked_text(tail)?;
        Ok(Envelope::Error(ErrorData { id, code, message }))
    } else if variant == 3 {
        Ok(Envelope::Heartbeat)
    } else {
        Err(unknown_variant(variant, "variant index 0 <= i < 4"))
    }
}

// ---------------------------------------------------------------------------
// Laws
// ---------------------------------------------------------------------------

/// How many numbers `n` bytes can hold.
pub open spec fn pow256(n: nat) -> nat
    decreases n,
{
    if n == 0 {
        1
    } else {
        256 * pow256((n - 1) as nat)
    }
}

/// A number that `n` bytes can hold is read back from its `n` bytes.
pub proof fn law_le_round_trip(v: nat, n: nat)
    requires
        v < pow256(n),
    ensures
        le_bytes(v, n).len() == n,
        le_value(le_bytes(v, n)) == v,
    decreases n,
{
    if n > 0 {
        let rest = le_bytes(v / 256, (n - 1) as nat);
        law_le_round_trip(v / 256, (n - 1) as nat);
        assert(le_bytes(v, n).drop_first() =~= rest);
    }
}

proof fn lemma_varint_round_trip(v: nat, width: nat, rest: Seq<u8>)
    requires
        width == 2 || width == 4 || width == 8,
        width == 2 ==> v < 0x1_0000,
        width == 4 ==> v < 0x1_0000_0000,
        width == 8 ==> v < 0x1_0000_0000_0000_0000,
    ensures
        1 <= varint(v).len() <= 9,
        read_varint(varint(v) + rest, width) == Some((v, varint(v).len())),
{
    reveal_with_fuel(pow256, 9);
    assert(pow256(2) == 0x1_0000);
    assert(pow256(4) == 0x1_0000_0000);
    assert(pow256(8) == 0x1_0000_0000_0000_0000);
    let s = varint(v) + rest;
    if v < 251 {
    } else if v < 0x1_0000 {
        law_le_round_trip(v, 2);
        assert(s.subrange(1, 3) =~= le_bytes(v, 2));
    } else if v < 0x1_0000_0000 {
        law_le_round_trip(v, 4);
        assert(s.subrange(1, 5) =~= le_bytes(v, 4));
    } else {
        law_le_round_trip(v, 8);
        assert(s.subrange(1, 9) =~= le_bytes(v, 8));
    }
}

proof fn lemma_bytes_round_trip(bytes: Seq<u8>, rest: Seq<u8>)
    requires
        bytes.len() <= usize::MAX,
    ensures
        read_bytes(bytes_field(bytes) + rest) == Some((bytes, bytes_field(bytes).len())),
{
    let head = varint(bytes.len());
    let s = bytes_field(bytes) + rest;
    lemma_varint_round_trip(bytes.len(), 8, bytes + rest);
    assert(s =~= head + (bytes + rest));
    assert(s.subrange(head.len() as int, (head.len() + bytes.len()) as int) =~= bytes);
}

proof fn lemma_text_round_trip(text: Seq<char>, rest: Seq<u8>)
    requires
        encode_utf8(text).len() <= usize::MAX,
    ensures
        read_text(text_field(text) + rest) == Some((text, text_field(text).len())),
{
    let bytes = encode_utf8(text);
    let head = varint(bytes.len());
    let s = text_field(text) + rest;
    lemma_varint_round_trip(bytes.len(), 8, bytes + rest);
    assert(s =~= head + (bytes + rest));
    assert(s.subrange(head.len() as int, (head.len() + bytes.len()) as int) =~= bytes);
    encode_utf8_valid_utf8(text);
    encode_utf8_decode_utf8(text);
}

impl Message {
    /// Every text and payload is as long as a value in memory can be.
    pub open spec fn fits_memory(self) -> bool {
        match self {
            Message::Request { method, payload, .. } => encode_utf8(method).len() <= usize::MAX
                && payload.len() <= usize::MAX,
            Message::Response { payload, .. } => payload.len() <= usize::MAX,
            Message::Error { message, .. } => encode_utf8(message).len() <= usize::MAX,
            Message::Heartbeat => true,
        }
    }
}

proof fn lemma_request_round_trip(id: u64, method: Seq<char>, payload: Seq<u8>, rest: Seq<u8>)
    requires
        encode_utf8(method).len() <= usize::MAX,
        payload.len() <= usize::MAX,
    ensures
        read_request(varint(id as nat) + text_field(method) + bytes_field(payload) + rest) == Some(
            Message::Request { id, method, payload },
        ),
{
    let a = varint(id as nat);
    let b = text_field(method);
    let c = bytes_field(payload);
    let s = a + b + c + rest;
    lemma_varint_round_trip(id as nat, 8, b + c + rest);
    lemma_text_round_trip(method, c + rest);
    lemma_bytes_round_trip(payload, rest);
    assert(s =~= a + (b + c + rest));
    assert(s.skip(a.len() as int) =~= b + (c + rest));
    assert(s.skip((a.len() + b.len()) as int) =~= c + rest);
}

proof fn lemma_response_round_trip(id: u64, payload: Seq<u8>, rest: Seq<u8>)
    requires
        payload.len() <= usize::MAX,
    ensures
        read_response(varint(id as nat) + bytes_field(payload) + rest) == Some(
            Message::Response { id, payload },
        ),
{
    let a = varint(id as nat);
    let b = bytes_field(payload);
    let s = a + b + rest;
    lemma_varint_round_trip(id as nat, 8, b + rest);
    lemma_bytes_round_trip(payload, rest);
    assert(s =~= a + (b + rest));
    assert(s.skip(a.len() as int) =~= b + rest);
}

proof fn lemma_error_round_trip(id: u64, code: u16, message: Seq<char>, rest: Seq<u8>)
    requires
        encode_utf8(message).len() <= usize::MAX,
    ensures
        read_error(varint(id as nat) + varint(code as nat) + text_field(message) + rest) == Some(
            Message::Error { id, code, message },
        ),
{
    let a = varint(id as nat);
    let b = varint(code as nat);
    let c = text_field(message);
    let s = a + b + c + rest;
    lemma_varint_round_trip(id as nat, 8, b + c + rest);
    lemma_varint_round_trip(code as nat, 2, c + rest);
    lemma_text_round_trip(message, rest);
    assert(s =~= a + (b + c + rest));
    assert(s.skip(a.len() as int) =~= b + (c + rest));
    assert(s.skip((a.len() + b.len()) as int) =~= c + rest);
}

proof fn lemma_variant(variant: nat, fields: Seq<u8>)
    requires
        variant < 251,
    ensures
        read_varint(varint(variant) + fields, 4) == Some((variant, 1nat)),
        (varint(variant) + fields).skip(1) == fields,
{
    assert((varint(variant) + fields).skip(1) =~= fields);
}

proof fn lemma_concat(a: Seq<u8>, b: Seq<u8>, c: Seq<u8>, d: Seq<u8>, rest: Seq<u8>)
    ensures
        a + b + c + d + rest == a + (b + c + d + rest),
        a + b + c + rest == a + (b + c + rest),
{
    assert(a + b + c + d + rest =~= a + (b + c + d + rest));
    assert(a + b + c + rest =~= a + (b + c + rest));
}

/// Reading the bytes of a message gives the message back, whatever follows
/// them.
pub proof fn law_body_round_trip(m: Message, rest: Seq<u8>)
    requires
        m.fits_memory(),
    ensures
        read_body(body(m) + rest) == Some(m),
{
    match m {
        Message::Request { id, method, payload } => {
            let a = varint(id as nat);
            let b = text_field(method);
            let c = bytes_field(payload);
            lemma_request_round_trip(id, method, payload, rest);
            lemma_variant(0, a + b + c + rest);
            lemma_concat(varint(0), a, b, c, rest);
        },
        Message::Response { id, payload } => {
            let a = varint(id as nat);
            let b = bytes_field(payload);
            lemma_response_round_trip(id, payload, rest);
            lemma_variant(1, a + b + rest);
            lemma_concat(varint(1), a, b, seq![], rest);
        },
        Message::Error { id, code, message } => {
            let a = varint(id as nat);
            let b = varint(code as nat);
            let c = text_field(message);
            lemma_error_round_trip(id, code, message, rest);
            lemma_variant(2, a + b + c + rest);
            lemma_concat(varint(2), a, b, c, rest);
        },
        Message::Heartbeat => {
            lemma_variant(3, rest);
        },
    }
}

/// Two messages with the same bytes are the same message.
pub proof fn law_body_is_injective(m1: Message, m2: Message)
    requires
        m1.fits_memory(),
        m2.fits_memory(),
        body(m1) == body(m2),
    ensures
        m1 == m2,
{
    law_body_round_trip(m1, seq![]);
    law_body_round_trip(m2, seq![]);
}

/// No message is empty on the wire, and a heartbeat is a single byte.
pub proof fn law_body_length(m: Message)
    ensures
        body(m).len() >= 1,
        m is Heartbeat ==> body(m).len() == 1,
        m !is Heartbeat ==> body(m).len() >= 3,
{
    assert(forall|v: nat| (#[trigger] varint(v)).len() >= 1);
}

/// The bytes of a number are its digits in base 256, the least significant first.
pub proof fn law_bytes_are_digits(v: nat, n: nat, i: nat)
    requires
        i < n,
    ensures
        pow256(0) == 1,
        pow256(i + 1) == 256 * pow256(i),
        le_bytes(v, n).len() == n,
        le_bytes(v, n)[i as int] as nat == (v / pow256(i)) % 256,
    decreases n,
{
    lemma_le_bytes_len(v, n);
    lemma_le_bytes_len(v / 256, (n - 1) as nat);
    if i == 0 {
        assert(v / 1 == v);
    } else {
        let j = (i - 1) as nat;
        law_bytes_are_digits(v / 256, (n - 1) as nat, j);
        lemma_pow256_positive(j);
        vstd::arithmetic::div_mod::lemma_div_denominator(v as int, 256, pow256(j) as int);
        assert(le_bytes(v, n)[i as int] == le_bytes(v / 256, (n - 1) as nat)[j as int]);
    }
}

proof fn lemma_pow256_positive(n: nat)
    ensures
        pow256(n) > 0,
    decreases n,
{
    if n > 0 {
        lemma_pow256_positive((n - 1) as nat);
    }
}

/// A number is the sum of its digits in base 256.
pub proof fn law_value_is_the_sum_of_its_digits(first: u8, rest: Seq<u8>)
    ensures
        le_value(seq![]) == 0,
        le_value(seq![first] + rest) == first + 256 * le_value(rest),
{
    assert((seq![first] + rest).drop_first() =~= rest);
}

/// Integers below 251 are a single byte. Others are a marker, which says how many
/// bytes follow, and that many digits, of which there are no more than needed.
pub proof fn law_integer_layout(v: nat)
    requires
        v < 0x1_0000_0000_0000_0000,
    ensures
        v < 251 ==> varint(v) == seq![v as u8],
        251 <= v < 0x1_0000 ==> varint(v).len() == 3 && varint(v)[0] == 251,
        0x1_0000 <= v < 0x1_0000_0000 ==> varint(v).len() == 5 && varint(v)[0] == 252,
        0x1_0000_0000 <= v ==> varint(v).len() == 9 && varint(v)[0] == 253,
        v >= 251 ==> le_value(varint(v).skip(1)) == v,
{
    reveal_with_fuel(pow256, 9);
    assert(pow256(2) == 0x1_0000);
    assert(pow256(4) == 0x1_0000_0000);
    assert(pow256(8) == 0x1_0000_0000_0000_0000);
    if 251 <= v < 0x1_0000 {
        law_le_round_trip(v, 2);
        assert(varint(v).skip(1) =~= le_bytes(v, 2));
    } else if 0x1_0000 <= v < 0x1_0000_0000 {
        law_le_round_trip(v, 4);
        assert(varint(v).skip(1) =~= le_bytes(v, 4));
    } else if v >= 0x1_0000_0000 {
        law_le_round_trip(v, 8);
        assert(varint(v).skip(1) =~= le_bytes(v, 8));
    }
}

/// An integer is read from its own bytes alone. A single byte stands for itself; a
/// marker has to be one that the type is wide enough for, and the bytes that it
/// announces have to be there.
pub proof fn law_integer_is_read_from_its_bytes(s: Seq<u8>, rest: Seq<u8>, width: nat)
    ensures
        read_varint(seq![], width) is None,
        s.len() > 0 && s[0] < 251 ==> read_varint(s, width) == Some((s[0] as nat, 1nat)),
        s.len() >= 3 && s[0] == 251 ==> read_varint(s, width) == Some(
            (le_value(s.subrange(1, 3)), 3nat),
        ),
        s.len() >= 5 && s[0] == 252 && width >= 4 ==> read_varint(s, width) == Some(
            (le_value(s.subrange(1, 5)), 5nat),
        ),
        s.len() >= 9 && s[0] == 253 && width >= 8 ==> read_varint(s, width) == Some(
            (le_value(s.subrange(1, 9)), 9nat),
        ),
        s.len() > 0 && s[0] == 251 && s.len() < 3 ==> read_varint(s, width) is None,
        s.len() > 0 && s[0] == 252 && (s.len() < 5 || width < 4) ==> read_varint(s, width) is None,
        s.len() > 0 && s[0] == 253 && (s.len() < 9 || width < 8) ==> read_varint(s, width) is None,
        s.len() > 0 && s[0] > 253 ==> read_varint(s, width) is None,
        read_varint(s, width) is Some ==> {
            &&& 1 <= (read_varint(s, width)->0).1 <= s.len()
            &&& read_varint(s + rest, width) == read_varint(s, width)
        },
{
    if s.len() >= 3 {
        assert((s + rest).subrange(1, 3) =~= s.subrange(1, 3));
    }
    if s.len() >= 5 {
        assert((s + rest).subrange(1, 5) =~= s.subrange(1, 5));
    }
    if s.len() >= 9 {
        assert((s + rest).subrange(1, 9) =~= s.subrange(1, 9));
    }
}

/// The bytes of a message: the number of its kind, then its fields in order, each
/// text and each payload led by its length in bytes.
pub proof fn law_message_layout(
    id: u64,
    code: u16,
    text: Seq<char>,
    payload: Seq<u8>,
)
    ensures
        body(Message::Request { id, method: text, payload }) == seq![0u8] + varint(id as nat)
            + varint(encode_utf8(text).len()) + encode_utf8(text) + varint(payload.len()) + payload,
        body(Message::Response { id, payload }) == seq![1u8] + varint(id as nat) + varint(
            payload.len(),
        ) + payload,
        body(Message::Error { id, code, message: text }) == seq![2u8] + varint(id as nat) + varint(
            code as nat,
        ) + varint(encode_utf8(text).len()) + encode_utf8(text),
        body(Message::Heartbeat) == seq![3u8],
{
    assert(body(Message::Request { id, method: text, payload }) =~= seq![0u8] + varint(id as nat)
        + varint(encode_utf8(text).len()) + encode_utf8(text) + varint(payload.len()) + payload);
    assert(body(Message::Response { id, payload }) =~= seq![1u8] + varint(id as nat) + varint(
        payload.len(),
    ) + payload);
    assert(body(Message::Error { id, code, message: text }) =~= seq![2u8] + varint(id as nat)
        + varint(code as nat) + varint(encode_utf8(text).len()) + encode_utf8(text));
}

proof fn lemma_bytes_are_read_alone(s: Seq<u8>, rest: Seq<u8>)
    requires
        read_bytes(s) is Some,
    ensures
        (read_bytes(s)->0).1 <= s.len(),
        read_bytes(s + rest) == read_bytes(s),
{
    law_integer_is_read_from_its_bytes(s, rest, 8);
    let (n, used) = read_varint(s, 8)->0;
    let end = used + (n as usize) as nat;
    assert((s + rest).subrange(used as int, end as int) =~= s.subrange(used as int, end as int));
}

proof fn lemma_text_is_read_alone(s: Seq<u8>, rest: Seq<u8>)
    requires
        read_text(s) is Some,
    ensures
        (read_text(s)->0).1 <= s.len(),
        read_text(s + rest) == read_text(s),
{
    law_integer_is_read_from_its_bytes(s, rest, 8);
    let (n, used) = read_varint(s, 8)->0;
    assert((s + rest).subrange(used as int, (used + n) as int) =~= s.subrange(
        used as int,
        (used + n) as int,
    ));
}

proof fn lemma_integer_is_read_alone(s: Seq<u8>, rest: Seq<u8>, width: nat)
    requires
        read_varint(s, width) is Some,
    ensures
        (read_varint(s, width)->0).1 <= s.len(),
        read_varint(s + rest, width) == read_varint(s, width),
{
    law_integer_is_read_from_its_bytes(s, rest, width);
}

/// How many bytes the fields of a request at the front of `s` take up.
spec fn request_end(s: Seq<u8>) -> nat {
    let a = (read_varint(s, 8)->0).1;
    let b = (read_text(s.skip(a as int))->0).1;
    a + b + (read_bytes(s.skip((a + b) as int))->0).1
}

/// How many bytes the fields of a response at the front of `s` take up.
spec fn response_end(s: Seq<u8>) -> nat {
    let a = (read_varint(s, 8)->0).1;
    a + (read_bytes(s.skip(a as int))->0).1
}

/// How many bytes the fields of an error at the front of `s` take up.
spec fn error_end(s: Seq<u8>) -> nat {
    let a = (read_varint(s, 8)->0).1;
    let b = (read_varint(s.skip(a as int), 2)->0).1;
    a + b + (read_text(s.skip((a + b) as int))->0).1
}

proof fn lemma_request_is_read_alone(s: Seq<u8>, rest: Seq<u8>)
    requires
        read_request(s) is Some,
    ensures
        request_end(s) <= s.len(),
        read_request(s + rest) == read_request(s),
        request_end(s + rest) == request_end(s),
{
    lemma_integer_is_read_alone(s, rest, 8);
    let a = (read_varint(s, 8)->0).1;
    let tail = s.skip(a as int);
    assert((s + rest).skip(a as int) =~= tail + rest);
    lemma_text_is_read_alone(tail, rest);
    let b = (read_text(tail)->0).1;
    assert((s + rest).skip((a + b) as int) =~= s.skip((a + b) as int) + rest);
    lemma_bytes_are_read_alone(s.skip((a + b) as int), rest);
}

proof fn lemma_response_is_read_alone(s: Seq<u8>, rest: Seq<u8>)
    requires
        read_response(s) is Some,
    ensures
        response_end(s) <= s.len(),
        read_response(s + rest) == read_response(s),
        response_end(s + rest) == response_end(s),
{
    lemma_integer_is_read_alone(s, rest, 8);
    let a = (read_varint(s, 8)->0).1;
    assert((s + rest).skip(a as int) =~= s.skip(a as int) + rest);
    lemma_bytes_are_read_alone(s.skip(a as int), rest);
}

proof fn lemma_error_is_read_alone(s: Seq<u8>, rest: Seq<u8>)
    requires
        read_error(s) is Some,
    ensures
        error_end(s) <= s.len(),
        read_error(s + rest) == read_error(s),
        error_end(s + rest) == error_end(s),
{
    lemma_integer_is_read_alone(s, rest, 8);
    let a = (read_varint(s, 8)->0).1;
    let tail = s.skip(a as int);
    assert((s + rest).skip(a as int) =~= tail + rest);
    lemma_integer_is_read_alone(tail, rest, 2);
    let b = (read_varint(tail, 2)->0).1;
    assert((s + rest).skip((a + b) as int) =~= s.skip((a + b) as int) + rest);
    lemma_text_is_read_alone(s.skip((a + b) as int), rest);
}

/// Bytes behind a message are not looked at.
pub proof fn law_bytes_behind_a_message_do_not_matter(s: Seq<u8>, rest: Seq<u8>)
    requires
        read_body(s) is Some,
    ensures
        read_body(s + rest) == read_body(s),
{
    lemma_integer_is_read_alone(s, rest, 4);
    let (variant, a) = read_varint(s, 4)->0;
    let fields = s.skip(a as int);
    assert((s + rest).skip(a as int) =~= fields + rest);
    if variant == 0 {
        lemma_request_is_read_alone(fields, rest);
    } else if variant == 1 {
        lemma_response_is_read_alone(fields, rest);
    } else if variant == 2 {
        lemma_error_is_read_alone(fields, rest);
    }
}

proof fn lemma_request_end(id: u64, method: Seq<char>, payload: Seq<u8>)
    requires
        encode_utf8(method).len() <= usize::MAX,
        payload.len() <= usize::MAX,
    ensures
        ({
            let s = varint(id as nat) + text_field(method) + bytes_field(payload);
            request_end(s) == s.len()
        }),
{
    let a = varint(id as nat);
    let b = text_field(method);
    let c = bytes_field(payload);
    let s = a + b + c;
    lemma_varint_round_trip(id as nat, 8, b + c);
    lemma_text_round_trip(method, c);
    lemma_bytes_round_trip(payload, seq![]);
    assert(s =~= a + (b + c));
    assert(s.skip(a.len() as int) =~= b + c);
    assert(s.skip((a.len() + b.len()) as int) =~= c + Seq::<u8>::empty());
}

proof fn lemma_response_end(id: u64, payload: Seq<u8>)
    requires
        payload.len() <= usize::MAX,
    ensures
        ({
            let s = varint(id as nat) + bytes_field(payload);
            response_end(s) == s.len()
        }),
{
    let a = varint(id as nat);
    let b = bytes_field(payload);
    lemma_varint_round_trip(id as nat, 8, b);
    lemma_bytes_round_trip(payload, seq![]);
    assert((a + b).skip(a.len() as int) =~= b + Seq::<u8>::empty());
}

proof fn lemma_error_end(id: u64, code: u16, message: Seq<char>)
    requires
        encode_utf8(message).len() <= usize::MAX,
    ensures
        ({
            let s = varint(id as nat) + varint(code as nat) + text_field(message);
            error_end(s) == s.len()
        }),
{
    let a = varint(id as nat);
    let b = varint(code as nat);
    let c = text_field(message);
    let s = a + b + c;
    lemma_varint_round_trip(id as nat, 8, b + c);
    lemma_varint_round_trip(code as nat, 2, c);
    lemma_text_round_trip(message, seq![]);
    assert(s =~= a + (b + c));
    assert(s.skip(a.len() as int) =~= b + c);
    assert(s.skip((a.len() + b.len()) as int) =~= c + Seq::<u8>::empty());
}

proof fn lemma_truncated(m: Message, variant: nat, fields: Seq<u8>, n: nat)
    requires
        variant < 251,
        body(m) == varint(variant) + fields,
        1 <= n < body(m).len(),
    ensures
        read_varint(body(m).take(n as int), 4) == Some((variant, 1nat)),
        body(m).take(n as int).skip(1) + body(m).skip(n as int) == fields,
        body(m).take(n as int).skip(1).len() < fields.len(),
{
    let s = body(m).take(n as int);
    lemma_variant(variant, s.skip(1));
    assert(s =~= varint(variant) + s.skip(1));
    assert(s.skip(1) + body(m).skip(n as int) =~= fields);
}

/// A message of which bytes are missing at the end is no message.
pub proof fn law_truncated_message_is_refused(m: Message, n: nat)
    requires
        m.fits_memory(),
        n < body(m).len(),
    ensures
        read_body(body(m).take(n as int)) is None,
{
    let s = body(m).take(n as int);
    let rest = body(m).skip(n as int);
    if n > 0 {
        match m {
            Message::Request { id, method, payload } => {
                let fields = varint(id as nat) + text_field(method) + bytes_field(payload);
                assert(body(m) =~= varint(0) + fields);
                lemma_truncated(m, 0, fields, n);
                lemma_request_end(id, method, payload);
                if read_request(s.skip(1)) is Some {
                    lemma_request_is_read_alone(s.skip(1), rest);
                }
            },
            Message::Response { id, payload } => {
                let fields = varint(id as nat) + bytes_field(payload);
                assert(body(m) =~= varint(1) + fields);
                lemma_truncated(m, 1, fields, n);
                lemma_response_end(id, payload);
                if read_response(s.skip(1)) is Some {
                    lemma_response_is_read_alone(s.skip(1), rest);
                }
            },
            Message::Error { id, code, message } => {
                let fields = varint(id as nat) + varint(code as nat) + text_field(message);
                assert(body(m) =~= varint(2) + fields);
                lemma_truncated(m, 2, fields, n);
                lemma_error_end(id, code, message);
                if read_error(s.skip(1)) is Some {
                    lemma_error_is_read_alone(s.skip(1), rest);
                }
            },
            Message::Heartbeat => {},
        }
    }
}

/// Only four kinds of message exist, and the number in front says which: bytes
/// that start with a greater number are no message.
pub proof fn law_number_in_front_is_the_kind(s: Seq<u8>)
    ensures
        read_varint(s, 4) is None ==> read_body(s) is None,
        read_varint(s, 4) is Some && (read_varint(s, 4)->0).0 > 3 ==> read_body(s) is None,
        read_body(s) is Some ==> {
            &&& read_body(s)->0 is Request <==> (read_varint(s, 4)->0).0 == 0
            &&& read_body(s)->0 is Response <==> (read_varint(s, 4)->0).0 == 1
            &&& read_body(s)->0 is Error <==> (read_varint(s, 4)->0).0 == 2
            &&& read_body(s)->0 is Heartbeat <==> (read_varint(s, 4)->0).0 == 3
        },
{
}

/// A text that is not UTF-8, or of which bytes are missing, is no text, and
/// nothing but its announced bytes is taken for it.
pub proof fn law_text_is_utf8(s: Seq<u8>)
    ensures
        read_text(s) is Some <==> {
            &&& read_varint(s, 8) is Some
            &&& (read_varint(s, 8)->0).1 + (read_varint(s, 8)->0).0 <= s.len()
            &&& valid_utf8(
                s.subrange(
                    (read_varint(s, 8)->0).1 as int,
                    ((read_varint(s, 8)->0).1 + (read_varint(s, 8)->0).0) as int,
                ),
            )
        },
        read_text(s) is Some ==> (read_text(s)->0).0 == decode_utf8(
            s.subrange(
                (read_varint(s, 8)->0).1 as int,
                ((read_varint(s, 8)->0).1 + (read_varint(s, 8)->0).0) as int,
            ),
        ),
{
}

/// The error on bytes that are no message is that of the first part of it that is
/// not there: the kind, the id, and then the parts behind it.
pub proof fn law_first_missing_part_is_reported(s: Seq<u8>)
    requires
        read_body(s) is None,
    ensures
        read_varint(s, 4) is None ==> body_error(s) == u32_error(s),
        read_varint(s, 4) is Some ==> ({
            let (kind, a) = read_varint(s, 4)->0;
            let fields = s.skip(a as int);
            &&& kind > 3 ==> body_error(s) == variant_error(
                kind as u32,
                "variant index 0 <= i < 4"@,
            )
            &&& kind <= 2 && read_varint(fields, 8) is None ==> body_error(s) == u64_error(fields)
            &&& kind == 0 && read_varint(fields, 8) is Some ==> ({
                let text = fields.skip((read_varint(fields, 8)->0).1 as int);
                if read_text(text) is None {
                    body_error(s) == missing_text_error(text)
                } else {
                    body_error(s) == bytes_error(text.skip((read_text(text)->0).1 as int))
                }
            })
            &&& kind == 1 && read_varint(fields, 8) is Some ==> body_error(s) == bytes_error(
                fields.skip((read_varint(fields, 8)->0).1 as int),
            )
            &&& kind == 2 && read_varint(fields, 8) is Some ==> ({
                let code = fields.skip((read_varint(fields, 8)->0).1 as int);
                if read_varint(code, 2) is None {
                    body_error(s) == u16_error(code)
                } else {
                    body_error(s) == missing_text_error(
                        code.skip((read_varint(code, 2)->0).1 as int),
                    )
                }
            })
        }),
{
    if read_varint(s, 4) is Some {
        let (kind, a) = read_varint(s, 4)->0;
        let fields = s.skip(a as int);
        law_integer_is_read_from_its_bytes(s, seq![], 4);
        if read_varint(fields, 8) is Some {
            law_integer_is_read_from_its_bytes(fields, seq![], 8);
            let b = (read_varint(fields, 8)->0).1;
            let tail = fields.skip(b as int);
            if kind == 0 && read_text(tail) is Some {
                lemma_text_is_read_alone(tail, seq![]);
                let c = (read_text(tail)->0).1;
                assert(fields.skip((b + c) as int) =~= tail.skip(c as int));
            }
            if kind == 2 && read_varint(tail, 2) is Some {
                law_integer_is_read_from_its_bytes(tail, seq![], 2);
                let c = (read_varint(tail, 2)->0).1;
                assert(fields.skip((b + c) as int) =~= tail.skip(c as int));
            }
        }
    }
}

/// The error on bytes that do not start with a text: if the announced length can
/// be counted but is not there, by how much it is short.
pub open spec fn missing_text_error(s: Seq<u8>) -> DecodeError {
    if read_varint(s, 8) is None {
        u64_error(s)
    } else if (read_varint(s, 8)->0).0 <= usize::MAX && (read_varint(s, 8)->0).0 > s.len()
        - (read_varint(s, 8)->0).1 {
        end_error(((read_varint(s, 8)->0).0 - (s.len() - (read_varint(s, 8)->0).1)) as usize)
    } else {
        text_error(s)
    }
}

/// Any message fits in memory whose texts and payloads are no longer than a
/// machine word counts; its numbers do not matter.
pub proof fn law_what_fits_in_memory(id: u64, code: u16, text: Seq<char>, payload: Seq<u8>)
    ensures
        (Message::Request { id, method: text, payload }).fits_memory() <==> encode_utf8(text).len()
            <= usize::MAX && payload.len() <= usize::MAX,
        (Message::Response { id, payload }).fits_memory() <==> payload.len() <= usize::MAX,
        (Message::Error { id, code, message: text }).fits_memory() <==> encode_utf8(text).len()
            <= usize::MAX,
        Message::Heartbeat.fits_memory(),
{
}

} // verus!
