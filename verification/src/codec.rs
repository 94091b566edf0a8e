//! Framing: a four-byte big-endian length, then the bytes of one envelope.
//!
//! [`WireCodec`] turns a byte stream into envelopes and back. The length
//! prefix counts the bytes of the envelope and not its own four; a frame
//! longer than the codec's limit is refused in both directions.

use crate::body::{
    body, body_error, body_len, decode_body, encode_body, law_body_length, law_body_round_trip,
    law_le_round_trip, le_bytes, le_value, pow256, read_body,
};
use crate::envelope::{Envelope, Message};
use crate::error::{io_kind, IoKind, WireError};
use bytes::BytesMut;
use tokio_util::codec::{Decoder, Encoder, LengthDelimitedCodec};
use vstd::prelude::*;

verus! {

/// Default cap on the size of one envelope: 64 MiB. It keeps a fabricated
/// length prefix from claiming gigabytes of memory.
pub const DEFAULT_MAX_FRAME_LEN: usize = 67_108_864;

// ---------------------------------------------------------------------------
// Frames
// ---------------------------------------------------------------------------

/// The length prefix of a frame of `n` bytes: four bytes, most significant
/// first.
pub open spec fn prefix(n: nat) -> Seq<u8> {
    le_bytes(n, 4).reverse()
}

/// The length that a four-byte prefix announces.
pub open spec fn announced(prefix: Seq<u8>) -> nat {
    le_value(prefix.reverse())
}

/// A whole frame around `content`.
pub open spec fn frame(content: Seq<u8>) -> Seq<u8> {
    prefix(content.len()) + content
}

/// The largest frame that a codec made for `max` takes: a four-byte prefix
/// announces no more.
pub open spec fn clipped_limit(max: nat) -> nat {
    if max <= u32::MAX {
        max
    } else {
        u32::MAX as nat
    }
}

/// What stands at the front of a byte stream.
#[verifier::ext_equal]
pub enum Front {
    /// The start of a frame, or nothing: more bytes have to arrive.
    Partial,
    /// A prefix that announces more than the limit.
    Oversized,
    /// A whole frame with this content; `rest` is the stream behind it.
    Whole { content: Seq<u8>, rest: Seq<u8> },
}

/// The front of `stream` for a codec with the given limit.
pub open spec fn front(stream: Seq<u8>, limit: nat) -> Front {
    if stream.len() < 4 {
        Front::Partial
    } else {
        let n = announced(stream.take(4));
        if n > limit {
            Front::Oversized
        } else if stream.len() < 4 + n {
            Front::Partial
        } else {
            Front::Whole {
                content: stream.subrange(4, (4 + n) as int),
                rest: stream.skip((4 + n) as int),
            }
        }
    }
}

/// What a codec takes out of the buffer while it waits for a frame: the prefix,
/// once it is complete.
pub open spec fn taken(stream: Seq<u8>) -> Seq<u8> {
    if stream.len() < 4 {
        seq![]
    } else {
        stream.take(4)
    }
}

/// What a codec leaves in the buffer while it waits for a frame.
pub open spec fn left(stream: Seq<u8>) -> Seq<u8> {
    if stream.len() < 4 {
        stream
    } else {
        stream.skip(4)
    }
}

// ---------------------------------------------------------------------------
// tokio-util and bytes
// ---------------------------------------------------------------------------

/// `bytes::BytesMut`, a growable byte buffer.
#[verifier::external_type_specification]
#[verifier::external_body]
pub struct ExBytesMut(bytes::BytesMut);

/// `tokio_util::codec::LengthDelimitedCodec`, which cuts a byte stream into
/// length-prefixed frames.
#[verifier::external_type_specification]
#[verifier::external_body]
pub struct ExLengthDelimitedCodec(tokio_util::codec::LengthDelimitedCodec);

/// The bytes that a buffer holds.
pub uninterp spec fn buffered(buffer: BytesMut) -> Seq<u8>;

/// The bytes of the stream that a codec has taken out of the buffer and still
/// holds: nothing between frames, the length prefix while a frame is awaited.
pub uninterp spec fn held(codec: LengthDelimitedCodec) -> Seq<u8>;

/// The largest frame that a codec takes, if its prefix is four big-endian
/// bytes that stand first and count the bytes behind them. A codec of any
/// other configuration has no such limit.
pub uninterp spec fn frame_limit(codec: LengthDelimitedCodec) -> Option<nat>;

/// What a codec may hold: nothing, or a prefix within its limit.
pub open spec fn holds_prefix(codec: LengthDelimitedCodec) -> bool {
    held(codec).len() == 0 || (held(codec).len() == 4 && announced(held(codec)) <= frame_limit(
        codec,
    )->0)
}

/// A codec from `LengthDelimitedCodec::builder` with a four-byte length field
/// and the given maximum. The builder's defaults make the field big-endian,
/// first and unadjusted; `new_codec` clips the maximum to what four bytes
/// announce. The codec starts between two frames.
#[verifier::external_body]
fn length_delimited(max: usize) -> (codec: LengthDelimitedCodec)
    ensures
        frame_limit(codec) == Some(clipped_limit(max as nat)),
        held(codec) == Seq::<u8>::empty(),
{
    LengthDelimitedCodec::builder().length_field_length(4).max_frame_length(max).new_codec()
}

/// `LengthDelimitedCodec::decode`: takes the next frame out of the buffer, its
/// content copied into a vector. The stream is what the codec holds followed by
/// what the buffer holds. A prefix leaves the buffer as soon as it is complete
/// and within the limit; a frame leaves once it is whole. A refused prefix stays
/// where it is, and the error is of the kind `InvalidData`. Decoding reserves the
/// announced length behind the bytes that were taken out before, and the buffer
/// may double what it has: with a limit of a quarter of what an allocation can
/// have, that is never too much for one.
#[verifier::external_body]
fn next_frame(codec: &mut LengthDelimitedCodec, src: &mut BytesMut) -> (r: Result<
    Option<Vec<u8>>,
    std::io::Error,
>)
    requires
        frame_limit(*old(codec)) is Some,
        frame_limit(*old(codec))->0 <= isize::MAX / 4,
        holds_prefix(*old(codec)),
    ensures
        frame_limit(*final(codec)) == frame_limit(*old(codec)),
        ({
            let stream = held(*old(codec)) + buffered(*old(src));
            match front(stream, frame_limit(*old(codec))->0) {
                Front::Partial => {
                    &&& r matches Ok(None)
                    &&& held(*final(codec)) == taken(stream)
                    &&& buffered(*final(src)) == left(stream)
                },
                Front::Oversized => {
                    &&& r matches Err(e) && io_kind(e) == IoKind::InvalidData
                    &&& held(*final(codec)) == held(*old(codec))
                    &&& buffered(*final(src)) == buffered(*old(src))
                },
                Front::Whole { content, rest } => {
                    &&& r matches Ok(Some(bytes)) && bytes@ == content
                    &&& held(*final(codec)) == Seq::<u8>::empty()
                    &&& buffered(*final(src)) == rest
                },
            }
        }),
{
    Ok(codec.decode(src)?.map(|frame| frame.to_vec()))
}

/// `BytesMut::len`: the number of bytes that a buffer holds.
pub assume_specification[ bytes::BytesMut::len ](buffer: &bytes::BytesMut) -> (n: usize)
    ensures
        n == buffered(*buffer).len(),
;

/// `LengthDelimitedCodec::encode`: appends the prefix and the content to the
/// buffer, or refuses a content over the limit and leaves the buffer alone.
/// The codec's reading side is not touched. The error is of the kind
/// `InvalidInput`. The buffer may keep room for bytes that were taken out before
/// and double what it has: up to a quarter of what an allocation can have, that
/// is never too much for one.
#[verifier::external_body]
fn put_frame(codec: &mut LengthDelimitedCodec, content: Vec<u8>, dst: &mut BytesMut) -> (r: Result<
    (),
    std::io::Error,
>)
    requires
        frame_limit(*old(codec)) is Some,
        buffered(*old(dst)).len() + 4 + content@.len() <= isize::MAX / 4,
    ensures
        frame_limit(*final(codec)) == frame_limit(*old(codec)),
        held(*final(codec)) == held(*old(codec)),
        r is Ok <==> content@.len() <= frame_limit(*old(codec))->0,
        r matches Err(e) ==> io_kind(e) == IoKind::InvalidInput,
        buffered(*final(dst)) == (if r is Ok {
            buffered(*old(dst)) + frame(content@)
        } else {
            buffered(*old(dst))
        }),
{
    codec.encode(bytes::Bytes::from(content), dst)
}

// ---------------------------------------------------------------------------
// The codec
// ---------------------------------------------------------------------------

/// Codec that turns a byte stream into a stream of [`Envelope`] values.
pub struct WireCodec {
    inner: LengthDelimitedCodec,
}

impl WireCodec {
    /// The largest envelope, in bytes, that this codec writes or reads.
    pub closed spec fn limit(self) -> nat {
        frame_limit(self.inner)->0
    }

    /// The bytes of the stream that this codec has consumed without having
    /// produced their envelope.
    pub closed spec fn pending(self) -> Seq<u8> {
        held(self.inner)
    }

    /// What every codec of this type keeps true of itself.
    pub closed spec fn wf(self) -> bool {
        &&& frame_limit(self.inner) is Some
        &&& frame_limit(self.inner)->0 <= u32::MAX
        &&& frame_limit(self.inner)->0 <= isize::MAX / 4
        &&& holds_prefix(self.inner)
    }

    /// A codec with the default cap of 64 MiB.
    pub fn new() -> (codec: Self)
        ensures
            codec.wf(),
            codec.limit() == DEFAULT_MAX_FRAME_LEN,
            codec.limit() == 64 * 1024 * 1024,
            codec.pending() == Seq::<u8>::empty(),
    {
        Self::with_max_frame_length(DEFAULT_MAX_FRAME_LEN)
    }

    /// A codec with a custom cap. A frame larger than `max`, whether it is to
    /// be written or announced by the peer, surfaces as [`WireError::Io`].
    pub fn with_max_frame_length(max: usize) -> (codec: Self)
        requires
            clipped_limit(max as nat) <= isize::MAX / 4,
        ensures
            codec.wf(),
            codec.limit() == clipped_limit(max as nat),
            codec.pending() == Seq::<u8>::empty(),
    {
        WireCodec { inner: length_delimited(max) }
    }

    /// Takes the next envelope out of `src`, if a whole frame has arrived.
    pub fn decode(&mut self, src: &mut BytesMut) -> (r: Result<Option<Envelope>, WireError>)
        requires
            old(self).wf(),
        ensures
            final(self).wf(),
            final(self).limit() == old(self).limit(),
            ({
                let stream = old(self).pending() + buffered(*old(src));
                match front(stream, old(self).limit()) {
                    Front::Partial => {
                        &&& r matches Ok(None)
                        &&& final(self).pending() == taken(stream)
                        &&& buffered(*final(src)) == left(stream)
                    },
                    Front::Oversized => {
                        &&& r matches Err(WireError::Io(e)) && io_kind(e) == IoKind::InvalidData
                        &&& final(self).pending() == old(self).pending()
                        &&& buffered(*final(src)) == buffered(*old(src))
                    },
                    Front::Whole { content, rest } => {
                        &&& match read_body(content) {
                            Some(m) => r matches Ok(Some(envelope)) && envelope@ == m,
                            None => r matches Err(WireError::Decode(e)) && e == body_error(content),
                        }
                        &&& final(self).pending() == Seq::<u8>::empty()
                        &&& buffered(*final(src)) == rest
                    },
                }
            }),
    {
        match next_frame(&mut self.inner, src) {
            Ok(Some(content)) => match decode_body(content.as_slice()) {
                Ok(envelope) => Ok(Some(envelope)),
                Err(e) => Err(WireError::Decode(e)),
            },
            Ok(None) => Ok(None),
            Err(e) => Err(WireError::Io(e)),
        }
    }

    /// Appends the frame of `item` to `dst`.
    pub fn encode(&mut self, item: Envelope, dst: &mut BytesMut) -> (r: Result<(), WireError>)
        requires
            old(self).wf(),
            buffered(*old(dst)).len() + 4 + body(item@).len() <= isize::MAX / 4,
        ensures
            final(self).wf(),
            final(self).limit() == old(self).limit(),
            final(self).pending() == old(self).pending(),
            ({
                if body(item@).len() <= old(self).limit() {
                    &&& r is Ok
                    &&& buffered(*final(dst)) == buffered(*old(dst)) + frame(body(item@))
                } else {
                    &&& r matches Err(WireError::Io(e)) && io_kind(e) == IoKind::InvalidInput
                    &&& buffered(*final(dst)) == buffered(*old(dst))
                }
            }),
    {
        match encode_body(&item) {
            Ok(content) => match put_frame(&mut self.inner, content, dst) {
                Ok(()) => Ok(()),
                Err(e) => Err(WireError::Io(e)),
            },
            Err(e) => Err(WireError::Encode(e)),
        }
    }

    /// Appends the frame of `item` to `dst`, if `dst` is sure to be able to grow by
    /// a whole frame. If not, `dst` is left alone.
    pub fn encode_if_room(&mut self, item: Envelope, dst: &mut BytesMut) -> (r: Option<
        Result<(), WireError>,
    >)
        requires
            old(self).wf(),
        ensures
            final(self).wf(),
            final(self).limit() == old(self).limit(),
            final(self).pending() == old(self).pending(),
            ({
                if buffered(*old(dst)).len() + 4 + body(item@).len() > isize::MAX / 4 {
                    &&& r is None
                    &&& buffered(*final(dst)) == buffered(*old(dst))
                } else if body(item@).len() <= old(self).limit() {
                    &&& r matches Some(Ok(()))
                    &&& buffered(*final(dst)) == buffered(*old(dst)) + frame(body(item@))
                } else {
                    &&& r matches Some(Err(WireError::Io(e))) && io_kind(e)
                        == IoKind::InvalidInput
                    &&& buffered(*final(dst)) == buffered(*old(dst))
                }
            }),
    {
        let room: usize = isize::MAX as usize / 4;
        let used: usize = dst.len();
        let fits = match body_len(&item) {
            Some(n) => used <= room && n <= room - used && 4 <= room - used - n,
            None => false,
        };
        if fits {
            Some(self.encode(item, dst))
        } else {
            None
        }
    }
}

impl Default for WireCodec {
    fn default() -> (codec: Self)
        ensures
            codec.wf(),
            codec.limit() == DEFAULT_MAX_FRAME_LEN,
            codec.limit() == 64 * 1024 * 1024,
            codec.pending() == Seq::<u8>::empty(),
    {
        Self::new()
    }
}

// ---------------------------------------------------------------------------
// Laws
// ---------------------------------------------------------------------------

/// A codec's limit is one that a prefix can announce.
pub proof fn law_limit_fits_the_prefix(codec: WireCodec)
    requires
        codec.wf(),
    ensures
        codec.limit() <= u32::MAX,
{
}

/// The prefix of a frame is four bytes that announce the length of the content,
/// their own four not counted.
pub proof fn law_prefix_counts_the_content(content: Seq<u8>)
    requires
        content.len() <= u32::MAX,
    ensures
        frame(content).len() == 4 + content.len(),
        announced(frame(content).take(4)) == content.len(),
        frame(content).skip(4) == content,
{
    let n = content.len();
    reveal_with_fuel(pow256, 5);
    law_le_round_trip(n, 4);
    assert(frame(content).take(4) =~= prefix(n));
    assert(prefix(n).reverse() =~= le_bytes(n, 4));
    assert(frame(content).skip(4) =~= content);
}

/// A frame within the limit stands whole at the front of any stream that starts
/// with it, and the stream behind it is left.
pub proof fn law_frame_stands_alone(content: Seq<u8>, rest: Seq<u8>, limit: nat)
    requires
        content.len() <= limit,
        limit <= u32::MAX,
    ensures
        front(frame(content) + rest, limit) == (Front::Whole { content, rest }),
{
    let stream = frame(content) + rest;
    law_prefix_counts_the_content(content);
    assert(stream.take(4) =~= frame(content).take(4));
    assert(stream.subrange(4, 4 + content.len() as int) =~= frame(content).skip(4));
    assert(stream.skip(4 + content.len() as int) =~= rest);
}

/// What was written is what is read: the frame of a message that is within the
/// limit gives the message back.
pub proof fn law_frame_round_trip(m: Message, rest: Seq<u8>, limit: nat)
    requires
        m.fits_memory(),
        body(m).len() <= limit,
        limit <= u32::MAX,
    ensures
        front(frame(body(m)) + rest, limit) == (Front::Whole { content: body(m), rest }),
        read_body(body(m)) == Some(m),
{
    law_frame_stands_alone(body(m), rest, limit);
    law_body_round_trip(m, seq![]);
    assert(body(m) + Seq::<u8>::empty() =~= body(m));
}

/// A frame that has not arrived in full yields nothing yet.
pub proof fn law_partial_frame_waits(content: Seq<u8>, arrived: nat, limit: nat)
    requires
        content.len() <= limit,
        limit <= u32::MAX,
        arrived < frame(content).len(),
    ensures
        front(frame(content).take(arrived as int), limit) == Front::Partial,
{
    law_prefix_counts_the_content(content);
    if arrived >= 4 {
        assert(frame(content).take(arrived as int).take(4) =~= frame(content).take(4));
    }
}

/// Splitting the stream between codec and buffer, as a wait does, loses no byte
/// and moves none.
pub proof fn law_waiting_keeps_the_stream(stream: Seq<u8>)
    ensures
        taken(stream) + left(stream) == stream,
{
    assert(taken(stream) + left(stream) =~= stream);
}

/// Bytes that arrive later change nothing about a frame that is already whole
/// or already refused.
pub proof fn law_later_bytes_change_nothing(stream: Seq<u8>, more: Seq<u8>, limit: nat)
    ensures
        match front(stream, limit) {
            Front::Partial => true,
            Front::Oversized => front(stream + more, limit) == Front::Oversized,
            Front::Whole { content, rest } => front(stream + more, limit) == (Front::Whole {
                content,
                rest: rest + more,
            }),
        },
{
    if stream.len() >= 4 {
        let n = announced(stream.take(4));
        assert((stream + more).take(4) =~= stream.take(4));
        if n <= limit && stream.len() >= 4 + n {
            assert((stream + more).subrange(4, (4 + n) as int) =~= stream.subrange(
                4,
                (4 + n) as int,
            ));
            assert((stream + more).skip((4 + n) as int) =~= stream.skip((4 + n) as int) + more);
        }
    }
}

/// A prefix that announces more than the limit is refused as soon as its four
/// bytes have arrived, whatever follows; a prefix within the limit never is.
pub proof fn law_oversized_prefix_is_refused(n: nat, rest: Seq<u8>, limit: nat)
    requires
        n <= u32::MAX,
    ensures
        front(prefix(n) + rest, limit) == Front::Oversized <==> n > limit,
{
    reveal_with_fuel(pow256, 5);
    law_le_round_trip(n, 4);
    assert((prefix(n) + rest).take(4) =~= prefix(n));
    assert(prefix(n).reverse() =~= le_bytes(n, 4));
}

/// A heartbeat is five bytes on the wire.
pub proof fn law_heartbeat_is_tiny()
    ensures
        frame(body(Message::Heartbeat)).len() == 5,
{
    law_body_length(Message::Heartbeat);
    law_prefix_counts_the_content(body(Message::Heartbeat));
}

/// The frames of `messages`, one behind the other.
pub open spec fn written(messages: Seq<Message>) -> Seq<u8>
    decreases messages.len(),
{
    if messages.len() == 0 {
        seq![]
    } else {
        frame(body(messages[0])) + written(messages.drop_first())
    }
}

/// The messages that decoding `stream` again and again gives, up to the first
/// frame that is partial, refused or no message.
pub open spec fn received(stream: Seq<u8>, limit: nat) -> Seq<Message>
    decreases stream.len(),
{
    match front(stream, limit) {
        Front::Whole { content, rest } => match read_body(content) {
            Some(m) => if rest.len() < stream.len() {
                seq![m] + received(rest, limit)
            } else {
                seq![]
            },
            None => seq![],
        },
        _ => seq![],
    }
}

proof fn lemma_concat(a: Seq<u8>, b: Seq<u8>, c: Seq<u8>)
    ensures
        a + b + c == a + (b + c),
{
    assert(a + b + c =~= a + (b + c));
}

/// The first message of a stream is read before the rest of it.
proof fn lemma_received_step(m: Message, rest: Seq<u8>, limit: nat)
    requires
        m.fits_memory(),
        body(m).len() <= limit,
        limit <= u32::MAX,
    ensures
        received(frame(body(m)) + rest, limit) == seq![m] + received(rest, limit),
{
    law_frame_round_trip(m, rest, limit);
    assert(frame(body(m)).len() == 4 + body(m).len()) by {
        law_prefix_counts_the_content(body(m));
    }
}

/// A burst of messages arrives complete and in order, and what follows it on
/// the stream is read as if it stood alone.
pub proof fn law_stream_round_trip(messages: Seq<Message>, tail: Seq<u8>, limit: nat)
    requires
        limit <= u32::MAX,
        forall|i: int|
            0 <= i < messages.len() ==> (#[trigger] messages[i]).fits_memory() && body(
                messages[i],
            ).len() <= limit,
    ensures
        received(written(messages) + tail, limit) == messages + received(tail, limit),
    decreases messages.len(),
{
    if messages.len() == 0 {
        assert(written(messages) + tail =~= tail);
        assert(messages + received(tail, limit) =~= received(tail, limit));
    } else {
        let m = messages[0];
        let others = messages.drop_first();
        let rest = written(others) + tail;
        assert forall|i: int| 0 <= i < others.len() implies (#[trigger] others[i]).fits_memory()
            && body(others[i]).len() <= limit by {
            assert(others[i] == messages[i + 1]);
        }
        law_stream_round_trip(others, tail, limit);
        lemma_received_step(m, rest, limit);
        lemma_concat(frame(body(m)), written(others), tail);
        assert(seq![m] + (others + received(tail, limit)) =~= messages + received(tail, limit));
    }
}

/// What is left of `stream` when no further message can be taken out of it yet.
pub open spec fn unread(stream: Seq<u8>, limit: nat) -> Seq<u8>
    decreases stream.len(),
{
    match front(stream, limit) {
        Front::Whole { content, rest } => if read_body(content) is Some && rest.len()
            < stream.len() {
            unread(rest, limit)
        } else {
            stream
        },
        _ => stream,
    }
}

/// It does not matter how the bytes of a stream are cut into pieces: what is
/// read when more bytes have arrived is what was read before, and then what is
/// read of the bytes that were left and the new ones.
pub proof fn law_pieces_do_not_matter(stream: Seq<u8>, more: Seq<u8>, limit: nat)
    ensures
        received(stream + more, limit) == received(stream, limit) + received(
            unread(stream, limit) + more,
            limit,
        ),
    decreases stream.len(),
{
    law_later_bytes_change_nothing(stream, more, limit);
    match front(stream, limit) {
        Front::Whole { content, rest } if read_body(content) is Some => {
            let m = read_body(content)->0;
            law_pieces_do_not_matter(rest, more, limit);
            let later = received(unread(rest, limit) + more, limit);
            assert(seq![m] + (received(rest, limit) + later) =~= (seq![m] + received(rest, limit))
                + later);
        },
        _ => {
            assert(received(stream, limit) =~= seq![]);
            assert(seq![] + received(stream + more, limit) =~= received(stream + more, limit));
        },
    }
}

/// A prefix is four bytes that count in base 256, the most significant first.
pub proof fn law_prefix_is_big_endian(a: u8, b: u8, c: u8, d: u8, n: nat)
    requires
        n <= u32::MAX,
    ensures
        announced(seq![a, b, c, d]) == a * 0x100_0000 + b * 0x1_0000 + c * 0x100 + d,
        prefix(n).len() == 4,
        announced(prefix(n)) == n,
{
    assert(seq![a, b, c, d].reverse() =~= seq![d, c, b, a]);
    reveal_with_fuel(le_value, 5);
    assert(seq![d, c, b, a].drop_first() =~= seq![c, b, a]);
    assert(seq![c, b, a].drop_first() =~= seq![b, a]);
    assert(seq![b, a].drop_first() =~= seq![a]);
    reveal_with_fuel(pow256, 5);
    law_le_round_trip(n, 4);
    assert(prefix(n).reverse() =~= le_bytes(n, 4));
}

/// A cap is taken as it is, up to what four bytes can announce.
pub proof fn law_cap_is_taken_as_it_is(max: nat)
    ensures
        max <= 0xffff_ffff ==> clipped_limit(max) == max,
        max > 0xffff_ffff ==> clipped_limit(max) == 0xffff_ffff,
{
}

/// What stands at the front of a stream is decided by its first four bytes and its
/// length: a frame is whole exactly if the prefix is within the limit and all the
/// bytes that it announces are there. Its content are those bytes, and nothing of
/// the stream is lost or read twice.
pub proof fn law_front_is_cut_by_the_prefix(stream: Seq<u8>, limit: nat)
    ensures
        stream.len() < 4 ==> front(stream, limit) == Front::Partial,
        stream.len() >= 4 && announced(stream.take(4)) > limit ==> front(stream, limit)
            == Front::Oversized,
        stream.len() >= 4 && announced(stream.take(4)) <= limit && stream.len() < 4 + announced(
            stream.take(4),
        ) ==> front(stream, limit) == Front::Partial,
        stream.len() >= 4 && announced(stream.take(4)) <= limit && stream.len() >= 4 + announced(
            stream.take(4),
        ) ==> {
            &&& front(stream, limit) is Whole
            &&& front(stream, limit)->content.len() == announced(stream.take(4))
            &&& stream == stream.take(4) + front(stream, limit)->content + front(
                stream,
                limit,
            )->rest
        },
{
    if front(stream, limit) is Whole {
        assert(stream =~= stream.take(4) + front(stream, limit)->content + front(
            stream,
            limit,
        )->rest);
    }
}

/// While a frame is awaited, exactly a complete prefix is taken out of the buffer.
pub proof fn law_wait_takes_the_prefix(stream: Seq<u8>)
    ensures
        stream.len() < 4 ==> taken(stream).len() == 0 && left(stream) == stream,
        stream.len() >= 4 ==> taken(stream) == stream.take(4) && left(stream) == stream.skip(4),
{
}

/// Messages are written one behind the other, in order and with nothing between
/// them.
pub proof fn law_messages_are_written_in_order(m: Message, others: Seq<Message>)
    ensures
        written(seq![]) == Seq::<u8>::empty(),
        written(seq![m] + others) == frame(body(m)) + written(others),
{
    assert((seq![m] + others).drop_first() =~= others);
}

/// What is left of a stream of messages is what has not arrived in full.
pub proof fn law_incomplete_end_is_left(messages: Seq<Message>, tail: Seq<u8>, limit: nat)
    requires
        limit <= u32::MAX,
        front(tail, limit) == Front::Partial,
        forall|i: int|
            0 <= i < messages.len() ==> (#[trigger] messages[i]).fits_memory() && body(
                messages[i],
            ).len() <= limit,
    ensures
        unread(written(messages) + tail, limit) == tail,
        received(written(messages) + tail, limit) == messages,
    decreases messages.len(),
{
    law_stream_round_trip(messages, tail, limit);
    assert(received(tail, limit) =~= seq![]);
    assert(messages + received(tail, limit) =~= messages);
    if messages.len() == 0 {
        assert(written(messages) + tail =~= tail);
    } else {
        let m = messages[0];
        let others = messages.drop_first();
        assert forall|i: int| 0 <= i < others.len() implies (#[trigger] others[i]).fits_memory()
            && body(others[i]).len() <= limit by {
            assert(others[i] == messages[i + 1]);
        }
        law_incomplete_end_is_left(others, tail, limit);
        lemma_concat(frame(body(m)), written(others), tail);
        law_frame_round_trip(m, written(others) + tail, limit);
        law_prefix_counts_the_content(body(m));
    }
}

/// Nothing is read from a frame that is refused or no message, nor behind it.
pub proof fn law_bad_frame_ends_the_stream(stream: Seq<u8>, limit: nat)
    requires
        match front(stream, limit) {
            Front::Partial => true,
            Front::Oversized => true,
            Front::Whole { content, .. } => read_body(content) is None,
        },
    ensures
        received(stream, limit) == Seq::<Message>::empty(),
        unread(stream, limit) == stream,
{
}

} // verus!
