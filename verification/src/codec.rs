//! Framing: frames onto a byte buffer and off it again, tolerant of any
//! split of the stream and refusing oversized or unknown frames at the header.

use bytes::{Buf, BufMut, BytesMut};
use vstd::prelude::*;

use crate::protocol::{
    frame_message, law_message_reads_back, Body, DecodeError, EncodeError, Frame, FrameModel,
    FrameType, Message, MessageModel, MAX_PAYLOAD,
};

verus! {

// ---------------------------------------------------------------------------
// The byte buffer
// ---------------------------------------------------------------------------

/// `bytes::BytesMut`, the buffer that frames are read from and written to.
#[verifier::external_type_specification]
#[verifier::external_body]
pub struct ExBytesMut(bytes::BytesMut);

/// The bytes that a buffer holds, first to last.
pub uninterp spec fn buffered(b: BytesMut) -> Seq<u8>;

/// `BytesMut::len`: the number of bytes held.
#[verifier::external_body]
fn buffer_len(b: &BytesMut) -> (n: usize)
    ensures
        n == buffered(*b).len(),
{
    b.len()
}

/// Indexing a `BytesMut` as the byte slice it dereferences to. Out of bounds
/// it would panic.
#[verifier::external_body]
fn buffer_byte(b: &BytesMut, i: usize) -> (byte: u8)
    requires
        i < buffered(*b).len(),
    ensures
        byte == buffered(*b)[i as int],
{
    b[i]
}

/// `Buf::advance` on a `BytesMut`: drops the first `n` bytes. Past the end it
/// would panic.
#[verifier::external_body]
fn buffer_advance(b: &mut BytesMut, n: usize)
    requires
        n <= buffered(*old(b)).len(),
    ensures
        buffered(*final(b)) == buffered(*old(b)).skip(n as int),
{
    b.advance(n);
}

/// `BytesMut::split_to`, copied out: takes the first `n` bytes off the
/// buffer. Past the end it would panic.
#[verifier::external_body]
fn buffer_split_to(b: &mut BytesMut, n: usize) -> (front: Vec<u8>)
    requires
        n <= buffered(*old(b)).len(),
    ensures
        front@ == buffered(*old(b)).take(n as int),
        buffered(*final(b)) == buffered(*old(b)).skip(n as int),
{
    b.split_to(n).to_vec()
}

/// `BytesMut::reserve`: makes room and keeps the bytes. Where no allocation
/// can be that large it would panic.
#[verifier::external_body]
fn buffer_reserve(b: &mut BytesMut, n: usize)
    requires
        buffered(*old(b)).len() + n <= isize::MAX,
    ensures
        buffered(*final(b)) == buffered(*old(b)),
{
    b.reserve(n);
}

/// `BufMut::put_u8` on a `BytesMut`: appends one byte. Where no allocation
/// can be that large it would panic.
#[verifier::external_body]
fn buffer_put_u8(b: &mut BytesMut, n: u8)
    requires
        buffered(*old(b)).len() + 1 <= isize::MAX,
    ensures
        buffered(*final(b)) == buffered(*old(b)).push(n),
{
    b.put_u8(n);
}

/// `BufMut::put_u32` on a `BytesMut`: appends four bytes, big-endian. Where
/// no allocation can be that large it would panic.
#[verifier::external_body]
fn buffer_put_u32(b: &mut BytesMut, n: u32)
    requires
        buffered(*old(b)).len() + 4 <= isize::MAX,
    ensures
        buffered(*final(b)) == buffered(*old(b)) + be_bytes(n as nat),
{
    b.put_u32(n);
}

/// `BufMut::put_slice` on a `BytesMut`: appends the given bytes. Where no
/// allocation can be that large it would panic.
#[verifier::external_body]
fn buffer_put_slice(b: &mut BytesMut, bytes: &Vec<u8>)
    requires
        buffered(*old(b)).len() + bytes@.len() <= isize::MAX,
    ensures
        buffered(*final(b)) == buffered(*old(b)) + bytes@,
{
    b.put_slice(bytes);
}

// ---------------------------------------------------------------------------
// The wire form
// ---------------------------------------------------------------------------

/// `n` as four bytes, most significant first.
pub open spec fn be_bytes(n: nat) -> Seq<u8> {
    seq![
        ((n / 0x1000000) % 0x100) as u8,
        ((n / 0x10000) % 0x100) as u8,
        ((n / 0x100) % 0x100) as u8,
        (n % 0x100) as u8,
    ]
}

/// The number in four bytes, most significant first.
pub open spec fn be_value(b0: u8, b1: u8, b2: u8, b3: u8) -> nat {
    (b0 * 0x1000000 + b1 * 0x10000 + b2 * 0x100 + b3) as nat
}

/// A frame on the wire: tag, payload length, payload.
pub open spec fn frame_bytes(f: FrameModel) -> Seq<u8> {
    seq![f.frame_type.tag()] + be_bytes(f.payload.len()) + f.payload
}

/// What encoding comes to: the wire form at the end of the buffer, or the
/// buffer as it was and the refusal of a payload above the cap.
pub open spec fn appended(
    before: Seq<u8>,
    frame: FrameModel,
    after: Seq<u8>,
    r: Result<(), EncodeError>,
) -> bool {
    if frame.payload.len() <= MAX_PAYLOAD {
        r is Ok && after == before + frame_bytes(frame)
    } else {
        r == Err::<(), EncodeError>(EncodeError::PayloadTooLarge(frame.payload.len() as usize))
            && after == before
    }
}

/// A buffer of `held` bytes can take a frame with a payload of `length` bytes
/// and stay within what one allocation can hold.
pub open spec fn has_room(held: nat, length: nat) -> bool {
    held + 5 + length <= isize::MAX
}

/// The header at the front of `bytes`: nothing yet, or type and payload
/// length. A length above the cap is an error whatever the tag.
pub open spec fn header_of(bytes: Seq<u8>) -> Result<Option<(FrameType, nat)>, DecodeError> {
    if bytes.len() < 5 {
        Ok(None)
    } else {
        let length = be_value(bytes[1], bytes[2], bytes[3], bytes[4]);
        if length > MAX_PAYLOAD {
            Err(DecodeError::PayloadTooLarge(length as usize))
        } else if exists|t: FrameType| t.tag() == bytes[0] {
            Ok(Some((choose|t: FrameType| t.tag() == bytes[0], length)))
        } else {
            Err(DecodeError::UnknownFrameType(bytes[0]))
        }
    }
}

/// What the front of a byte stream holds.
pub enum Front {
    /// No complete frame yet.
    Partial,
    /// A frame, and the bytes after it.
    Whole(FrameModel, Seq<u8>),
    /// A transport violation.
    Broken(DecodeError),
}

/// The frame at the front of `bytes`.
pub open spec fn front_of(bytes: Seq<u8>) -> Front {
    match header_of(bytes) {
        Err(e) => Front::Broken(e),
        Ok(None) => Front::Partial,
        Ok(Some((frame_type, length))) => if bytes.len() < 5 + length {
            Front::Partial
        } else {
            Front::Whole(
                FrameModel { frame_type, payload: bytes.subrange(5, 5 + length as int) },
                bytes.skip(5 + length as int),
            )
        },
    }
}

/// Shared by both ends of the socket.
pub struct FrameCodec;

impl FrameCodec {
    /// Parse the 5-byte header. `Ok(None)` while the header is incomplete,
    /// `Err` on a transport violation (oversized or unknown tag) so the
    /// connection fails before any payload bytes are buffered.
    fn header(src: &BytesMut) -> (r: Result<Option<(FrameType, usize)>, DecodeError>)
        ensures
            match header_of(buffered(*src)) {
                Err(e) => r == Err::<Option<(FrameType, usize)>, DecodeError>(e),
                Ok(None) => r == Ok::<Option<(FrameType, usize)>, DecodeError>(None),
                Ok(Some((t, n))) => n <= MAX_PAYLOAD && r == Ok::<
                    Option<(FrameType, usize)>,
                    DecodeError,
                >(Some((t, n as usize))),
            },
    {
        if buffer_len(src) < 5 {
            return Ok(None);
        }
        let length: u32 = buffer_byte(src, 1) as u32 * 0x1000000 + buffer_byte(src, 2) as u32
            * 0x10000 + buffer_byte(src, 3) as u32 * 0x100 + buffer_byte(src, 4) as u32;
        if length as usize > MAX_PAYLOAD {
            return Err(DecodeError::PayloadTooLarge(length as usize));
        }
        let tag = buffer_byte(src, 0);
        match FrameType::from_u8(tag) {
            Some(frame_type) => Ok(Some((frame_type, length as usize))),
            None => Err(DecodeError::UnknownFrameType(tag)),
        }
    }

    /// Take the frame at the front of `src`, if all of it is there. Nothing
    /// is taken otherwise.
    pub fn decode(&mut self, src: &mut BytesMut) -> (r: Result<Option<Frame>, DecodeError>)
        ensures
            match front_of(buffered(*old(src))) {
                Front::Partial => r == Ok::<Option<Frame>, DecodeError>(None) && buffered(
                    *final(src),
                ) == buffered(*old(src)),
                Front::Broken(e) => r == Err::<Option<Frame>, DecodeError>(e) && buffered(
                    *final(src),
                ) == buffered(*old(src)),
                Front::Whole(frame, rest) => r is Ok && r->Ok_0 is Some && r->Ok_0->0@ == frame
                    && buffered(*final(src)) == rest,
            },
    {
        let ghost bytes = buffered(*src);
        let (frame_type, length) = match Self::header(src) {
            Err(e) => return Err(e),
            Ok(None) => return Ok(None),
            Ok(Some(header)) => header,
        };
        if buffer_len(src) < 5 + length {
            return Ok(None);
        }
        buffer_advance(src, 5);
        let payload = buffer_split_to(src, length);
        proof {
            assert(payload@ =~= bytes.subrange(5, 5 + length as int));
            assert(bytes.skip(5).skip(length as int) =~= bytes.skip(5 + length as int));
        }
        Ok(Some(Frame { frame_type, payload }))
    }

    /// Append `item` to `dst` in wire form, unless its payload is above the
    /// cap.
    pub fn encode(&mut self, item: Frame, dst: &mut BytesMut) -> (r: Result<(), EncodeError>)
        requires
            item@.payload.len() <= MAX_PAYLOAD ==> has_room(
                buffered(*old(dst)).len(),
                item@.payload.len(),
            ),
        ensures
            appended(buffered(*old(dst)), item@, buffered(*final(dst)), r),
    {
        let length: usize = item.payload.len();
        if length > MAX_PAYLOAD {
            return Err(EncodeError::PayloadTooLarge(length));
        }
        let ghost before = buffered(*dst);
        buffer_reserve(dst, 5 + length);
        buffer_put_u8(dst, item.frame_type.to_byte());
        buffer_put_u32(dst, length as u32);
        buffer_put_slice(dst, &item.payload);
        proof {
            assert(buffered(*dst) =~= before + frame_bytes(item@));
        }
        Ok(())
    }

    /// Append `item` to `dst` like [`FrameCodec::encode`], unless the buffer
    /// cannot hold it: `None`, with the buffer as it was.
    pub fn encode_if_room(&mut self, item: Frame, dst: &mut BytesMut) -> (r: Option<
        Result<(), EncodeError>,
    >)
        ensures
            r is None <==> item@.payload.len() <= MAX_PAYLOAD && !has_room(
                buffered(*old(dst)).len(),
                item@.payload.len(),
            ),
            match r {
                Some(done) => appended(buffered(*old(dst)), item@, buffered(*final(dst)), done),
                None => buffered(*final(dst)) == buffered(*old(dst)),
            },
    {
        let limit: usize = isize::MAX as usize;
        let held: usize = buffer_len(dst);
        let length: usize = item.payload.len();
        if length <= MAX_PAYLOAD && (held > limit || limit - held < 5 || limit - held - 5
            < length) {
            return None;
        }
        Some(self.encode(item, dst))
    }
}

// ---------------------------------------------------------------------------
// Laws
// ---------------------------------------------------------------------------

/// Four big-endian bytes hold any number below 2^32.
proof fn lemma_be_value(n: nat)
    requires
        n < 0x1_0000_0000,
    ensures
        be_value(be_bytes(n)[0], be_bytes(n)[1], be_bytes(n)[2], be_bytes(n)[3]) == n,
{
}

/// The header of a frame's wire form, whatever follows it.
proof fn lemma_header(f: FrameModel, rest: Seq<u8>)
    requires
        f.payload.len() <= MAX_PAYLOAD,
    ensures
        header_of(frame_bytes(f) + rest) == Ok::<Option<(FrameType, nat)>, DecodeError>(
            Some((f.frame_type, f.payload.len())),
        ),
{
    let bytes = frame_bytes(f) + rest;
    lemma_be_value(f.payload.len());
    assert(bytes[0] == f.frame_type.tag());
    let t = choose|t: FrameType| t.tag() == bytes[0];
    assert(t.tag() == bytes[0]);
    crate::protocol::law_tags_are_distinct(t, f.frame_type);
}

/// What was encoded is what is decoded, and the bytes after it are left.
pub proof fn law_decode_inverts_encode(f: FrameModel, rest: Seq<u8>)
    requires
        f.payload.len() <= MAX_PAYLOAD,
    ensures
        front_of(frame_bytes(f) + rest) == Front::Whole(f, rest),
{
    let bytes = frame_bytes(f) + rest;
    let n = f.payload.len() as int;
    lemma_header(f, rest);
    assert(bytes.subrange(5, 5 + n) =~= f.payload);
    assert(bytes.skip(5 + n) =~= rest);
}

/// A message that fits the cap, put on the wire and taken off it, is the
/// message that was sent, and the bytes after it are left, once the JSON
/// reader hands back the struct that the payload was written from.
pub proof fn law_message_survives_the_wire(
    message: MessageModel,
    rest: Seq<u8>,
    frame: Frame,
    left: Seq<u8>,
    body: Body,
    r: Result<Message, DecodeError>,
)
    requires
        message.is_sendable(),
        message.payload().len() <= MAX_PAYLOAD,
        front_of(frame_bytes(message.frame()) + rest) == Front::Whole(frame@, left),
        body.holds(message),
        frame_message(frame, Ok(body), r),
    ensures
        r is Ok,
        r->Ok_0@ == message,
        left == rest,
{
    law_decode_inverts_encode(message.frame(), rest);
    law_message_reads_back(message, frame, body, r);
}

/// A strict prefix of a frame's wire form yields no frame and no error.
pub proof fn law_strict_prefix_yields_no_frame(f: FrameModel, n: int)
    requires
        f.payload.len() <= MAX_PAYLOAD,
        0 <= n < frame_bytes(f).len(),
    ensures
        front_of(frame_bytes(f).take(n)) is Partial,
{
    if n >= 5 {
        lemma_header(f, Seq::empty());
        assert(frame_bytes(f) + Seq::<u8>::empty() =~= frame_bytes(f));
    }
}

/// A declared length above the cap fails at the header, regardless of the
/// tag and of how much of the body has arrived.
pub proof fn law_oversized_length_fails_at_the_header(tag: u8, declared: nat, body: Seq<u8>)
    requires
        MAX_PAYLOAD < declared < 0x1_0000_0000,
    ensures
        front_of(seq![tag] + be_bytes(declared) + body) == Front::Broken(
            DecodeError::PayloadTooLarge(declared as usize),
        ),
{
    lemma_be_value(declared);
}

/// A decoded frame is strictly shorter on the wire than the bytes it came
/// from were, so that decoding a stream ends.
proof fn lemma_rest_is_shorter(bytes: Seq<u8>)
    ensures
        front_of(bytes) matches Front::Whole(_, rest) ==> rest.len() < bytes.len(),
{
}

/// The frames at the front of `bytes`, all that are complete.
pub open spec fn frames_of(bytes: Seq<u8>) -> Seq<FrameModel>
    decreases bytes.len(),
{
    match front_of(bytes) {
        Front::Whole(frame, rest) => if rest.len() < bytes.len() {
            seq![frame] + frames_of(rest)
        } else {
            seq![frame]
        },
        _ => Seq::empty(),
    }
}

/// What is left of `bytes` once all complete frames are taken.
pub open spec fn leftover(bytes: Seq<u8>) -> Seq<u8>
    decreases bytes.len(),
{
    match front_of(bytes) {
        Front::Whole(_, rest) => if rest.len() < bytes.len() {
            leftover(rest)
        } else {
            rest
        },
        _ => bytes,
    }
}

/// Wire form of several frames, one after the other.
pub open spec fn stream_bytes(frames: Seq<FrameModel>) -> Seq<u8>
    decreases frames.len(),
{
    if frames.len() == 0 {
        Seq::empty()
    } else {
        frame_bytes(frames[0]) + stream_bytes(frames.drop_first())
    }
}

/// A stream of frames decodes to those frames, with nothing left over.
pub proof fn law_stream_decodes_to_its_frames(frames: Seq<FrameModel>)
    requires
        forall|i: int| 0 <= i < frames.len() ==> (#[trigger] frames[i]).payload.len()
            <= MAX_PAYLOAD,
    ensures
        frames_of(stream_bytes(frames)) == frames,
        leftover(stream_bytes(frames)) == Seq::<u8>::empty(),
    decreases frames.len(),
{
    let bytes = stream_bytes(frames);
    if frames.len() > 0 {
        let rest = stream_bytes(frames.drop_first());
        law_decode_inverts_encode(frames[0], rest);
        law_stream_decodes_to_its_frames(frames.drop_first());
        assert(frames_of(bytes) =~= frames);
    } else {
        assert(frames_of(bytes) =~= frames);
    }
}

/// Bytes that arrive later do not change a frame that is already complete.
proof fn lemma_front_extends(bytes: Seq<u8>, more: Seq<u8>)
    ensures
        front_of(bytes) matches Front::Whole(frame, rest) ==> front_of(bytes + more)
            == Front::Whole(frame, rest + more),
        front_of(bytes) matches Front::Broken(e) ==> front_of(bytes + more) == Front::Broken(e),
{
    if bytes.len() >= 5 {
        assert(header_of(bytes) == header_of(bytes + more));
        if let Front::Whole(frame, rest) = front_of(bytes) {
            let n = frame.payload.len() as int;
            assert((bytes + more).subrange(5, 5 + n) =~= bytes.subrange(5, 5 + n));
            assert((bytes + more).skip(5 + n) =~= bytes.skip(5 + n) + more);
        }
    }
}

/// Framing tolerates any split of the stream: taking the complete frames of
/// a first piece, then those of what was left with the next piece appended,
/// gives the frames of the whole.
pub proof fn law_any_split_gives_the_same_frames(first: Seq<u8>, next: Seq<u8>)
    ensures
        frames_of(first + next) == frames_of(first) + frames_of(leftover(first) + next),
        leftover(first + next) == leftover(leftover(first) + next),
    decreases first.len(),
{
    lemma_front_extends(first, next);
    match front_of(first) {
        Front::Whole(frame, rest) => {
            lemma_rest_is_shorter(first);
            law_any_split_gives_the_same_frames(rest, next);
            assert(frames_of(first + next) =~= seq![frame] + frames_of(rest + next));
            assert(seq![frame] + (frames_of(rest) + frames_of(leftover(rest) + next))
                =~= frames_of(first) + frames_of(leftover(first) + next));
        },
        _ => {
            assert(frames_of(first) + frames_of(first + next) =~= frames_of(first + next));
        },
    }
}

/// Feeding `chunks` one after the other to a buffer that holds `held`, and
/// taking all complete frames after each: the frames in the order they come
/// out, and what the buffer holds at the end.
pub open spec fn fed(held: Seq<u8>, chunks: Seq<Seq<u8>>) -> (Seq<FrameModel>, Seq<u8>)
    decreases chunks.len(),
{
    if chunks.len() == 0 {
        (Seq::empty(), held)
    } else {
        let bytes = held + chunks[0];
        let later = fed(leftover(bytes), chunks.drop_first());
        (frames_of(bytes) + later.0, later.1)
    }
}

/// Feeding `chunks` in this way, taking frames ends each time because more
/// bytes are needed, never on a transport violation.
pub open spec fn never_fails(held: Seq<u8>, chunks: Seq<Seq<u8>>) -> bool
    decreases chunks.len(),
{
    chunks.len() > 0 ==> {
        let rest = leftover(held + chunks[0]);
        front_of(rest) is Partial && never_fails(rest, chunks.drop_first())
    }
}

/// No complete frame is left over.
proof fn lemma_leftover_is_not_whole(bytes: Seq<u8>)
    ensures
        !(front_of(leftover(bytes)) is Whole),
    decreases bytes.len(),
{
    if let Front::Whole(_, rest) = front_of(bytes) {
        lemma_rest_is_shorter(bytes);
        lemma_leftover_is_not_whole(rest);
    }
}

/// Feeding in chunks gives what all the bytes at once give, and where nothing
/// is left in the end no chunk brought a violation.
proof fn lemma_fed(held: Seq<u8>, chunks: Seq<Seq<u8>>)
    requires
        !(front_of(held) is Whole),
    ensures
        fed(held, chunks).0 == frames_of(held + chunks.flatten()),
        fed(held, chunks).1 == leftover(held + chunks.flatten()),
        leftover(held + chunks.flatten()).len() == 0 ==> never_fails(held, chunks),
    decreases chunks.len(),
{
    if chunks.len() == 0 {
        assert(held + chunks.flatten() =~= held);
    } else {
        let bytes = held + chunks[0];
        let after = chunks.drop_first();
        let rest = leftover(bytes);
        lemma_leftover_is_not_whole(bytes);
        lemma_fed(rest, after);
        law_any_split_gives_the_same_frames(bytes, after.flatten());
        assert(held + chunks.flatten() =~= bytes + after.flatten());
        lemma_front_extends(rest, after.flatten());
    }
}

/// However a stream of frames is cut into chunks, feeding the chunks in order
/// and taking all complete frames after each gives exactly those frames, in
/// order. No call fails, and nothing is left in the buffer.
pub proof fn law_any_chunking_gives_the_frames(frames: Seq<FrameModel>, chunks: Seq<Seq<u8>>)
    requires
        forall|i: int| 0 <= i < frames.len() ==> (#[trigger] frames[i]).payload.len()
            <= MAX_PAYLOAD,
        chunks.flatten() == stream_bytes(frames),
    ensures
        fed(Seq::empty(), chunks) == (frames, Seq::<u8>::empty()),
        never_fails(Seq::empty(), chunks),
{
    let none = Seq::<u8>::empty();
    law_stream_decodes_to_its_frames(frames);
    assert(none + chunks.flatten() =~= stream_bytes(frames));
    lemma_fed(none, chunks);
}

/// The wire form byte by byte: the tag, the length of the payload in four
/// bytes with the most significant first, the payload.
pub proof fn law_wire_form_byte_by_byte(f: FrameModel)
    requires
        f.payload.len() < 0x1_0000_0000,
    ensures
        ({
            let bytes = frame_bytes(f);
            &&& bytes.len() == 5 + f.payload.len()
            &&& bytes[0] == f.frame_type.tag()
            &&& 16777216 * bytes[1] + 65536 * bytes[2] + 256 * bytes[3] + bytes[4]
                == f.payload.len()
            &&& bytes.skip(5) == f.payload
        }),
{
    lemma_be_value(f.payload.len());
    assert(frame_bytes(f).skip(5) =~= f.payload);
}

/// A tag that is none fails at the header, whatever the length within the
/// cap, and so does a length above the cap; a header that is not complete is
/// waited for.
pub proof fn law_header_is_checked_at_once(bytes: Seq<u8>)
    ensures
        bytes.len() < 5 ==> front_of(bytes) is Partial,
        bytes.len() >= 5 && !(1 <= bytes[0] <= 11) && 16777216 * bytes[1] + 65536 * bytes[2] + 256
            * bytes[3] + bytes[4] <= 16777216 ==> front_of(bytes) == Front::Broken(
            DecodeError::UnknownFrameType(bytes[0]),
        ),
        bytes.len() >= 5 && 16777216 * bytes[1] + 65536 * bytes[2] + 256 * bytes[3] + bytes[4]
            > 16777216 ==> front_of(bytes) == Front::Broken(
            DecodeError::PayloadTooLarge(
                (16777216 * bytes[1] + 65536 * bytes[2] + 256 * bytes[3] + bytes[4]) as usize,
            ),
        ),
{
    if bytes.len() >= 5 && !(1 <= bytes[0] <= 11) {
        assert forall|t: FrameType| t.tag() != bytes[0] by {}
    }
}

/// Encoding puts the wire form behind what the buffer holds; a payload above
/// the cap is refused by its size and leaves the buffer as it was.
pub proof fn law_encoding_appends_or_refuses(
    before: Seq<u8>,
    f: FrameModel,
    after: Seq<u8>,
    r: Result<(), EncodeError>,
)
    requires
        appended(before, f, after, r),
    ensures
        f.payload.len() <= 16777216 ==> r is Ok && after == before + frame_bytes(f),
        f.payload.len() > 16777216 ==> after == before && r == Err::<(), EncodeError>(
            EncodeError::PayloadTooLarge(f.payload.len() as usize),
        ),
{
}

} // verus!
