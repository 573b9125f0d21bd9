//! The wire format: each message is a four-byte big-endian signed length
//! followed by that many bytes of UTF-8 text. A negative length carries no
//! payload; it is the remote's signal that it has nothing to say for now.

use vstd::prelude::*;
use vstd::utf8::{decode_utf8, encode_utf8, valid_utf8};

verus! {

/// The longest payload that a frame can carry: the largest 32-bit signed
/// number.
pub const MAX_PAYLOAD: usize = 0x7FFF_FFFF;

/// Why a frame could not be written or read.
#[derive(Clone, Copy, Debug, PartialEq, Eq, Structural)]
pub enum FrameError {
    /// The payload is longer than a frame can say.
    PayloadTooLarge,
    /// The payload is no valid UTF-8 text.
    InvalidPayload,
    /// The stream failed, or ended before the frame did.
    Io,
}

/// The header of a frame that carries `length` bytes.
pub open spec fn header_bytes(length: nat) -> Seq<u8> {
    seq![
        (length / 0x100_0000) as u8,
        ((length / 0x1_0000) % 0x100) as u8,
        ((length / 0x100) % 0x100) as u8,
        (length % 0x100) as u8,
    ]
}

/// The signed number that the four bytes of a header denote.
pub open spec fn header_value(header: Seq<u8>) -> int {
    let unsigned = header[0] as int * 0x100_0000 + header[1] as int * 0x1_0000 + header[2] as int
        * 0x100 + header[3] as int;
    if header[0] >= 0x80 {
        unsigned - 0x1_0000_0000
    } else {
        unsigned
    }
}

/// The length of the payload that a header announces; `None` for the
/// disconnect signal, a negative length.
pub open spec fn payload_length(header: Seq<u8>) -> Option<nat> {
    if header_value(header) < 0 {
        None
    } else {
        Some(header_value(header) as nat)
    }
}

/// A payload with its header in front.
pub open spec fn frame_bytes(payload: Seq<u8>) -> Seq<u8> {
    header_bytes(payload.len()) + payload
}

/// What reading one frame yields.
pub enum FrameView {
    /// The disconnect signal.
    Disconnect,
    /// A payload, as text.
    Payload(Seq<char>),
}

/// What reading one frame from the front of `stream` yields, and how many
/// bytes it takes: after a negative header nothing but the header.
pub open spec fn read_frame_spec(stream: Seq<u8>) -> Result<(FrameView, nat), FrameError> {
    if stream.len() < 4 {
        Err(FrameError::Io)
    } else {
        match payload_length(stream.take(4)) {
            None => Ok((FrameView::Disconnect, 4)),
            Some(length) => if stream.len() < 4 + length {
                Err(FrameError::Io)
            } else if !valid_utf8(stream.subrange(4, 4 + length as int)) {
                Err(FrameError::InvalidPayload)
            } else {
                Ok(
                    (
                        FrameView::Payload(decode_utf8(stream.subrange(4, 4 + length as int))),
                        4 + length,
                    ),
                )
            },
        }
    }
}

/// The header of a frame says how long its payload is.
pub proof fn lemma_header_round_trip(length: nat)
    requires
        length <= MAX_PAYLOAD,
    ensures
        header_bytes(length).len() == 4,
        payload_length(header_bytes(length)) == Some(length),
{
    let header = header_bytes(length);
    assert(header[0] == length / 0x100_0000);
    assert(header[0] < 0x80);
    assert(header[1] == (length / 0x1_0000) % 0x100);
    assert(header[2] == (length / 0x100) % 0x100);
    assert(header[3] == length % 0x100);
}

/// Every header that announces a payload is the header of its length.
pub proof fn lemma_header_of_length(header: Seq<u8>)
    requires
        header.len() == 4,
        payload_length(header) is Some,
    ensures
        payload_length(header)->0 <= MAX_PAYLOAD,
        header_bytes(payload_length(header)->0) == header,
{
    let length = payload_length(header)->0;
    assert(header[0] < 0x80);
    assert(length / 0x100_0000 == header[0]);
    assert((length / 0x1_0000) % 0x100 == header[1]);
    assert((length / 0x100) % 0x100 == header[2]);
    assert(length % 0x100 == header[3]);
    assert(header_bytes(length) =~= header);
}

/// A frame that was written is read back as it was: for every payload that
/// is text and short enough for a frame, reading the frame of it yields that
/// text, whose bytes are the payload, and takes the header and the payload
/// and nothing of what follows.
pub proof fn lemma_frame_round_trip(payload: Seq<u8>, rest: Seq<u8>)
    requires
        payload.len() <= MAX_PAYLOAD,
        valid_utf8(payload),
    ensures
        read_frame_spec(frame_bytes(payload) + rest) == Ok::<(FrameView, nat), FrameError>(
            (FrameView::Payload(decode_utf8(payload)), 4 + payload.len()),
        ),
        encode_utf8(decode_utf8(payload)) == payload,
{
    lemma_header_round_trip(payload.len());
    let stream = frame_bytes(payload) + rest;
    assert(stream.take(4) =~= header_bytes(payload.len()));
    assert(stream.subrange(4, 4 + payload.len() as int) =~= payload);
    vstd::utf8::decode_utf8_encode_utf8(payload);
}

/// A frame whose payload is no text is refused when it is read back.
pub proof fn lemma_frame_of_invalid_text(payload: Seq<u8>, rest: Seq<u8>)
    requires
        payload.len() <= MAX_PAYLOAD,
        !valid_utf8(payload),
    ensures
        read_frame_spec(frame_bytes(payload) + rest) == Err::<(FrameView, nat), FrameError>(
            FrameError::InvalidPayload,
        ),
{
    lemma_header_round_trip(payload.len());
    let stream = frame_bytes(payload) + rest;
    assert(stream.take(4) =~= header_bytes(payload.len()));
    assert(stream.subrange(4, 4 + payload.len() as int) =~= payload);
}

/// After a negative header reading yields the disconnect signal and takes
/// the four bytes of the header only, whatever follows them.
pub proof fn lemma_disconnect_takes_header_only(stream: Seq<u8>)
    requires
        stream.len() >= 4,
        stream[0] >= 0x80,
    ensures
        read_frame_spec(stream) == Ok::<(FrameView, nat), FrameError>((FrameView::Disconnect, 4)),
{
    assert(stream.take(4)[0] == stream[0]);
}

/// The header for a payload of `length` bytes.
pub fn encode_header(length: usize) -> (r: Result<[u8; 4], FrameError>)
    ensures
        match r {
            Ok(header) => length <= MAX_PAYLOAD && header@ == header_bytes(length as nat),
            Err(error) => length > MAX_PAYLOAD && error == FrameError::PayloadTooLarge,
        },
{
    if length > MAX_PAYLOAD {
        return Err(FrameError::PayloadTooLarge);
    }
    let header: [u8; 4] = [
        (length / 0x100_0000) as u8,
        ((length / 0x1_0000) % 0x100) as u8,
        ((length / 0x100) % 0x100) as u8,
        (length % 0x100) as u8,
    ];
    assert(header@ =~= header_bytes(length as nat));
    Ok(header)
}

/// The length of the payload that `header` announces; `None` for the
/// disconnect signal.
pub fn decode_header(header: &[u8; 4]) -> (length: Option<usize>)
    ensures
        length is Some <==> payload_length(header@) is Some,
        length matches Some(n) ==> payload_length(header@) == Some(n as nat) && n <= MAX_PAYLOAD,
{
    if header[0] >= 0x80 {
        None
    } else {
        let value: u32 = header[0] as u32 * 0x100_0000 + header[1] as u32 * 0x1_0000 + header[2] as u32
            * 0x100 + header[3] as u32;
        Some(value as usize)
    }
}

/// Calls `String::from_utf8`: the bytes as text where they are valid UTF-8,
/// and nothing where they are not.
#[verifier::external_body]
fn text_from_utf8(bytes: Vec<u8>) -> (text: Option<String>)
    ensures
        text is Some <==> valid_utf8(bytes@),
        text matches Some(s) ==> s@ == decode_utf8(bytes@),
{
    String::from_utf8(bytes).ok()
}

/// The payload of a frame as text.
pub fn decode_payload(bytes: Vec<u8>) -> (r: Result<String, FrameError>)
    ensures
        match r {
            Ok(text) => valid_utf8(bytes@) && text@ == decode_utf8(bytes@),
            Err(error) => !valid_utf8(bytes@) && error == FrameError::InvalidPayload,
        },
{
    match text_from_utf8(bytes) {
        Some(text) => Ok(text),
        None => Err(FrameError::InvalidPayload),
    }
}

/// The frame that carries `payload`.
pub fn encode_frame(payload: &[u8]) -> (r: Result<Vec<u8>, FrameError>)
    ensures
        match r {
            Ok(frame) => payload.len() <= MAX_PAYLOAD && frame@ == frame_bytes(payload@),
            Err(error) => payload.len() > MAX_PAYLOAD && error == FrameError::PayloadTooLarge,
        },
{
    let mut frame: Vec<u8> = Vec::new();
    match write_frame(&mut frame, payload) {
        Ok(()) => {
            assert(frame@ =~= frame_bytes(payload@));
            Ok(frame)
        },
        Err(error) => Err(error),
    }
}

/// Appends the frame that carries `payload` to `stream`. A payload that is
/// too long is refused and leaves the stream as it was.
pub fn write_frame(stream: &mut Vec<u8>, payload: &[u8]) -> (r: Result<(), FrameError>)
    ensures
        match r {
            Ok(()) => payload.len() <= MAX_PAYLOAD && final(stream)@ == old(stream)@ + frame_bytes(
                payload@,
            ),
            Err(error) => payload.len() > MAX_PAYLOAD && error == FrameError::PayloadTooLarge
                && final(stream)@ == old(stream)@,
        },
{
    let header = match encode_header(payload.len()) {
        Ok(header) => header,
        Err(error) => {
            return Err(error);
        },
    };
    let ghost before = stream@;
    stream.push(header[0]);
    stream.push(header[1]);
    stream.push(header[2]);
    stream.push(header[3]);
    assert(stream@ =~= before + header_bytes(payload.len() as nat));
    let mut i: usize = 0;
    while i < payload.len()
        invariant
            i <= payload.len(),
            stream@ == before + header_bytes(payload.len() as nat) + payload@.take(i as int),
        decreases payload.len() - i,
    {
        stream.push(payload[i]);
        assert(payload@.take(i + 1) =~= payload@.take(i as int).push(payload@[i as int]));
        i = i + 1;
    }
    assert(payload@.take(i as int) =~= payload@);
    assert(stream@ =~= before + frame_bytes(payload@));
    Ok(())
}

/// What one frame held.
#[derive(Clone, Debug, PartialEq, Eq)]
pub enum Frame {
    /// The disconnect signal.
    Disconnect,
    /// A payload, as text.
    Payload(String),
}

impl View for Frame {
    type V = FrameView;

    open spec fn view(&self) -> FrameView {
        match self {
            Frame::Disconnect => FrameView::Disconnect,
            Frame::Payload(text) => FrameView::Payload(text@),
        }
    }
}

/// The read frame with the text as what it stands for.
pub open spec fn read_view(r: Result<(Frame, usize), FrameError>) -> Result<
    (FrameView, nat),
    FrameError,
> {
    match r {
        Ok((frame, taken)) => Ok((frame@, taken as nat)),
        Err(error) => Err(error),
    }
}

/// Reads one frame from the front of `stream`, and says how many bytes it
/// took.
pub fn read_frame(stream: &[u8]) -> (r: Result<(Frame, usize), FrameError>)
    ensures
        read_view(r) == read_frame_spec(stream@),
{
    if stream.len() < 4 {
        return Err(FrameError::Io);
    }
    let header: [u8; 4] = [stream[0], stream[1], stream[2], stream[3]];
    assert(header@ =~= stream@.take(4));
    let length = match decode_header(&header) {
        Some(length) => length,
        None => {
            return Ok((Frame::Disconnect, 4));
        },
    };
    if stream.len() - 4 < length {
        return Err(FrameError::Io);
    }
    let mut payload: Vec<u8> = Vec::new();
    let mut i: usize = 0;
    while i < length
        invariant
            i <= length,
            4 + length <= stream.len(),
            payload@ == stream@.subrange(4, 4 + i),
        decreases length - i,
    {
        payload.push(stream[4 + i]);
        assert(stream@.subrange(4, 4 + i + 1) =~= stream@.subrange(4, 4 + i).push(stream@[4 + i]));
        i = i + 1;
    }
    match decode_payload(payload) {
        Ok(text) => Ok((Frame::Payload(text), 4 + length)),
        Err(error) => Err(error),
    }
}

} // verus!
