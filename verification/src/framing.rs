//! Length-prefixed framing on the control stream.
//!
//! A stream carries reliable, ordered bytes without message boundaries, so each
//! frame is preceded by its length: four bytes, big-endian. The cap keeps a
//! malicious peer from asking for a huge allocation. Heartbeats travel as
//! datagrams and need no framing.

use vstd::prelude::*;

use crate::protocol::{Frame, FrameView};
use crate::wire::{decoded, frame_bytes, frame_fits, law_decode_inverts_encode, DecodeError};

verus! {

/// An input or output error of the stream.
#[verifier::external_type_specification]
#[verifier::external_body]
pub struct ExIoError(std::io::Error);

/// Upper bound on a single framed message.
pub const MAX_FRAME_BYTES: u32 = 65_536;

#[derive(Debug)]
pub enum FrameSendError {
    /// The encoded frame exceeds [`MAX_FRAME_BYTES`].
    TooLarge(usize),
    /// The stream could not be written.
    Io(std::io::Error),
}

#[derive(Debug)]
pub enum FrameRecvError {
    /// The stream closed between two frames.
    Eof,
    /// The advertised length exceeds [`MAX_FRAME_BYTES`].
    OversizedFrame(u32),
    /// The stream could not be read, or ended inside a frame.
    Io(std::io::Error),
    /// The payload is not a frame.
    Decode(DecodeError),
}

/// A number as four bytes, most significant first.
pub open spec fn big_endian(n: nat) -> Seq<u8> {
    seq![
        (n / 0x100_0000 % 0x100) as u8,
        (n / 0x1_0000 % 0x100) as u8,
        (n / 0x100 % 0x100) as u8,
        (n % 0x100) as u8,
    ]
}

/// The number that four bytes stand for, most significant first.
pub open spec fn from_big_endian(b: Seq<u8>) -> nat {
    (b[0] * 0x100_0000 + b[1] * 0x1_0000 + b[2] * 0x100 + b[3]) as nat
}

/// A payload with its length in front.
pub open spec fn framed(payload: Seq<u8>) -> Seq<u8> {
    big_endian(payload.len()) + payload
}

/// Append one frame to the bytes going out on a stream: the length prefix, then
/// the encoded frame.
pub fn write_frame(out: &mut Vec<u8>, frame: &Frame) -> (r: Result<(), FrameSendError>)
    ensures
        match r {
            Ok(()) => frame_bytes(frame@).len() <= MAX_FRAME_BYTES && final(out)@ == old(out)@
                + framed(frame_bytes(frame@)),
            Err(FrameSendError::TooLarge(n)) => n == frame_bytes(frame@).len() && n
                > MAX_FRAME_BYTES && final(out)@ == old(out)@,
            Err(FrameSendError::Io(_)) => false,
        },
{
    let mut payload = frame.encode();
    let n: usize = payload.len();
    if n > MAX_FRAME_BYTES as usize {
        return Err(FrameSendError::TooLarge(n));
    }
    let len: u32 = n as u32;
    out.push((len / 0x100_0000) as u8);
    out.push((len / 0x1_0000 % 0x100) as u8);
    out.push((len / 0x100 % 0x100) as u8);
    out.push((len % 0x100) as u8);
    let ghost body = payload@;
    out.append(&mut payload);
    assert(out@ =~= old(out)@ + framed(body));
    Ok(())
}

/// How far the reading of one frame has come.
#[derive(Debug, Clone, Copy, PartialEq, Eq, Structural)]
pub enum FrameReader {
    /// Nothing has been read. The stream may end here.
    Start,
    /// The first byte of the length has been read.
    Prefix { first: u8 },
    /// The length has been read.
    Payload { len: u32 },
}

/// What came of asking the stream for the wanted bytes.
#[derive(Debug)]
pub enum ReadEvent {
    /// The bytes, or none at all where the stream ended before a frame.
    Bytes(Vec<u8>),
    /// The stream failed, or ended inside a frame.
    Failed(std::io::Error),
}

/// Where a successful read leads.
#[derive(Debug)]
pub enum ReadProgress {
    /// More bytes are wanted.
    More(FrameReader),
    /// The frame is complete.
    Complete(Frame),
}

/// What the next bytes of a stream lead to.
pub enum NextView {
    More(FrameReader),
    Complete(FrameView),
    Eof,
    OversizedFrame(u32),
    Malformed,
}

impl FrameReader {
    /// How many bytes the reader wants next.
    pub open spec fn wants(self) -> nat {
        match self {
            FrameReader::Start => 1,
            FrameReader::Prefix { .. } => 3,
            FrameReader::Payload { len } => len as nat,
        }
    }

    /// The stream can hand over these bytes: as many as wanted, or none at the
    /// start.
    pub open spec fn accepts(self, b: Seq<u8>) -> bool {
        b.len() == self.wants() || (self is Start && b.len() == 0)
    }

    /// What the next bytes lead to.
    pub open spec fn next(self, b: Seq<u8>) -> NextView {
        match self {
            FrameReader::Start => if b.len() == 0 {
                NextView::Eof
            } else {
                NextView::More(FrameReader::Prefix { first: b[0] })
            },
            FrameReader::Prefix { first } => {
                let len = from_big_endian(seq![first] + b);
                if len > MAX_FRAME_BYTES {
                    NextView::OversizedFrame(len as u32)
                } else {
                    NextView::More(FrameReader::Payload { len: len as u32 })
                }
            },
            FrameReader::Payload { .. } => match decoded(b) {
                Some(f) => NextView::Complete(f),
                None => NextView::Malformed,
            },
        }
    }

    /// How many bytes to read from the stream next.
    pub fn wanted(&self) -> (r: usize)
        requires
            self matches FrameReader::Payload { len } ==> len <= MAX_FRAME_BYTES,
        ensures
            r == self.wants(),
    {
        match self {
            FrameReader::Start => 1,
            FrameReader::Prefix { .. } => 3,
            FrameReader::Payload { len } => *len as usize,
        }
    }

    /// Take one step: an end of the stream before the first length byte is a
    /// clean close, anywhere else it is a failure that the stream reports.
    pub fn advance(self, event: ReadEvent) -> (r: Result<ReadProgress, FrameRecvError>)
        requires
            event matches ReadEvent::Bytes(b) ==> self.accepts(b@),
        ensures
            match event {
                ReadEvent::Failed(e) => r == Err::<ReadProgress, FrameRecvError>(
                    FrameRecvError::Io(e),
                ),
                ReadEvent::Bytes(b) => match (r, self.next(b@)) {
                    (Ok(ReadProgress::More(next)), NextView::More(v)) => next == v && next.wants()
                        <= MAX_FRAME_BYTES,
                    (Ok(ReadProgress::Complete(f)), NextView::Complete(v)) => f@ == v,
                    (Err(FrameRecvError::Eof), NextView::Eof) => true,
                    (Err(FrameRecvError::OversizedFrame(n)), NextView::OversizedFrame(v)) => n == v,
                    (Err(FrameRecvError::Decode(_)), NextView::Malformed) => true,
                    _ => false,
                },
            },
    {
        let bytes = match event {
            ReadEvent::Failed(e) => {
                return Err(FrameRecvError::Io(e));
            }
            ReadEvent::Bytes(b) => b,
        };
        match self {
            FrameReader::Start => {
                if bytes.len() == 0 {
                    Err(FrameRecvError::Eof)
                } else {
                    Ok(ReadProgress::More(FrameReader::Prefix { first: bytes[0] }))
                }
            }
            FrameReader::Prefix { first } => {
                let len: u32 = first as u32 * 0x100_0000 + bytes[0] as u32 * 0x1_0000
                    + bytes[1] as u32 * 0x100 + bytes[2] as u32;
                assert(len == from_big_endian(seq![first] + bytes@));
                if len > MAX_FRAME_BYTES {
                    Err(FrameRecvError::OversizedFrame(len))
                } else {
                    Ok(ReadProgress::More(FrameReader::Payload { len }))
                }
            }
            FrameReader::Payload { .. } => match Frame::decode(bytes.as_slice()) {
                Ok(f) => Ok(ReadProgress::Complete(f)),
                Err(e) => Err(FrameRecvError::Decode(e)),
            },
        }
    }
}

/// The length prefix reads back as the length.
pub proof fn lemma_big_endian(n: nat)
    requires
        n <= u32::MAX,
    ensures
        big_endian(n).len() == 4,
        from_big_endian(big_endian(n)) == n,
{
    let a = n / 0x100_0000;
    let b = n / 0x1_0000;
    let c = n / 0x100;
    assert(a == b / 0x100 && b == c / 0x100);
    assert(a < 0x100);
}

/// A reader that is fed a written frame piece by piece hands back that frame,
/// and wants exactly the bytes that were written.
pub proof fn law_reader_inverts_writer(f: FrameView)
    requires
        frame_fits(f),
        frame_bytes(f).len() <= MAX_FRAME_BYTES,
    ensures
        ({
            let s = framed(frame_bytes(f));
            let len = frame_bytes(f).len() as u32;
            &&& FrameReader::Start.next(s.subrange(0, 1)) == NextView::More(
                FrameReader::Prefix { first: s[0] },
            )
            &&& (FrameReader::Prefix { first: s[0] }).next(s.subrange(1, 4)) == NextView::More(
                FrameReader::Payload { len },
            )
            &&& (FrameReader::Payload { len }).next(s.subrange(4, 4 + len)) == NextView::Complete(f)
            &&& s.len() == 4 + len
        }),
{
    let body = frame_bytes(f);
    let s = framed(body);
    lemma_big_endian(body.len());
    assert(seq![s[0]] + s.subrange(1, 4) =~= big_endian(body.len()));
    assert(s.subrange(4, (4 + body.len()) as int) =~= body);
    law_decode_inverts_encode(f, Seq::empty());
}

/// The length in front of a frame takes four bytes, the most significant first;
/// the frame follows unchanged.
pub proof fn law_frames_carry_their_length(payload: Seq<u8>)
    requires
        payload.len() <= u32::MAX,
    ensures
        ({
            let s = framed(payload);
            &&& s.len() == 4 + payload.len()
            &&& s.skip(4) == payload
            &&& payload.len() == s[0] * 0x100_0000 + s[1] * 0x1_0000 + s[2] * 0x100 + s[3]
        }),
{
    lemma_big_endian(payload.len());
    assert(framed(payload).skip(4) =~= payload);
}

/// A stream may end before a frame. A length of more than 64 KiB is refused and
/// named; any other is how many bytes are read next, and they are decoded.
pub proof fn law_long_frames_are_refused(first: u8, b: Seq<u8>, payload: Seq<u8>, len: u32)
    requires
        b.len() == 3,
    ensures
        ({
            let advertised = first * 0x100_0000 + b[0] * 0x1_0000 + b[1] * 0x100 + b[2];
            let next = (FrameReader::Prefix { first }).next(b);
            &&& advertised > 65_536 ==> next == NextView::OversizedFrame(advertised as u32)
            &&& advertised <= 65_536 ==> next == NextView::More(
                FrameReader::Payload { len: advertised as u32 },
            )
        }),
        FrameReader::Start.next(Seq::empty()) is Eof,
        FrameReader::Start.next(seq![first]) == NextView::More(FrameReader::Prefix { first }),
        FrameReader::Start.wants() == 1,
        (FrameReader::Prefix { first }).wants() == 3,
        (FrameReader::Payload { len }).wants() == len,
        match decoded(payload) {
            Some(f) => (FrameReader::Payload { len }).next(payload) == NextView::Complete(f),
            None => (FrameReader::Payload { len }).next(payload) is Malformed,
        },
{
    let s = seq![first] + b;
    assert(s[0] == first && s[1] == b[0] && s[2] == b[1] && s[3] == b[2]);
}

} // verus!
