//! Wire framing of the frames exchanged on a data channel.
//!
//! A frame starts with a one-byte tag. A service payload frame carries the
//! tag `SERVICE_PAYLOAD_TAG` followed by the payload bytes. A payload larger
//! than `WEBRTC_MAX_LEN` is sent as a run of frames: every frame but the last
//! carries `PARTIAL_PAYLOAD_TAG`, telling the peer to buffer its body and
//! concatenate it with the next one; the last keeps `SERVICE_PAYLOAD_TAG`.
use vstd::prelude::*;

use crate::WEBRTC_MAX_LEN;

verus! {

/// Tag of a complete service payload frame.
pub const SERVICE_PAYLOAD_TAG: u8 = 0x00;

/// Tag of a frame that holds a non-final chunk of a service payload.
pub const PARTIAL_PAYLOAD_TAG: u8 = 0x40;

/// Frames sent by the server to a client.
#[derive(Debug, Clone, PartialEq, Eq)]
pub enum ResponseFrame {
    ServicePayload { bytes: Vec<u8> },
}

/// Frames sent by a client to the server once its handshake is done.
#[derive(Debug, Clone, PartialEq, Eq)]
pub enum RequestFrame {
    ServicePayload { bytes: Vec<u8> },
}

/// The handshake request a client sends as its first frame.
#[derive(Debug, Clone, PartialEq, Eq)]
pub struct HandshakeRequestFrame {
    pub bytes: Vec<u8>,
}

/// The handshake response the server may send back.
#[derive(Debug, Clone, PartialEq, Eq)]
pub struct HandshakeResponse {
    pub bytes: Vec<u8>,
}

/// Why a request frame could not be decoded.
#[derive(Debug, Clone, Copy, PartialEq, Eq)]
pub enum FrameError {
    /// The frame holds no tag byte.
    Empty,
    /// The tag byte names no request frame.
    UnknownTag(u8),
}

/// Appends `src` to `out`, byte by byte.
fn append_bytes(out: &mut Vec<u8>, src: &[u8])
    ensures
        final(out)@ == old(out)@ + src@,
{
    let n: usize = src.len();
    let mut i: usize = 0;
    while i < n
        invariant
            n == src@.len(),
            i <= n,
            out@ == old(out)@ + src@.subrange(0, i as int),
        decreases n - i,
    {
        out.push(src[i]);
        i = i + 1;
        assert(src@.subrange(0, i as int) == src@.subrange(0, i - 1) + seq![src@[i - 1]]);
    }
    assert(src@.subrange(0, n as int) == src@);
}

/// A frame made of `tag` followed by `body`.
pub open spec fn tagged(tag: u8, body: Seq<u8>) -> Seq<u8> {
    seq![tag] + body
}

impl ResponseFrame {
    /// The payload the frame carries.
    pub open spec fn payload(&self) -> Seq<u8> {
        match self {
            ResponseFrame::ServicePayload { bytes } => bytes@,
        }
    }

    /// The frame's encoding.
    pub open spec fn spec_encode(&self) -> Seq<u8> {
        tagged(SERVICE_PAYLOAD_TAG, self.payload())
    }

    /// Encodes the frame: its tag, then its payload.
    pub fn encode(&self) -> (r: Vec<u8>)
        ensures
            r@ == self.spec_encode(),
    {
        let mut out: Vec<u8> = Vec::new();
        out.push(SERVICE_PAYLOAD_TAG);
        match self {
            ResponseFrame::ServicePayload { bytes } => append_bytes(&mut out, bytes.as_slice()),
        }
        out
    }
}

impl RequestFrame {
    /// The payload the frame carries.
    pub open spec fn payload(&self) -> Seq<u8> {
        match self {
            RequestFrame::ServicePayload { bytes } => bytes@,
        }
    }

    /// Decodes a request frame from the bytes of one data channel message.
    pub fn decode(data: &[u8]) -> (r: Result<RequestFrame, FrameError>)
        ensures
            data@.len() == 0 ==> r == Err::<RequestFrame, FrameError>(FrameError::Empty),
            data@.len() > 0 && data@[0] != SERVICE_PAYLOAD_TAG ==> r == Err::<RequestFrame, FrameError>(
                FrameError::UnknownTag(data@[0]),
            ),
            data@.len() > 0 && data@[0] == SERVICE_PAYLOAD_TAG ==> (r matches Ok(f) && f.payload()
                == data@.drop_first()),
    {
        if data.len() == 0 {
            return Err(FrameError::Empty);
        }
        let tag: u8 = data[0];
        if tag != SERVICE_PAYLOAD_TAG {
            return Err(FrameError::UnknownTag(tag));
        }
        let mut bytes: Vec<u8> = Vec::new();
        append_bytes(&mut bytes, vstd::slice::slice_subrange(data, 1, data.len()));
        assert(data@.subrange(1, data@.len() as int) == data@.drop_first());
        Ok(RequestFrame::ServicePayload { bytes })
    }
}

impl HandshakeRequestFrame {
    /// Takes the handshake request from the bytes of the first message.
    pub fn decode(data: &[u8]) -> (r: HandshakeRequestFrame)
        ensures
            r.bytes@ == data@,
    {
        let mut bytes: Vec<u8> = Vec::new();
        append_bytes(&mut bytes, data);
        HandshakeRequestFrame { bytes }
    }
}

impl HandshakeResponse {
    /// Encodes the handshake response.
    pub fn encode(&self) -> (r: Vec<u8>)
        ensures
            r@ == self.bytes@,
    {
        let mut out: Vec<u8> = Vec::new();
        append_bytes(&mut out, self.bytes.as_slice());
        out
    }
}


/// Number of chunks of at most `WEBRTC_MAX_LEN` bytes that `len` bytes fill.
pub open spec fn chunk_count(len: nat) -> nat {
    if len == 0 {
        0
    } else {
        ((len - 1) as nat / (WEBRTC_MAX_LEN as nat)) + 1
    }
}

/// End (exclusive) of chunk `k` of a payload of `len` bytes.
pub open spec fn chunk_end(len: nat, k: int) -> int {
    if (k + 1) * WEBRTC_MAX_LEN < len {
        (k + 1) * WEBRTC_MAX_LEN
    } else {
        len as int
    }
}

/// Chunk `k` of payload `p`.
pub open spec fn chunk_body(p: Seq<u8>, k: int) -> Seq<u8> {
    p.subrange(k * WEBRTC_MAX_LEN, chunk_end(p.len(), k))
}

/// Frame `k` of the run that carries payload `p` in chunks.
pub open spec fn chunk_frame(p: Seq<u8>, k: int) -> Seq<u8> {
    let tag = if k + 1 < chunk_count(p.len()) {
        PARTIAL_PAYLOAD_TAG
    } else {
        SERVICE_PAYLOAD_TAG
    };
    tagged(tag, chunk_body(p, k))
}

/// The encoded frames written to the data channel to send `frame`.
pub open spec fn spec_outgoing_frames(frame: ResponseFrame) -> Seq<Seq<u8>> {
    let p = frame.payload();
    if p.len() > WEBRTC_MAX_LEN {
        Seq::new(chunk_count(p.len()), |k: int| chunk_frame(p, k))
    } else {
        seq![frame.spec_encode()]
    }
}

/// The concatenation of the bodies (all bytes after the tag) of `frames`.
pub open spec fn concat_bodies(frames: Seq<Seq<u8>>) -> Seq<u8>
    decreases frames.len(),
{
    if frames.len() == 0 {
        Seq::empty()
    } else {
        concat_bodies(frames.drop_last()) + frames.last().drop_first()
    }
}

/// A run of frames that a peer reassembles into one payload: every frame
/// but the last is tagged partial, the last is tagged complete.
pub open spec fn is_payload_run(frames: Seq<Seq<u8>>) -> bool {
    &&& frames.len() > 0
    &&& forall|i: int|
        0 <= i < frames.len() ==> #[trigger] frames[i].len() > 0 && frames[i][0] == (if i + 1
            < frames.len() {
            PARTIAL_PAYLOAD_TAG
        } else {
            SERVICE_PAYLOAD_TAG
        })
}

pub(crate) proof fn lemma_chunk_count(len: nat)
    requires
        len > 0,
    ensures
        chunk_count(len) >= 1,
        (chunk_count(len) - 1) * WEBRTC_MAX_LEN < len,
        len <= chunk_count(len) * WEBRTC_MAX_LEN,
{
    let m: int = WEBRTC_MAX_LEN as int;
    let q: int = (len - 1) / m;
    assert((len - 1) == q * m + (len - 1) % m) by (nonlinear_arith)
        requires
            m > 0,
            q == (len - 1) / m,
    ;
    assert(0 <= (len - 1) % m < m) by (nonlinear_arith)
        requires
            m > 0,
    ;
}

proof fn lemma_concat_chunks(p: Seq<u8>, j: int)
    requires
        p.len() > WEBRTC_MAX_LEN,
        0 <= j <= chunk_count(p.len()),
    ensures
        concat_bodies(Seq::new(j as nat, |k: int| chunk_frame(p, k))) == p.subrange(
            0,
            if j == 0 {
                0
            } else {
                chunk_end(p.len(), j - 1)
            },
        ),
    decreases j,
{
    lemma_chunk_count(p.len());
    let s = Seq::new(j as nat, |k: int| chunk_frame(p, k));
    if j == 0 {
        assert(p.subrange(0, 0) =~= Seq::<u8>::empty());
    } else {
        lemma_concat_chunks(p, j - 1);
        let prev = Seq::new((j - 1) as nat, |k: int| chunk_frame(p, k));
        assert(s.drop_last() =~= prev);
        let lo: int = (j - 1) * WEBRTC_MAX_LEN;
        if j - 1 > 0 {
            assert(chunk_end(p.len(), j - 2) == lo);
        }
        assert(s.last().drop_first() =~= p.subrange(lo, chunk_end(p.len(), j - 1)));
        assert(p.subrange(0, lo) + p.subrange(lo, chunk_end(p.len(), j - 1)) =~= p.subrange(
            0,
            chunk_end(p.len(), j - 1),
        ));
    }
}

/// A payload sent with `outgoing_frames` reaches the peer whole: the frames
/// form a run that the peer reassembles, the concatenation of their bodies
/// is exactly the payload, and no frame body exceeds `WEBRTC_MAX_LEN`.
pub proof fn lemma_outgoing_frames_reassemble(frame: ResponseFrame)
    ensures
        is_payload_run(spec_outgoing_frames(frame)),
        concat_bodies(spec_outgoing_frames(frame)) == frame.payload(),
        forall|i: int|
            0 <= i < spec_outgoing_frames(frame).len() ==> #[trigger] spec_outgoing_frames(
                frame,
            )[i].len() <= WEBRTC_MAX_LEN + 1,
{
    let p = frame.payload();
    let out = spec_outgoing_frames(frame);
    if p.len() > WEBRTC_MAX_LEN {
        lemma_chunk_count(p.len());
        let n: nat = chunk_count(p.len());
        lemma_concat_chunks(p, n as int);
        assert(chunk_end(p.len(), n - 1) == p.len());
        assert(p.subrange(0, p.len() as int) =~= p);
        assert forall|i: int| 0 <= i < out.len() implies #[trigger] out[i].len() > 0 && out[i][0]
            == (if i + 1 < out.len() {
            PARTIAL_PAYLOAD_TAG
        } else {
            SERVICE_PAYLOAD_TAG
        }) && out[i].len() <= WEBRTC_MAX_LEN + 1 by {
            assert(i * WEBRTC_MAX_LEN <= (n - 1) * WEBRTC_MAX_LEN) by (nonlinear_arith)
                requires
                    i <= n - 1,
            ;
        }
    } else {
        let e = frame.spec_encode();
        assert(concat_bodies(out.drop_last()) =~= Seq::<u8>::empty());
        assert(e.drop_first() =~= p);
    }
}

/// The byte contents of a list of encoded frames.
pub open spec fn byte_views(frames: Seq<Vec<u8>>) -> Seq<Seq<u8>> {
    frames.map_values(|f: Vec<u8>| f@)
}

/// The frames to write to the data channel to send `frame`.
///
/// A service payload larger than `WEBRTC_MAX_LEN` is split into chunks of
/// `WEBRTC_MAX_LEN` bytes (the last may be shorter); each chunk is framed as
/// a service payload, and every chunk but the last is tagged partial. Any
/// other frame is encoded as one frame.
pub fn outgoing_frames(frame: &ResponseFrame) -> (r: Vec<Vec<u8>>)
    ensures
        byte_views(r@) == spec_outgoing_frames(*frame),
{
    let bytes = match frame {
        ResponseFrame::ServicePayload { bytes } => bytes,
    };
    let len: usize = bytes.len();
    let mut out: Vec<Vec<u8>> = Vec::new();
    if len <= WEBRTC_MAX_LEN {
        out.push(frame.encode());
        assert(byte_views(out@) =~= spec_outgoing_frames(*frame));
        return out;
    }
    let ghost p = bytes@;
    proof {
        lemma_chunk_count(len as nat);
    }
    let n: usize = (len - 1) / WEBRTC_MAX_LEN + 1;
    let mut k: usize = 0;
    while k < n
        invariant
            p == bytes@,
            p == frame.payload(),
            len == p.len(),
            len > WEBRTC_MAX_LEN,
            n == chunk_count(len as nat),
            (n - 1) * WEBRTC_MAX_LEN < len,
            k <= n,
            out@.len() == k,
            forall|i: int| 0 <= i < k ==> (#[trigger] out@[i])@ == chunk_frame(p, i),
        decreases n - k,
    {
        assert(k * WEBRTC_MAX_LEN <= (n - 1) * WEBRTC_MAX_LEN) by (nonlinear_arith)
            requires
                k <= n - 1,
        ;
        let start: usize = k * WEBRTC_MAX_LEN;
        let end: usize = if len - start > WEBRTC_MAX_LEN {
            start + WEBRTC_MAX_LEN
        } else {
            len
        };
        let tag: u8 = if k + 1 < n {
            PARTIAL_PAYLOAD_TAG
        } else {
            SERVICE_PAYLOAD_TAG
        };
        let mut f: Vec<u8> = Vec::new();
        f.push(tag);
        append_bytes(&mut f, vstd::slice::slice_subrange(bytes.as_slice(), start, end));
        assert(f@ =~= chunk_frame(p, k as int));
        out.push(f);
        k = k + 1;
    }
    assert(byte_views(out@) =~= spec_outgoing_frames(*frame));
    out
}

} // verus!
