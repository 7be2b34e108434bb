//! The block protocol used to stream a file to a client.
//!
//! The file is cut into blocks of `BLOCKSIZE` bytes, the last of which may be
//! shorter. The first frame sent on a connection carries the number of blocks
//! as a big-endian `u32`. A client then asks for a block by sending a service
//! payload whose first four bytes are the block's number, big-endian; the
//! server answers with the block's bytes in frames of at most `WEBRTC_MAX_LEN`
//! bytes each: `CHUNKS_PER_BLOCK` frames for a whole block.
use vstd::prelude::*;

use crate::frame::byte_views;
use crate::frame::chunk_body;
use crate::frame::chunk_count;
use crate::frame::chunk_end;
use crate::frame::lemma_chunk_count;
use crate::frame::RequestFrame;
use crate::frame::ResponseFrame;
use crate::BLOCKSIZE;
use crate::WEBRTC_MAX_LEN;

verus! {

/// Number of frames a whole block is sent in.
pub const CHUNKS_PER_BLOCK: usize = 8;

/// Number of blocks needed to hold `len` bytes (the last may be partial).
pub open spec fn spec_block_count(len: nat) -> nat {
    if len == 0 {
        0
    } else {
        ((len - 1) as nat / (BLOCKSIZE as nat)) + 1
    }
}

/// The four big-endian bytes of `c`.
pub open spec fn be_bytes(c: u32) -> Seq<u8> {
    seq![
        (c / 0x1000000) as u8,
        ((c / 0x10000) % 0x100) as u8,
        ((c / 0x100) % 0x100) as u8,
        (c % 0x100) as u8,
    ]
}

/// The number whose big-endian bytes start `s`.
pub open spec fn be_value(s: Seq<u8>) -> int {
    s[0] * 0x1000000int + s[1] * 0x10000int + s[2] * 0x100int + s[3]
}

/// Offset in the file of block `index`.
pub open spec fn block_offset(index: nat) -> int {
    index * BLOCKSIZE
}

/// Whether block `index` holds any byte of a file of `len` bytes.
pub open spec fn spec_block_exists(index: nat, len: nat) -> bool {
    block_offset(index) < len
}

/// End (exclusive) of block `index` in a file of `len` bytes.
pub open spec fn block_end(index: nat, len: nat) -> int {
    if block_offset(index) + BLOCKSIZE < len {
        block_offset(index) + BLOCKSIZE
    } else {
        len as int
    }
}

/// The bytes of block `index` of `data`.
pub open spec fn block_bytes(data: Seq<u8>, index: nat) -> Seq<u8> {
    data.subrange(block_offset(index), block_end(index, data.len()))
}

/// The chunks block `index` of `data` is sent in: its bytes cut into pieces
/// of `WEBRTC_MAX_LEN` bytes, the last of which may be shorter.
pub open spec fn spec_block_chunks(data: Seq<u8>, index: nat) -> Seq<Seq<u8>> {
    let b = block_bytes(data, index);
    Seq::new(chunk_count(b.len()), |i: int| chunk_body(b, i))
}

/// The concatenation of `parts`.
pub open spec fn concat_all(parts: Seq<Seq<u8>>) -> Seq<u8>
    decreases parts.len(),
{
    if parts.len() == 0 {
        Seq::empty()
    } else {
        concat_all(parts.drop_last()) + parts.last()
    }
}

/// Whether `frame` asks for a block that can be served from a file of `len`
/// bytes: its payload holds a block number, and that block holds bytes of the
/// file.
pub open spec fn spec_request_is_servable(frame: RequestFrame, len: nat) -> bool {
    &&& frame.payload().len() >= 4
    &&& spec_block_exists(be_value(frame.payload()) as nat, len)
}

/// The blocks that exist in a file are exactly those that the block count
/// announces.
pub proof fn lemma_announced_blocks_exist(index: nat, len: nat)
    ensures
        spec_block_exists(index, len) <==> index < spec_block_count(len),
{
    let m = BLOCKSIZE as int;
    if len > 0 {
        let q: int = (len - 1) / m;
        assert((len - 1) == q * m + (len - 1) % m && 0 <= (len - 1) % m < m) by (nonlinear_arith)
            requires
                m > 0,
                q == (len - 1) / m,
        ;
        if index <= q {
            assert(index * m <= q * m) by (nonlinear_arith)
                requires
                    index <= q,
                    m > 0,
            ;
        } else {
            assert(index * m >= (q + 1) * m) by (nonlinear_arith)
                requires
                    index >= q + 1,
                    m > 0,
            ;
        }
    }
}

/// A request can be served exactly when it holds a block number and names
/// one of the blocks that the first frame announced: block 0 of any
/// non-empty file, up to the last, partial block.
pub proof fn lemma_servable_requests_are_announced_blocks(frame: RequestFrame, len: nat)
    ensures
        spec_request_is_servable(frame, len) <==> frame.payload().len() >= 4 && be_value(
            frame.payload(),
        ) < spec_block_count(len),
        frame.payload().len() >= 4 && be_value(frame.payload()) == 0 && len > 0
            ==> spec_request_is_servable(frame, len),
{
    if frame.payload().len() >= 4 {
        let p = frame.payload();
        assert(be_value(p) >= 0);
        lemma_announced_blocks_exist(be_value(p) as nat, len);
    }
}

/// Number of blocks needed to hold `len` bytes, truncated to a `u32`.
pub fn block_count(len: usize) -> (r: u32)
    ensures
        r == spec_block_count(len as nat) as u32,
{
    if len == 0 {
        0
    } else {
        let n: usize = (len - 1) / BLOCKSIZE + 1;
        #[verifier::truncate]
        (n as u32)
    }
}

/// The big-endian bytes of `c`.
pub fn encode_block_number(c: u32) -> (r: Vec<u8>)
    ensures
        r@ == be_bytes(c),
{
    let mut out: Vec<u8> = Vec::new();
    out.push((c / 0x1000000) as u8);
    out.push(((c / 0x10000) % 0x100) as u8);
    out.push(((c / 0x100) % 0x100) as u8);
    out.push((c % 0x100) as u8);
    assert(out@ =~= be_bytes(c));
    out
}

/// The block number a request payload asks for: its first four bytes,
/// big-endian.
pub fn requested_block(payload: &[u8]) -> (r: u32)
    requires
        payload@.len() >= 4,
    ensures
        r == be_value(payload@),
{
    let a: u32 = payload[0] as u32;
    let b: u32 = payload[1] as u32;
    let c: u32 = payload[2] as u32;
    let d: u32 = payload[3] as u32;
    a * 0x1000000 + b * 0x10000 + c * 0x100 + d
}

/// A block number read back from its big-endian bytes is the number itself:
/// a client that echoes a number it received asks for that number.
pub proof fn lemma_block_number_roundtrip(c: u32)
    ensures
        be_value(be_bytes(c)) == c,
{
    assert(((c / 0x1000000) as u8) as u32 == c / 0x1000000) by (bit_vector);
    assert((((c / 0x10000) % 0x100) as u8) as u32 == (c / 0x10000) % 0x100) by (bit_vector);
    assert((((c / 0x100) % 0x100) as u8) as u32 == (c / 0x100) % 0x100) by (bit_vector);
    assert(((c % 0x100) as u8) as u32 == c % 0x100) by (bit_vector);
    assert((c / 0x1000000) * 0x1000000 + ((c / 0x10000) % 0x100) * 0x10000 + ((c / 0x100) % 0x100)
        * 0x100 + c % 0x100 == c) by (bit_vector);
}

/// The first frame sent on a connection: the number of blocks of a file of
/// `len` bytes.
pub fn block_count_frame(len: usize) -> (r: ResponseFrame)
    ensures
        r.payload() == be_bytes(spec_block_count(len as nat) as u32),
{
    ResponseFrame::ServicePayload { bytes: encode_block_number(block_count(len)) }
}

/// Whether block `index` holds any byte of a file of `len` bytes.
pub fn block_exists(index: u32, len: usize) -> (r: bool)
    ensures
        r == spec_block_exists(index as nat, len as nat),
{
    let offset: u64 = index as u64 * 262144;
    offset < len as u64
}

/// Copies `data[start..end]`.
fn copy_range(data: &[u8], start: usize, end: usize) -> (r: Vec<u8>)
    requires
        start <= end <= data@.len(),
    ensures
        r@ == data@.subrange(start as int, end as int),
{
    vstd::slice::slice_to_vec(vstd::slice::slice_subrange(data, start, end))
}

/// The chunks that block `index` of `data` is sent in.
pub fn block_chunks(data: &[u8], index: u32) -> (r: Vec<Vec<u8>>)
    requires
        spec_block_exists(index as nat, data@.len()),
    ensures
        byte_views(r@) == spec_block_chunks(data@, index as nat),
{
    let dl: usize = data.len();
    let idx: usize = index as usize;
    assert(idx * BLOCKSIZE < data@.len());
    let offset: usize = idx * BLOCKSIZE;
    let end: usize = if dl - offset > BLOCKSIZE {
        offset + BLOCKSIZE
    } else {
        dl
    };
    let len: usize = end - offset;
    let ghost b = block_bytes(data@, index as nat);
    assert(b.len() == len);
    proof {
        lemma_chunk_count(len as nat);
    }
    let n: usize = (len - 1) / WEBRTC_MAX_LEN + 1;
    let mut out: Vec<Vec<u8>> = Vec::new();
    let mut k: usize = 0;
    while k < n
        invariant
            b == data@.subrange(offset as int, end as int),
            offset <= end <= data@.len(),
            len == end - offset,
            len > 0,
            n == chunk_count(len as nat),
            (n - 1) * WEBRTC_MAX_LEN < len,
            k <= n,
            out@.len() == k,
            forall|i: int| 0 <= i < k ==> (#[trigger] out@[i])@ == chunk_body(b, i),
        decreases n - k,
    {
        assert(k * WEBRTC_MAX_LEN <= (n - 1) * WEBRTC_MAX_LEN) by (nonlinear_arith)
            requires
                k <= n - 1,
        ;
        let s: usize = k * WEBRTC_MAX_LEN;
        let e: usize = if len - s > WEBRTC_MAX_LEN {
            s + WEBRTC_MAX_LEN
        } else {
            len
        };
        let chunk = copy_range(data, offset + s, offset + e);
        assert(chunk@ =~= chunk_body(b, k as int));
        out.push(chunk);
        k = k + 1;
    }
    assert(byte_views(out@) =~= spec_block_chunks(data@, index as nat));
    out
}

proof fn lemma_concat_chunk_prefix(b: Seq<u8>, j: int)
    requires
        b.len() > 0,
        0 <= j <= chunk_count(b.len()),
    ensures
        concat_all(Seq::new(j as nat, |i: int| chunk_body(b, i))) == b.subrange(
            0,
            if j == 0 {
                0
            } else {
                chunk_end(b.len(), j - 1)
            },
        ),
    decreases j,
{
    lemma_chunk_count(b.len());
    let s = Seq::new(j as nat, |i: int| chunk_body(b, i));
    if j == 0 {
        assert(b.subrange(0, 0) =~= Seq::<u8>::empty());
    } else {
        lemma_concat_chunk_prefix(b, j - 1);
        assert(s.drop_last() =~= Seq::new((j - 1) as nat, |i: int| chunk_body(b, i)));
        let lo: int = (j - 1) * WEBRTC_MAX_LEN;
        if j - 1 > 0 {
            assert(chunk_end(b.len(), j - 2) == lo);
        }
        assert(b.subrange(0, lo) + b.subrange(lo, chunk_end(b.len(), j - 1)) =~= b.subrange(
            0,
            chunk_end(b.len(), j - 1),
        ));
    }
}

/// The chunks of a block, concatenated in the order they are sent, are
/// exactly the block's bytes in the file: `BLOCKSIZE` bytes from the block's
/// offset, or up to the file's end for the last block. Each chunk holds at
/// most `WEBRTC_MAX_LEN` bytes, a block is sent in at most `CHUNKS_PER_BLOCK`
/// chunks, and a whole block in exactly `CHUNKS_PER_BLOCK` chunks of
/// `WEBRTC_MAX_LEN` bytes.
pub proof fn lemma_block_chunks_tile(data: Seq<u8>, index: nat)
    requires
        spec_block_exists(index, data.len()),
    ensures
        concat_all(spec_block_chunks(data, index)) == data.subrange(
            block_offset(index),
            block_end(index, data.len()),
        ),
        spec_block_chunks(data, index).len() <= CHUNKS_PER_BLOCK,
        forall|i: int|
            0 <= i < spec_block_chunks(data, index).len() ==> #[trigger] spec_block_chunks(
                data,
                index,
            )[i].len() <= WEBRTC_MAX_LEN,
        block_offset(index) + BLOCKSIZE <= data.len() ==> spec_block_chunks(data, index).len()
            == CHUNKS_PER_BLOCK && forall|i: int|
            0 <= i < CHUNKS_PER_BLOCK ==> #[trigger] spec_block_chunks(data, index)[i].len()
                == WEBRTC_MAX_LEN,
{
    let b = block_bytes(data, index);
    let n = chunk_count(b.len());
    lemma_chunk_count(b.len());
    lemma_concat_chunk_prefix(b, n as int);
    assert(chunk_end(b.len(), n - 1) == b.len());
    assert(b.subrange(0, b.len() as int) =~= b);
    assert(Seq::new(n, |i: int| chunk_body(b, i)) == spec_block_chunks(data, index));
    assert(b.len() <= BLOCKSIZE);
    assert forall|i: int| 0 <= i < n implies #[trigger] spec_block_chunks(data, index)[i].len()
        <= WEBRTC_MAX_LEN by {
        assert(i * WEBRTC_MAX_LEN <= (n - 1) * WEBRTC_MAX_LEN) by (nonlinear_arith)
            requires
                i <= n - 1,
        ;
    }
}

/// Whether `frame` can be served from `data` (see `spec_request_is_servable`).
pub fn request_is_servable(data: &[u8], frame: &RequestFrame) -> (r: bool)
    ensures
        r == spec_request_is_servable(*frame, data@.len()),
        r == (frame.payload().len() >= 4 && be_value(frame.payload()) < spec_block_count(
            data@.len(),
        )),
{
    let bytes = match frame {
        RequestFrame::ServicePayload { bytes } => bytes,
    };
    if bytes.len() < 4 {
        return false;
    }
    let index: u32 = requested_block(bytes.as_slice());
    proof {
        lemma_announced_blocks_exist(index as nat, data@.len());
    }
    block_exists(index, data.len())
}

/// The frames answering a block request: the requested block of `data`, one
/// service payload frame per chunk.
pub fn serve_request(data: &[u8], frame: &RequestFrame) -> (r: Vec<ResponseFrame>)
    requires
        spec_request_is_servable(*frame, data@.len()),
    ensures
        r@.len() == spec_block_chunks(data@, be_value(frame.payload()) as nat).len(),
        forall|i: int|
            0 <= i < r@.len() ==> (#[trigger] r@[i]).payload() == spec_block_chunks(
                data@,
                be_value(frame.payload()) as nat,
            )[i],
{
    let bytes = match frame {
        RequestFrame::ServicePayload { bytes } => bytes,
    };
    let index: u32 = requested_block(bytes.as_slice());
    let mut chunks = block_chunks(data, index);
    let ghost all = chunks@;
    assert(byte_views(all).len() == all.len());
    let n: usize = chunks.len();
    let mut out: Vec<ResponseFrame> = Vec::new();
    let mut i: usize = 0;
    while i < n
        invariant
            chunks@.len() + i == n,
            all.len() == n,
            forall|j: int| 0 <= j < chunks@.len() ==> #[trigger] chunks@[j] == all[j + i],
            out@.len() == i,
            forall|j: int| 0 <= j < i ==> (#[trigger] out@[j]).payload() == all[j]@,
        decreases n - i,
    {
        let c = chunks.remove(0);
        out.push(ResponseFrame::ServicePayload { bytes: c });
        i = i + 1;
    }
    proof {
        assert forall|j: int| 0 <= j < n implies all[j]@ == spec_block_chunks(
            data@,
            index as nat,
        )[j] by {
            assert(byte_views(all)[j] == all[j]@);
        }
    }
    out
}

} // verus!
