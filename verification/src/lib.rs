//! Verified core of a WebRTC data-channel server: the wire framing of
//! service payloads, the block protocol used to stream a file, the
//! per-connection handshake state machine and the driver's poll scheduling.
use vstd::prelude::*;

pub mod blocks;
pub mod connection;
pub mod frame;
pub mod schedule;

verus! {

/// Largest service payload written to a data channel as one frame.
pub const WEBRTC_MAX_LEN: usize = 32768;

/// Size of one block of the streamed file; a block is sent as several chunks.
pub const BLOCKSIZE: usize = 262144;

} // verus!
