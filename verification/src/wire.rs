//! What the server puts on the wire, and the pace at which it does so.

use vstd::prelude::*;

verus! {

/// Bytes in one chunk of filler written to a TCP peer.
pub const TCP_CHUNK_LEN: usize = 65_536;

/// Bytes in one datagram of filler sent to a UDP peer; small enough to pass
/// common links unfragmented.
pub const UDP_PAYLOAD_LEN: usize = 1_400;

/// How often a UDP command is acknowledged: any single acknowledgment may
/// be lost.
pub const ACK_COUNT: usize = 3;

/// Pause after each acknowledgment of a download request: ten milliseconds.
pub const DOWNLOAD_ACK_GAP_NANOS: u64 = 10_000_000;

/// Pause after each acknowledgment of an upload request: twenty milliseconds.
pub const UPLOAD_ACK_GAP_NANOS: u64 = 20_000_000;

/// Datagrams that a burst sender sends before it gives way to other tasks.
pub const BURST_LEN: usize = 16;

/// Pause of a burst sender whose send was turned down: twenty microseconds.
pub const BACKOFF_NANOS: u64 = 20_000;

/// Pause before a failed accept or receive is tried again: ten milliseconds.
pub const RETRY_NANOS: u64 = 10_000_000;

/// Why a socket operation failed, as far as the session logic tells
/// failures apart.
#[derive(Clone, Copy, Debug, PartialEq, Eq, Structural)]
pub enum IoFailure {
    /// The operation could not go on at once; nothing is wrong.
    WouldBlock,
    /// The peer reset the connection.
    ConnectionReset,
    /// The peer has closed its end.
    BrokenPipe,
    /// Anything else.
    Other,
}

/// A datagram that the server sends in answer to a UDP command.
#[derive(Clone, Copy, Debug, PartialEq, Eq, Structural)]
pub enum Reply {
    /// Acknowledges a download request.
    AckDownload,
    /// Acknowledges an upload request.
    AckUpload,
    /// One byte sent after the acknowledgments of an upload request, so
    /// that address translators on the path learn the mapping.
    Probe,
}

impl Reply {
    /// The payload of the datagram: `ACK_DOWNLOAD`, `ACK_UPLOAD` or `P`.
    pub open spec fn wire(self) -> Seq<u8> {
        match self {
            Reply::AckDownload => seq![
                'A' as u8, 'C' as u8, 'K' as u8, '_' as u8, 'D' as u8, 'O' as u8, 'W' as u8,
                'N' as u8, 'L' as u8, 'O' as u8, 'A' as u8, 'D' as u8,
            ],
            Reply::AckUpload => seq![
                'A' as u8, 'C' as u8, 'K' as u8, '_' as u8, 'U' as u8, 'P' as u8, 'L' as u8,
                'O' as u8, 'A' as u8, 'D' as u8,
            ],
            Reply::Probe => seq!['P' as u8],
        }
    }

    /// The payload of the datagram.
    pub fn to_bytes(self) -> (bytes: Vec<u8>)
        ensures
            bytes@ == self.wire(),
    {
        let bytes = match self {
            Reply::AckDownload => vec![
                'A' as u8, 'C' as u8, 'K' as u8, '_' as u8, 'D' as u8, 'O' as u8, 'W' as u8,
                'N' as u8, 'L' as u8, 'O' as u8, 'A' as u8, 'D' as u8,
            ],
            Reply::AckUpload => vec![
                'A' as u8, 'C' as u8, 'K' as u8, '_' as u8, 'U' as u8, 'P' as u8, 'L' as u8,
                'O' as u8, 'A' as u8, 'D' as u8,
            ],
            Reply::Probe => vec!['P' as u8],
        };
        assert(bytes@ =~= self.wire());
        bytes
    }
}

/// Filler of `len` bytes, all zero.
pub open spec fn zeros(len: nat) -> Seq<u8> {
    Seq::new(len, |i: int| 0u8)
}

/// A buffer of `len` zero bytes to send as filler.
pub fn filler(len: usize) -> (bytes: Vec<u8>)
    ensures
        bytes@ == zeros(len as nat),
{
    let bytes = vec![0u8; len];
    assert(bytes@ =~= zeros(len as nat));
    bytes
}

} // verus!
