//! The tunnel's UDP payload encoding: a frame's bytes followed by its two
//! hardware addresses, source first.

use vstd::prelude::*;
use vstd::slice::slice_subrange;
use vstd::slice::slice_to_vec;
use crate::frame::Frame;
use crate::frame::FrameView;
use crate::frame::HwAddr;
use crate::frame::frame_option_view;

verus! {

/// Bytes that the two trailing hardware addresses take.
pub const TUNNEL_TRAILER_LEN: usize = 12;

/// Shortest datagram that is taken for a tunnel payload.
pub const TUNNEL_MIN_LEN: usize = 50;

/// The datagram that carries `f`: `payload ++ source ++ dest`.
pub open spec fn tunnel_bytes(f: FrameView) -> Seq<u8> {
    f.payload + f.source + f.dest
}

/// The frame that a datagram carries, if it is long enough to carry one:
/// the last six bytes are the destination, the six before them the source,
/// and everything in front is the payload.
pub open spec fn parse_tunnel(bytes: Seq<u8>) -> Option<FrameView> {
    if bytes.len() < TUNNEL_MIN_LEN {
        None
    } else {
        Some(
            FrameView {
                source: bytes.subrange(bytes.len() - 12, bytes.len() - 6),
                dest: bytes.subrange(bytes.len() - 6, bytes.len() as int),
                payload: bytes.subrange(0, bytes.len() - 12),
            },
        )
    }
}

/// Serialises a frame for the tunnel.
pub fn encode_tunnel_payload(frame: &Frame) -> (bytes: Vec<u8>)
    ensures
        bytes@ == tunnel_bytes(frame@),
{
    let mut bytes = frame.payload.clone();
    bytes.extend_from_slice(&frame.source_hw_addr.octets);
    bytes.extend_from_slice(&frame.dest_hw_addr.octets);
    assert(bytes@ =~= tunnel_bytes(frame@));
    bytes
}

/// Reads a frame out of a tunnel datagram; `None` for a datagram shorter
/// than [`TUNNEL_MIN_LEN`].
pub fn decode_tunnel_payload(bytes: &[u8]) -> (frame: Option<Frame>)
    ensures
        frame_option_view(frame) == parse_tunnel(bytes@),
        frame is None <==> bytes@.len() < TUNNEL_MIN_LEN,
{
    let n = bytes.len();
    if n < TUNNEL_MIN_LEN {
        None
    } else {
        Some(
            Frame {
                source_hw_addr: HwAddr::from_slice(bytes, n - 12),
                dest_hw_addr: HwAddr::from_slice(bytes, n - 6),
                payload: slice_to_vec(slice_subrange(bytes, 0, n - 12)),
            },
        )
    }
}

/// Decoding what was encoded gives the frame back whenever the datagram
/// reaches the minimum length, and nothing otherwise.
pub proof fn lemma_tunnel_round_trip(f: FrameView)
    requires
        f.wf(),
    ensures
        tunnel_bytes(f).len() == f.payload.len() + 12,
        parse_tunnel(tunnel_bytes(f)) == if f.payload.len() + 12 >= TUNNEL_MIN_LEN {
            Some(f)
        } else {
            None
        },
{
    let bytes = tunnel_bytes(f);
    if bytes.len() >= TUNNEL_MIN_LEN {
        let g = parse_tunnel(bytes).unwrap();
        assert(g.source =~= f.source);
        assert(g.dest =~= f.dest);
        assert(g.payload =~= f.payload);
    }
}

/// Every datagram that decodes is the encoding of the frame it decodes to.
pub proof fn lemma_tunnel_parse_inverts(bytes: Seq<u8>)
    requires
        parse_tunnel(bytes) is Some,
    ensures
        parse_tunnel(bytes).unwrap().wf(),
        tunnel_bytes(parse_tunnel(bytes).unwrap()) == bytes,
{
    assert(tunnel_bytes(parse_tunnel(bytes).unwrap()) =~= bytes);
}

} // verus!
