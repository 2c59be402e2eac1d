//! The decisions of the capture/inject pipeline: what to do with what the
//! capture device brings, when to reinstall the filter, and what to write
//! for a frame that is to be injected.

use vstd::prelude::*;
use crate::filter::CaptureFilter;
use crate::filter::filter_admits;
use crate::frame::Frame;
use crate::frame::FrameView;
use crate::frame::HwAddr;
use crate::lan::MAX_LAN_PAYLOAD;
use crate::lan::decode_lan_frame;
use crate::lan::encode_lan_frame;
use crate::lan::lan_frame_bytes;
use crate::lan::parse_lan_frame;
use crate::poll::Polled;

verus! {

/// What a read of the capture device brought.
#[derive(Clone, Debug, PartialEq, Eq)]
pub enum Captured {
    /// The raw bytes of one packet.
    Packet(Vec<u8>),
    /// No packet within the read timeout.
    Timeout,
    /// The device can no longer be read.
    Failed,
}

/// What the capture loop does next.
#[derive(Clone, Debug, PartialEq, Eq)]
pub enum CaptureTurn {
    /// Hand this frame to the relay.
    Forward(Frame),
    /// The packet held no frame: report it and go on.
    Discard,
    /// Nothing to hand on: go on.
    Idle,
    /// The interface is unusable: stop the process.
    Fatal,
}

/// What the capture loop does after a poll of the exclusion channel.
#[derive(Clone, Copy, Debug, PartialEq, Eq)]
pub enum FilterTurn {
    /// The filter changed: install its expression again.
    Reinstall,
    /// Nothing to do.
    Idle,
    /// Leave the loop.
    Stop,
}

/// Decides on one read of the capture device. A packet that the filter
/// lets through is decoded, and forwarded if it holds a frame; one that
/// the filter excludes is passed over in silence, as is a timeout; a
/// device failure is fatal.
pub fn capture_turn(filter: &CaptureFilter, captured: Captured) -> (turn: CaptureTurn)
    ensures
        match captured {
            Captured::Packet(bytes) => if !filter_admits(filter@, bytes@) {
                turn is Idle
            } else {
                match parse_lan_frame(bytes@) {
                    Some(f) => turn matches CaptureTurn::Forward(frame) && frame@ == f,
                    None => turn is Discard,
                }
            },
            Captured::Timeout => turn is Idle,
            Captured::Failed => turn is Fatal,
        },
{
    match captured {
        Captured::Packet(bytes) => {
            if !filter.admits(bytes.as_slice()) {
                CaptureTurn::Idle
            } else {
                match decode_lan_frame(bytes.as_slice()) {
                    Some(frame) => CaptureTurn::Forward(frame),
                    None => CaptureTurn::Discard,
                }
            }
        },
        Captured::Timeout => CaptureTurn::Idle,
        Captured::Failed => CaptureTurn::Fatal,
    }
}

/// Decides on one poll of the exclusion channel: a hardware address that
/// arrives is excluded and the filter is to be installed again.
pub fn filter_turn(filter: &mut CaptureFilter, update: Polled<HwAddr>) -> (turn: FilterTurn)
    requires
        old(filter).wf(),
    ensures
        final(filter).wf(),
        match update {
            Polled::Item(hw) => turn is Reinstall && final(filter)@ == old(filter)@.push(hw@),
            Polled::Empty => turn is Idle && final(filter)@ == old(filter)@,
            Polled::Disconnected => turn is Stop && final(filter)@ == old(filter)@,
        },
{
    match update {
        Polled::Item(hw) => {
            filter.exclude(hw);
            FilterTurn::Reinstall
        },
        Polled::Empty => FilterTurn::Idle,
        Polled::Disconnected => FilterTurn::Stop,
    }
}

/// The bytes to write to the interface for a frame that is to be injected;
/// `None` for a payload too long for a UDP length field.
pub fn injection_for(frame: &Frame) -> (bytes: Option<Vec<u8>>)
    ensures
        bytes is Some <==> frame@.payload.len() <= MAX_LAN_PAYLOAD,
        bytes matches Some(b) ==> b@ == lan_frame_bytes(frame@),
{
    if frame.payload.len() <= MAX_LAN_PAYLOAD {
        Some(encode_lan_frame(frame))
    } else {
        None
    }
}

/// A filter that excludes the source of a frame does not let the encoded
/// frame through: what is injected for a remote peer is not captured
/// again once the peer's address has been excluded.
pub proof fn lemma_injected_frame_is_excluded(excluded: Seq<Seq<u8>>, f: FrameView)
    requires
        f.wf(),
        excluded.contains(f.source),
    ensures
        !filter_admits(excluded, lan_frame_bytes(f)),
{
    assert(lan_frame_bytes(f).subrange(6, 12) =~= f.source);
}

} // verus!
