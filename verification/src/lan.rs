//! The raw form of a frame on the local segment: an Ethernet header, a
//! fixed IPv4 header, a UDP header with both ports fixed, and the payload.

use vstd::prelude::*;
use vstd::slice::slice_subrange;
use vstd::slice::slice_to_vec;
use crate::checksum::be16;
use crate::checksum::checksum_skipping;
use crate::checksum::complement16;
use crate::checksum::lemma_checksum_completes;
use crate::checksum::lemma_word_sum_be16;
use crate::checksum::lemma_word_sum_concat;
use crate::checksum::pseudo_header_checksum;
use crate::checksum::pseudo_header_sum;
use crate::checksum::sums_to_all_ones;
use crate::checksum::word_at;
use crate::checksum::word_sum;
use crate::frame::Frame;
use crate::frame::FrameView;
use crate::frame::HwAddr;
use crate::frame::frame_option_view;

verus! {

/// Length of an Ethernet header.
pub const ETHERNET_HEADER_LEN: usize = 14;

/// Length of an IPv4 header without options.
pub const IPV4_HEADER_LEN: usize = 20;

/// Length of a UDP header.
pub const UDP_HEADER_LEN: usize = 8;

/// Length of the three headers that stand in front of an encoded payload.
pub const LAN_HEADERS_LEN: usize = 42;

/// The ethertype of IPv4.
pub const ETHERTYPE_IPV4: u16 = 0x0800;

/// The IPv4 protocol number of UDP.
pub const PROTOCOL_UDP: u8 = 17;

/// The UDP port that every encoded frame carries as source and destination.
pub const SYSTEM_LINK_PORT: u16 = 3074;

/// Longest payload whose UDP length field can be written.
pub const MAX_LAN_PAYLOAD: usize = 65527;

/// The placeholder `0.0.0.1` that every encoded frame carries as IPv4
/// source and destination.
pub open spec fn placeholder_ip() -> Seq<u8> {
    seq![0u8, 0u8, 0u8, 1u8]
}

/// The IPv4 header of every encoded frame, holding `checksum`: version 4,
/// five header words, no service bits, total length and identification 0,
/// don't-fragment set, TTL 64, protocol UDP, and the placeholder addresses.
pub open spec fn ipv4_header_with(checksum: u16) -> Seq<u8> {
    seq![0x45u8, 0x00u8, 0x00u8, 0x00u8, 0x00u8, 0x00u8, 0x40u8, 0x00u8, 64u8, 17u8] + be16(
        checksum,
    ) + placeholder_ip() + placeholder_ip()
}

/// The header checksum of every encoded frame.
pub open spec fn ipv4_header_checksum() -> u16 {
    complement16(word_sum(ipv4_header_with(0)) as int)
}

/// The IPv4 header of every encoded frame.
pub open spec fn ipv4_header() -> Seq<u8> {
    ipv4_header_with(ipv4_header_checksum())
}

/// The UDP header that goes with `payload`, holding `checksum`, followed
/// by the payload.
pub open spec fn udp_segment_with(payload: Seq<u8>, checksum: u16) -> Seq<u8> {
    be16(SYSTEM_LINK_PORT) + be16(SYSTEM_LINK_PORT) + be16((payload.len() + 8) as u16) + be16(
        checksum,
    ) + payload
}

/// The UDP checksum that goes with `payload`: taken over the pseudo-header,
/// the UDP header with a zero checksum and the payload, and sent as
/// `0xffff` where it comes out as 0.
pub open spec fn udp_checksum(payload: Seq<u8>) -> u16 {
    let c = complement16(
        pseudo_header_sum(
            placeholder_ip(),
            placeholder_ip(),
            PROTOCOL_UDP,
            (payload.len() + 8) as nat,
        ) + word_sum(udp_segment_with(payload, 0)),
    );
    if c == 0 {
        0xffff
    } else {
        c
    }
}

/// The Ethernet header of a frame: destination, source, ethertype.
pub open spec fn ethernet_header(f: FrameView) -> Seq<u8> {
    f.dest + f.source + be16(ETHERTYPE_IPV4)
}

/// The raw bytes of a frame: Ethernet, IPv4, UDP, payload.
pub open spec fn lan_frame_bytes(f: FrameView) -> Seq<u8> {
    ethernet_header(f) + ipv4_header() + udp_segment_with(f.payload, udp_checksum(f.payload))
}

/// The two bytes of `v`, high byte first, at the end of `out`.
fn push_be16(out: &mut Vec<u8>, v: u16)
    ensures
        final(out)@ == old(out)@ + be16(v),
{
    out.push((v / 256) as u8);
    out.push((v % 256) as u8);
    assert(out@ =~= old(out)@ + be16(v));
}

/// Builds the raw bytes of a frame for injection onto the local segment.
pub fn encode_lan_frame(frame: &Frame) -> (bytes: Vec<u8>)
    requires
        frame@.payload.len() <= MAX_LAN_PAYLOAD,
    ensures
        bytes@ == lan_frame_bytes(frame@),
{
    let placeholder: [u8; 4] = [0, 0, 0, 1];
    assert(placeholder@ =~= placeholder_ip());

    let mut ip: Vec<u8> = Vec::new();
    ip.push(0x45);
    ip.push(0x00);
    push_be16(&mut ip, 0);
    push_be16(&mut ip, 0);
    push_be16(&mut ip, 0x4000);
    ip.push(64);
    ip.push(PROTOCOL_UDP);
    push_be16(&mut ip, 0);
    ip.extend_from_slice(&placeholder);
    ip.extend_from_slice(&placeholder);
    assert(ip@ =~= ipv4_header_with(0));
    let ip_sum = checksum_skipping(ip.as_slice(), 5);
    proof {
        assert(word_at(ip@, 5) == 0);
    }
    ip.set(10, (ip_sum / 256) as u8);
    ip.set(11, (ip_sum % 256) as u8);
    assert(ip@ =~= ipv4_header());

    let length: u16 = (frame.payload.len() + 8) as u16;
    let mut segment: Vec<u8> = Vec::new();
    push_be16(&mut segment, SYSTEM_LINK_PORT);
    push_be16(&mut segment, SYSTEM_LINK_PORT);
    push_be16(&mut segment, length);
    push_be16(&mut segment, 0);
    segment.extend_from_slice(frame.payload.as_slice());
    assert(segment@ =~= udp_segment_with(frame@.payload, 0));
    let computed = pseudo_header_checksum(
        segment.as_slice(),
        3,
        placeholder,
        placeholder,
        PROTOCOL_UDP,
    );
    proof {
        assert(word_at(segment@, 3) == 0);
    }
    let udp_sum: u16 = if computed == 0 {
        0xffff
    } else {
        computed
    };
    assert(udp_sum == udp_checksum(frame@.payload));
    segment.set(6, (udp_sum / 256) as u8);
    segment.set(7, (udp_sum % 256) as u8);
    assert(segment@ =~= udp_segment_with(frame@.payload, udp_sum));

    let mut bytes: Vec<u8> = Vec::new();
    bytes.extend_from_slice(&frame.dest_hw_addr.octets);
    bytes.extend_from_slice(&frame.source_hw_addr.octets);
    push_be16(&mut bytes, ETHERTYPE_IPV4);
    assert(bytes@ =~= ethernet_header(frame@));
    bytes.extend_from_slice(ip.as_slice());
    bytes.extend_from_slice(segment.as_slice());
    assert(bytes@ =~= lan_frame_bytes(frame@));
    bytes
}

/// The value that two bytes spell, high byte first.
pub open spec fn be16_value(hi: u8, lo: u8) -> int {
    hi * 256 + lo
}

/// Length in bytes of the IPv4 header that starts at byte 14 of `bytes`,
/// as its low nibble gives it.
pub open spec fn ipv4_header_len(bytes: Seq<u8>) -> int {
    (bytes[14] % 16) * 4
}

/// Offset of the UDP header in `bytes`.
pub open spec fn udp_offset(bytes: Seq<u8>) -> int {
    14 + ipv4_header_len(bytes)
}

/// The length field of the UDP header in `bytes`.
pub open spec fn udp_length(bytes: Seq<u8>) -> int {
    be16_value(bytes[udp_offset(bytes) + 4], bytes[udp_offset(bytes) + 5])
}

/// Whether `bytes` hold an Ethernet frame that carries a UDP datagram over
/// IPv4: the ethertype is IPv4, the IP version is 4, the IPv4 header has at
/// least five words and is all there, the protocol is UDP, and the UDP
/// length covers its own header and lies within the bytes.
pub open spec fn is_udp_frame(bytes: Seq<u8>) -> bool {
    &&& bytes.len() >= LAN_HEADERS_LEN
    &&& be16_value(bytes[12], bytes[13]) == ETHERTYPE_IPV4
    &&& bytes[14] / 16 == 4
    &&& ipv4_header_len(bytes) >= IPV4_HEADER_LEN
    &&& bytes[23] == PROTOCOL_UDP
    &&& udp_offset(bytes) + UDP_HEADER_LEN <= bytes.len()
    &&& udp_length(bytes) >= UDP_HEADER_LEN
    &&& udp_offset(bytes) + udp_length(bytes) <= bytes.len()
}

/// The frame that raw bytes carry, if they are a UDP frame: the addresses
/// of the Ethernet header and the payload of the UDP datagram.
pub open spec fn parse_lan_frame(bytes: Seq<u8>) -> Option<FrameView> {
    if is_udp_frame(bytes) {
        Some(
            FrameView {
                source: bytes.subrange(6, 12),
                dest: bytes.subrange(0, 6),
                payload: bytes.subrange(
                    udp_offset(bytes) + 8,
                    udp_offset(bytes) + udp_length(bytes),
                ),
            },
        )
    } else {
        None
    }
}

/// Reads a frame out of captured bytes; `None` for anything but a
/// complete UDP datagram over IPv4.
pub fn decode_lan_frame(bytes: &[u8]) -> (frame: Option<Frame>)
    ensures
        frame_option_view(frame) == parse_lan_frame(bytes@),
        frame is Some <==> is_udp_frame(bytes@),
{
    let n = bytes.len();
    if n < LAN_HEADERS_LEN {
        return None;
    }
    if bytes[12] != 0x08 || bytes[13] != 0x00 {
        return None;
    }
    if bytes[14] / 16 != 4 {
        return None;
    }
    let header_len: usize = (bytes[14] % 16) as usize * 4;
    if header_len < IPV4_HEADER_LEN || bytes[23] != PROTOCOL_UDP {
        return None;
    }
    let offset: usize = ETHERNET_HEADER_LEN + header_len;
    if offset + UDP_HEADER_LEN > n {
        return None;
    }
    let length: usize = bytes[offset + 4] as usize * 256 + bytes[offset + 5] as usize;
    if length < UDP_HEADER_LEN || offset + length > n {
        return None;
    }
    Some(
        Frame {
            source_hw_addr: HwAddr::from_slice(bytes, 6),
            dest_hw_addr: HwAddr::from_slice(bytes, 0),
            payload: slice_to_vec(slice_subrange(bytes, offset + 8, offset + length)),
        },
    )
}

/// Whether the IPv4 header inside `bytes` passes the receiver's check:
/// all its words, the checksum's included, fold to `0xffff`.
pub open spec fn ipv4_checksum_valid(bytes: Seq<u8>) -> bool {
    sums_to_all_ones(word_sum(bytes.subrange(14, udp_offset(bytes))) as int)
}

/// Whether the UDP datagram inside `bytes` carries a checksum and passes
/// the receiver's check against the pseudo-header that the IPv4 header
/// inside `bytes` gives: addresses, protocol, and the UDP length.
pub open spec fn udp_checksum_valid(bytes: Seq<u8>) -> bool {
    let at = udp_offset(bytes);
    &&& be16_value(bytes[at + 6], bytes[at + 7]) != 0
    &&& sums_to_all_ones(
        pseudo_header_sum(
            bytes.subrange(26, 30),
            bytes.subrange(30, 34),
            bytes[23],
            udp_length(bytes) as nat,
        ) + word_sum(bytes.subrange(at, at + udp_length(bytes))),
    )
}

/// The header checksum is the same on every encoded frame.
pub proof fn lemma_ipv4_header_checksum_value()
    ensures
        word_sum(ipv4_header_with(0)) == 0xc513,
        ipv4_header_checksum() == 0x3aec,
{
    let h = ipv4_header_with(0);
    lemma_word_sum_be16(0);
    let a = seq![0x45u8, 0x00u8, 0x00u8, 0x00u8, 0x00u8, 0x00u8, 0x40u8, 0x00u8, 64u8, 17u8];
    let b = be16(0) + placeholder_ip() + placeholder_ip();
    assert(h =~= a + b);
    lemma_word_sum_concat(a, b);
    assert(word_sum(a) == 0x4500 + 0x4000 + 0x4011) by {
        reveal_with_fuel(word_sum, 6);
        assert(a.skip(2) =~= seq![0x00u8, 0x00u8, 0x00u8, 0x00u8, 0x40u8, 0x00u8, 64u8, 17u8]);
        assert(a.skip(2).skip(2) =~= seq![0x00u8, 0x00u8, 0x40u8, 0x00u8, 64u8, 17u8]);
        assert(a.skip(2).skip(2).skip(2) =~= seq![0x40u8, 0x00u8, 64u8, 17u8]);
        assert(a.skip(2).skip(2).skip(2).skip(2) =~= seq![64u8, 17u8]);
        assert(a.skip(2).skip(2).skip(2).skip(2).skip(2) =~= Seq::<u8>::empty());
    }
    assert(word_sum(b) == 2) by {
        reveal_with_fuel(word_sum, 6);
        let p = placeholder_ip();
        assert(b =~= seq![0u8, 0u8, 0u8, 0u8, 0u8, 1u8, 0u8, 0u8, 0u8, 1u8]);
        assert(b.skip(2) =~= seq![0u8, 0u8, 0u8, 1u8, 0u8, 0u8, 0u8, 1u8]);
        assert(b.skip(2).skip(2) =~= seq![0u8, 1u8, 0u8, 0u8, 0u8, 1u8]);
        assert(b.skip(2).skip(2).skip(2) =~= seq![0u8, 0u8, 0u8, 1u8]);
        assert(b.skip(2).skip(2).skip(2).skip(2) =~= seq![0u8, 1u8]);
        assert(b.skip(2).skip(2).skip(2).skip(2).skip(2) =~= Seq::<u8>::empty());
    }
}

/// Decoding what was encoded gives the frame back: same source, same
/// destination, same payload.
pub proof fn lemma_lan_round_trip(f: FrameView)
    requires
        f.wf(),
        f.payload.len() <= MAX_LAN_PAYLOAD,
    ensures
        lan_frame_bytes(f).len() == LAN_HEADERS_LEN + f.payload.len(),
        parse_lan_frame(lan_frame_bytes(f)) == Some(f),
{
    let bytes = lan_frame_bytes(f);
    let sum = udp_checksum(f.payload);
    let length = (f.payload.len() + 8) as u16;
    assert(bytes.len() == LAN_HEADERS_LEN + f.payload.len());
    assert(bytes[12] == 0x08 && bytes[13] == 0x00);
    assert(bytes[14] == 0x45);
    assert(bytes[23] == 17);
    assert(udp_offset(bytes) == 34);
    assert(bytes[38] == (length / 256) as u8);
    assert(bytes[39] == (length % 256) as u8);
    assert(udp_length(bytes) == f.payload.len() + 8);
    assert(is_udp_frame(bytes));
    let g = parse_lan_frame(bytes).unwrap();
    assert(g.source =~= f.source);
    assert(g.dest =~= f.dest);
    assert(g.payload =~= f.payload);
}

/// Every encoded frame passes both receiver checks: the IPv4 header
/// checksum, and the UDP checksum against the pseudo-header that the frame
/// itself carries.
pub proof fn lemma_lan_checksums_valid(f: FrameView)
    requires
        f.wf(),
        f.payload.len() <= MAX_LAN_PAYLOAD,
    ensures
        ipv4_checksum_valid(lan_frame_bytes(f)),
        udp_checksum_valid(lan_frame_bytes(f)),
{
    let bytes = lan_frame_bytes(f);
    lemma_lan_round_trip(f);
    assert(bytes[14] == 0x45);
    assert(udp_offset(bytes) == 34);

    // The IPv4 header.
    let head = seq![0x45u8, 0x00u8, 0x00u8, 0x00u8, 0x00u8, 0x00u8, 0x40u8, 0x00u8, 64u8, 17u8];
    let tail = placeholder_ip() + placeholder_ip();
    let c = ipv4_header_checksum();
    assert(bytes.subrange(14, 34) =~= ipv4_header());
    assert(ipv4_header() =~= head + (be16(c) + tail));
    assert(ipv4_header_with(0) =~= head + (be16(0) + tail));
    lemma_word_sum_concat(head, be16(c) + tail);
    lemma_word_sum_concat(head, be16(0) + tail);
    lemma_word_sum_concat(be16(c), tail);
    lemma_word_sum_concat(be16(0), tail);
    lemma_word_sum_be16(c);
    lemma_word_sum_be16(0);
    assert(word_sum(ipv4_header()) == word_sum(ipv4_header_with(0)) + c);
    lemma_checksum_completes(word_sum(ipv4_header_with(0)) as int);

    // The UDP datagram.
    let length = (f.payload.len() + 8) as u16;
    let u = udp_checksum(f.payload);
    let ports = be16(SYSTEM_LINK_PORT) + be16(SYSTEM_LINK_PORT) + be16(length);
    assert(bytes.subrange(34, 34 + udp_length(bytes)) =~= udp_segment_with(f.payload, u));
    assert(udp_segment_with(f.payload, u) =~= ports + (be16(u) + f.payload));
    assert(udp_segment_with(f.payload, 0) =~= ports + (be16(0) + f.payload));
    lemma_word_sum_concat(ports, be16(u) + f.payload);
    lemma_word_sum_concat(ports, be16(0) + f.payload);
    lemma_word_sum_concat(be16(u), f.payload);
    lemma_word_sum_concat(be16(0), f.payload);
    lemma_word_sum_be16(u);
    assert(word_sum(udp_segment_with(f.payload, u)) == word_sum(udp_segment_with(f.payload, 0))
        + u);
    assert(bytes.subrange(26, 30) =~= placeholder_ip());
    assert(bytes.subrange(30, 34) =~= placeholder_ip());
    assert(bytes[23] == PROTOCOL_UDP);
    let base = pseudo_header_sum(
        placeholder_ip(),
        placeholder_ip(),
        PROTOCOL_UDP,
        (f.payload.len() + 8) as nat,
    ) + word_sum(udp_segment_with(f.payload, 0));
    lemma_checksum_completes(base);
    assert(bytes[40] == (u / 256) as u8);
    assert(bytes[41] == (u % 256) as u8);
    assert(be16_value(bytes[40], bytes[41]) == u);
}

} // verus!
