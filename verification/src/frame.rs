//! The canonical frame passed between all components, and the hardware
//! addresses it carries.

use vstd::prelude::*;

verus! {

/// A 6-byte link-layer (MAC) address.
#[derive(Clone, Copy, Debug, Eq)]
pub struct HwAddr {
    pub octets: [u8; 6],
}

impl View for HwAddr {
    type V = Seq<u8>;

    open spec fn view(&self) -> Seq<u8> {
        self.octets@
    }
}

impl PartialEq for HwAddr {
    fn eq(&self, other: &HwAddr) -> (r: bool) {
        proof {
            lemma_octets_determine(*self, *other);
        }
        self.octets[0] == other.octets[0] && self.octets[1] == other.octets[1]
            && self.octets[2] == other.octets[2] && self.octets[3] == other.octets[3]
            && self.octets[4] == other.octets[4] && self.octets[5] == other.octets[5]
    }
}

impl vstd::std_specs::cmp::PartialEqSpecImpl for HwAddr {
    open spec fn obeys_eq_spec() -> bool {
        true
    }

    open spec fn eq_spec(&self, other: &HwAddr) -> bool {
        self@ == other@
    }
}

/// Two addresses with the same six octets are the same address.
pub proof fn lemma_octets_determine(a: HwAddr, b: HwAddr)
    ensures
        a@.len() == 6,
        (a@ == b@) <==> (forall|i: int| 0 <= i < 6 ==> a.octets[i] == b.octets[i]),
        (a@ == b@) <==> a == b,
{
    if forall|i: int| 0 <= i < 6 ==> a.octets[i] == b.octets[i] {
        assert(a@ =~= b@);
        assert(a.octets =~= b.octets);
    }
    if a@ == b@ {
        assert forall|i: int| 0 <= i < 6 implies a.octets[i] == b.octets[i] by {
            assert(a@[i] == b@[i]);
        }
    }
}

impl HwAddr {
    /// The address made of the six bytes of `bytes` that start at `at`.
    pub fn from_slice(bytes: &[u8], at: usize) -> (r: HwAddr)
        requires
            at + 6 <= bytes@.len(),
        ensures
            r@ == bytes@.subrange(at as int, at + 6),
    {
        let r = HwAddr {
            octets: [
                bytes[at],
                bytes[at + 1],
                bytes[at + 2],
                bytes[at + 3],
                bytes[at + 4],
                bytes[at + 5],
            ],
        };
        assert(r@ =~= bytes@.subrange(at as int, at + 6));
        r
    }

    /// The 48-bit number that the six octets spell, first octet highest.
    pub fn key(&self) -> (k: u64)
        ensures
            k == hw_key(self@),
            k < HW_KEY_LIMIT,
    {
        let o = &self.octets;
        o[0] as u64 * 0x100_0000_0000 + o[1] as u64 * 0x1_0000_0000 + o[2] as u64 * 0x100_0000
            + o[3] as u64 * 0x1_0000 + o[4] as u64 * 0x100 + o[5] as u64
    }

    /// The address that spells the 48-bit number `k`.
    pub fn from_key(k: u64) -> (r: HwAddr)
        requires
            k < HW_KEY_LIMIT,
        ensures
            r@ == key_octets(k),
            hw_key(r@) == k,
    {
        let r = HwAddr {
            octets: [
                (k / 0x100_0000_0000) as u8,
                (k / 0x1_0000_0000 % 256) as u8,
                (k / 0x100_0000 % 256) as u8,
                (k / 0x1_0000 % 256) as u8,
                (k / 0x100 % 256) as u8,
                (k % 256) as u8,
            ],
        };
        assert(r@ =~= key_octets(k));
        proof {
            lemma_key_octets(k);
        }
        r
    }

    /// The reserved destination that means "every known peer".
    pub fn broadcast() -> (r: HwAddr)
        ensures
            r@ == broadcast_octets(),
    {
        let r = HwAddr { octets: [0xff, 0xff, 0xff, 0xff, 0xff, 0xff] };
        assert(r@ =~= broadcast_octets());
        r
    }

    /// Whether this is the reserved address `ff:ff:ff:ff:ff:ff`.
    pub fn is_broadcast(&self) -> (r: bool)
        ensures
            r == (self@ == broadcast_octets()),
    {
        let all = HwAddr::broadcast();
        *self == all
    }
}

/// One more than the largest number that six octets spell.
pub const HW_KEY_LIMIT: u64 = 0x1_0000_0000_0000;

/// The number that six octets spell, first octet highest.
pub open spec fn hw_key(octets: Seq<u8>) -> u64 {
    (octets[0] * 0x100_0000_0000 + octets[1] * 0x1_0000_0000 + octets[2] * 0x100_0000 + octets[3]
        * 0x1_0000 + octets[4] * 0x100 + octets[5]) as u64
}

/// The six octets that spell `k`.
pub open spec fn key_octets(k: u64) -> Seq<u8> {
    seq![
        (k / 0x100_0000_0000) as u8,
        (k / 0x1_0000_0000 % 256) as u8,
        (k / 0x100_0000 % 256) as u8,
        (k / 0x1_0000 % 256) as u8,
        (k / 0x100 % 256) as u8,
        (k % 256) as u8,
    ]
}

/// Every number below the limit is spelled by its octets.
pub proof fn lemma_key_octets(k: u64)
    requires
        k < HW_KEY_LIMIT,
    ensures
        key_octets(k).len() == 6,
        hw_key(key_octets(k)) == k,
{
    assert(k < 0x1_0000_0000_0000u64 ==> k / 0x100_0000_0000 < 256 && k == (k / 0x100_0000_0000)
        * 0x100_0000_0000 + (k / 0x1_0000_0000 % 256) * 0x1_0000_0000 + (k / 0x100_0000 % 256)
        * 0x100_0000 + (k / 0x1_0000 % 256) * 0x1_0000 + (k / 0x100 % 256) * 0x100 + k % 256)
        by (bit_vector);
}

/// Six octets are the octets of the number they spell, so that two
/// addresses with the same number are the same address.
pub proof fn lemma_hw_key_octets(octets: Seq<u8>)
    requires
        octets.len() == 6,
    ensures
        hw_key(octets) < HW_KEY_LIMIT,
        key_octets(hw_key(octets)) == octets,
{
    let a = octets[0];
    let b = octets[1];
    let c = octets[2];
    let d = octets[3];
    let e = octets[4];
    let f = octets[5];
    let k = hw_key(octets);
    assert(k == a * 0x100_0000_0000 + b * 0x1_0000_0000 + c * 0x100_0000 + d * 0x1_0000 + e
        * 0x100 + f);
    assert(k == a * 0x100_0000_0000 + b * 0x1_0000_0000 + c * 0x100_0000 + d * 0x1_0000 + e
        * 0x100 + f ==> k < 0x1_0000_0000_0000u64 && k / 0x100_0000_0000 == a && k
        / 0x1_0000_0000 % 256 == b && k / 0x100_0000 % 256 == c && k / 0x1_0000 % 256 == d && k
        / 0x100 % 256 == e && k % 256 == f) by (bit_vector);
    assert(key_octets(k) =~= octets);
}

/// The six bytes of the broadcast address, `ff:ff:ff:ff:ff:ff`.
pub open spec fn broadcast_octets() -> Seq<u8> {
    seq![0xffu8, 0xffu8, 0xffu8, 0xffu8, 0xffu8, 0xffu8]
}

/// The unit passed between all components: two hardware addresses and the
/// bytes they frame.
#[derive(Clone, Debug, PartialEq, Eq)]
pub struct Frame {
    pub source_hw_addr: HwAddr,
    pub dest_hw_addr: HwAddr,
    pub payload: Vec<u8>,
}

/// What a [`Frame`] is, as plain sequences of bytes.
pub ghost struct FrameView {
    pub source: Seq<u8>,
    pub dest: Seq<u8>,
    pub payload: Seq<u8>,
}

impl FrameView {
    /// Both hardware addresses are exactly six bytes long.
    pub open spec fn wf(self) -> bool {
        self.source.len() == 6 && self.dest.len() == 6
    }
}

impl View for Frame {
    type V = FrameView;

    open spec fn view(&self) -> FrameView {
        FrameView {
            source: self.source_hw_addr@,
            dest: self.dest_hw_addr@,
            payload: self.payload@,
        }
    }
}

/// Every frame has well-formed hardware addresses.
pub proof fn lemma_frame_wf(frame: Frame)
    ensures
        frame@.wf(),
{
}

/// The view of an optional frame.
pub open spec fn frame_option_view(f: Option<Frame>) -> Option<FrameView> {
    match f {
        Some(frame) => Some(frame@),
        None => None,
    }
}

} // verus!
