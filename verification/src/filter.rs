//! The capture filter: an expression that matches all local traffic but
//! the frames whose Ethernet source is a hardware address learned from the
//! tunnel. Exclusions are only ever added.

use vstd::prelude::*;
use vstd::string::StringExecFns;
use crate::frame::HwAddr;

verus! {

/// The upper-case hexadecimal digit of a number below 16.
pub open spec fn hex_digit(n: int) -> char {
    if n == 0 {
        '0'
    } else if n == 1 {
        '1'
    } else if n == 2 {
        '2'
    } else if n == 3 {
        '3'
    } else if n == 4 {
        '4'
    } else if n == 5 {
        '5'
    } else if n == 6 {
        '6'
    } else if n == 7 {
        '7'
    } else if n == 8 {
        '8'
    } else if n == 9 {
        '9'
    } else if n == 10 {
        'A'
    } else if n == 11 {
        'B'
    } else if n == 12 {
        'C'
    } else if n == 13 {
        'D'
    } else if n == 14 {
        'E'
    } else {
        'F'
    }
}

/// The two upper-case hexadecimal digits of a byte.
pub open spec fn hex_pair(b: u8) -> Seq<char> {
    seq![hex_digit(b as int / 16), hex_digit(b as int % 16)]
}

/// Six octets written as `AA:BB:CC:DD:EE:FF`.
pub open spec fn hw_text(octets: Seq<u8>) -> Seq<char> {
    hex_pair(octets[0]) + seq![':'] + hex_pair(octets[1]) + seq![':'] + hex_pair(octets[2])
        + seq![':'] + hex_pair(octets[3]) + seq![':'] + hex_pair(octets[4]) + seq![':'] + hex_pair(
        octets[5],
    )
}

/// The clause that takes the frames sent by `octets` out of a filter.
pub open spec fn exclusion_clause(octets: Seq<u8>) -> Seq<char> {
    " && !(ether src "@ + hw_text(octets) + ")"@
}

/// The expression that excludes the given addresses, in their order: it
/// starts empty, which matches every frame, and holds one clause for each.
pub open spec fn filter_expression(excluded: Seq<Seq<u8>>) -> Seq<char>
    decreases excluded.len(),
{
    if excluded.len() == 0 {
        Seq::<char>::empty()
    } else {
        filter_expression(excluded.drop_last()) + exclusion_clause(excluded.last())
    }
}

/// Whether a filter that excludes the given addresses lets a frame with
/// the given raw bytes through: it does unless the six bytes of the
/// frame's Ethernet source are one of them.
pub open spec fn filter_admits(excluded: Seq<Seq<u8>>, packet: Seq<u8>) -> bool {
    packet.len() < 12 || !excluded.contains(packet.subrange(6, 12))
}

/// The text of one upper-case hexadecimal digit.
fn hex_digit_text(n: u8) -> (text: &'static str)
    requires
        n < 16,
    ensures
        text@ == seq![hex_digit(n as int)],
{
    proof {
        reveal_strlit("0");
        reveal_strlit("1");
        reveal_strlit("2");
        reveal_strlit("3");
        reveal_strlit("4");
        reveal_strlit("5");
        reveal_strlit("6");
        reveal_strlit("7");
        reveal_strlit("8");
        reveal_strlit("9");
        reveal_strlit("A");
        reveal_strlit("B");
        reveal_strlit("C");
        reveal_strlit("D");
        reveal_strlit("E");
        reveal_strlit("F");
    }
    let text = if n == 0 {
        "0"
    } else if n == 1 {
        "1"
    } else if n == 2 {
        "2"
    } else if n == 3 {
        "3"
    } else if n == 4 {
        "4"
    } else if n == 5 {
        "5"
    } else if n == 6 {
        "6"
    } else if n == 7 {
        "7"
    } else if n == 8 {
        "8"
    } else if n == 9 {
        "9"
    } else if n == 10 {
        "A"
    } else if n == 11 {
        "B"
    } else if n == 12 {
        "C"
    } else if n == 13 {
        "D"
    } else if n == 14 {
        "E"
    } else {
        "F"
    };
    assert(text@ =~= seq![hex_digit(n as int)]);
    text
}

/// Appends the two hexadecimal digits of `b` to `out`.
fn push_hex_pair(out: &mut String, b: u8)
    ensures
        final(out)@ == old(out)@ + hex_pair(b),
{
    out.append(hex_digit_text(b / 16));
    out.append(hex_digit_text(b % 16));
    assert(out@ =~= old(out)@ + hex_pair(b));
}

/// Appends `hw` to `out`, written as `AA:BB:CC:DD:EE:FF`.
fn push_hw_text(out: &mut String, hw: &HwAddr)
    ensures
        final(out)@ == old(out)@ + hw_text(hw@),
{
    proof {
        reveal_strlit(":");
    }
    push_hex_pair(out, hw.octets[0]);
    out.append(":");
    push_hex_pair(out, hw.octets[1]);
    out.append(":");
    push_hex_pair(out, hw.octets[2]);
    out.append(":");
    push_hex_pair(out, hw.octets[3]);
    out.append(":");
    push_hex_pair(out, hw.octets[4]);
    out.append(":");
    push_hex_pair(out, hw.octets[5]);
    assert(out@ =~= old(out)@ + hw_text(hw@));
}

/// The state of the capture filter: the addresses excluded so far and the
/// expression that excludes them.
pub struct CaptureFilter {
    expression: String,
    excluded: Vec<HwAddr>,
}

impl View for CaptureFilter {
    type V = Seq<Seq<u8>>;

    /// The excluded addresses, oldest first.
    closed spec fn view(&self) -> Seq<Seq<u8>> {
        Seq::new(self.excluded@.len(), |i: int| self.excluded@[i]@)
    }
}

impl CaptureFilter {
    /// The expression held is the one that excludes the addresses held.
    pub closed spec fn wf(&self) -> bool {
        self.expression@ == filter_expression(self@)
    }

    /// The filter that excludes nothing.
    pub fn new() -> (filter: CaptureFilter)
        ensures
            filter.wf(),
            filter@ == Seq::<Seq<u8>>::empty(),
    {
        let filter = CaptureFilter { expression: String::new(), excluded: Vec::new() };
        assert(filter@ =~= Seq::<Seq<u8>>::empty());
        filter
    }

    /// Excludes one more address, by one more clause at the end of the
    /// expression. What was excluded stays excluded.
    pub fn exclude(&mut self, hw: HwAddr)
        requires
            old(self).wf(),
        ensures
            final(self).wf(),
            final(self)@ == old(self)@.push(hw@),
            final(self)@.contains(hw@),
            forall|a: Seq<u8>| old(self)@.contains(a) ==> final(self)@.contains(a),
    {
        self.expression.append(" && !(ether src ");
        push_hw_text(&mut self.expression, &hw);
        self.expression.append(")");
        self.excluded.push(hw);
        proof {
            assert(self@ =~= old(self)@.push(hw@));
            assert(self@.drop_last() =~= old(self)@);
            assert(self.expression@ =~= old(self).expression@ + exclusion_clause(hw@));
            assert(self@[self@.len() - 1] == hw@);
            assert forall|a: Seq<u8>| old(self)@.contains(a) implies self@.contains(a) by {
                let i = choose|i: int| 0 <= i < old(self)@.len() && old(self)@[i] == a;
                assert(self@[i] == a);
            }
        }
    }

    /// The expression to install on the capture device.
    pub fn expression(&self) -> (text: &str)
        requires
            self.wf(),
        ensures
            text@ == filter_expression(self@),
    {
        self.expression.as_str()
    }

    /// Whether `hw` has been excluded.
    pub fn excludes(&self, hw: &HwAddr) -> (r: bool)
        ensures
            r == self@.contains(hw@),
    {
        let mut i: usize = 0;
        while i < self.excluded.len()
            invariant
                i <= self.excluded@.len(),
                forall|j: int| 0 <= j < i ==> self@[j] != hw@,
            decreases self.excluded@.len() - i,
        {
            if self.excluded[i] == *hw {
                assert(self@[i as int] == hw@);
                return true;
            }
            i += 1;
        }
        false
    }

    /// Whether the filter lets the captured bytes `packet` through.
    pub fn admits(&self, packet: &[u8]) -> (r: bool)
        ensures
            r == filter_admits(self@, packet@),
    {
        if packet.len() < 12 {
            true
        } else {
            let source = HwAddr::from_slice(packet, 6);
            !self.excludes(&source)
        }
    }
}

} // verus!
