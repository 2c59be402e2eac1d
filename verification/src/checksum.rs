//! The Internet checksum: the 16-bit one's complement of the one's
//! complement sum of a buffer's big-endian 16-bit words.

use vstd::prelude::*;

verus! {

/// Longest buffer that is handed to the checksum routines.
pub const CHECKSUM_MAX_LEN: usize = 0xffff;

/// The sum of the big-endian 16-bit words of `s`. A trailing odd byte
/// counts as the high byte of one more word.
pub open spec fn word_sum(s: Seq<u8>) -> nat
    decreases s.len(),
{
    if s.len() == 0 {
        0
    } else if s.len() == 1 {
        s[0] as nat * 256
    } else {
        s[0] as nat * 256 + s[1] as nat + word_sum(s.skip(2))
    }
}

/// The word of `s` at word offset `i`, or 0 where `s` has no such word.
pub open spec fn word_at(s: Seq<u8>, i: int) -> nat {
    if 0 <= i && 2 * i + 1 < s.len() {
        s[2 * i] as nat * 256 + s[2 * i + 1] as nat
    } else if 0 <= i && 2 * i < s.len() {
        s[2 * i] as nat * 256
    } else {
        0
    }
}

/// The sum of the words of `s`, the word at offset `skip` left out.
pub open spec fn word_sum_skipping(s: Seq<u8>, skip: int) -> int {
    word_sum(s) - word_at(s, skip)
}

/// A sum of words reduced to 16 bits with end-around carry: 0 only for 0,
/// and otherwise the value in `1..=0xffff` congruent to `sum` modulo
/// `0xffff`.
pub open spec fn fold_carries(sum: int) -> nat {
    if sum <= 0 {
        0
    } else {
        ((sum - 1) % 0xffff + 1) as nat
    }
}

/// The checksum that goes with a sum of words.
pub open spec fn complement16(sum: int) -> u16 {
    (0xffff - fold_carries(sum)) as u16
}

/// The sum of the words of the IPv4 pseudo-header: both addresses, the
/// protocol number and the length of the transport segment.
pub open spec fn pseudo_header_sum(
    source: Seq<u8>,
    destination: Seq<u8>,
    protocol: u8,
    length: nat,
) -> int {
    word_sum(source) + word_sum(destination) + protocol + length
}

/// A buffer that carries its own checksum is intact when the sum of all
/// its words, the checksum's included, folds to `0xffff`.
pub open spec fn sums_to_all_ones(sum: int) -> bool {
    fold_carries(sum) == 0xffff
}

/// The two bytes of a 16-bit value, high byte first.
pub open spec fn be16(v: u16) -> Seq<u8> {
    seq![(v / 256) as u8, (v % 256) as u8]
}

/// The sum of words splits at every even offset.
pub proof fn lemma_word_sum_concat(a: Seq<u8>, b: Seq<u8>)
    requires
        a.len() % 2 == 0,
    ensures
        word_sum(a + b) == word_sum(a) + word_sum(b),
    decreases a.len(),
{
    if a.len() == 0 {
        assert(a + b =~= b);
    } else {
        assert((a + b).skip(2) =~= a.skip(2) + b);
        lemma_word_sum_concat(a.skip(2), b);
    }
}

/// A two-byte buffer sums to the value it spells.
pub proof fn lemma_word_sum_be16(v: u16)
    ensures
        be16(v).len() == 2,
        word_sum(be16(v)) == v,
        word_at(be16(v), 0) == v,
{
    let s = be16(v);
    assert(s.skip(2).len() == 0);
    assert(word_sum(s.skip(2)) == 0);
}

/// Folding is what adding the carries back in comes to: a sum that fits
/// in 16 bits is its own fold, and any other folds as its low 16 bits
/// plus what lies above them.
pub proof fn lemma_fold_carries_step(sum: int)
    requires
        sum >= 0,
    ensures
        fold_carries(sum) <= 0xffff,
        sum < 0x1_0000 ==> fold_carries(sum) == sum,
        sum >= 0x1_0000 ==> fold_carries(sum) == fold_carries(sum / 0x1_0000 + sum % 0x1_0000),
        sum >= 0x1_0000 ==> 0 < sum / 0x1_0000 + sum % 0x1_0000 < sum,
{
    if sum >= 0x1_0000 {
        let h = sum / 0x1_0000;
        let l = sum % 0x1_0000;
        assert(sum == h * 0x1_0000 + l && h >= 1 && 0 <= l < 0x1_0000) by (nonlinear_arith)
            requires
                sum >= 0x1_0000,
                h == sum / 0x1_0000,
                l == sum % 0x1_0000,
        ;
        let x = h + l - 1;
        assert((sum - 1) % 0xffff == x % 0xffff) by (nonlinear_arith)
            requires
                sum - 1 == h * 0xffff + x,
                x >= 0,
                h >= 0,
        ;
    }
}

/// Storing the checksum of a sum beside what was summed makes the whole
/// fold to `0xffff`; so does storing `0xffff` where the checksum is 0.
pub proof fn lemma_checksum_completes(sum: int)
    requires
        sum >= 0,
    ensures
        sums_to_all_ones(sum + complement16(sum)),
        complement16(sum) == 0 ==> sums_to_all_ones(sum + 0xffff),
{
    if sum > 0 {
        let q = (sum - 1) / 0xffff;
        let r = (sum - 1) % 0xffff;
        assert(sum - 1 == q * 0xffff + r) by (nonlinear_arith)
            requires
                q == (sum - 1) / 0xffff,
                r == (sum - 1) % 0xffff,
        ;
        let c = complement16(sum);
        assert(c == 0xfffe - r);
        let total = sum + c;
        assert(total - 1 == q * 0xffff + 0xfffe);
        assert((total - 1) % 0xffff == 0xfffe) by (nonlinear_arith)
            requires
                total - 1 == q * 0xffff + 0xfffe,
                q >= 0,
        ;
        if c == 0 {
            let t2 = sum + 0xffff;
            assert(t2 - 1 == (q + 1) * 0xffff + 0xfffe) by (nonlinear_arith)
                requires
                    t2 == sum + 0xffff,
                    sum - 1 == q * 0xffff + r,
                    r == 0xfffe,
            ;
            assert((t2 - 1) % 0xffff == 0xfffe) by (nonlinear_arith)
                requires
                    t2 - 1 == (q + 1) * 0xffff + 0xfffe,
                    q >= 0,
            ;
        }
    }
}

/// `pnet::util::checksum`: the checksum of a non-empty buffer in which the
/// word at offset `skipword` counts as zero. The bound keeps the 32-bit
/// accumulator of the outside routine from overflowing.
#[verifier::external_body]
pub(crate) fn checksum_skipping(data: &[u8], skipword: usize) -> (r: u16)
    requires
        0 < data@.len() <= CHECKSUM_MAX_LEN,
    ensures
        r == complement16(word_sum_skipping(data@, skipword as int)),
{
    pnet::util::checksum(data, skipword)
}

/// `pnet::util::ipv4_checksum`, with no extra data: the checksum of a
/// transport segment under the IPv4 pseudo-header made of the two
/// addresses, the protocol number and the segment's length, the word at
/// offset `skipword` of the segment counting as zero.
#[verifier::external_body]
pub(crate) fn pseudo_header_checksum(
    data: &[u8],
    skipword: usize,
    source: [u8; 4],
    destination: [u8; 4],
    protocol: u8,
) -> (r: u16)
    requires
        data@.len() <= CHECKSUM_MAX_LEN,
    ensures
        r == complement16(
            pseudo_header_sum(source@, destination@, protocol, data@.len()) + word_sum_skipping(
                data@,
                skipword as int,
            ),
        ),
{
    pnet::util::ipv4_checksum(
        data,
        skipword,
        &[],
        &source.into(),
        &destination.into(),
        pnet::packet::ip::IpNextHeaderProtocol(protocol),
    )
}

} // verus!
