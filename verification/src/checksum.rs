//! The Internet checksum on 16-bit words. A ones'-complement sum folded to
//! 16 bits equals 0xFFFF exactly when the plain word sum is a positive
//! multiple of 0xFFFF, so both the check and the header construction are
//! stated over the plain sum.

use vstd::arithmetic::div_mod::{lemma_fundamental_div_mod, lemma_mod_multiples_basic};
use vstd::prelude::*;

verus! {

/// The sum of the first `n` big-endian 16-bit words of `b`.
pub open spec fn spec_wsum(b: Seq<u8>, n: int) -> int
    decreases n,
{
    if n <= 0 {
        0
    } else {
        spec_wsum(b, n - 1) + b[2 * (n - 1)] * 256 + b[2 * (n - 1) + 1]
    }
}

/// A region checks out when its word sum is a positive multiple of 0xFFFF:
/// the ones'-complement fold of such a sum, and only of such a sum, is 0xFFFF.
pub open spec fn spec_checksum_ok(h: Seq<u8>) -> bool {
    let s = spec_wsum(h, h.len() as int / 2);
    &&& h.len() % 2 == 0
    &&& s > 0
    &&& s % 0xFFFF == 0
}

proof fn lemma_wsum_bound(b: Seq<u8>, n: int)
    requires
        0 <= n,
        2 * n <= b.len(),
    ensures
        0 <= spec_wsum(b, n) <= n * 0xFFFF,
    decreases n,
{
    if n > 0 {
        lemma_wsum_bound(b, n - 1);
    }
}

/// The plain sum of the 16-bit words of an even-length region.
pub fn word_sum(b: &[u8]) -> (r: u64)
    requires
        b@.len() % 2 == 0,
        b@.len() <= 0x2_0000,
    ensures
        r == spec_wsum(b@, b@.len() as int / 2),
        r <= b@.len() * 0xFFFF,
{
    let n = b.len() / 2;
    let mut sum: u64 = 0;
    let mut i: usize = 0;
    proof {
        lemma_wsum_bound(b@, n as int);
    }
    while i < n
        invariant
            0 <= i <= n,
            n == b@.len() / 2,
            b@.len() % 2 == 0,
            b@.len() <= 0x2_0000,
            sum == spec_wsum(b@, i as int),
            sum <= i * 0xFFFF,
        decreases n - i,
    {
        let hi = b[2 * i];
        let lo = b[2 * i + 1];
        sum = sum + (hi as u64) * 256 + (lo as u64);
        i = i + 1;
    }
    sum
}

/// True exactly when the region carries a valid Internet checksum.
pub fn checksum_ok(h: &[u8]) -> (r: bool)
    requires
        h@.len() <= 0x2_0000,
    ensures
        r == spec_checksum_ok(h@),
{
    if h.len() % 2 != 0 {
        return false;
    }
    let s = word_sum(h);
    s > 0 && s % 0xFFFF == 0
}

/// The checksum-field value that completes a region whose remaining words
/// sum to `s`: adding it makes the total a multiple of 0xFFFF, which is the
/// ones'-complement of the folded sum.
pub fn checksum_field(s: u64) -> (c: u16)
    requires
        s <= 0xFFFF_FFFF_0000,
    ensures
        (s + c) % 0xFFFF == 0,
        s > 0 ==> s + c > 0,
{
    let m = s % 0xFFFF;
    let c: u16 = if m == 0 {
        0u16
    } else {
        (0xFFFF - m) as u16
    };
    proof {
        lemma_fundamental_div_mod(s as int, 0xFFFF);
        let q = s as int / 0xFFFF;
        if m != 0 {
            assert(s + c == (q + 1) * 0xFFFF) by {
                assert(s == 0xFFFF * q + (s as int % 0xFFFF));
            }
            lemma_mod_multiples_basic(q + 1, 0xFFFF);
        } else {
            assert(s + c == q * 0xFFFF) by {
                assert(s == 0xFFFF * q + (s as int % 0xFFFF));
            }
            lemma_mod_multiples_basic(q, 0xFFFF);
        }
    }
    c
}

} // verus!
