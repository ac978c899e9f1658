//! The 16-bit frame checksum: the two's-complement negation (mod 2^16) of
//! the wrapping sum of the covered bytes, each byte widened to 16 bits.

use vstd::prelude::*;
use vstd::arithmetic::div_mod::{
    lemma_add_mod_noop, lemma_add_mod_noop_right, lemma_fundamental_div_mod,
    lemma_mod_add_multiples_vanish, lemma_mod_bound, lemma_mod_multiples_vanish,
    lemma_mod_sub_multiples_vanish, lemma_small_mod,
};

verus! {

/// The plain (unwrapped) sum of the bytes of `s`, each widened.
pub open spec fn byte_total(s: Seq<u8>) -> int
    decreases s.len(),
{
    if s.len() == 0 {
        0
    } else {
        byte_total(s.drop_last()) + s.last()
    }
}

/// The frame checksum of `s` as a mathematical value: the additive inverse
/// of the byte sum, reduced mod 2^16.
pub open spec fn checksum_spec(s: Seq<u8>) -> int {
    (0 - byte_total(s)) % 0x10000
}

pub proof fn lemma_byte_total_nonneg(s: Seq<u8>)
    ensures
        byte_total(s) >= 0,
    decreases s.len(),
{
    if s.len() > 0 {
        lemma_byte_total_nonneg(s.drop_last());
    }
}

pub proof fn lemma_checksum_spec_bound(s: Seq<u8>)
    ensures
        0 <= checksum_spec(s) < 0x10000,
{
    lemma_mod_bound(0 - byte_total(s), 0x10000);
}

/// Replacing one byte shifts the byte sum by the difference.
pub proof fn lemma_byte_total_update(s: Seq<u8>, i: int, v: u8)
    requires
        0 <= i < s.len(),
    ensures
        byte_total(s.update(i, v)) == byte_total(s) - s[i] + v,
    decreases s.len(),
{
    let t = s.update(i, v);
    if i == s.len() - 1 {
        assert(t.drop_last() =~= s.drop_last());
    } else {
        assert(t.drop_last() =~= s.drop_last().update(i, v));
        lemma_byte_total_update(s.drop_last(), i, v);
    }
}

/// The checksum is the additive inverse of the byte sum: including the
/// 16-bit checksum value in the sum of the bytes it covers yields zero
/// mod 2^16.
pub proof fn lemma_checksum_is_additive_inverse(b: Seq<u8>)
    ensures
        (byte_total(b) + checksum_spec(b)) % 0x10000 == 0,
{
    let a = byte_total(b);
    lemma_add_mod_noop_right(a, 0 - a, 0x10000);
    lemma_small_mod(0nat, 0x10000nat);
}

/// Computes the frame checksum of `data`: the wrapping 16-bit sum of the
/// bytes, two's-complement negated.
pub fn checksum(data: &[u8]) -> (r: u16)
    ensures
        r == checksum_spec(data@),
{
    let mut sum: u16 = 0;
    let mut i: usize = 0;
    while i < data.len()
        invariant
            i <= data@.len(),
            sum == byte_total(data@.take(i as int)) % 0x10000,
        decreases data@.len() - i,
    {
        let b = data[i];
        proof {
            let t = data@.take(i as int);
            let a = byte_total(t);
            lemma_byte_total_nonneg(t);
            assert(data@.take(i as int + 1).drop_last() =~= t);
            assert(byte_total(data@.take(i as int + 1)) == a + b);
            lemma_mod_bound(a, 0x10000);
            lemma_small_mod(b as nat, 0x10000nat);
            lemma_add_mod_noop(a, b as int, 0x10000);
            // (sum + b) wrapped equals (a + b) % 2^16
            if sum + b < 0x10000 {
                lemma_small_mod((sum + b) as nat, 0x10000nat);
            } else {
                lemma_mod_sub_multiples_vanish(sum + b, 0x10000);
                lemma_small_mod((sum + b - 0x10000) as nat, 0x10000nat);
            }
        }
        sum = sum.wrapping_add(b as u16);
        i = i + 1;
    }
    proof {
        assert(data@.take(data@.len() as int) =~= data@);
        let a = byte_total(data@);
        lemma_byte_total_nonneg(data@);
        lemma_mod_bound(a, 0x10000);
        lemma_fundamental_div_mod(a, 0x10000);
        // (0 - a) % 2^16 == (0 - (a % 2^16)) % 2^16
        lemma_mod_multiples_vanish(0 - a / 0x10000, 0 - (a % 0x10000), 0x10000);
        if sum == 0 {
            lemma_small_mod(0nat, 0x10000nat);
        } else {
            lemma_mod_add_multiples_vanish(0 - sum as int, 0x10000);
            lemma_small_mod((0x10000 - sum as int) as nat, 0x10000nat);
        }
    }
    0u16.wrapping_sub(sum)
}

} // verus!
