//! Byte-level helpers shared by the frame codecs: the two running checksums
//! that the Affine links use.
use vstd::prelude::*;

verus! {

/// Running sum of `s` modulo 256: the checksum of the card-reader link and of
/// the touch board's frames.
pub open spec fn sum_add(s: Seq<u8>) -> u8
    decreases s.len(),
{
    if s.len() == 0 {
        0
    } else {
        vstd::wrapping::u8_specs::wrapping_add(sum_add(s.drop_last()), s.last())
    }
}

/// Zero minus the running sum of `s`, modulo 256: the checksum of the slider
/// link, which makes a whole frame sum to zero.
pub open spec fn sum_sub(s: Seq<u8>) -> u8
    decreases s.len(),
{
    if s.len() == 0 {
        0
    } else {
        vstd::wrapping::u8_specs::wrapping_sub(sum_sub(s.drop_last()), s.last())
    }
}

/// Computes `sum_add` of the first `n` bytes of `s`.
pub fn checksum_add(s: &[u8], n: usize) -> (c: u8)
    requires
        n <= s@.len(),
    ensures
        c == sum_add(s@.take(n as int)),
{
    let mut c: u8 = 0;
    let mut i: usize = 0;
    while i < n
        invariant
            i <= n,
            n <= s@.len(),
            c == sum_add(s@.take(i as int)),
        decreases n - i,
    {
        assert(s@.take((i + 1) as int).drop_last() =~= s@.take(i as int));
        c = c.wrapping_add(s[i]);
        i = i + 1;
    }
    c
}

/// Computes `sum_sub` of the first `n` bytes of `s`.
pub fn checksum_sub(s: &[u8], n: usize) -> (c: u8)
    requires
        n <= s@.len(),
    ensures
        c == sum_sub(s@.take(n as int)),
{
    let mut c: u8 = 0;
    let mut i: usize = 0;
    while i < n
        invariant
            i <= n,
            n <= s@.len(),
            c == sum_sub(s@.take(i as int)),
        decreases n - i,
    {
        assert(s@.take((i + 1) as int).drop_last() =~= s@.take(i as int));
        c = c.wrapping_sub(s[i]);
        i = i + 1;
    }
    c
}

} // verus!
