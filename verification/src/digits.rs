//! Numbers written as text, the way `format!` writes them with `{}`, `{:06}`
//! and `{:02X}`, for the diagnostic log lines.
use vstd::prelude::*;
use crate::text::{ascii_chars, utf8_lossy};

verus! {

/// The decimal digits of `n`, as ASCII bytes.
pub open spec fn dec_bytes(n: nat) -> Seq<u8>
    decreases n,
{
    if n < 10 {
        seq![(0x30 + n) as u8]
    } else {
        dec_bytes(n / 10).push((0x30 + n % 10) as u8)
    }
}

/// `n` in decimal, as `{}` writes it.
pub open spec fn dec(n: nat) -> Seq<char> {
    ascii_chars(dec_bytes(n))
}

/// `s` padded on the left with zeros to `width` characters, as `{:0width}`
/// pads a number.
pub open spec fn zero_pad(s: Seq<char>, width: nat) -> Seq<char> {
    if s.len() < width {
        Seq::new((width - s.len()) as nat, |i: int| '0') + s
    } else {
        s
    }
}

/// The upper-case hexadecimal digit of `n` (below 16), as a character.
pub open spec fn hex_char(n: int) -> char {
    if n < 10 { (0x30 + n) as char } else { (0x41 + n - 10) as char }
}

/// Byte `b` as two upper-case hexadecimal digits, as `{:02X}` writes it.
pub open spec fn hex2_chars(b: u8) -> Seq<char> {
    seq![hex_char(b as int / 16), hex_char(b as int % 16)]
}

proof fn lemma_dec_ascii(n: nat)
    ensures
        dec_bytes(n).len() >= 1,
        forall|j: int| 0 <= j < dec_bytes(n).len() ==> #[trigger] dec_bytes(n)[j] < 0x80,
    decreases n,
{
    if n >= 10 {
        lemma_dec_ascii(n / 10);
    }
}

fn push_dec(out: &mut Vec<u8>, n: u64)
    ensures
        final(out)@ == old(out)@ + dec_bytes(n as nat),
    decreases n,
{
    if n >= 10 {
        push_dec(out, n / 10);
    }
    let d: u8 = (n % 10) as u8;
    out.push(0x30 + d);
    proof {
        if n >= 10 {
            assert(old(out)@ + dec_bytes(n as nat) =~= (old(out)@ + dec_bytes((n / 10) as nat)).push(
                (0x30 + n % 10) as u8,
            ));
        } else {
            assert(old(out)@ + dec_bytes(n as nat) =~= old(out)@.push((0x30 + n) as u8));
        }
    }
}

/// `n` in decimal, padded with zeros to `width` characters.
pub fn dec_padded(n: u64, width: usize) -> (s: String)
    ensures
        s@ == zero_pad(dec(n as nat), width as nat),
{
    let mut digits: Vec<u8> = Vec::new();
    push_dec(&mut digits, n);
    assert(digits@ =~= dec_bytes(n as nat));
    proof {
        lemma_dec_ascii(n as nat);
    }
    let pad: usize = if digits.len() < width { width - digits.len() } else { 0 };
    let mut bytes: Vec<u8> = Vec::new();
    let mut i: usize = 0;
    while i < pad
        invariant
            i <= pad,
            bytes@ == Seq::new(i as nat, |j: int| 0x30u8),
        decreases pad - i,
    {
        bytes.push(0x30);
        i = i + 1;
        assert(bytes@ =~= Seq::new(i as nat, |j: int| 0x30u8));
    }
    let ghost zeros = bytes@;
    bytes.append(&mut digits);
    assert forall|j: int| 0 <= j < bytes@.len() implies bytes@[j] < 0x80 by {
        if j >= zeros.len() {
            assert(bytes@[j] == dec_bytes(n as nat)[j - zeros.len()]);
        }
    }
    let s = utf8_lossy(bytes.as_slice());
    proof {
        let d = dec(n as nat);
        assert(d.len() == dec_bytes(n as nat).len());
        assert(s@ =~= zero_pad(d, width as nat));
    }
    s
}

/// `n` in decimal, as `{}` writes it.
pub fn dec_string(n: u64) -> (s: String)
    ensures
        s@ == dec(n as nat),
{
    let s = dec_padded(n, 0);
    assert(zero_pad(dec(n as nat), 0) == dec(n as nat));
    s
}

fn hex_digit(n: u8) -> (d: u8)
    requires
        n < 16,
    ensures
        d as char == hex_char(n as int),
        d < 0x80,
{
    if n < 10 { 0x30 + n } else { 0x41 + n - 10 }
}

/// Byte `b` as two upper-case hexadecimal digits.
pub fn hex2_string(b: u8) -> (s: String)
    ensures
        s@ == hex2_chars(b),
{
    let mut bytes: Vec<u8> = Vec::new();
    bytes.push(hex_digit(b / 16));
    bytes.push(hex_digit(b % 16));
    let s = utf8_lossy(bytes.as_slice());
    assert(s@ =~= hex2_chars(b));
    s
}

} // verus!
