//! The values of `segatools.ini` that the runtimes read: lines of
//! `key = value` under `[section]` headers, with `;` and `#` comments, names
//! compared without regard to ASCII case, and whitespace trimmed as Rust's
//! `str::trim` trims it (`char::is_whitespace`). The text is handled as its
//! UTF-8 bytes.
use vstd::prelude::*;

verus! {

/// Lower-cases an ASCII letter; other bytes are kept.
pub open spec fn ascii_lower(b: u8) -> u8 {
    if 0x41 <= b <= 0x5A { (b + 0x20) as u8 } else { b }
}

/// Whether `a` and `b` are equal without regard to ASCII case.
pub open spec fn eq_ignore_case(a: Seq<u8>, b: Seq<u8>) -> bool {
    a.len() == b.len() && forall|i: int| 0 <= i < a.len() ==> ascii_lower(a[i]) == ascii_lower(b[i])
}

/// The length of the whitespace character that starts at byte `i` of UTF-8
/// text `s`, or 0 when none starts there.
pub open spec fn ws_len_at(s: Seq<u8>, i: int) -> int {
    if i < 0 || i >= s.len() {
        0
    } else if (0x09 <= s[i] <= 0x0D) || s[i] == 0x20 {
        1
    } else if i + 1 < s.len() && s[i] == 0xC2 && (s[i + 1] == 0x85 || s[i + 1] == 0xA0) {
        2
    } else if i + 2 < s.len() && ((s[i] == 0xE1 && s[i + 1] == 0x9A && s[i + 2] == 0x80) || (s[i] == 0xE2
        && s[i + 1] == 0x80 && ((0x80 <= s[i + 2] <= 0x8A) || s[i + 2] == 0xA8 || s[i + 2] == 0xA9
        || s[i + 2] == 0xAF)) || (s[i] == 0xE2 && s[i + 1] == 0x81 && s[i + 2] == 0x9F) || (s[i] == 0xE3
        && s[i + 1] == 0x80 && s[i + 2] == 0x80)) {
        3
    } else {
        0
    }
}

/// The length of the whitespace character that ends `s`, or 0.
pub open spec fn ws_len_end(s: Seq<u8>) -> int {
    if s.len() >= 1 && ws_len_at(s, s.len() - 1) == 1 {
        1
    } else if s.len() >= 2 && ws_len_at(s, s.len() - 2) == 2 {
        2
    } else if s.len() >= 3 && ws_len_at(s, s.len() - 3) == 3 {
        3
    } else {
        0
    }
}

/// `s` without its leading whitespace.
pub open spec fn trim_start(s: Seq<u8>) -> Seq<u8>
    decreases s.len(),
{
    if ws_len_at(s, 0) > 0 {
        trim_start(s.skip(ws_len_at(s, 0)))
    } else {
        s
    }
}

/// `s` without its trailing whitespace.
pub open spec fn trim_end(s: Seq<u8>) -> Seq<u8>
    decreases s.len(),
{
    if ws_len_end(s) > 0 {
        trim_end(s.take(s.len() - ws_len_end(s)))
    } else {
        s
    }
}

/// `s` without whitespace at either end.
pub open spec fn trim(s: Seq<u8>) -> Seq<u8> {
    trim_end(trim_start(s))
}

/// The index of the first `b` in `s` at or after `i`, or the length of `s`.
pub open spec fn find_byte(s: Seq<u8>, b: u8, i: int) -> int
    decreases s.len() - i,
{
    if i < 0 || i >= s.len() {
        s.len() as int
    } else if s[i] == b {
        i
    } else {
        find_byte(s, b, i + 1)
    }
}

/// Where `find_byte` stops.
pub proof fn lemma_find_byte_bounds(s: Seq<u8>, b: u8, i: int)
    requires
        0 <= i <= s.len(),
    ensures
        i <= find_byte(s, b, i) <= s.len(),
        find_byte(s, b, i) < s.len() ==> s[find_byte(s, b, i)] == b,
        forall|k: int| i <= k < find_byte(s, b, i) ==> s[k] != b,
    decreases s.len() - i,
{
    if i < s.len() && s[i] != b {
        lemma_find_byte_bounds(s, b, i + 1);
    }
}

proof fn lemma_find_byte_is(s: Seq<u8>, b: u8, i: int, e: int)
    requires
        0 <= i <= e <= s.len(),
        forall|k: int| i <= k < e ==> s[k] != b,
        e == s.len() || s[e] == b,
    ensures
        find_byte(s, b, i) == e,
    decreases e - i,
{
    if i < e {
        lemma_find_byte_is(s, b, i + 1, e);
    }
}

/// The value of `key` in `section`, looking at the lines from byte `pos`
/// on with `cur` the section that they are in: the trimmed text after the
/// first `=` of the first line, in a section named `section`, whose trimmed
/// text before that `=` is `key`.
pub open spec fn ini_find(text: Seq<u8>, pos: int, cur: Seq<u8>, section: Seq<u8>, key: Seq<u8>) -> Option<Seq<u8>>
    decreases text.len() + 1 - pos,
{
    if pos < 0 || pos >= text.len() {
        None
    } else {
        let e = find_byte(text, 0x0A, pos);
        proof {
            lemma_find_byte_bounds(text, 0x0A, pos);
        }
        let line = trim(text.subrange(pos, e));
        if line.len() == 0 || line[0] == 0x3B || line[0] == 0x23 {
            ini_find(text, e + 1, cur, section, key)
        } else if line[0] == 0x5B && line.last() == 0x5D {
            ini_find(text, e + 1, trim(line.subrange(1, line.len() - 1)), section, key)
        } else if !eq_ignore_case(cur, section) {
            ini_find(text, e + 1, cur, section, key)
        } else {
            let k = find_byte(line, 0x3D, 0);
            if k >= line.len() {
                ini_find(text, e + 1, cur, section, key)
            } else if !eq_ignore_case(trim(line.take(k)), key) {
                ini_find(text, e + 1, cur, section, key)
            } else {
                Some(trim(line.skip(k + 1)))
            }
        }
    }
}

/// The value of `key` in `section` of the configuration text `text`; see
/// `ini_find`.
pub open spec fn ini_value(text: Seq<u8>, section: Seq<u8>, key: Seq<u8>) -> Option<Seq<u8>> {
    ini_find(text, 0, Seq::empty(), section, key)
}


fn ws_len(s: &[u8], a: usize, b: usize) -> (n: usize)
    requires
        a <= b <= s@.len(),
    ensures
        n == ws_len_at(s@.subrange(a as int, b as int), 0),
        n <= b - a,
{
    let ghost t = s@.subrange(a as int, b as int);
    if a >= b {
        return 0;
    }
    let c = s[a];
    if (c >= 0x09 && c <= 0x0D) || c == 0x20 {
        return 1;
    }
    if b - a >= 2 && c == 0xC2 && (s[a + 1] == 0x85 || s[a + 1] == 0xA0) {
        return 2;
    }
    if b - a >= 3 {
        let d = s[a + 1];
        let e = s[a + 2];
        if (c == 0xE1 && d == 0x9A && e == 0x80) || (c == 0xE2 && d == 0x80 && ((e >= 0x80 && e <= 0x8A) || e == 0xA8
            || e == 0xA9 || e == 0xAF)) || (c == 0xE2 && d == 0x81 && e == 0x9F) || (c == 0xE3 && d == 0x80 && e == 0x80) {
            return 3;
        }
    }
    0
}

fn ws_len_back(s: &[u8], a: usize, b: usize) -> (n: usize)
    requires
        a <= b <= s@.len(),
    ensures
        n == ws_len_end(s@.subrange(a as int, b as int)),
        n <= b - a,
{
    let ghost t = s@.subrange(a as int, b as int);
    if b - a >= 1 && ws_len(s, b - 1, b) == 1 {
        assert(t.subrange(t.len() - 1, t.len() as int) =~= s@.subrange(b - 1, b as int));
        return 1;
    }
    if b - a >= 2 && ws_len(s, b - 2, b) == 2 {
        assert(s@.subrange(b - 2, b as int) =~= t.subrange(t.len() - 2, t.len() as int));
        return 2;
    }
    if b - a >= 3 && ws_len(s, b - 3, b) == 3 {
        assert(s@.subrange(b - 3, b as int) =~= t.subrange(t.len() - 3, t.len() as int));
        return 3;
    }
    proof {
        if t.len() >= 1 {
            assert(s@.subrange(b - 1, b as int) =~= t.subrange(t.len() - 1, t.len() as int));
        }
        if t.len() >= 2 {
            assert(s@.subrange(b - 2, b as int) =~= t.subrange(t.len() - 2, t.len() as int));
        }
        if t.len() >= 3 {
            assert(s@.subrange(b - 3, b as int) =~= t.subrange(t.len() - 3, t.len() as int));
        }
    }
    0
}

/// Trims the bytes `s[a..b]`; returns the range of what is left.
pub fn trim_range(s: &[u8], a: usize, b: usize) -> (r: (usize, usize))
    requires
        a <= b <= s@.len(),
    ensures
        a <= r.0 <= r.1 <= b,
        s@.subrange(r.0 as int, r.1 as int) == trim(s@.subrange(a as int, b as int)),
{
    let mut lo: usize = a;
    while lo < b
        invariant
            a <= lo <= b <= s@.len(),
            trim_start(s@.subrange(a as int, b as int)) == trim_start(s@.subrange(lo as int, b as int)),
        ensures
            a <= lo <= b <= s@.len(),
            trim_start(s@.subrange(a as int, b as int)) == trim_start(s@.subrange(lo as int, b as int)),
            lo == b || ws_len_at(s@.subrange(lo as int, b as int), 0) == 0,
        decreases b - lo,
    {
        let n = ws_len(s, lo, b);
        if n == 0 {
            break;
        }
        assert(s@.subrange(lo as int, b as int).skip(n as int) =~= s@.subrange(lo + n, b as int));
        lo = lo + n;
    }
    proof {
        if lo == b {
            assert(ws_len_at(s@.subrange(lo as int, b as int), 0) == 0);
        }
    }
    assert(trim_start(s@.subrange(a as int, b as int)) == s@.subrange(lo as int, b as int));
    let mut hi: usize = b;
    while hi > lo
        invariant
            a <= lo <= hi <= b <= s@.len(),
            trim(s@.subrange(a as int, b as int)) == trim_end(s@.subrange(lo as int, hi as int)),
        ensures
            a <= lo <= hi <= b <= s@.len(),
            trim(s@.subrange(a as int, b as int)) == trim_end(s@.subrange(lo as int, hi as int)),
            hi == lo || ws_len_end(s@.subrange(lo as int, hi as int)) == 0,
        decreases hi - lo,
    {
        let n = ws_len_back(s, lo, hi);
        if n == 0 {
            break;
        }
        assert(s@.subrange(lo as int, hi as int).take(hi - lo - n) =~= s@.subrange(lo as int, hi - n));
        hi = hi - n;
    }
    proof {
        if hi == lo {
            assert(ws_len_end(s@.subrange(lo as int, hi as int)) == 0);
        }
    }
    (lo, hi)
}

/// Whether `s[a..b]` equals `t` without regard to ASCII case.
pub fn eq_ignore_case_range(s: &[u8], a: usize, b: usize, t: &[u8]) -> (eq: bool)
    requires
        a <= b <= s@.len(),
    ensures
        eq == eq_ignore_case(s@.subrange(a as int, b as int), t@),
{
    if b - a != t.len() {
        return false;
    }
    let mut i: usize = 0;
    while i < t.len()
        invariant
            a <= b <= s@.len(),
            b - a == t@.len(),
            i <= t@.len(),
            forall|j: int| 0 <= j < i ==> ascii_lower(s@[a + j]) == ascii_lower(t@[j]),
        decreases t@.len() - i,
    {
        let x = s[a + i];
        let y = t[i];
        let lx = if x >= 0x41 && x <= 0x5A { x + 0x20 } else { x };
        let ly = if y >= 0x41 && y <= 0x5A { y + 0x20 } else { y };
        if lx != ly {
            assert(ascii_lower(s@.subrange(a as int, b as int)[i as int]) != ascii_lower(t@[i as int]));
            return false;
        }
        i = i + 1;
    }
    true
}

/// Finds the value of `key` in `section` of the configuration text `text`;
/// returns the range of the value's bytes. See `ini_value`.
pub fn ini_lookup(text: &[u8], section: &[u8], key: &[u8]) -> (r: Option<(usize, usize)>)
    ensures
        match r {
            Some((a, b)) => a <= b <= text@.len() && ini_value(text@, section@, key@) == Some(text@.subrange(a as int, b as int)),
            None => ini_value(text@, section@, key@) is None,
        },
{
    let ghost goal = ini_value(text@, section@, key@);
    let mut pos: usize = 0;
    let mut ca: usize = 0;
    let mut cb: usize = 0;
    assert(text@.subrange(0, 0) =~= Seq::<u8>::empty());
    while pos < text.len()
        invariant
            pos <= text@.len(),
            ca <= cb <= text@.len(),
            ini_find(text@, pos as int, text@.subrange(ca as int, cb as int), section@, key@) == goal,
            goal == ini_value(text@, section@, key@),
        decreases text@.len() - pos,
    {
        let ghost cur = text@.subrange(ca as int, cb as int);
        let mut e: usize = pos;
        while e < text.len() && text[e] != 0x0A
            invariant
                pos <= e <= text@.len(),
                forall|k: int| pos <= k < e ==> text@[k] != 0x0A,
            decreases text@.len() - e,
        {
            e = e + 1;
        }
        proof {
            lemma_find_byte_is(text@, 0x0A, pos as int, e as int);
        }
        let (la, lb) = trim_range(text, pos, e);
        let ghost line = text@.subrange(la as int, lb as int);
        assert(line == trim(text@.subrange(pos as int, e as int)));
        let comment = la == lb || text[la] == 0x3B || text[la] == 0x23;
        if comment {
            assert(ini_find(text@, pos as int, cur, section@, key@) == ini_find(text@, e + 1, cur, section@, key@));
        } else if text[la] == 0x5B && text[lb - 1] == 0x5D {
            assert(lb - la >= 2);
            let (na, nb) = trim_range(text, la + 1, lb - 1);
            assert(line.subrange(1, line.len() - 1) =~= text@.subrange(la + 1, lb - 1));
            assert(ini_find(text@, pos as int, cur, section@, key@)
                == ini_find(text@, e + 1, text@.subrange(na as int, nb as int), section@, key@));
            ca = na;
            cb = nb;
        } else if !eq_ignore_case_range(text, ca, cb, section) {
            assert(ini_find(text@, pos as int, cur, section@, key@) == ini_find(text@, e + 1, cur, section@, key@));
        } else {
            let mut k: usize = la;
            while k < lb && text[k] != 0x3D
                invariant
                    la <= k <= lb <= text@.len(),
                    forall|j: int| la <= j < k ==> text@[j] != 0x3D,
                decreases lb - k,
            {
                k = k + 1;
            }
            proof {
                assert forall|j: int| 0 <= j < k - la implies line[j] != 0x3D by {
                    assert(line[j] == text@[la + j]);
                }
                if k < lb {
                    assert(line[k - la] == text@[k as int]);
                }
                lemma_find_byte_is(line, 0x3D, 0, k - la);
            }
            if k >= lb {
                assert(ini_find(text@, pos as int, cur, section@, key@) == ini_find(text@, e + 1, cur, section@, key@));
            } else {
                let (ka, kb) = trim_range(text, la, k);
                assert(line.take(k - la) =~= text@.subrange(la as int, k as int));
                if !eq_ignore_case_range(text, ka, kb, key) {
                    assert(ini_find(text@, pos as int, cur, section@, key@) == ini_find(text@, e + 1, cur, section@, key@));
                } else {
                    let (va, vb) = trim_range(text, k + 1, lb);
                    assert(line.skip(k - la + 1) =~= text@.subrange(k + 1, lb as int));
                    assert(ini_find(text@, pos as int, cur, section@, key@) == Some(text@.subrange(va as int, vb as int)));
                    return Some((va, vb));
                }
            }
        }
        if e >= text.len() {
            return None;
        }
        pos = e + 1;
    }
    None
}

/// Whether a configuration value means yes (`1`, `true`, `yes`, `on`) or no
/// (`0`, `false`, `no`, `off`), without regard to ASCII case; `None` for
/// anything else.
pub open spec fn bool_of(v: Seq<u8>) -> Option<bool> {
    if v == seq![0x31u8] || eq_ignore_case(v, seq![0x74u8, 0x72, 0x75, 0x65]) || eq_ignore_case(v, seq![0x79u8, 0x65, 0x73])
        || eq_ignore_case(v, seq![0x6Fu8, 0x6E]) {
        Some(true)
    } else if v == seq![0x30u8] || eq_ignore_case(v, seq![0x66u8, 0x61, 0x6C, 0x73, 0x65]) || eq_ignore_case(
        v,
        seq![0x6Eu8, 0x6F],
    ) || eq_ignore_case(v, seq![0x6Fu8, 0x66, 0x66]) {
        Some(false)
    } else {
        None
    }
}

/// Reads a yes/no configuration value; see `bool_of`.
pub fn parse_bool(value: &[u8]) -> (b: Option<bool>)
    ensures
        b == bool_of(value@),
{
    let n = value.len();
    let one: [u8; 1] = [0x31];
    let zero: [u8; 1] = [0x30];
    let t: [u8; 4] = [0x74, 0x72, 0x75, 0x65];
    let y: [u8; 3] = [0x79, 0x65, 0x73];
    let on: [u8; 2] = [0x6F, 0x6E];
    let f: [u8; 5] = [0x66, 0x61, 0x6C, 0x73, 0x65];
    let no: [u8; 2] = [0x6E, 0x6F];
    let off: [u8; 3] = [0x6F, 0x66, 0x66];
    assert(value@.subrange(0, n as int) =~= value@);
    assert(one@ =~= seq![0x31u8]);
    assert(zero@ =~= seq![0x30u8]);
    assert(t@ =~= seq![0x74u8, 0x72, 0x75, 0x65]);
    assert(y@ =~= seq![0x79u8, 0x65, 0x73]);
    assert(on@ =~= seq![0x6Fu8, 0x6E]);
    assert(f@ =~= seq![0x66u8, 0x61, 0x6C, 0x73, 0x65]);
    assert(no@ =~= seq![0x6Eu8, 0x6F]);
    assert(off@ =~= seq![0x6Fu8, 0x66, 0x66]);
    let is_one = n == 1 && value[0] == 0x31;
    let is_zero = n == 1 && value[0] == 0x30;
    proof {
        if n == 1 {
            assert(value@ =~= seq![value@[0]]);
        }
    }
    if is_one || eq_ignore_case_range(value, 0, n, &t) || eq_ignore_case_range(value, 0, n, &y) || eq_ignore_case_range(
        value,
        0,
        n,
        &on,
    ) {
        Some(true)
    } else if is_zero || eq_ignore_case_range(value, 0, n, &f) || eq_ignore_case_range(value, 0, n, &no)
        || eq_ignore_case_range(value, 0, n, &off) {
        Some(false)
    } else {
        None
    }
}


/// The value of digit `b` in base `radix` (10 or 16; letters in either
/// case), if it is one.
pub open spec fn digit_of(b: u8, radix: u32) -> Option<int> {
    let d: int = if 0x30 <= b <= 0x39 {
        b - 0x30
    } else if 0x61 <= b <= 0x7A {
        b - 0x61 + 10
    } else if 0x41 <= b <= 0x5A {
        b - 0x41 + 10
    } else {
        99
    };
    if d < radix { Some(d) } else { None }
}

/// The value of the digits `s` in base `radix`, if they all are digits.
pub open spec fn digits_value(s: Seq<u8>, radix: u32) -> Option<int>
    decreases s.len(),
{
    if s.len() == 0 {
        Some(0)
    } else {
        match (digits_value(s.drop_last(), radix), digit_of(s.last(), radix)) {
            (Some(v), Some(d)) => Some(v * radix + d),
            _ => None,
        }
    }
}

/// What `u32::from_str_radix(s, radix)` gives: an optional `+`, then at
/// least one digit, with a value that fits 32 bits.
pub open spec fn u32_from_radix(s: Seq<u8>, radix: u32) -> Option<u32> {
    let digits = if s.len() > 0 && s[0] == 0x2B { s.skip(1) } else { s };
    if digits.len() == 0 {
        None
    } else {
        match digits_value(digits, radix) {
            Some(v) => if v <= u32::MAX { Some(v as u32) } else { None },
            None => None,
        }
    }
}

/// A number in the configuration: hexadecimal after `0x` or `0X`, decimal
/// otherwise.
pub open spec fn u32_of(v: Seq<u8>) -> Option<u32> {
    if v.len() >= 2 && v[0] == 0x30 && (v[1] == 0x78 || v[1] == 0x58) {
        u32_from_radix(v.skip(2), 16)
    } else {
        u32_from_radix(v, 10)
    }
}

proof fn lemma_digits_value_grows(s: Seq<u8>, radix: u32, i: int)
    requires
        1 <= radix,
        0 <= i <= s.len(),
        digits_value(s, radix) is Some,
    ensures
        digits_value(s.take(i), radix) is Some,
        digits_value(s.take(i), radix).unwrap() >= 0,
        digits_value(s.take(i), radix).unwrap() <= digits_value(s, radix).unwrap(),
    decreases s.len(),
{
    if s.len() > 0 {
        let p = s.drop_last();
        if i == s.len() {
            assert(s.take(i) =~= s);
            lemma_digits_value_grows(p, radix, p.len() as int);
            assert(p.take(p.len() as int) =~= p);
            let v = digits_value(p, radix).unwrap();
            let d = digit_of(s.last(), radix).unwrap();
            assert(v * radix + d >= 0) by (nonlinear_arith)
                requires v >= 0, radix >= 1, d >= 0;
        } else {
            lemma_digits_value_grows(p, radix, i);
            lemma_digits_value_grows(p, radix, p.len() as int);
            assert(p.take(i) =~= s.take(i));
            assert(p.take(p.len() as int) =~= p);
            let v = digits_value(p, radix).unwrap();
            let d = digit_of(s.last(), radix).unwrap();
            assert(v * radix + d >= v) by (nonlinear_arith)
                requires v >= 0, radix >= 1, d >= 0;
        }
    }
}

fn digit_value(b: u8, radix: u32) -> (d: Option<u32>)
    requires
        radix == 10 || radix == 16,
    ensures
        match d {
            Some(x) => digit_of(b, radix) == Some(x as int),
            None => digit_of(b, radix) is None,
        },
{
    let d: u32 = if b >= 0x30 && b <= 0x39 {
        (b - 0x30) as u32
    } else if b >= 0x61 && b <= 0x7A {
        (b - 0x61 + 10) as u32
    } else if b >= 0x41 && b <= 0x5A {
        (b - 0x41 + 10) as u32
    } else {
        99
    };
    if d < radix { Some(d) } else { None }
}

/// `u32::from_str_radix` on the bytes `s[a..]`; see `u32_from_radix`.
pub fn u32_from_radix_at(s: &[u8], a: usize, radix: u32) -> (r: Option<u32>)
    requires
        a <= s@.len(),
        radix == 10 || radix == 16,
    ensures
        r == u32_from_radix(s@.skip(a as int), radix),
{
    let ghost t = s@.skip(a as int);
    let mut start: usize = a;
    if start < s.len() && s[start] == 0x2B {
        start = start + 1;
    }
    let ghost digits = s@.skip(start as int);
    assert(digits =~= (if t.len() > 0 && t[0] == 0x2B { t.skip(1) } else { t }));
    if start >= s.len() {
        return None;
    }
    let mut i: usize = start;
    while i < s.len()
        invariant
            start <= i <= s@.len(),
            digits == s@.skip(start as int),
            t == s@.skip(a as int),
            digits == (if t.len() > 0 && t[0] == 0x2B { t.skip(1) } else { t }),
            digits.len() > 0,
            digits_value(s@.subrange(start as int, i as int), radix) is Some,
            radix == 10 || radix == 16,
        decreases s@.len() - i,
    {
        match digit_value(s[i], radix) {
            Some(_) => {},
            None => {
                proof {
                    assert(digits[i - start] == s@[i as int]);
                    lemma_prefix_invalid(digits, radix, i - start);
                }
                return None;
            },
        }
        assert(s@.subrange(start as int, i + 1).drop_last() =~= s@.subrange(start as int, i as int));
        i = i + 1;
    }
    assert(s@.subrange(start as int, i as int) =~= digits);
    let mut acc: u32 = 0;
    let mut j: usize = start;
    while j < s.len()
        invariant
            start <= j <= s@.len(),
            digits == s@.skip(start as int),
            t == s@.skip(a as int),
            digits == (if t.len() > 0 && t[0] == 0x2B { t.skip(1) } else { t }),
            digits.len() > 0,
            digits_value(digits, radix) is Some,
            digits_value(s@.subrange(start as int, j as int), radix) == Some(acc as int),
            radix == 10 || radix == 16,
        decreases s@.len() - j,
    {
        let d = match digit_value(s[j], radix) {
            Some(d) => d,
            None => {
                proof {
                    assert(digits[j - start] == s@[j as int]);
                    lemma_prefix_invalid(digits, radix, j - start);
                }
                return None;
            },
        };
        let ghost sub = s@.subrange(start as int, j + 1);
        assert(sub.last() == s@[j as int]);
        assert(s@.subrange(start as int, j + 1).drop_last() =~= s@.subrange(start as int, j as int));
        proof {
            assert(s@.subrange(start as int, j + 1) =~= digits.take(j + 1 - start));
            lemma_digits_value_grows(digits, radix, j + 1 - start);
        }
        let next = match acc.checked_mul(radix) {
            Some(m) => m.checked_add(d),
            None => None,
        };
        match next {
            Some(v) => {
                acc = v;
            },
            None => {
                assert(digits_value(sub, radix) == Some(acc as int * radix + d as int));
                assert(acc as int * radix + d as int > u32::MAX);
                return None;
            },
        }
        j = j + 1;
    }
    assert(s@.subrange(start as int, j as int) =~= digits);
    Some(acc)
}

proof fn lemma_prefix_invalid(s: Seq<u8>, radix: u32, k: int)
    requires
        0 <= k < s.len(),
        digit_of(s[k], radix) is None,
    ensures
        digits_value(s, radix) is None,
    decreases s.len(),
{
    if k < s.len() - 1 {
        lemma_prefix_invalid(s.drop_last(), radix, k);
    }
}

/// Reads a number from the configuration; see `u32_of`.
pub fn parse_u32(value: &[u8]) -> (r: Option<u32>)
    ensures
        r == u32_of(value@),
{
    assert(value@.skip(0) =~= value@);
    if value.len() >= 2 && value[0] == 0x30 && (value[1] == 0x78 || value[1] == 0x58) {
        u32_from_radix_at(value, 2, 16)
    } else {
        u32_from_radix_at(value, 0, 10)
    }
}

/// The yes/no value of `key` in `section` of the configuration text, or
/// `default` when the key is missing or its value is neither.
pub fn ini_get_bool(text: &[u8], section: &[u8], key: &[u8], default: bool) -> (b: bool)
    ensures
        b == match ini_value(text@, section@, key@) {
            Some(v) => match bool_of(v) {
                Some(x) => x,
                None => default,
            },
            None => default,
        },
{
    match ini_lookup(text, section, key) {
        Some((a, b)) => {
            let v = copy_bytes(text, a, b);
            match parse_bool(v.as_slice()) {
                Some(x) => x,
                None => default,
            }
        },
        None => default,
    }
}

/// The number that `key` in `section` of the configuration text holds, or
/// `default` when the key is missing or its value is no number.
pub fn ini_get_u32(text: &[u8], section: &[u8], key: &[u8], default: u32) -> (n: u32)
    ensures
        n == match ini_value(text@, section@, key@) {
            Some(v) => match u32_of(v) {
                Some(x) => x,
                None => default,
            },
            None => default,
        },
{
    match ini_lookup(text, section, key) {
        Some((a, b)) => {
            let v = copy_bytes(text, a, b);
            match parse_u32(v.as_slice()) {
                Some(x) => x,
                None => default,
            }
        },
        None => default,
    }
}

fn copy_bytes(s: &[u8], a: usize, b: usize) -> (v: Vec<u8>)
    requires
        a <= b <= s@.len(),
    ensures
        v@ == s@.subrange(a as int, b as int),
{
    let mut v: Vec<u8> = Vec::new();
    let mut i: usize = a;
    while i < b
        invariant
            a <= i <= b <= s@.len(),
            v@ =~= s@.subrange(a as int, i as int),
        decreases b - i,
    {
        v.push(s[i]);
        i = i + 1;
    }
    v
}


proof fn lemma_trim_start_len(s: Seq<u8>)
    ensures
        trim_start(s).len() <= s.len(),
        trim_start(s).len() == s.len() ==> ws_len_at(s, 0) == 0,
    decreases s.len(),
{
    if ws_len_at(s, 0) > 0 {
        lemma_trim_start_len(s.skip(ws_len_at(s, 0)));
    }
}

proof fn lemma_trim_end_len(s: Seq<u8>)
    ensures
        trim_end(s).len() <= s.len(),
        trim_end(s).len() == s.len() ==> ws_len_end(s) == 0,
    decreases s.len(),
{
    if ws_len_end(s) > 0 {
        lemma_trim_end_len(s.take(s.len() - ws_len_end(s)));
    }
}

/// Text that trimming leaves as it is starts and ends with no whitespace.
proof fn lemma_trimmed(s: Seq<u8>)
    requires
        trim(s) == s,
    ensures
        ws_len_at(s, 0) == 0,
        ws_len_end(s) == 0,
{
    lemma_trim_start_len(s);
    lemma_trim_end_len(trim_start(s));
    if ws_len_at(s, 0) > 0 {
        assert(trim_start(s).len() < s.len()) by {
            lemma_trim_start_len(s.skip(ws_len_at(s, 0)));
        }
    }
    assert(trim_start(s) == s);
    lemma_trim_end_len(s);
}

/// A configuration file that holds `key = value` in section `section`, and
/// nothing else.
pub open spec fn ini_file(section: Seq<u8>, key: Seq<u8>, value: Seq<u8>) -> Seq<u8> {
    seq![0x5Bu8] + section + seq![0x5Du8, 0x0Au8] + key + seq![0x3Du8] + value + seq![0x0Au8]
}

proof fn lemma_header_line(section: Seq<u8>)
    ensures
        ({
            let head = seq![0x5Bu8] + section + seq![0x5Du8];
            &&& trim(head) == head
            &&& head.len() > 0 && head[0] == 0x5B && head.last() == 0x5D
            &&& head.subrange(1, head.len() - 1) == section
        }),
{
    let head = seq![0x5Bu8] + section + seq![0x5Du8];
    assert(ws_len_at(head, 0) == 0);
    assert(ws_len_end(head) == 0);
    assert(trim_start(head) == head);
    assert(trim_end(head) == head);
    assert(head.subrange(1, head.len() - 1) =~= section);
}

proof fn lemma_key_line(key: Seq<u8>, value: Seq<u8>)
    requires
        forall|i: int| 0 <= i < key.len() ==> key[i] != 0x3D,
        ws_len_at(key, 0) == 0,
        ws_len_end(value) == 0,
    ensures
        ({
            let line = key + seq![0x3Du8] + value;
            &&& trim(line) == line
            &&& find_byte(line, 0x3D, 0) == key.len()
            &&& line.take(key.len() as int) == key
            &&& line.skip(key.len() + 1int) == value
        }),
{
    let line = key + seq![0x3Du8] + value;
    let kl = key.len() as int;
    let vl = value.len() as int;
    let ll = line.len() as int;
    assert(ws_len_at(line, 0) == 0) by {
        if kl > 0 {
            assert(line[0] == key[0]);
        }
        if kl > 1 {
            assert(line[1] == key[1]);
        }
        if kl > 2 {
            assert(line[2] == key[2]);
        }
    }
    assert(ws_len_end(line) == 0) by {
        assert(line[ll - 1 - vl] == 0x3D);
        if vl > 0 {
            assert(line[ll - 1] == value[vl - 1]);
        }
        if vl > 1 {
            assert(line[ll - 2] == value[vl - 2]);
        }
        if vl > 2 {
            assert(line[ll - 3] == value[vl - 3]);
        }
    }
    assert(trim_start(line) == line);
    assert(trim_end(line) == line);
    lemma_find_byte_is(line, 0x3D, 0, kl);
    assert(line.take(kl) =~= key);
    assert(line.skip(kl + 1) =~= value);
}

proof fn lemma_file_lines(section: Seq<u8>, key: Seq<u8>, value: Seq<u8>)
    requires
        forall|i: int| 0 <= i < section.len() ==> section[i] != 0x0A,
        forall|i: int| 0 <= i < key.len() ==> key[i] != 0x0A,
        forall|i: int| 0 <= i < value.len() ==> value[i] != 0x0A,
    ensures
        ({
            let text = ini_file(section, key, value);
            let e1 = section.len() + 2int;
            let e2 = e1 + 1 + key.len() + 1 + value.len();
            &&& find_byte(text, 0x0A, 0) == e1
            &&& text.subrange(0, e1) == seq![0x5Bu8] + section + seq![0x5Du8]
            &&& find_byte(text, 0x0A, e1 + 1) == e2
            &&& text.subrange(e1 + 1, e2) == key + seq![0x3Du8] + value
            &&& text.len() == e2 + 1
        }),
{
    let text = ini_file(section, key, value);
    let sl = section.len() as int;
    let kl = key.len() as int;
    let vl = value.len() as int;
    let e1 = sl + 2;
    let p2 = e1 + 1;
    let e2 = p2 + kl + 1 + vl;
    assert forall|k: int| 0 <= k < e1 implies text[k] != 0x0A by {
        if 1 <= k <= sl {
            assert(text[k] == section[k - 1]);
        }
    }
    lemma_find_byte_is(text, 0x0A, 0, e1);
    assert forall|k: int| p2 <= k < e2 implies text[k] != 0x0A by {
        if p2 <= k < p2 + kl {
            assert(text[k] == key[k - p2]);
        } else if p2 + kl < k {
            assert(text[k] == value[k - p2 - kl - 1]);
        }
    }
    lemma_find_byte_is(text, 0x0A, p2, e2);
    assert(text.subrange(0, e1) =~= seq![0x5Bu8] + section + seq![0x5Du8]);
    assert(text.subrange(p2, e2) =~= key + seq![0x3Du8] + value);
}

/// What is written is read back: a file that sets `key` to `value` in
/// section `section` yields `value` when that key of that section is asked
/// for, in any ASCII case. The conditions are those under which the line
/// says what it means: no line breaks, no whitespace at the ends of the
/// names and the value (it would be trimmed), no `=` in the key, and no key
/// that makes the line a comment (`;`, `#`) or a section header (`[` with a
/// value ending in `]`).
pub proof fn written_value_read_back(
    section: Seq<u8>,
    key: Seq<u8>,
    value: Seq<u8>,
    asked_section: Seq<u8>,
    asked_key: Seq<u8>,
)
    requires
        forall|i: int| 0 <= i < section.len() ==> section[i] != 0x0A,
        forall|i: int| 0 <= i < key.len() ==> key[i] != 0x0A && key[i] != 0x3D,
        forall|i: int| 0 <= i < value.len() ==> value[i] != 0x0A,
        trim(section) == section,
        trim(key) == key,
        trim(value) == value,
        key.len() > 0 ==> key[0] != 0x3B && key[0] != 0x23 && !(key[0] == 0x5B && value.len() > 0 && value.last()
            == 0x5D),
        eq_ignore_case(section, asked_section),
        eq_ignore_case(key, asked_key),
    ensures
        ini_value(ini_file(section, key, value), asked_section, asked_key) == Some(value),
{
    let text = ini_file(section, key, value);
    let e1 = section.len() + 2int;
    let e2 = e1 + 1 + key.len() + 1 + value.len();
    lemma_file_lines(section, key, value);
    lemma_header_line(section);
    lemma_trimmed(key);
    lemma_trimmed(value);
    lemma_key_line(key, value);
    let line = key + seq![0x3Du8] + value;
    assert(line[0] == if key.len() > 0 { key[0] } else { 0x3Du8 });
    assert(line.last() == if value.len() > 0 { value.last() } else { 0x3Du8 });
    assert(ini_find(text, e2 + 1, section, asked_section, asked_key) == None::<Seq<u8>>);
    assert(ini_find(text, e1 + 1, section, asked_section, asked_key) == Some(value));
    assert(ini_find(text, 0, Seq::empty(), asked_section, asked_key) == Some(value));
}

} // verus!
