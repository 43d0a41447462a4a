//! Picking a device's serial port out of the device registry's properties:
//! the hardware ids and friendly name come as UTF-16LE text.
use vstd::prelude::*;
use crate::text::{ascii_chars, utf8_lossy};
use vstd::string::StrSliceExecFns;

verus! {

/// The UTF-16 code units of little-endian bytes (a trailing odd byte is
/// dropped).
pub open spec fn wide_units(raw: Seq<u8>) -> Seq<u16> {
    Seq::new(raw.len() / 2, |i: int| (raw[2 * i] + 256 * raw[2 * i + 1]) as u16)
}

/// Whether `m` occurs in `s` starting at `i`.
pub open spec fn occurs_at(s: Seq<u16>, m: Seq<u16>, i: int) -> bool {
    0 <= i && i + m.len() <= s.len() && s.subrange(i, i + m.len()) == m
}

/// Whether `m` occurs in `s`.
pub open spec fn contains_units(s: Seq<u16>, m: Seq<u16>) -> bool {
    exists|i: int| occurs_at(s, m, i)
}

/// The upper-case hexadecimal digit of `n` (below 16), as a code unit.
pub open spec fn hex_digit(n: int) -> u16 {
    if n < 10 { (0x30 + n) as u16 } else { (0x41 + n - 10) as u16 }
}

/// `prefix` followed by the four upper-case hexadecimal digits of `v`, as
/// `format!("{prefix}{v:04X}")` writes it.
pub open spec fn hex_marker(prefix: Seq<u16>, v: u16) -> Seq<u16> {
    prefix + seq![hex_digit(v as int / 4096), hex_digit((v as int / 256) % 16), hex_digit((v as int / 16) % 16), hex_digit(v as int % 16)]
}

/// `VID_`, as code units.
pub open spec fn vid_prefix() -> Seq<u16> {
    seq![0x56u16, 0x49, 0x44, 0x5F]
}

/// `PID_`, as code units.
pub open spec fn pid_prefix() -> Seq<u16> {
    seq![0x50u16, 0x49, 0x44, 0x5F]
}

/// The first NUL at or after `i`, or the end of `w`.
pub open spec fn first_nul(w: Seq<u16>, i: int) -> int
    decreases w.len() - i,
{
    if i >= w.len() || i < 0 {
        w.len() as int
    } else if w[i] == 0 {
        i
    } else {
        first_nul(w, i + 1)
    }
}

/// Whether one of the NUL-separated ids from `start` on, up to the first
/// empty one, holds both markers.
pub open spec fn ids_match_from(w: Seq<u16>, start: int, vm: Seq<u16>, pm: Seq<u16>) -> bool
    decreases w.len() - start,
{
    if start < 0 || start >= w.len() {
        false
    } else {
        let end = first_nul(w, start);
        if end <= start {
            false
        } else if contains_units(w.subrange(start, end), vm) && contains_units(w.subrange(start, end), pm) {
            true
        } else if end < w.len() {
            ids_match_from(w, end + 1, vm, pm)
        } else {
            false
        }
    }
}

/// Whether a hardware-id list (NUL-separated ids, ended by an empty one)
/// holds an id that names both `VID_` + the vendor id and `PID_` + the
/// product id in upper-case hexadecimal.
pub open spec fn hwid_matches(raw: Seq<u8>, vid: u16, pid: u16) -> bool {
    ids_match_from(wide_units(raw), 0, hex_marker(vid_prefix(), vid), hex_marker(pid_prefix(), pid))
}

proof fn lemma_first_nul_bounds(w: Seq<u16>, i: int)
    requires
        0 <= i <= w.len(),
    ensures
        i <= first_nul(w, i) <= w.len(),
        forall|k: int| i <= k < first_nul(w, i) ==> w[k] != 0,
        first_nul(w, i) < w.len() ==> w[first_nul(w, i)] == 0,
    decreases w.len() - i,
{
    if i < w.len() && w[i] != 0 {
        lemma_first_nul_bounds(w, i + 1);
    }
}

fn to_wide(raw: &[u8]) -> (w: Vec<u16>)
    ensures
        w@ == wide_units(raw@),
{
    let n = raw.len() / 2;
    let mut w: Vec<u16> = Vec::new();
    let mut i: usize = 0;
    while i < n
        invariant
            i <= n,
            n == raw.len() / 2,
            w@.len() == i,
            forall|k: int| 0 <= k < i ==> w@[k] == wide_units(raw@)[k],
        decreases n - i,
    {
        let lo = raw[2 * i] as u16;
        let hi = raw[2 * i + 1] as u16;
        w.push(lo + hi * 256);
        i = i + 1;
    }
    assert(w@ =~= wide_units(raw@));
    w
}

fn hex_unit(n: u16) -> (u: u16)
    requires
        n < 16,
    ensures
        u == hex_digit(n as int),
{
    if n < 10 { 0x30 + n } else { 0x41 + n - 10 }
}

fn marker(prefix: u16, v: u16) -> (m: Vec<u16>)
    requires
        prefix == 0x56 || prefix == 0x50,
    ensures
        m@ == hex_marker(seq![prefix, 0x49u16, 0x44, 0x5F], v),
{
    let mut m: Vec<u16> = Vec::new();
    m.push(prefix);
    m.push(0x49);
    m.push(0x44);
    m.push(0x5F);
    m.push(hex_unit(v / 4096));
    m.push(hex_unit((v / 256) % 16));
    m.push(hex_unit((v / 16) % 16));
    m.push(hex_unit(v % 16));
    assert(m@ =~= hex_marker(seq![prefix, 0x49u16, 0x44, 0x5F], v));
    m
}

fn contains_at(s: &Vec<u16>, start: usize, end: usize, m: &Vec<u16>) -> (found: bool)
    requires
        start <= end <= s@.len(),
    ensures
        found == contains_units(s@.subrange(start as int, end as int), m@),
{
    let ghost part = s@.subrange(start as int, end as int);
    if m.len() > end - start {
        assert forall|i: int| !occurs_at(part, m@, i) by {}
        return false;
    }
    let last = end - start - m.len();
    let mut i: usize = 0;
    while i <= last
        invariant
            start <= end <= s@.len(),
            m@.len() <= end - start,
            last == end - start - m@.len(),
            part == s@.subrange(start as int, end as int),
            forall|k: int| 0 <= k < i ==> !occurs_at(part, m@, k),
        decreases last + 1 - i,
    {
        let mut j: usize = 0;
        let mut same = true;
        while j < m.len()
            invariant
                i <= last,
                last == end - start - m@.len(),
                start <= end <= s@.len(),
                j <= m@.len(),
                part == s@.subrange(start as int, end as int),
                same == (forall|t: int| 0 <= t < j ==> part[i + t] == m@[t]),
            decreases m@.len() - j,
        {
            if s[start + i + j] != m[j] {
                same = false;
            }
            j = j + 1;
        }
        if same {
            assert(part.subrange(i as int, i + m@.len()) =~= m@);
            assert(occurs_at(part, m@, i as int));
            return true;
        }
        assert(!occurs_at(part, m@, i as int)) by {
            if occurs_at(part, m@, i as int) {
                assert forall|t: int| 0 <= t < m@.len() implies part[i + t] == m@[t] by {
                    assert(part.subrange(i as int, i + m@.len())[t] == part[i + t]);
                }
            }
        }
        i = i + 1;
    }
    assert forall|k: int| !occurs_at(part, m@, k) by {
        if 0 <= k && k + m@.len() <= part.len() {
            assert(k <= last);
        }
    }
    false
}

/// Whether a device's hardware-id property names vendor `vid` and product
/// `pid`; see `hwid_matches`.
pub fn match_hwid(raw: &[u8], vid: u16, pid: u16) -> (m: bool)
    ensures
        m == hwid_matches(raw@, vid, pid),
{
    let wide = to_wide(raw);
    let vid_marker = marker(0x56, vid);
    let pid_marker = marker(0x50, pid);
    let ghost w = wide@;
    let ghost vm = hex_marker(vid_prefix(), vid);
    let ghost pm = hex_marker(pid_prefix(), pid);
    assert(vid_marker@ == vm);
    assert(pid_marker@ == pm);
    assert(hwid_matches(raw@, vid, pid) == ids_match_from(w, 0, vm, pm));
    let mut start: usize = 0;
    while start < wide.len()
        invariant
            w == wide@,
            w == wide_units(raw@),
            vid_marker@ == vm,
            pid_marker@ == pm,
            start <= w.len() + 1,
            ids_match_from(w, start as int, vm, pm) == ids_match_from(w, 0, vm, pm),
            hwid_matches(raw@, vid, pid) == ids_match_from(w, 0, vm, pm),
        decreases w.len() + 1 - start,
    {
        let mut end: usize = start;
        while end < wide.len() && wide[end] != 0
            invariant
                start <= end <= w.len(),
                w == wide@,
                forall|k: int| start <= k < end ==> w[k] != 0,
            decreases w.len() - end,
        {
            end = end + 1;
        }
        proof {
            lemma_first_nul_bounds(w, start as int);
            lemma_first_nul_is(w, start as int, end as int);
        }
        assert(first_nul(w, start as int) == end);
        if end == start {
            assert(!ids_match_from(w, start as int, vm, pm));
            return false;
        }
        let has_vid = contains_at(&wide, start, end, &vid_marker);
        let has_pid = contains_at(&wide, start, end, &pid_marker);
        if has_vid && has_pid {
            assert(ids_match_from(w, start as int, vm, pm));
            return true;
        }
        if end >= wide.len() {
            assert(!ids_match_from(w, start as int, vm, pm));
            return false;
        }
        assert(ids_match_from(w, start as int, vm, pm) == ids_match_from(w, end + 1, vm, pm));
        start = end + 1;
    }
    false
}

proof fn lemma_first_nul_is(w: Seq<u16>, i: int, e: int)
    requires
        0 <= i <= e <= w.len(),
        forall|k: int| i <= k < e ==> w[k] != 0,
        e == w.len() || w[e] == 0,
    ensures
        first_nul(w, i) == e,
    decreases e - i,
{
    if i < e {
        lemma_first_nul_is(w, i + 1, e);
    }
}

/// Whether a code unit is an ASCII letter or digit.
pub open spec fn is_alnum_unit(u: u16) -> bool {
    (0x30 <= u <= 0x39) || (0x41 <= u <= 0x5A) || (0x61 <= u <= 0x7A)
}

/// `COM`, as code units.
pub open spec fn com_units() -> Seq<u16> {
    seq![0x43u16, 0x4F, 0x4D]
}

/// The friendly name's text: its code units up to the first NUL.
pub open spec fn friendly_units(raw: Seq<u8>) -> Seq<u16> {
    wide_units(raw).take(first_nul(wide_units(raw), 0))
}

/// The length of the run of ASCII letters and digits at `i`.
pub open spec fn alnum_run(s: Seq<u16>, i: int) -> int
    decreases s.len() - i,
{
    if i < 0 || i >= s.len() || !is_alnum_unit(s[i]) {
        0
    } else {
        1 + alnum_run(s, i + 1)
    }
}

/// The device path of the port that a friendly name such as
/// `USB Serial Device (COM7)` names: `\\.\` followed by the letters and
/// digits that start at the first `COM`; `None` when the name holds no
/// `COM`.
pub open spec fn com_path_of(raw: Seq<u8>) -> Option<Seq<char>> {
    let s = friendly_units(raw);
    if !contains_units(s, com_units()) {
        None
    } else {
        let i = choose|i: int| occurs_at(s, com_units(), i) && forall|k: int| 0 <= k < i ==> !occurs_at(s, com_units(), k);
        let run = s.subrange(i, i + alnum_run(s, i));
        Some(seq!['\\', '\\', '.', '\\'] + Seq::new(run.len(), |k: int| run[k] as char))
    }
}

proof fn lemma_alnum_run(s: Seq<u16>, i: int, j: int)
    requires
        0 <= i <= j <= s.len(),
        forall|k: int| i <= k < j ==> is_alnum_unit(s[k]),
        j == s.len() || !is_alnum_unit(s[j]),
    ensures
        alnum_run(s, i) == j - i,
    decreases j - i,
{
    if i < j {
        lemma_alnum_run(s, i + 1, j);
    }
}

fn find_com(wide: &Vec<u16>, n: usize, Ghost(s): Ghost<Seq<u16>>) -> (r: Option<usize>)
    requires
        n <= wide@.len(),
        s == wide@.take(n as int),
    ensures
        match r {
            Some(i) => occurs_at(s, com_units(), i as int) && forall|k: int| 0 <= k < i ==> !occurs_at(s, com_units(), k),
            None => !contains_units(s, com_units()),
        },
{
    let mut i: usize = 0;
    while i < n && n - i >= 3
        invariant
            i <= n,
            n <= wide@.len(),
            s == wide@.take(n as int),
            forall|k: int| 0 <= k < i ==> !occurs_at(s, com_units(), k),
        decreases n - i,
    {
        if wide[i] == 0x43 && wide[i + 1] == 0x4F && wide[i + 2] == 0x4D {
            assert(s.subrange(i as int, i + 3) =~= com_units());
            return Some(i);
        }
        assert(!occurs_at(s, com_units(), i as int)) by {
            if occurs_at(s, com_units(), i as int) {
                assert(s.subrange(i as int, i + 3)[0] == s[i as int]);
                assert(s.subrange(i as int, i + 3)[1] == s[i + 1]);
                assert(s.subrange(i as int, i + 3)[2] == s[i + 2]);
            }
        }
        i = i + 1;
    }
    assert forall|k: int| !occurs_at(s, com_units(), k) by {
        if 0 <= k && k + 3 <= s.len() {
            assert(k < i);
        }
    }
    None
}

/// The device path of the port in a friendly-name property; see
/// `com_path_of`.
pub fn parse_com_name(raw: &[u8]) -> (path: Option<String>)
    ensures
        match path {
            Some(p) => com_path_of(raw@) == Some(p@),
            None => com_path_of(raw@) is None,
        },
{
    let wide = to_wide(raw);
    let mut n: usize = 0;
    while n < wide.len() && wide[n] != 0
        invariant
            n <= wide@.len(),
            forall|k: int| 0 <= k < n ==> wide@[k] != 0,
        decreases wide@.len() - n,
    {
        n = n + 1;
    }
    proof {
        lemma_first_nul_is(wide@, 0, n as int);
    }
    let ghost s = friendly_units(raw@);
    assert(s =~= wide@.take(n as int));
    let mut com: Vec<u16> = Vec::new();
    com.push(0x43);
    com.push(0x4F);
    com.push(0x4D);
    assert(com@ =~= com_units());
    let i = match find_com(&wide, n, Ghost(s)) {
        Some(i) => i,
        None => {
            return None;
        },
    };
    assert(occurs_at(s, com_units(), i as int));
    let ghost first = choose|k: int| occurs_at(s, com_units(), k) && forall|t: int| 0 <= t < k ==> !occurs_at(s, com_units(), t);
    assert(first == i) by {
        assert(occurs_at(s, com_units(), first));
        if first < i {
        } else if first > i {
        }
    }
    let mut e: usize = i;
    while e < n && (
        (wide[e] >= 0x30 && wide[e] <= 0x39) || (wide[e] >= 0x41 && wide[e] <= 0x5A) || (wide[e] >= 0x61 && wide[e] <= 0x7A)
    )
        invariant
            i <= e <= n,
            n <= wide@.len(),
            s == wide@.take(n as int),
            forall|k: int| i <= k < e ==> is_alnum_unit(s[k]),
        decreases n - e,
    {
        e = e + 1;
    }
    proof {
        lemma_alnum_run(s, i as int, e as int);
    }
    let mut bytes: Vec<u8> = Vec::new();
    bytes.push(0x5C);
    bytes.push(0x5C);
    bytes.push(0x2E);
    bytes.push(0x5C);
    let mut k: usize = i;
    while k < e
        invariant
            i <= k <= e <= n,
            n <= wide@.len(),
            s == wide@.take(n as int),
            forall|t: int| i <= t < e ==> is_alnum_unit(s[t]),
            bytes@.len() == 4 + (k - i),
            bytes@[0] == 0x5C && bytes@[1] == 0x5C && bytes@[2] == 0x2E && bytes@[3] == 0x5C,
            forall|t: int| 4 <= t < bytes@.len() ==> bytes@[t] as int == s[i + t - 4] as int,
        decreases e - k,
    {
        let u = wide[k];
        assert(is_alnum_unit(s[k as int]));
        bytes.push(u as u8);
        k = k + 1;
    }
    assert forall|t: int| 0 <= t < bytes@.len() implies bytes@[t] < 0x80 by {
        if t >= 4 {
            assert(is_alnum_unit(s[i + t - 4]));
        }
    }
    let text = utf8_lossy(bytes.as_slice());
    proof {
        let run = s.subrange(i as int, i + alnum_run(s, i as int));
        let expect = seq!['\\', '\\', '.', '\\'] + Seq::new(run.len(), |t: int| run[t] as char);
        assert(text@ == ascii_chars(bytes@));
        assert forall|t: int| 0 <= t < expect.len() implies text@[t] == expect[t] by {
            if t >= 4 {
                assert(run[t - 4] == s[i + t - 4]);
            }
        }
        assert(text@ =~= expect);
    }
    Some(text)
}


/// The device prefix `\\.\` of a port path.
pub open spec fn device_prefix() -> Seq<char> {
    seq!['\\', '\\', '.', '\\']
}

/// `path` without the device prefixes at its start, for display.
pub open spec fn strip_device_prefix(path: Seq<char>) -> Seq<char>
    decreases path.len(),
{
    if path.len() >= 4 && path.take(4) == device_prefix() {
        strip_device_prefix(path.skip(4))
    } else {
        path
    }
}

fn prefix_at(path: &str, i: usize, n: usize) -> (b: bool)
    requires
        n == path@.len(),
        i <= n,
        n - i >= 4,
    ensures
        b == (path@.skip(i as int).take(4) == device_prefix()),
{
    let b = path.get_char(i) == '\\' && path.get_char(i + 1) == '\\' && path.get_char(i + 2) == '.'
        && path.get_char(i + 3) == '\\';
    proof {
        let t = path@.skip(i as int).take(4);
        if b {
            assert(t =~= device_prefix());
        } else {
            if t == device_prefix() {
                assert(t[0] == path@[i as int] && t[1] == path@[i + 1] && t[2] == path@[i + 2] && t[3] == path@[i + 3]);
            }
        }
    }
    b
}

/// A port path without its device prefix (every leading `\\.\`), for
/// display; see `strip_device_prefix`.
pub fn display_path(path: &str) -> (shown: &str)
    ensures
        shown@ == strip_device_prefix(path@),
{
    let n = path.unicode_len();
    let mut i: usize = 0;
    assert(path@.skip(0) =~= path@);
    while n - i >= 4 && prefix_at(path, i, n)
        invariant
            i <= n,
            n == path@.len(),
            strip_device_prefix(path@.skip(i as int)) == strip_device_prefix(path@),
        decreases n - i,
    {
        assert(path@.skip(i as int).skip(4) =~= path@.skip(i + 4));
        i = i + 4;
    }
    assert(path@.subrange(i as int, n as int) =~= path@.skip(i as int));
    path.substring_char(i, n)
}

} // verus!
