//! The textual grammar of network addresses, and its verified parser.
//!
//! Accepted forms: dotted-quad IPv4 (four decimal octets, 0 to 255, no
//! leading zeros) and IPv6 as colon-separated groups of one to four hex
//! digits, with at most one `::` standing for the elided zero groups and
//! optionally a dotted quad as the very last piece (the embedded-IPv4 tail,
//! counting as two groups). Zone suffixes are not part of this grammar.

use vstd::prelude::*;
use vstd::string::StrSliceExecFns;

use crate::records::IpAddr;
use crate::values::{all_digits, digits_val};

verus! {

/// Hexadecimal digit test on a character's code point.
pub open spec fn is_hex(c: char) -> bool {
    let v = c as u32;
    (48 <= v <= 57) || (97 <= v <= 102) || (65 <= v <= 70)
}

/// Numeric value of a hexadecimal digit.
pub open spec fn hex_val(c: char) -> int {
    let v = c as u32;
    if 48 <= v <= 57 {
        v - 48
    } else if 97 <= v <= 102 {
        v - 87
    } else {
        v - 55
    }
}

pub open spec fn all_hex(s: Seq<char>) -> bool {
    forall|i: int| 0 <= i < s.len() ==> is_hex(#[trigger] s[i])
}

/// Value of a hex-digit string, most significant first.
pub open spec fn hex_group_val(s: Seq<char>) -> int
    decreases s.len(),
{
    if s.len() == 0 {
        0
    } else {
        hex_group_val(s.drop_last()) * 16 + hex_val(s.last())
    }
}

/// One IPv6 group: one to four hex digits.
pub open spec fn is_group(s: Seq<char>) -> bool {
    1 <= s.len() <= 4 && all_hex(s)
}

/// One IPv4 octet: one to three decimal digits, value at most 255, and no
/// leading zero.
pub open spec fn is_octet(s: Seq<char>) -> bool {
    &&& 1 <= s.len() <= 3
    &&& all_digits(s)
    &&& digits_val(s) <= 255
    &&& (s.len() > 1 ==> s[0] != '0')
}

/// First occurrence of `c` in `s` at or after `from`.
pub open spec fn find_char(s: Seq<char>, c: char, from: int) -> Option<int>
    decreases s.len() - from,
{
    if from < 0 || from >= s.len() {
        None
    } else if s[from] == c {
        Some(from)
    } else {
        find_char(s, c, from + 1)
    }
}

/// The pieces of `s[from..]` between colons, in order; a colon at either
/// edge or two in a row contribute empty pieces.
pub open spec fn split_colon(s: Seq<char>, from: int) -> Seq<Seq<char>>
    decreases s.len() - from,
{
    match find_char(s, ':', from) {
        Some(i) => if from <= i < s.len() {
            seq![s.subrange(from, i)] + split_colon(s, i + 1)
        } else {
            seq![]
        },
        None => if 0 <= from <= s.len() {
            seq![s.subrange(from, s.len() as int)]
        } else {
            seq![]
        },
    }
}

/// First empty piece at or after `from`.
pub open spec fn find_empty(ps: Seq<Seq<char>>, from: int) -> Option<int>
    decreases ps.len() - from,
{
    if from < 0 || from >= ps.len() {
        None
    } else if ps[from].len() == 0 {
        Some(from)
    } else {
        find_empty(ps, from + 1)
    }
}

/// The dotted-quad grammar: exactly three dots, each piece an octet.
pub open spec fn ipv4_of(s: Seq<char>) -> Option<IpAddr> {
    match find_char(s, '.', 0) {
        Some(d1) => match find_char(s, '.', d1 + 1) {
            Some(d2) => match find_char(s, '.', d2 + 1) {
                Some(d3) => if find_char(s, '.', d3 + 1) is None {
                    let pa = s.subrange(0, d1);
                    let pb = s.subrange(d1 + 1, d2);
                    let pc = s.subrange(d2 + 1, d3);
                    let pd = s.subrange(d3 + 1, s.len() as int);
                    if is_octet(pa) && is_octet(pb) && is_octet(pc) && is_octet(pd) {
                        Some(
                            IpAddr::V4 {
                                a: digits_val(pa) as u8,
                                b: digits_val(pb) as u8,
                                c: digits_val(pc) as u8,
                                d: digits_val(pd) as u8,
                            },
                        )
                    } else {
                        None
                    }
                } else {
                    None
                },
                None => None,
            },
            None => None,
        },
        None => None,
    }
}

/// The two 16-bit group values an embedded dotted-quad tail stands for.
pub open spec fn v4_groups(p: Seq<char>) -> Option<(int, int)> {
    match ipv4_of(p) {
        Some(ip) => match ip {
            IpAddr::V4 { a, b, c, d } => Some(((a as int) * 256 + b, (c as int) * 256 + d)),
            _ => None,
        },
        None => None,
    }
}

/// The 16-bit group values of the pieces `ps[lo..hi]`: every piece must be
/// a hex group, except that the last may be a dotted quad (standing for two
/// groups) where `allow_v4` holds — the embedded-IPv4 tail form.
pub open spec fn run_vals(ps: Seq<Seq<char>>, lo: int, hi: int, allow_v4: bool) -> Option<
    Seq<int>,
>
    decreases hi - lo,
{
    if lo >= hi {
        Some(Seq::empty())
    } else if is_group(ps[lo]) {
        match run_vals(ps, lo + 1, hi, allow_v4) {
            Some(rest) => Some(seq![hex_group_val(ps[lo])] + rest),
            None => None,
        }
    } else if allow_v4 && lo == hi - 1 {
        match v4_groups(ps[lo]) {
            Some((g6, g7)) => Some(seq![g6, g7]),
            None => None,
        }
    } else {
        None
    }
}

/// The full eight groups: explicit head values, elided zeros, explicit tail
/// values.
pub open spec fn gval(head: Seq<int>, tail: Seq<int>, i: int) -> int {
    if i < head.len() {
        head[i]
    } else if i >= 8 - tail.len() {
        tail[i - (8 - tail.len())]
    } else {
        0
    }
}

pub open spec fn assemble_vals(head: Seq<int>, tail: Seq<int>) -> IpAddr {
    IpAddr::V6 {
        g0: gval(head, tail, 0) as u16,
        g1: gval(head, tail, 1) as u16,
        g2: gval(head, tail, 2) as u16,
        g3: gval(head, tail, 3) as u16,
        g4: gval(head, tail, 4) as u16,
        g5: gval(head, tail, 5) as u16,
        g6: gval(head, tail, 6) as u16,
        g7: gval(head, tail, 7) as u16,
    }
}

/// The colon-group grammar: eight explicit groups, or one elision `::` at
/// the start, the end, in the middle, or standing alone; the very last
/// piece may be an embedded dotted quad, counting as two groups.
pub open spec fn ipv6_of(s: Seq<char>) -> Option<IpAddr> {
    let ps = split_colon(s, 0);
    let n = ps.len() as int;
    match find_empty(ps, 0) {
        None => match run_vals(ps, 0, n, true) {
            Some(g) => if g.len() == 8 {
                Some(assemble_vals(g, Seq::empty()))
            } else {
                None
            },
            None => None,
        },
        Some(k) => if k == 0 {
            if n == 3 && ps[1].len() == 0 && ps[2].len() == 0 {
                // "::" alone
                Some(assemble_vals(Seq::empty(), Seq::empty()))
            } else if n >= 3 && ps[1].len() == 0 {
                // leading "::"
                match run_vals(ps, 2, n, true) {
                    Some(g) => if g.len() <= 7 {
                        Some(assemble_vals(Seq::empty(), g))
                    } else {
                        None
                    },
                    None => None,
                }
            } else {
                None
            }
        } else if n >= 3 && k == n - 2 && ps[n - 1].len() == 0 {
            // trailing "::" (no dotted quad may precede it: it would not be
            // the address's last piece)
            match run_vals(ps, 0, n - 2, false) {
                Some(g) => if g.len() <= 7 {
                    Some(assemble_vals(g, Seq::empty()))
                } else {
                    None
                },
                None => None,
            }
        } else if 1 <= k < n - 1 {
            // "::" in the middle
            match (run_vals(ps, 0, k, false), run_vals(ps, k + 1, n, true)) {
                (Some(h), Some(t)) => if h.len() + t.len() <= 7 {
                    Some(assemble_vals(h, t))
                } else {
                    None
                },
                _ => None,
            }
        } else {
            None
        },
    }
}

/// The address grammar: the dotted-quad form, or the colon-group form.
pub open spec fn ip_of(s: Seq<char>) -> Option<IpAddr> {
    match ipv4_of(s) {
        Some(v) => Some(v),
        None => ipv6_of(s),
    }
}

/// Small power tables for the loop bounds of the digit folds.
pub open spec fn pten(k: int) -> int {
    if k <= 0 {
        1
    } else if k == 1 {
        10
    } else if k == 2 {
        100
    } else {
        1000
    }
}

pub open spec fn phex(k: int) -> int {
    if k <= 0 {
        1
    } else if k == 1 {
        16
    } else if k == 2 {
        256
    } else if k == 3 {
        4096
    } else {
        65536
    }
}

/// First occurrence of `c` at or after `from`, executable.
fn find_from(s: &str, c: char, from: usize) -> (r: Option<usize>)
    ensures
        match r {
            Some(k) => find_char(s@, c, from as int) == Some(k as int) && from <= k < s@.len(),
            None => find_char(s@, c, from as int) is None,
        },
{
    let n = s.unicode_len();
    let mut j = from;
    loop
        invariant
            from <= j,
            n == s@.len(),
            find_char(s@, c, from as int) == find_char(s@, c, j as int),
        ensures
            find_char(s@, c, from as int) == find_char(s@, c, j as int),
            j >= n || s@[j as int] == c,
            j >= from,
        decreases n - j,
    {
        if j >= n {
            break;
        }
        if s.get_char(j) == c {
            break;
        }
        j = j + 1;
    }
    if j < n {
        Some(j)
    } else {
        None
    }
}

/// Ghost form of an index-pair list: the pieces it denotes.
pub open spec fn parts_view(s: Seq<char>, v: Seq<(usize, usize)>) -> Seq<Seq<char>> {
    Seq::new(v.len(), |i: int| s.subrange(v[i].0 as int, v[i].1 as int))
}

pub open spec fn parts_wf(s: Seq<char>, v: Seq<(usize, usize)>) -> bool {
    forall|i: int| 0 <= i < v.len() ==> {
        &&& (#[trigger] v[i]).0 <= v[i].1
        &&& v[i].1 <= s.len()
    }
}

/// Splits `s` at every colon, as index pairs.
fn split_parts(s: &str) -> (parts: Vec<(usize, usize)>)
    ensures
        parts_wf(s@, parts@),
        parts_view(s@, parts@) == split_colon(s@, 0),
        parts@.len() >= 1,
{
    let n = s.unicode_len();
    let mut parts: Vec<(usize, usize)> = Vec::new();
    let mut from: usize = 0;
    loop
        invariant_except_break
            split_colon(s@, 0) =~~= parts_view(s@, parts@) + split_colon(s@, from as int),
        invariant
            from <= n,
            n == s@.len(),
            parts_wf(s@, parts@),
        ensures
            parts_wf(s@, parts@),
            parts_view(s@, parts@) =~~= split_colon(s@, 0),
            parts@.len() >= 1,
        decreases n - from,
    {
        match find_from(s, ':', from) {
            Some(i) => {
                parts.push((from, i));
                proof {
                    assert(parts_view(s@, parts@) =~~= parts_view(s@, parts@.drop_last()) + seq![
                        s@.subrange(from as int, i as int),
                    ]);
                }
                from = i + 1;
            },
            None => {
                parts.push((from, n));
                proof {
                    assert(parts_view(s@, parts@) =~~= parts_view(s@, parts@.drop_last()) + seq![
                        s@.subrange(from as int, n as int),
                    ]);
                }
                break;
            },
        }
    }
    parts
}

/// Hex-group value of `s[a..b]`, when it is a well-formed group.
fn group_val(s: &str, a: usize, b: usize) -> (r: Option<u16>)
    requires
        a <= b <= s@.len(),
    ensures
        ({
            let part = s@.subrange(a as int, b as int);
            match r {
                Some(v) => is_group(part) && hex_group_val(part) == v as int,
                None => !is_group(part),
            }
        }),
{
    let ghost part = s@.subrange(a as int, b as int);
    if b - a < 1 || b - a > 4 {
        return None;
    }
    let mut acc: u32 = 0;
    let mut j = a;
    loop
        invariant
            a <= j <= b,
            b <= s@.len(),
            b - a <= 4,
            part == s@.subrange(a as int, b as int),
            all_hex(part.take(j - a)),
            acc as int == hex_group_val(part.take(j - a)),
            (acc as int) < phex(j - a),
            acc < 0x1_0000,
        ensures
            j == b,
            all_hex(part.take(j - a)),
            acc as int == hex_group_val(part.take(j - a)),
            acc < 0x1_0000,
        decreases b - j,
    {
        if j >= b {
            break;
        }
        let c = s.get_char(j);
        let v = c as u32;
        let d: u32 = if 48 <= v && v <= 57 {
            v - 48
        } else if 97 <= v && v <= 102 {
            v - 87
        } else if 65 <= v && v <= 70 {
            v - 55
        } else {
            proof {
                assert(part[j - a] == s@[j as int]);
            }
            return None;
        };
        proof {
            let t = part.take(j - a + 1);
            assert(t.last() == s@[j as int]);
            assert(t.drop_last() =~= part.take(j - a));
            assert(acc as int * 16 + 15 < phex(j - a + 1)) by (nonlinear_arith)
                requires
                    (acc as int) < phex(j - a),
                    0 <= j - a < 4,
                    phex(j - a + 1) == 16 * phex(j - a),
            ;
        }
        acc = acc * 16 + d;
        j = j + 1;
    }
    proof {
        assert(part.take(j - a) =~= part);
    }
    Some(acc as u16)
}

/// Octet value of `s[a..b]`, when it is a well-formed octet.
fn octet_val(s: &str, a: usize, b: usize) -> (r: Option<u8>)
    requires
        a <= b <= s@.len(),
    ensures
        ({
            let part = s@.subrange(a as int, b as int);
            match r {
                Some(v) => is_octet(part) && digits_val(part) == v as int,
                None => !is_octet(part),
            }
        }),
{
    let ghost part = s@.subrange(a as int, b as int);
    if b - a < 1 || b - a > 3 {
        return None;
    }
    if b - a > 1 && s.get_char(a) == '0' {
        proof {
            assert(part[0] == s@[a as int]);
        }
        return None;
    }
    let mut acc: u32 = 0;
    let mut j = a;
    loop
        invariant
            a <= j <= b,
            b <= s@.len(),
            b - a <= 3,
            part == s@.subrange(a as int, b as int),
            all_digits(part.take(j - a)),
            acc as int == digits_val(part.take(j - a)),
            (acc as int) < pten(j - a),
            acc < 1000,
        ensures
            j == b,
            all_digits(part.take(j - a)),
            acc as int == digits_val(part.take(j - a)),
            acc < 1000,
        decreases b - j,
    {
        if j >= b {
            break;
        }
        let c = s.get_char(j);
        let v = c as u32;
        if v < 48 || v > 57 {
            proof {
                assert(part[j - a] == s@[j as int]);
            }
            return None;
        }
        let d: u32 = v - 48;
        proof {
            let t = part.take(j - a + 1);
            assert(t.last() == s@[j as int]);
            assert(t.drop_last() =~= part.take(j - a));
            assert(acc as int * 10 + 9 < pten(j - a + 1)) by (nonlinear_arith)
                requires
                    (acc as int) < pten(j - a),
                    0 <= j - a < 3,
                    pten(j - a + 1) == 10 * pten(j - a),
            ;
        }
        acc = acc * 10 + d;
        j = j + 1;
    }
    proof {
        assert(part.take(j - a) =~= part);
    }
    if acc > 255 {
        None
    } else {
        Some(acc as u8)
    }
}

/// The dotted-quad parser.
fn parse_v4(s: &str) -> (r: Option<IpAddr>)
    ensures
        r == ipv4_of(s@),
{
    let n = s.unicode_len();
    let d1 = match find_from(s, '.', 0) {
        Some(i) => i,
        None => {
            return None;
        },
    };
    let d2 = match find_from(s, '.', d1 + 1) {
        Some(i) => i,
        None => {
            return None;
        },
    };
    let d3 = match find_from(s, '.', d2 + 1) {
        Some(i) => i,
        None => {
            return None;
        },
    };
    if find_from(s, '.', d3 + 1).is_some() {
        return None;
    }
    let a = match octet_val(s, 0, d1) {
        Some(v) => v,
        None => {
            return None;
        },
    };
    let b = match octet_val(s, d1 + 1, d2) {
        Some(v) => v,
        None => {
            return None;
        },
    };
    let c = match octet_val(s, d2 + 1, d3) {
        Some(v) => v,
        None => {
            return None;
        },
    };
    let d = match octet_val(s, d3 + 1, n) {
        Some(v) => v,
        None => {
            return None;
        },
    };
    Some(IpAddr::V4 { a, b, c, d })
}

/// First occurrence of `c` in the piece `s[a..b]`, at or after the
/// piece-relative index `from`; the result is piece-relative too.
fn find_in(s: &str, c: char, a: usize, from: usize, b: usize) -> (r: Option<usize>)
    requires
        a <= b <= s@.len(),
        from <= b - a,
    ensures
        ({
            let part = s@.subrange(a as int, b as int);
            match r {
                Some(k) => find_char(part, c, from as int) == Some(k as int) && from <= k < b - a,
                None => find_char(part, c, from as int) is None,
            }
        }),
{
    let ghost part = s@.subrange(a as int, b as int);
    let mut t = from;
    loop
        invariant
            from <= t <= b - a,
            a <= b <= s@.len(),
            part == s@.subrange(a as int, b as int),
            find_char(part, c, from as int) == find_char(part, c, t as int),
        ensures
            find_char(part, c, from as int) == find_char(part, c, t as int),
            t >= b - a || part[t as int] == c,
            t >= from,
            t <= b - a,
        decreases b - a - t,
    {
        if t >= b - a {
            break;
        }
        if s.get_char(a + t) == c {
            proof {
                assert(part[t as int] == s@[a + t]);
            }
            break;
        }
        proof {
            assert(part[t as int] == s@[a + t]);
        }
        t = t + 1;
    }
    if t < b - a {
        Some(t)
    } else {
        None
    }
}

/// The two group values of the piece `s[a..b]` read as a dotted quad, when
/// it is one.
fn v4_piece(s: &str, a: usize, b: usize) -> (r: Option<(u16, u16)>)
    requires
        a <= b <= s@.len(),
    ensures
        ({
            let part = s@.subrange(a as int, b as int);
            match r {
                Some((h, l)) => v4_groups(part) == Some((h as int, l as int)),
                None => v4_groups(part) is None,
            }
        }),
{
    let ghost part = s@.subrange(a as int, b as int);
    let d1 = match find_in(s, '.', a, 0, b) {
        Some(k) => k,
        None => {
            return None;
        },
    };
    let d2 = match find_in(s, '.', a, d1 + 1, b) {
        Some(k) => k,
        None => {
            return None;
        },
    };
    let d3 = match find_in(s, '.', a, d2 + 1, b) {
        Some(k) => k,
        None => {
            return None;
        },
    };
    if find_in(s, '.', a, d3 + 1, b).is_some() {
        return None;
    }
    proof {
        assert(part.subrange(0, d1 as int) =~= s@.subrange(a as int, a + d1));
        assert(part.subrange(d1 + 1, d2 as int) =~= s@.subrange(a + d1 + 1, a + d2));
        assert(part.subrange(d2 + 1, d3 as int) =~= s@.subrange(a + d2 + 1, a + d3));
        assert(part.subrange(d3 + 1, part.len() as int) =~= s@.subrange(a + d3 + 1, b as int));
    }
    let x = match octet_val(s, a, a + d1) {
        Some(v) => v,
        None => {
            return None;
        },
    };
    let y = match octet_val(s, a + d1 + 1, a + d2) {
        Some(v) => v,
        None => {
            return None;
        },
    };
    let z = match octet_val(s, a + d2 + 1, a + d3) {
        Some(v) => v,
        None => {
            return None;
        },
    };
    let w = match octet_val(s, a + d3 + 1, b) {
        Some(v) => v,
        None => {
            return None;
        },
    };
    let h = (x as u32) * 256 + (y as u32);
    let l = (z as u32) * 256 + (w as u32);
    Some((h as u16, l as u16))
}

/// Ghost form of a group-value vector.
pub open spec fn u16s(v: Seq<u16>) -> Seq<int> {
    v.map_values(|x: u16| x as int)
}

/// Reads the group values of the pieces `parts[lo..hi]`, the last possibly
/// an embedded dotted quad when `allow_v4` holds.
fn run_vals_exec(s: &str, parts: &Vec<(usize, usize)>, lo: usize, hi: usize, allow_v4: bool) -> (r:
    Option<Vec<u16>>)
    requires
        lo <= hi <= parts@.len(),
        parts_wf(s@, parts@),
    ensures
        ({
            let ps = parts_view(s@, parts@);
            match r {
                Some(v) => run_vals(ps, lo as int, hi as int, allow_v4) == Some(u16s(v@)),
                None => run_vals(ps, lo as int, hi as int, allow_v4) is None,
            }
        }),
{
    let ghost ps = parts_view(s@, parts@);
    let mut out: Vec<u16> = Vec::new();
    let mut j = lo;
    while j < hi
        invariant
            lo <= j <= hi <= parts@.len(),
            parts_wf(s@, parts@),
            ps == parts_view(s@, parts@),
            run_vals(ps, lo as int, hi as int, allow_v4) == (match run_vals(
                ps,
                j as int,
                hi as int,
                allow_v4,
            ) {
                Some(rest) => Some(u16s(out@) + rest),
                None => None::<Seq<int>>,
            }),
        decreases hi - j,
    {
        let (pa, pb) = (parts[j].0, parts[j].1);
        proof {
            assert(ps[j as int] == s@.subrange(pa as int, pb as int));
        }
        match group_val(s, pa, pb) {
            Some(v) => {
                proof {
                    assert(u16s(out@.push(v)) =~= u16s(out@) + seq![v as int]);
                    assert(forall|rest: Seq<int>|
                        (u16s(out@) + (seq![v as int] + rest)) =~= ((u16s(out@) + seq![
                            v as int,
                        ]) + rest));
                }
                out.push(v);
                j = j + 1;
            },
            None => {
                if allow_v4 && j + 1 == hi {
                    match v4_piece(s, pa, pb) {
                        Some((h, l)) => {
                            proof {
                                assert(u16s(out@.push(h).push(l)) =~= u16s(out@) + seq![
                                    h as int,
                                    l as int,
                                ]);
                            }
                            out.push(h);
                            out.push(l);
                            j = j + 1;
                        },
                        None => {
                            return None;
                        },
                    }
                } else {
                    return None;
                }
            },
        }
    }
    proof {
        assert(u16s(out@) + Seq::<int>::empty() =~= u16s(out@));
    }
    Some(out)
}

/// Assembles eight groups out of explicit head and tail values.
fn assemble_exec(head: &Vec<u16>, tail: &Vec<u16>, Ghost(gh): Ghost<Seq<int>>, Ghost(gt): Ghost<
    Seq<int>,
>) -> (r: IpAddr)
    requires
        head@.len() + tail@.len() <= 8,
        u16s(head@) == gh,
        u16s(tail@) == gt,
    ensures
        r == assemble_vals(gh, gt),
{
    let mut g: Vec<u16> = Vec::new();
    let mut i: usize = 0;
    while i < 8
        invariant
            i <= 8,
            g@.len() == i,
            head@.len() + tail@.len() <= 8,
            u16s(head@) == gh,
            u16s(tail@) == gt,
            forall|k: int| 0 <= k < i ==> (#[trigger] g@[k]) as int == gval(gh, gt, k),
        decreases 8 - i,
    {
        let v: u16 = if i < head.len() {
            head[i]
        } else if i + tail.len() >= 8 {
            tail[i + tail.len() - 8]
        } else {
            0
        };
        g.push(v);
        i = i + 1;
    }
    IpAddr::V6 {
        g0: g[0],
        g1: g[1],
        g2: g[2],
        g3: g[3],
        g4: g[4],
        g5: g[5],
        g6: g[6],
        g7: g[7],
    }
}

/// The colon-group parser.
fn parse_v6(s: &str) -> (r: Option<IpAddr>)
    ensures
        r == ipv6_of(s@),
{
    let parts = split_parts(s);
    let ghost ps = parts_view(s@, parts@);
    proof {
        assert(u16s(Seq::<u16>::empty()) =~= Seq::<int>::empty());
    }
    let n = parts.len();
    // first empty piece
    let mut fe: Option<usize> = None;
    let mut j: usize = 0;
    loop
        invariant_except_break
            (fe is None),
            find_empty(ps, 0) == find_empty(ps, j as int),
        invariant
            j <= n,
            n == parts@.len(),
            parts_wf(s@, parts@),
            ps == parts_view(s@, parts@),
        ensures
            n == parts@.len(),
            match fe {
                Some(k) => find_empty(ps, 0) == Some(k as int) && k < n,
                None => find_empty(ps, 0) is None,
            },
        decreases n - j,
    {
        if j >= n {
            break;
        }
        if parts[j].1 == parts[j].0 {
            proof {
                assert(ps[j as int].len() == 0);
            }
            fe = Some(j);
            break;
        }
        proof {
            assert(ps[j as int].len() != 0);
        }
        j = j + 1;
    }
    match fe {
        None => {
            match run_vals_exec(s, &parts, 0, n, true) {
                Some(vals) => {
                    if vals.len() == 8 {
                        let ghost g = u16s(vals@);
                        Some(assemble_exec(&vals, &Vec::new(), Ghost(g), Ghost(Seq::empty())))
                    } else {
                        None
                    }
                },
                None => None,
            }
        },
        Some(k) => {
            if k == 0 {
                if n < 3 || parts[1].1 != parts[1].0 {
                    proof {
                        if n >= 3 {
                            assert(ps[1].len() != 0);
                        }
                    }
                    return None;
                }
                proof {
                    assert(ps[1].len() == 0);
                }
                if n == 3 && parts[2].1 == parts[2].0 {
                    proof {
                        assert(ps[2].len() == 0);
                    }
                    return Some(
                        assemble_exec(
                            &Vec::new(),
                            &Vec::new(),
                            Ghost(Seq::empty()),
                            Ghost(Seq::empty()),
                        ),
                    );
                }
                proof {
                    if n == 3 {
                        assert(ps[2].len() != 0);
                    }
                }
                match run_vals_exec(s, &parts, 2, n, true) {
                    Some(vals) => {
                        if vals.len() <= 7 {
                            let ghost g = u16s(vals@);
                            Some(assemble_exec(&Vec::new(), &vals, Ghost(Seq::empty()), Ghost(g)))
                        } else {
                            None
                        }
                    },
                    None => None,
                }
            } else if n >= 3 && k == n - 2 && parts[n - 1].1 == parts[n - 1].0 {
                proof {
                    assert(ps[n - 1].len() == 0);
                }
                match run_vals_exec(s, &parts, 0, n - 2, false) {
                    Some(vals) => {
                        if vals.len() <= 7 {
                            let ghost g = u16s(vals@);
                            Some(assemble_exec(&vals, &Vec::new(), Ghost(g), Ghost(Seq::empty())))
                        } else {
                            None
                        }
                    },
                    None => None,
                }
            } else if 1 <= k && k < n - 1 {
                proof {
                    if n >= 3 && k == n - 2 {
                        assert(ps[n - 1].len() != 0);
                    }
                }
                let head = match run_vals_exec(s, &parts, 0, k, false) {
                    Some(v) => v,
                    None => {
                        return None;
                    },
                };
                let tail = match run_vals_exec(s, &parts, k + 1, n, true) {
                    Some(v) => v,
                    None => {
                        return None;
                    },
                };
                if head.len() <= 7 && tail.len() <= 7 && head.len() + tail.len() <= 7 {
                    let ghost gh = u16s(head@);
                    let ghost gt = u16s(tail@);
                    Some(assemble_exec(&head, &tail, Ghost(gh), Ghost(gt)))
                } else {
                    None
                }
            } else {
                proof {
                    if n >= 3 && k == n - 2 {
                        assert(ps[n - 1].len() != 0);
                    }
                }
                None
            }
        },
    }
}

/// The verified address parser: exactly the `ip_of` grammar.
pub fn parse_ip(s: &str) -> (r: Option<IpAddr>)
    ensures
        r == ip_of(s@),
{
    match parse_v4(s) {
        Some(v) => Some(v),
        None => parse_v6(s),
    }
}

} // verus!
