//! The text form of IP addresses: reading a literal and writing an address.
use crate::ip::{IpAddr, Ipv4Addr, Ipv6Addr};
use crate::text::{char_vec, decimal, hexadecimal, push_numeral};
use vstd::prelude::*;

verus! {

/// The stretches of `s` between the occurrences of `sep`; one more than there are
/// occurrences.
pub open spec fn pieces(s: Seq<char>, sep: char) -> Seq<Seq<char>>
    decreases s.len(),
{
    if s.len() == 0 {
        seq![Seq::<char>::empty()]
    } else {
        let before = pieces(s.drop_last(), sep);
        if s.last() == sep {
            before.push(Seq::<char>::empty())
        } else {
            before.drop_last().push(before.last().push(s.last()))
        }
    }
}

/// The value of `c` as a digit of either case; sixteen for what is no digit.
pub open spec fn digit_value(c: char) -> int {
    if '0' <= c <= '9' {
        c as int - 48
    } else if 'a' <= c <= 'f' {
        c as int - 87
    } else if 'A' <= c <= 'F' {
        c as int - 55
    } else {
        16
    }
}

/// Whether `s` holds digits of base `base` only.
pub open spec fn all_digits(s: Seq<char>, base: int) -> bool {
    forall|i: int| 0 <= i < s.len() ==> digit_value(#[trigger] s[i]) < base
}

/// The number that the digits of `s` write in base `base`.
pub open spec fn number(s: Seq<char>, base: int) -> int
    decreases s.len(),
{
    if s.len() == 0 {
        0
    } else {
        number(s.drop_last(), base) * base + digit_value(s.last())
    }
}

/// One to three decimal digits without a leading zero, for a number up to 255.
pub open spec fn is_octet(s: Seq<char>) -> bool {
    &&& 1 <= s.len() <= 3
    &&& all_digits(s, 10)
    &&& s.len() > 1 ==> s[0] != '0'
    &&& number(s, 10) <= 255
}

/// One to four hexadecimal digits.
pub open spec fn is_group(s: Seq<char>) -> bool {
    1 <= s.len() <= 4 && all_digits(s, 16)
}

/// The segment that a group of hexadecimal digits writes.
pub open spec fn group_value(s: Seq<char>) -> u16 {
    number(s, 16) as u16
}

/// The IPv4 address that `s` writes: four octets, with a dot between each two.
pub open spec fn parsed_v4(s: Seq<char>) -> Option<Ipv4Addr> {
    let p = pieces(s, '.');
    if p.len() == 4 && is_octet(p[0]) && is_octet(p[1]) && is_octet(p[2]) && is_octet(p[3]) {
        Some(
            Ipv4Addr {
                a: number(p[0], 10) as u8,
                b: number(p[1], 10) as u8,
                c: number(p[2], 10) as u8,
                d: number(p[3], 10) as u8,
            },
        )
    } else {
        None
    }
}

/// The segments that `s` writes: groups with a colon between each two, none for an
/// empty text. With `v4_tail` an IPv4 address may stand for the last two segments.
pub open spec fn parsed_groups(s: Seq<char>, v4_tail: bool) -> Option<Seq<u16>> {
    let p = pieces(s, ':');
    let front = p.drop_last();
    if s.len() == 0 {
        Some(Seq::<u16>::empty())
    } else if exists|i: int| 0 <= i < front.len() && !is_group(#[trigger] front[i]) {
        None
    } else if is_group(p.last()) {
        Some(p.map_values(|g: Seq<char>| group_value(g)))
    } else if v4_tail && parsed_v4(p.last()) is Some {
        let v4 = parsed_v4(p.last())->0;
        Some(front.map_values(|g: Seq<char>| group_value(g)) + v4_segments(v4))
    } else {
        None
    }
}

/// The two segments that an IPv4 address fills.
pub open spec fn v4_segments(v4: Ipv4Addr) -> Seq<u16> {
    seq![(v4.a * 256 + v4.b) as u16, (v4.c * 256 + v4.d) as u16]
}

/// Whether two colons stand at `k`.
pub open spec fn gap_at(s: Seq<char>, k: int) -> bool {
    0 <= k && k + 1 < s.len() && s[k] == ':' && s[k + 1] == ':'
}

/// The first place from `k` on where two colons stand together.
pub open spec fn first_gap(s: Seq<char>, k: int) -> Option<int>
    decreases s.len() - k,
{
    if k + 1 >= s.len() {
        None
    } else if gap_at(s, k) {
        Some(k)
    } else {
        first_gap(s, k + 1)
    }
}

/// The address with the segments `g`, of which there are eight.
pub open spec fn from_segments(g: Seq<u16>) -> Ipv6Addr {
    Ipv6Addr {
        s0: g[0],
        s1: g[1],
        s2: g[2],
        s3: g[3],
        s4: g[4],
        s5: g[5],
        s6: g[6],
        s7: g[7],
    }
}

/// `n` segments that are zero.
pub open spec fn zeros(n: int) -> Seq<u16> {
    Seq::new(n as nat, |i: int| 0u16)
}

/// The IPv6 address that `s` writes: eight segments, or fewer with `::` in the place
/// of one or more zero segments.
pub open spec fn parsed_v6(s: Seq<char>) -> Option<Ipv6Addr> {
    match first_gap(s, 0) {
        Some(k) => match (parsed_groups(s.take(k), false), parsed_groups(s.skip(k + 2), true)) {
            (Some(h), Some(t)) => if h.len() + t.len() <= 7 {
                Some(from_segments(h + zeros(8 - h.len() - t.len()) + t))
            } else {
                None
            },
            _ => None,
        },
        None => match parsed_groups(s, true) {
            Some(g) => if g.len() == 8 {
                Some(from_segments(g))
            } else {
                None
            },
            None => None,
        },
    }
}

/// The address that `s` writes, in either family.
pub open spec fn parsed_ip(s: Seq<char>) -> Option<IpAddr> {
    match parsed_v4(s) {
        Some(v4) => Some(IpAddr::V4(v4)),
        None => match parsed_v6(s) {
            Some(v6) => Some(IpAddr::V6(v6)),
            None => None,
        },
    }
}

/// An IPv4 address in dotted decimal.
pub open spec fn rendered_v4(v4: Ipv4Addr) -> Seq<char> {
    decimal(v4.a as nat) + seq!['.'] + decimal(v4.b as nat) + seq!['.'] + decimal(v4.c as nat)
        + seq!['.'] + decimal(v4.d as nat)
}

/// The segments of `g` in hexadecimal, with a colon between each two.
pub open spec fn joined(g: Seq<u16>) -> Seq<char>
    decreases g.len(),
{
    if g.len() == 0 {
        Seq::<char>::empty()
    } else if g.len() == 1 {
        hexadecimal(g[0] as nat)
    } else {
        joined(g.drop_last()) + seq![':'] + hexadecimal(g.last() as nat)
    }
}

/// How many zero segments follow each other from `i` on.
pub open spec fn zero_run(g: Seq<u16>, i: int) -> nat
    decreases g.len() - i,
{
    if 0 <= i < g.len() && g[i] == 0 {
        1 + zero_run(g, i + 1)
    } else {
        0
    }
}

/// Among the places below `n`, the first at which the longest run of zero segments
/// begins.
pub open spec fn longest_run(g: Seq<u16>, n: nat) -> int
    decreases n,
{
    if n <= 1 {
        0
    } else {
        let before = longest_run(g, (n - 1) as nat);
        if zero_run(g, n - 1) > zero_run(g, before) {
            n - 1
        } else {
            before
        }
    }
}

/// An IPv6 address in its canonical form: the longest run of two or more zero segments,
/// the first of them where two are equally long, is written `::`, and an IPv4-mapped
/// address ends in dotted decimal.
pub open spec fn rendered_v6(v6: Ipv6Addr) -> Seq<char> {
    let g = v6.segments();
    let k = longest_run(g, 8);
    let n = zero_run(g, k) as int;
    if v6.is_v4_mapped() {
        seq![':', ':', 'f', 'f', 'f', 'f', ':'] + rendered_v4(mapped_v4(v6))
    } else if n > 1 {
        joined(g.take(k)) + seq![':', ':'] + joined(g.skip(k + n))
    } else {
        joined(g)
    }
}

/// The IPv4 address in the last two segments.
pub open spec fn mapped_v4(v6: Ipv6Addr) -> Ipv4Addr {
    Ipv4Addr {
        a: (v6.s6 / 256) as u8,
        b: (v6.s6 % 256) as u8,
        c: (v6.s7 / 256) as u8,
        d: (v6.s7 % 256) as u8,
    }
}

/// An address of either family as text.
pub open spec fn rendered_ip(ip: IpAddr) -> Seq<char> {
    match ip {
        IpAddr::V4(v4) => rendered_v4(v4),
        IpAddr::V6(v6) => rendered_v6(v6),
    }
}

/// The views of the pieces in `v`.
pub open spec fn views(v: Seq<Vec<char>>) -> Seq<Seq<char>> {
    v.map_values(|p: Vec<char>| p@)
}

/// Cuts `s` at every `sep`.
fn split(s: &Vec<char>, sep: char) -> (r: Vec<Vec<char>>)
    ensures
        views(r@) == pieces(s@, sep),
        r@.len() >= 1,
{
    let mut done: Vec<Vec<char>> = Vec::new();
    let mut cur: Vec<char> = Vec::new();
    assert(views(done@).push(cur@) =~= pieces(s@.take(0), sep));
    for i in 0..s.len()
        invariant
            views(done@).push(cur@) == pieces(s@.take(i as int), sep),
    {
        let ghost before = views(done@).push(cur@);
        let c = s[i];
        proof {
            assert(s@.take(i + 1).drop_last() =~= s@.take(i as int));
            assert(s@.take(i + 1).last() == c);
            assert(before.drop_last() =~= views(done@));
        }
        if c == sep {
            done.push(cur);
            cur = Vec::new();
            assert(views(done@).push(cur@) =~= before.push(Seq::<char>::empty()));
        } else {
            cur.push(c);
        }
    }
    assert(s@.take(s@.len() as int) =~= s@);
    let ghost before = views(done@).push(cur@);
    done.push(cur);
    assert(views(done@) =~= before);
    done
}

/// The value of `c` as a digit.
fn digit_of(c: char) -> (r: u64)
    ensures
        r == digit_value(c),
        r <= 16,
{
    let n = c as u64;
    if '0' <= c && c <= '9' {
        n - 48
    } else if 'a' <= c && c <= 'f' {
        n - 87
    } else if 'A' <= c && c <= 'F' {
        n - 55
    } else {
        16
    }
}

/// The number that up to four digits write, or none where one is no digit of the base.
fn read_number(s: &Vec<char>, base: u64) -> (r: Option<u64>)
    requires
        s@.len() <= 4,
        2 <= base <= 16,
    ensures
        match r {
            Some(n) => all_digits(s@, base as int) && n == number(s@, base as int),
            None => !all_digits(s@, base as int),
        },
        r matches Some(n) ==> n < 0x1_0000,
{
    let mut n: u64 = 0;
    let ghost mut bound: int = 1;
    assert(s@.take(0) =~= Seq::<char>::empty());
    for i in 0..s.len()
        invariant
            s@.len() <= 4,
            2 <= base <= 16,
            all_digits(s@.take(i as int), base as int),
            n == number(s@.take(i as int), base as int),
            n < bound,
            bound == (if i == 0 { 1int } else if i == 1 { 16 } else if i == 2 { 256 } else if i == 3 {
                4096
            } else { 65536 }),
    {
        let d = digit_of(s[i]);
        if d >= base {
            assert(!(digit_value(s@[i as int]) < base));
            return None;
        }
        proof {
            let t = s@.take(i + 1);
            assert(t.drop_last() =~= s@.take(i as int));
            assert(t.last() == s@[i as int]);
            assert forall|j: int| 0 <= j < t.len() implies digit_value(#[trigger] t[j]) < base by {
                if j < i {
                    assert(t[j] == s@.take(i as int)[j]);
                }
            }
            assert(n * base + d < bound * 16) by (nonlinear_arith)
                requires
                    n < bound,
                    base <= 16,
                    d < base,
                    0 <= n,
            ;
            bound = bound * 16;
        }
        n = n * base + d;
    }
    assert(s@.take(s@.len() as int) =~= s@);
    Some(n)
}

/// The octet that `s` writes.
fn read_octet(s: &Vec<char>) -> (r: Option<u8>)
    ensures
        match r {
            Some(n) => is_octet(s@) && n == number(s@, 10),
            None => !is_octet(s@),
        },
{
    if s.len() == 0 || s.len() > 3 || (s.len() > 1 && s[0] == '0') {
        return None;
    }
    match read_number(s, 10) {
        Some(n) => if n <= 255 {
            Some(n as u8)
        } else {
            None
        },
        None => None,
    }
}

/// The segment that a group writes.
fn read_group(s: &Vec<char>) -> (r: Option<u16>)
    ensures
        match r {
            Some(n) => is_group(s@) && n == group_value(s@),
            None => !is_group(s@),
        },
{
    if s.len() == 0 || s.len() > 4 {
        return None;
    }
    match read_number(s, 16) {
        Some(n) => Some(n as u16),
        None => None,
    }
}

/// Reads an IPv4 address in dotted decimal.
fn read_v4(s: &Vec<char>) -> (r: Option<Ipv4Addr>)
    ensures
        r == parsed_v4(s@),
{
    let p = split(s, '.');
    let ghost q = pieces(s@, '.');
    assert(q.len() == p@.len());
    if p.len() != 4 {
        return None;
    }
    assert(q[0] == p@[0]@ && q[1] == p@[1]@ && q[2] == p@[2]@ && q[3] == p@[3]@);
    match (read_octet(&p[0]), read_octet(&p[1]), read_octet(&p[2]), read_octet(&p[3])) {
        (Some(a), Some(b), Some(c), Some(d)) => Some(Ipv4Addr { a, b, c, d }),
        _ => None,
    }
}

/// Reads groups with a colon between each two.
fn read_groups(s: &Vec<char>, v4_tail: bool) -> (r: Option<Vec<u16>>)
    ensures
        match r {
            Some(g) => parsed_groups(s@, v4_tail) == Some(g@),
            None => parsed_groups(s@, v4_tail) is None,
        },
{
    if s.len() == 0 {
        return Some(Vec::new());
    }
    let p = split(s, ':');
    let ghost q = pieces(s@, ':');
    let ghost front = q.drop_last();
    assert(q.len() == p@.len());
    let last = p.len() - 1;
    let mut out: Vec<u16> = Vec::new();
    for i in 0..last
        invariant
            last == p@.len() - 1,
            s@.len() > 0,
            q == pieces(s@, ':'),
            q == views(p@),
            front == q.drop_last(),
            out@.len() == i,
            forall|j: int| 0 <= j < i ==> is_group(#[trigger] front[j]),
            forall|j: int| 0 <= j < i ==> out@[j] == group_value(#[trigger] front[j]),
    {
        assert(front[i as int] == p@[i as int]@);
        match read_group(&p[i]) {
            Some(g) => out.push(g),
            None => return None,
        }
    }
    assert(q.last() == p@[last as int]@);
    let ghost short = out@;
    assert(short =~= front.map_values(|g: Seq<char>| group_value(g)));
    match read_group(&p[last]) {
        Some(g) => {
            out.push(g);
            assert(out@ =~= q.map_values(|g: Seq<char>| group_value(g))) by {
                assert forall|j: int| 0 <= j < out@.len() implies out@[j] == group_value(q[j]) by {
                    if j < last {
                        assert(q[j] == front[j]);
                    }
                }
            }
            Some(out)
        },
        None => {
            if !v4_tail {
                return None;
            }
            match read_v4(&p[last]) {
                Some(v4) => {
                    out.push(v4.a as u16 * 256 + v4.b as u16);
                    out.push(v4.c as u16 * 256 + v4.d as u16);
                    assert(out@ =~= short + v4_segments(v4));
                    Some(out)
                },
                None => None,
            }
        },
    }
}

/// Where the first two colons stand together.
fn find_gap(s: &Vec<char>) -> (r: Option<usize>)
    ensures
        match r {
            Some(k) => first_gap(s@, 0) == Some(k as int) && k + 2 <= s@.len(),
            None => first_gap(s@, 0) is None,
        },
{
    let mut k: usize = 0;
    while k < s.len() && s.len() - k >= 2
        invariant
            k <= s@.len(),
            first_gap(s@, 0) == first_gap(s@, k as int),
        decreases s@.len() - k,
    {
        if s[k] == ':' && s[k + 1] == ':' {
            return Some(k);
        }
        k = k + 1;
    }
    None
}

/// The characters of `s` from `lo` up to `hi`.
fn slice(s: &Vec<char>, lo: usize, hi: usize) -> (r: Vec<char>)
    requires
        lo <= hi <= s@.len(),
    ensures
        r@ == s@.subrange(lo as int, hi as int),
{
    let mut out: Vec<char> = Vec::new();
    for i in lo..hi
        invariant
            lo <= hi <= s@.len(),
            out@ == s@.subrange(lo as int, i as int),
    {
        out.push(s[i]);
    }
    out
}

/// The address with the eight segments of `g`.
fn v6_of(g: &Vec<u16>) -> (r: Ipv6Addr)
    requires
        g@.len() == 8,
    ensures
        r == from_segments(g@),
{
    Ipv6Addr {
        s0: g[0],
        s1: g[1],
        s2: g[2],
        s3: g[3],
        s4: g[4],
        s5: g[5],
        s6: g[6],
        s7: g[7],
    }
}

/// Reads an IPv6 address.
fn read_v6(s: &Vec<char>) -> (r: Option<Ipv6Addr>)
    ensures
        r == parsed_v6(s@),
{
    let len = s.len();
    match find_gap(s) {
        Some(k) => {
            let head = slice(s, 0, k);
            let tail = slice(s, k + 2, len);
            assert(head@ =~= s@.take(k as int));
            assert(tail@ =~= s@.skip(k + 2));
            match (read_groups(&head, false), read_groups(&tail, true)) {
                (Some(h), Some(t)) => {
                    if h.len() > 7 || t.len() > 7 - h.len() {
                        return None;
                    }
                    let ghost hs = h@;
                    let mut g = h;
                    let mut t = t;
                    let ghost ts = t@;
                    let n = 8 - g.len() - t.len();
                    for i in 0..n
                        invariant
                            g@ == hs + zeros(i as int),
                    {
                        g.push(0);
                        assert(g@ =~= hs + zeros(i + 1));
                    }
                    g.append(&mut t);
                    assert(g@ == hs + zeros(8 - hs.len() - ts.len()) + ts);
                    Some(v6_of(&g))
                },
                _ => None,
            }
        },
        None => match read_groups(s, true) {
            Some(g) => if g.len() == 8 {
                Some(v6_of(&g))
            } else {
                None
            },
            None => None,
        },
    }
}

/// Writes an IPv4 address behind `out`.
fn push_v4(out: &mut String, v4: &Ipv4Addr)
    ensures
        final(out)@ == old(out)@ + rendered_v4(*v4),
{
    push_numeral(out, v4.a as u64, 10);
    out.push('.');
    push_numeral(out, v4.b as u64, 10);
    out.push('.');
    push_numeral(out, v4.c as u64, 10);
    out.push('.');
    push_numeral(out, v4.d as u64, 10);
    assert(out@ =~= old(out)@ + rendered_v4(*v4));
}

/// Writes the segments from `lo` up to `hi` behind `out`.
fn push_joined(out: &mut String, g: &Vec<u16>, lo: usize, hi: usize)
    requires
        lo <= hi <= g@.len(),
    ensures
        final(out)@ == old(out)@ + joined(g@.subrange(lo as int, hi as int)),
{
    assert(out@ =~= old(out)@ + joined(g@.subrange(lo as int, lo as int)));
    for i in lo..hi
        invariant
            lo <= hi <= g@.len(),
            out@ == old(out)@ + joined(g@.subrange(lo as int, i as int)),
    {
        let ghost done = g@.subrange(lo as int, i as int);
        let ghost next = g@.subrange(lo as int, i + 1);
        assert(next.drop_last() =~= done);
        assert(next.last() == g@[i as int]);
        if i > lo {
            out.push(':');
        }
        push_numeral(out, g[i] as u64, 16);
        assert(out@ =~= old(out)@ + joined(next));
    }
}

/// How many zero segments follow each other from `i` on.
fn count_zeros(g: &Vec<u16>, i: usize) -> (r: usize)
    requires
        i <= g@.len(),
    ensures
        r == zero_run(g@, i as int),
        i + r <= g@.len(),
    decreases g@.len() - i,
{
    if i < g.len() && g[i] == 0 {
        1 + count_zeros(g, i + 1)
    } else {
        0
    }
}

/// Writes an IPv6 address behind `out`.
fn push_v6(out: &mut String, v6: &Ipv6Addr)
    ensures
        final(out)@ == old(out)@ + rendered_v6(*v6),
{
    match v6.to_ipv4_mapped() {
        Some(v4) => {
            proof {
                reveal_strlit("::ffff:");
                assert("::ffff:"@ =~= seq![':', ':', 'f', 'f', 'f', 'f', ':']);
                assert(mapped_v4(*v6) == v4);
            }
            out.append("::ffff:");
            push_v4(out, &v4);
            assert(out@ =~= old(out)@ + rendered_v6(*v6));
        },
        None => {
            let g = v6.to_segments();
            let mut k: usize = 0;
            let mut n = count_zeros(&g, 0);
            for i in 1..8usize
                invariant
                    g@.len() == 8,
                    k == longest_run(g@, i as nat),
                    n == zero_run(g@, k as int),
                    k + n <= 8,
            {
                let m = count_zeros(&g, i);
                if m > n {
                    k = i;
                    n = m;
                }
            }
            if n > 1 {
                push_joined(out, &g, 0, k);
                out.push(':');
                out.push(':');
                push_joined(out, &g, k + n, 8);
                proof {
                    assert(g@.subrange(0, k as int) =~= g@.take(k as int));
                    assert(g@.subrange(k + n, 8) =~= g@.skip(k + n));
                    assert(out@ =~= old(out)@ + rendered_v6(*v6));
                }
            } else {
                push_joined(out, &g, 0, 8);
                assert(g@.subrange(0, 8) =~= g@);
            }
        },
    }
}

impl IpAddr {
    /// Writes the address behind `out`.
    pub fn push_to(&self, out: &mut String)
        ensures
            final(out)@ == old(out)@ + rendered_ip(*self),
    {
        match self {
            IpAddr::V4(v4) => push_v4(out, v4),
            IpAddr::V6(v6) => push_v6(out, v6),
        }
    }

    /// The address as text.
    pub fn render(&self) -> (r: String)
        ensures
            r@ == rendered_ip(*self),
    {
        let mut out = String::new();
        self.push_to(&mut out);
        assert(out@ =~= rendered_ip(*self));
        out
    }

    /// Reads an IP address of either family from the whole of `text`.
    pub fn parse(text: &str) -> (r: Option<IpAddr>)
        ensures
            r == parsed_ip(text@),
    {
        let s = char_vec(text);
        match read_v4(&s) {
            Some(v4) => Some(IpAddr::V4(v4)),
            None => match read_v6(&s) {
                Some(v6) => Some(IpAddr::V6(v6)),
                None => None,
            },
        }
    }
}

} // verus!
