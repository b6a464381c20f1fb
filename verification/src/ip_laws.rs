//! Writing an address and reading it are inverse.
use crate::ip::{IpAddr, Ipv4Addr, Ipv6Addr};
use crate::ip_text::{
    all_digits, digit_value, first_gap, from_segments, gap_at, group_value, is_group, is_octet,
    joined, longest_run, mapped_v4, number, parsed_groups, parsed_ip, parsed_v4, parsed_v6, pieces,
    rendered_ip, rendered_v4, rendered_v6, v4_segments, zero_run, zeros,
};
use crate::text::{decimal, digit_char, hexadecimal, lower_char, lowered, numeral};
use vstd::prelude::*;

verus! {

/// The characters that address literals are made of.
pub open spec fn literal_char(c: char) -> bool {
    digit_value(c) < 16 || c == '.' || c == ':'
}

proof fn lemma_digit(d: int)
    requires
        0 <= d < 16,
    ensures
        digit_value(digit_char(d)) == d,
        lower_char(digit_char(d)) == digit_char(d),
        d > 0 ==> digit_char(d) != '0',
{
}

/// A numeral consists of digits, reads as its number, and has no leading zero.
proof fn lemma_numeral(n: nat, base: nat)
    requires
        2 <= base <= 16,
    ensures
        all_digits(numeral(n, base), base as int),
        number(numeral(n, base), base as int) == n,
        numeral(n, base).len() >= 1,
        n > 0 ==> numeral(n, base)[0] != '0',
        n < base ==> numeral(n, base).len() == 1,
        forall|i: int|
            0 <= i < numeral(n, base).len() ==> lower_char(#[trigger] numeral(n, base)[i])
                == numeral(n, base)[i],
    decreases n,
{
    let s = numeral(n, base);
    if n < base {
        lemma_digit(n as int);
        assert(s.drop_last() =~= Seq::<char>::empty());
        assert(number(s.drop_last(), base as int) == 0);
    } else {
        vstd::arithmetic::div_mod::lemma_div_decreases(n as int, base as int);
        vstd::arithmetic::div_mod::lemma_fundamental_div_mod(n as int, base as int);
        vstd::arithmetic::div_mod::lemma_div_non_zero(n as int, base as int);
        let q = n / base;
        lemma_numeral(q, base);
        lemma_digit((n % base) as int);
        assert(s.drop_last() =~= numeral(q, base));
        assert(q * base + n % base == n) by (nonlinear_arith)
            requires
                n == base * q + n % base,
        ;
        assert forall|i: int| 0 <= i < s.len() implies digit_value(#[trigger] s[i]) < base
            && lower_char(s[i]) == s[i] by {
            if i < s.len() - 1 {
                assert(s[i] == numeral(q, base)[i]);
            }
        }
    }
}

proof fn lemma_octet(n: u8)
    ensures
        is_octet(decimal(n as nat)),
        number(decimal(n as nat), 10) == n,
{
    lemma_numeral(n as nat, 10);
    assert(decimal(n as nat).len() <= 3) by {
        reveal_with_fuel(numeral, 4);
    }
}

proof fn lemma_group(n: u16)
    ensures
        is_group(hexadecimal(n as nat)),
        group_value(hexadecimal(n as nat)) == n,
{
    lemma_numeral(n as nat, 16);
    assert(hexadecimal(n as nat).len() <= 4) by {
        reveal_with_fuel(numeral, 5);
    }
}

proof fn lemma_pieces_single(s: Seq<char>, sep: char)
    requires
        !s.contains(sep),
    ensures
        pieces(s, sep) == seq![s],
    decreases s.len(),
{
    if s.len() > 0 {
        assert forall|i: int| 0 <= i < s.drop_last().len() implies s.drop_last()[i] != sep by {
            assert(s[i] == s.drop_last()[i]);
        }
        lemma_pieces_single(s.drop_last(), sep);
        assert(s.last() == s[s.len() - 1]);
        assert(s.drop_last().push(s.last()) =~= s);
        assert(pieces(s, sep) =~= seq![s]);
    } else {
        assert(s =~= Seq::<char>::empty());
    }
}

proof fn lemma_pieces_push(a: Seq<char>, sep: char, b: Seq<char>)
    requires
        !b.contains(sep),
    ensures
        pieces(a + seq![sep] + b, sep) == pieces(a, sep).push(b),
    decreases b.len(),
{
    let s = a + seq![sep] + b;
    if b.len() == 0 {
        assert(s.drop_last() =~= a);
        assert(s.last() == sep);
        assert(b =~= Seq::<char>::empty());
    } else {
        let c = b.drop_last();
        assert forall|i: int| 0 <= i < c.len() implies c[i] != sep by {
            assert(b[i] == c[i]);
        }
        lemma_pieces_push(a, sep, c);
        assert(s.drop_last() =~= a + seq![sep] + c);
        assert(s.last() == b.last() && b.last() == b[b.len() - 1]);
        let before = pieces(a, sep).push(c);
        assert(before.drop_last() =~= pieces(a, sep));
        assert(c.push(b.last()) =~= b);
    }
}

/// What holds of the separator and of all characters in the pieces holds of the text.
proof fn lemma_pieces_chars(s: Seq<char>, sep: char, ok: spec_fn(char) -> bool)
    requires
        ok(sep),
        forall|p: int, j: int|
            0 <= p < pieces(s, sep).len() && 0 <= j < pieces(s, sep)[p].len() ==> ok(
                #[trigger] pieces(s, sep)[p][j],
            ),
    ensures
        forall|i: int| 0 <= i < s.len() ==> ok(#[trigger] s[i]),
    decreases s.len(),
{
    if s.len() > 0 {
        let t = s.drop_last();
        let now = pieces(s, sep);
        let before = pieces(t, sep);
        lemma_pieces_some(t, sep);
        assert forall|p: int, j: int| 0 <= p < before.len() && 0 <= j < before[p].len() implies ok(
            #[trigger] before[p][j],
        ) by {
            assert(now[p][j] == before[p][j]);
        }
        lemma_pieces_chars(t, sep, ok);
        assert(ok(s.last())) by {
            if s.last() != sep {
                let p = now.len() - 1;
                assert(now[p] == before.last().push(s.last()));
                assert(now[p][now[p].len() - 1] == s.last());
            }
        }
        assert forall|i: int| 0 <= i < s.len() implies ok(#[trigger] s[i]) by {
            if i < t.len() {
                assert(s[i] == t[i]);
            }
        }
    }
}

proof fn lemma_pieces_some(s: Seq<char>, sep: char)
    ensures
        pieces(s, sep).len() >= 1,
    decreases s.len(),
{
    if s.len() > 0 {
        lemma_pieces_some(s.drop_last(), sep);
    }
}

/// A text that reads as an IPv4 address holds digits and dots only.
proof fn lemma_v4_chars(s: Seq<char>)
    requires
        parsed_v4(s) is Some,
    ensures
        forall|i: int| 0 <= i < s.len() ==> literal_char(#[trigger] s[i]),
{
    let p = pieces(s, '.');
    assert forall|k: int, j: int| 0 <= k < p.len() && 0 <= j < p[k].len() implies literal_char(
        #[trigger] p[k][j],
    ) by {
        assert(k == 0 || k == 1 || k == 2 || k == 3);
        assert(all_digits(p[k], 10));
    }
    lemma_pieces_chars(s, '.', |c: char| literal_char(c));
}

proof fn lemma_groups_chars(s: Seq<char>, v4_tail: bool)
    requires
        parsed_groups(s, v4_tail) is Some,
    ensures
        forall|i: int| 0 <= i < s.len() ==> literal_char(#[trigger] s[i]),
{
    if s.len() > 0 {
        let p = pieces(s, ':');
        let front = p.drop_last();
        lemma_pieces_some(s, ':');
        assert forall|k: int, j: int| 0 <= k < p.len() && 0 <= j < p[k].len() implies literal_char(
            #[trigger] p[k][j],
        ) by {
            if k < front.len() {
                assert(is_group(front[k]));
                assert(front[k] == p[k]);
            } else if is_group(p.last()) {
                assert(p[k] == p.last());
            } else {
                assert(p[k] == p.last());
                lemma_v4_chars(p.last());
            }
        }
        lemma_pieces_chars(s, ':', |c: char| literal_char(c));
    }
}

proof fn lemma_first_gap_range(s: Seq<char>, i: int)
    requires
        0 <= i,
    ensures
        first_gap(s, i) matches Some(k) ==> i <= k && gap_at(s, k),
    decreases s.len() - i,
{
    if i + 1 < s.len() && !gap_at(s, i) {
        lemma_first_gap_range(s, i + 1);
    }
}

/// A text that reads as an address holds digits, dots and colons only.
pub proof fn literals_hold_literal_characters(s: Seq<char>)
    requires
        parsed_ip(s) is Some,
    ensures
        forall|i: int| 0 <= i < s.len() ==> literal_char(#[trigger] s[i]),
{
    if parsed_v4(s) is Some {
        lemma_v4_chars(s);
    } else {
        match first_gap(s, 0) {
            Some(k) => {
                lemma_first_gap_range(s, 0);
                lemma_groups_chars(s.take(k), false);
                lemma_groups_chars(s.skip(k + 2), true);
                assert forall|i: int| 0 <= i < s.len() implies literal_char(#[trigger] s[i]) by {
                    if i < k {
                        assert(s[i] == s.take(k)[i]);
                    } else if i >= k + 2 {
                        assert(s[i] == s.skip(k + 2)[i - (k + 2)]);
                    }
                }
            },
            None => {
                lemma_groups_chars(s, true);
            },
        }
    }
}

/// An IPv4 address as it is written reads as that address.
proof fn lemma_v4_round_trip(v4: Ipv4Addr)
    ensures
        parsed_v4(rendered_v4(v4)) == Some(v4),
        forall|i: int|
            0 <= i < rendered_v4(v4).len() ==> {
                &&& #[trigger] rendered_v4(v4)[i] != ':'
                &&& lower_char(rendered_v4(v4)[i]) == rendered_v4(v4)[i]
            },
        rendered_v4(v4).contains('.'),
{
    let (a, b, c, d) = (
        decimal(v4.a as nat),
        decimal(v4.b as nat),
        decimal(v4.c as nat),
        decimal(v4.d as nat),
    );
    lemma_octet(v4.a);
    lemma_octet(v4.b);
    lemma_octet(v4.c);
    lemma_octet(v4.d);
    lemma_numeral(v4.a as nat, 10);
    lemma_numeral(v4.b as nat, 10);
    lemma_numeral(v4.c as nat, 10);
    lemma_numeral(v4.d as nat, 10);
    lemma_pieces_single(a, '.');
    lemma_pieces_push(a, '.', b);
    let ab = a + seq!['.'] + b;
    lemma_pieces_push(ab, '.', c);
    let abc = ab + seq!['.'] + c;
    lemma_pieces_push(abc, '.', d);
    let s = rendered_v4(v4);
    assert(s == abc + seq!['.'] + d);
    assert(pieces(s, '.') =~= seq![a, b, c, d]);
    assert(s[a.len() as int] == '.');
    assert forall|i: int| 0 <= i < s.len() implies #[trigger] s[i] != ':' && lower_char(s[i])
        == s[i] by {
        let (la, lb, lc) = (a.len() as int, b.len() as int, c.len() as int);
        if i < la {
            assert(s[i] == a[i]);
        } else if la < i < la + 1 + lb {
            assert(s[i] == b[i - la - 1]);
        } else if la + lb + 1 < i < la + lb + lc + 2 {
            assert(s[i] == c[i - la - lb - 2]);
        } else if la + lb + lc + 2 < i {
            assert(s[i] == d[i - la - lb - lc - 3]);
        }
    }
}

/// Segments as they are written: no colon at either end, no two together, and the pieces
/// between them are the groups.
proof fn lemma_joined(g: Seq<u16>)
    requires
        g.len() >= 1,
    ensures
        joined(g).len() >= 1,
        joined(g)[0] != ':',
        joined(g).last() != ':',
        g.len() >= 2 ==> joined(g).contains(':'),
        forall|i: int| !(#[trigger] gap_at(joined(g), i)),
        forall|i: int|
            0 <= i < joined(g).len() ==> lower_char(#[trigger] joined(g)[i]) == joined(g)[i],
        pieces(joined(g), ':') == g.map_values(|n: u16| hexadecimal(n as nat)),
    decreases g.len(),
{
    let s = joined(g);
    let x = hexadecimal(g.last() as nat);
    lemma_numeral(g.last() as nat, 16);
    assert(!x.contains(':'));
    if g.len() == 1 {
        lemma_pieces_single(x, ':');
        assert(seq![x] =~= g.map_values(|n: u16| hexadecimal(n as nat)));
    } else {
        let h = g.drop_last();
        let t = joined(h);
        lemma_joined(h);
        lemma_pieces_push(t, ':', x);
        assert(h.map_values(|n: u16| hexadecimal(n as nat)).push(x) =~= g.map_values(
            |n: u16| hexadecimal(n as nat),
        ));
        assert(s[t.len() as int] == ':');
        assert(s.last() == x.last());
        assert forall|i: int| !(#[trigger] gap_at(s, i)) by {
            if gap_at(s, i) {
                if i + 1 < t.len() {
                    assert(gap_at(t, i));
                } else if i + 1 == t.len() {
                    assert(s[i] == t.last());
                } else if i == t.len() {
                    assert(s[i + 1] == x[0]);
                } else {
                    assert(s[i] == x[i - t.len() - 1]);
                }
            }
        }
        assert forall|i: int| 0 <= i < s.len() implies lower_char(#[trigger] s[i]) == s[i] by {
            if i < t.len() {
                assert(s[i] == t[i]);
            } else if i > t.len() {
                assert(s[i] == x[i - t.len() - 1]);
            }
        }
    }
}

proof fn lemma_joined_groups(g: Seq<u16>, v4_tail: bool)
    ensures
        parsed_groups(joined(g), v4_tail) == Some(g),
{
    if g.len() > 0 {
        lemma_joined(g);
        let p = pieces(joined(g), ':');
        let front = p.drop_last();
        assert forall|i: int| 0 <= i < p.len() implies is_group(#[trigger] p[i]) && group_value(
            p[i],
        ) == g[i] by {
            lemma_group(g[i]);
        }
        assert forall|i: int| 0 <= i < front.len() implies is_group(#[trigger] front[i]) by {
            assert(front[i] == p[i]);
        }
        assert(p.last() == p[p.len() - 1]);
        assert(p.map_values(|x: Seq<char>| group_value(x)) =~= g);
    } else {
        assert(g =~= Seq::<u16>::empty());
    }
}

/// The first gap is where there is one and none before.
proof fn lemma_first_gap(s: Seq<char>, i: int, k: int)
    requires
        0 <= i <= k,
        gap_at(s, k),
        forall|j: int| i <= j < k ==> !(#[trigger] gap_at(s, j)),
    ensures
        first_gap(s, i) == Some(k),
    decreases k - i,
{
    if i < k {
        assert(!gap_at(s, i));
        lemma_first_gap(s, i + 1, k);
    }
}

proof fn lemma_no_gap(s: Seq<char>, i: int)
    requires
        0 <= i,
        forall|j: int| !(#[trigger] gap_at(s, j)),
    ensures
        first_gap(s, i) is None,
    decreases s.len() - i,
{
    if i + 1 < s.len() {
        assert(!gap_at(s, i));
        lemma_no_gap(s, i + 1);
    }
}

proof fn lemma_zero_run(g: Seq<u16>, i: int)
    requires
        0 <= i <= g.len(),
    ensures
        i + zero_run(g, i) <= g.len(),
        forall|j: int| i <= j < i + zero_run(g, i) ==> #[trigger] g[j] == 0,
    decreases g.len() - i,
{
    if i < g.len() && g[i] == 0 {
        lemma_zero_run(g, i + 1);
    }
}

proof fn lemma_longest_run(g: Seq<u16>, n: nat)
    requires
        1 <= n <= g.len(),
    ensures
        0 <= longest_run(g, n) < n,
        forall|i: int| 0 <= i < n ==> #[trigger] zero_run(g, i) <= zero_run(g, longest_run(g, n)),
        forall|i: int|
            0 <= i < longest_run(g, n) ==> #[trigger] zero_run(g, i) < zero_run(
                g,
                longest_run(g, n),
            ),
    decreases n,
{
    if n > 1 {
        lemma_longest_run(g, (n - 1) as nat);
    }
}

/// The run that is written `::` is the longest, and the first among equals.
pub proof fn the_first_longest_run_is_compressed(v6: Ipv6Addr, i: int)
    requires
        0 <= i < 8,
    ensures
        ({
            let g = v6.segments();
            let k = longest_run(g, 8);
            &&& 0 <= k < 8
            &&& zero_run(g, i) <= zero_run(g, k)
            &&& i < k ==> zero_run(g, i) < zero_run(g, k)
        }),
{
    lemma_longest_run(v6.segments(), 8);
}

proof fn lemma_no_v4(s: Seq<char>)
    requires
        s.contains(':'),
    ensures
        parsed_v4(s) is None,
{
    if parsed_v4(s) is Some {
        let p = pieces(s, '.');
        let i = choose|i: int| 0 <= i < s.len() && s[i] == ':';
        assert forall|k: int, j: int| 0 <= k < p.len() && 0 <= j < p[k].len() implies #[trigger] p[k][j]
            != ':' by {
            assert(k == 0 || k == 1 || k == 2 || k == 3);
            assert(all_digits(p[k], 10));
        }
        lemma_pieces_chars(s, '.', |c: char| c != ':');
    }
}

proof fn lemma_mapped_round_trip(v6: Ipv6Addr)
    requires
        v6.is_v4_mapped(),
    ensures
        parsed_v6(rendered_v6(v6)) == Some(v6),
        rendered_v6(v6).contains(':'),
        forall|i: int|
            0 <= i < rendered_v6(v6).len() ==> lower_char(#[trigger] rendered_v6(v6)[i])
                == rendered_v6(v6)[i],
{
    let v4 = mapped_v4(v6);
    let r = rendered_v4(v4);
    let s = rendered_v6(v6);
    let f = seq!['f', 'f', 'f', 'f'];
    lemma_v4_round_trip(v4);
    assert(s[0] == ':' && s[1] == ':');
    assert(gap_at(s, 0));
    lemma_first_gap(s, 0, 0);
    assert(s.take(0) =~= Seq::<char>::empty());
    let t = s.skip(2);
    assert(t =~= f + seq![':'] + r);
    assert(!r.contains(':'));
    lemma_pieces_push(f, ':', r);
    lemma_pieces_single(f, ':');
    let p = pieces(t, ':');
    assert(p =~= seq![f, r]);
    let front = p.drop_last();
    assert(front =~= seq![f]);
    assert(is_group(f));
    assert(number(f, 16) == 0xffff) by {
        assert(f.drop_last() =~= seq!['f', 'f', 'f']);
        assert(f.drop_last().drop_last() =~= seq!['f', 'f']);
        assert(f.drop_last().drop_last().drop_last() =~= seq!['f']);
        assert(f.drop_last().drop_last().drop_last().drop_last() =~= Seq::<char>::empty());
        reveal_with_fuel(number, 5);
    }
    assert(!is_group(r)) by {
        let i = choose|i: int| 0 <= i < r.len() && r[i] == '.';
        assert(digit_value(r[i]) == 16);
    }
    let h = Seq::<u16>::empty();
    let g = front.map_values(|x: Seq<char>| group_value(x)) + v4_segments(v4);
    assert(parsed_groups(t, true) == Some(g));
    assert(g =~= seq![0xffffu16, v6.s6, v6.s7]);
    assert(h + zeros(5) + g =~= v6.segments());
    assert forall|i: int| 0 <= i < s.len() implies lower_char(#[trigger] s[i]) == s[i] by {
        if i >= 7 {
            assert(s[i] == r[i - 7]);
        }
    }
}

proof fn lemma_v6_round_trip(v6: Ipv6Addr)
    ensures
        parsed_v6(rendered_v6(v6)) == Some(v6),
        rendered_v6(v6).contains(':'),
        forall|i: int|
            0 <= i < rendered_v6(v6).len() ==> lower_char(#[trigger] rendered_v6(v6)[i])
                == rendered_v6(v6)[i],
{
    let g = v6.segments();
    let s = rendered_v6(v6);
    let k = longest_run(g, 8);
    let n = zero_run(g, k) as int;
    lemma_longest_run(g, 8);
    lemma_zero_run(g, k);
    if v6.is_v4_mapped() {
        lemma_mapped_round_trip(v6);
    } else if n > 1 {
        let h = g.take(k);
        let t = g.skip(k + n);
        let (a, b) = (joined(h), joined(t));
        let m = a.len() as int;
        lemma_joined_groups(h, false);
        lemma_joined_groups(t, true);
        if h.len() > 0 {
            lemma_joined(h);
        }
        if t.len() > 0 {
            lemma_joined(t);
        }
        assert(s == a + seq![':', ':'] + b);
        assert(s[m] == ':' && s[m + 1] == ':');
        assert forall|j: int| 0 <= j < m implies !(#[trigger] gap_at(s, j)) by {
            assert(s[j] == a[j]);
            if j + 1 < m {
                assert(s[j + 1] == a[j + 1]);
                assert(!gap_at(a, j));
            } else {
                assert(s[j] == a.last());
            }
        }
        lemma_first_gap(s, 0, m);
        assert(s.take(m) =~= a);
        assert(s.skip(m + 2) =~= b);
        assert(h + zeros(8 - h.len() - t.len()) + t =~= g) by {
            let z = h + zeros(n) + t;
            assert forall|i: int| 0 <= i < 8 implies z[i] == g[i] by {
                if k <= i < k + n {
                    assert(g[i] == 0);
                }
            }
        }
        assert forall|i: int| 0 <= i < s.len() implies lower_char(#[trigger] s[i]) == s[i] by {
            if i < m {
                assert(s[i] == a[i]);
            } else if i >= m + 2 {
                assert(s[i] == b[i - m - 2]);
            }
        }
    } else {
        lemma_joined(g);
        lemma_no_gap(s, 0);
        lemma_joined_groups(g, true);
    }
}

/// An address as it is written reads as that address.
pub proof fn written_addresses_read_back(ip: IpAddr)
    ensures
        parsed_ip(rendered_ip(ip)) == Some(ip),
{
    match ip {
        IpAddr::V4(v4) => lemma_v4_round_trip(v4),
        IpAddr::V6(v6) => {
            lemma_v6_round_trip(v6);
            lemma_no_v4(rendered_v6(v6));
        },
    }
}

/// Addresses are written without capital letters.
pub proof fn written_addresses_are_lower_case(ip: IpAddr)
    ensures
        lowered(rendered_ip(ip)) == rendered_ip(ip),
{
    match ip {
        IpAddr::V4(v4) => lemma_v4_round_trip(v4),
        IpAddr::V6(v6) => lemma_v6_round_trip(v6),
    }
    assert(lowered(rendered_ip(ip)) =~= rendered_ip(ip));
}

/// No two addresses are written alike.
pub proof fn addresses_are_written_apart(x: IpAddr, y: IpAddr)
    requires
        rendered_ip(x) == rendered_ip(y),
    ensures
        x == y,
{
    written_addresses_read_back(x);
    written_addresses_read_back(y);
}

/// The parts with `sep` between each two.
pub open spec fn joined_by(parts: Seq<Seq<char>>, sep: char) -> Seq<char>
    decreases parts.len(),
{
    if parts.len() == 0 {
        Seq::<char>::empty()
    } else if parts.len() == 1 {
        parts[0]
    } else {
        joined_by(parts.drop_last(), sep) + seq![sep] + parts.last()
    }
}

/// The pieces of a text make up the text again, with the separator between each two, and
/// none of them holds the separator.
pub proof fn pieces_make_up_the_text(s: Seq<char>, sep: char)
    ensures
        pieces(s, sep).len() >= 1,
        joined_by(pieces(s, sep), sep) == s,
        forall|p: int| 0 <= p < pieces(s, sep).len() ==> !(#[trigger] pieces(s, sep)[p]).contains(sep),
    decreases s.len(),
{
    if s.len() > 0 {
        let t = s.drop_last();
        let now = pieces(s, sep);
        let before = pieces(t, sep);
        pieces_make_up_the_text(t, sep);
        if s.last() == sep {
            assert(now.drop_last() =~= before);
            assert(joined_by(now, sep) =~= s);
            assert forall|p: int| 0 <= p < now.len() implies !(#[trigger] now[p]).contains(sep) by {
                if p < before.len() {
                    assert(now[p] == before[p]);
                }
            }
        } else {
            assert(now.drop_last() =~= before.drop_last());
            assert(now.last() == before.last().push(s.last()));
            assert(joined_by(now, sep) =~= joined_by(before, sep).push(s.last()));
            assert(t.push(s.last()) =~= s);
            assert forall|p: int| 0 <= p < now.len() implies !(#[trigger] now[p]).contains(sep) by {
                if p < before.len() - 1 {
                    assert(now[p] == before[p]);
                } else {
                    let b = before[before.len() - 1];
                    assert(!b.contains(sep));
                    assert forall|j: int| 0 <= j < now[p].len() implies now[p][j] != sep by {
                        if j < b.len() {
                            assert(now[p][j] == b[j]);
                        }
                    }
                }
            }
        }
    } else {
        assert(joined_by(pieces(s, sep), sep) =~= s);
    }
}

/// Parts that do not hold the separator are the pieces of what they make up.
pub proof fn parts_are_the_pieces(parts: Seq<Seq<char>>, sep: char)
    requires
        parts.len() >= 1,
        forall|p: int| 0 <= p < parts.len() ==> !(#[trigger] parts[p]).contains(sep),
    ensures
        pieces(joined_by(parts, sep), sep) == parts,
    decreases parts.len(),
{
    if parts.len() == 1 {
        lemma_pieces_single(parts[0], sep);
        assert(seq![parts[0]] =~= parts);
    } else {
        let front = parts.drop_last();
        assert forall|p: int| 0 <= p < front.len() implies !(#[trigger] front[p]).contains(
            sep,
        ) by {
            assert(front[p] == parts[p]);
        }
        parts_are_the_pieces(front, sep);
        assert(parts.last() == parts[parts.len() - 1]);
        lemma_pieces_push(joined_by(front, sep), sep, parts.last());
        assert(front.push(parts.last()) =~= parts);
    }
}

/// A digit behind a numeral makes the number `base` times as large and adds its value; an
/// empty numeral is zero.
pub proof fn numbers_grow_by_digits(s: Seq<char>, c: char, base: int)
    ensures
        number(Seq::<char>::empty(), base) == 0,
        '0' <= c <= '9' ==> number(s.push(c), base) == number(s, base) * base + (c as int
            - '0' as int),
        'a' <= c <= 'f' ==> number(s.push(c), base) == number(s, base) * base + 10 + (c as int
            - 'a' as int),
        'A' <= c <= 'F' ==> number(s.push(c), base) == number(s, base) * base + 10 + (c as int
            - 'A' as int),
{
    assert(s.push(c).drop_last() =~= s);
}

/// An IPv4 address is written as its four octets in decimal with dots between them.
pub proof fn v4_is_written_in_four_parts(v4: Ipv4Addr)
    ensures
        rendered_v4(v4) == joined_by(
            seq![
                decimal(v4.a as nat),
                decimal(v4.b as nat),
                decimal(v4.c as nat),
                decimal(v4.d as nat),
            ],
            '.',
        ),
{
    let p = seq![
        decimal(v4.a as nat),
        decimal(v4.b as nat),
        decimal(v4.c as nat),
        decimal(v4.d as nat),
    ];
    let q = p.drop_last();
    let r = q.drop_last();
    let t = r.drop_last();
    assert(t.len() == 1 && joined_by(t, '.') == p[0]);
    assert(joined_by(r, '.') == p[0] + seq!['.'] + p[1]);
    assert(joined_by(q, '.') == joined_by(r, '.') + seq!['.'] + p[2]);
    assert(joined_by(p, '.') == joined_by(q, '.') + seq!['.'] + p[3]);
}

/// Digits without a leading zero are the numeral of their number.
proof fn lemma_canonical(s: Seq<char>)
    requires
        s.len() >= 1,
        all_digits(s, 10),
        s.len() > 1 ==> s[0] != '0',
    ensures
        number(s, 10) >= 0,
        s[0] != '0' ==> number(s, 10) > 0,
        numeral(number(s, 10) as nat, 10) == s,
    decreases s.len(),
{
    let c = s.last();
    let t = s.drop_last();
    assert(digit_value(s[s.len() - 1]) < 10);
    assert('0' <= c <= '9');
    assert(digit_char(digit_value(c)) == c);
    if s.len() == 1 {
        assert(number(t, 10) == 0);
        assert(number(s, 10) == digit_value(c));
        assert(s =~= seq![c]);
    } else {
        assert(t[0] == s[0]);
        assert forall|i: int| 0 <= i < t.len() implies digit_value(#[trigger] t[i]) < 10 by {
            assert(t[i] == s[i]);
        }
        lemma_canonical(t);
        let n = number(s, 10) as nat;
        let m = number(t, 10) as nat;
        assert(n == m * 10 + digit_value(c));
        assert(n / 10 == m && n % 10 == digit_value(c));
        assert(numeral(n, 10) == numeral(m, 10).push(c));
        assert(t.push(c) =~= s);
    }
}

/// A text reads as an IPv4 address exactly if it is the address as it is written: there is
/// no second spelling.
pub proof fn v4_has_one_spelling(s: Seq<char>, v4: Ipv4Addr)
    ensures
        parsed_v4(s) == Some(v4) <==> s == rendered_v4(v4),
{
    lemma_v4_round_trip(v4);
    if parsed_v4(s) == Some(v4) {
        let p = pieces(s, '.');
        pieces_make_up_the_text(s, '.');
        lemma_canonical(p[0]);
        lemma_canonical(p[1]);
        lemma_canonical(p[2]);
        lemma_canonical(p[3]);
        assert(p =~= seq![
            decimal(v4.a as nat),
            decimal(v4.b as nat),
            decimal(v4.c as nat),
            decimal(v4.d as nat),
        ]);
        v4_is_written_in_four_parts(v4);
    }
}

/// One to four hexadecimal digits of either case.
pub open spec fn is_hex_text(s: Seq<char>) -> bool {
    &&& 1 <= s.len() <= 4
    &&& forall|i: int|
        0 <= i < s.len() ==> {
            ||| '0' <= #[trigger] s[i] <= '9'
            ||| 'a' <= s[i] <= 'f'
            ||| 'A' <= s[i] <= 'F'
        }
}

/// Whether each part writes one segment in hexadecimal.
pub open spec fn spells_hex(parts: Seq<Seq<char>>, g: Seq<u16>) -> bool {
    &&& parts.len() == g.len()
    &&& forall|i: int|
        0 <= i < parts.len() ==> is_hex_text(#[trigger] parts[i]) && g[i] == number(parts[i], 16)
}

/// Whether the last part writes the last two segments as the IPv4 address `v4`, and each
/// other part one segment in hexadecimal.
pub open spec fn spells_dotted(parts: Seq<Seq<char>>, g: Seq<u16>, v4: Ipv4Addr) -> bool {
    &&& parts.len() >= 1
    &&& g.len() == parts.len() + 1
    &&& spells_hex(parts.drop_last(), g.take(g.len() - 2))
    &&& parts.last() == rendered_v4(v4)
    &&& g[g.len() - 2] == v4.a * 256 + v4.b
    &&& g[g.len() - 1] == v4.c * 256 + v4.d
}

/// Whether the parts write the segments, the last two perhaps as an IPv4 address.
pub open spec fn spells(parts: Seq<Seq<char>>, g: Seq<u16>) -> bool {
    spells_hex(parts, g) || exists|v4: Ipv4Addr| spells_dotted(parts, g, v4)
}

/// Whether `s` writes all eight segments out.
pub open spec fn spelled_in_full(s: Seq<char>, v6: Ipv6Addr, parts: Seq<Seq<char>>) -> bool {
    spells(parts, v6.segments()) && s == joined_by(parts, ':')
}

/// Whether `s` writes the first segments, `::` for one or more that are zero, and the last
/// segments.
pub open spec fn spelled_with_gap(
    s: Seq<char>,
    v6: Ipv6Addr,
    head: Seq<Seq<char>>,
    tail: Seq<Seq<char>>,
    h: Seq<u16>,
    t: Seq<u16>,
) -> bool {
    &&& spells_hex(head, h)
    &&& spells(tail, t)
    &&& h.len() + t.len() <= 7
    &&& v6.segments() == h + Seq::new((8 - h.len() - t.len()) as nat, |i: int| 0u16) + t
    &&& s == joined_by(head, ':') + seq![':', ':'] + joined_by(tail, ':')
}

/// Whether `s` is a spelling of `v6`.
pub open spec fn spells_v6(s: Seq<char>, v6: Ipv6Addr) -> bool {
    ||| exists|parts: Seq<Seq<char>>| spelled_in_full(s, v6, parts)
    ||| exists|head: Seq<Seq<char>>, tail: Seq<Seq<char>>, h: Seq<u16>, t: Seq<u16>|
        spelled_with_gap(s, v6, head, tail, h, t)
}

proof fn lemma_hex_text(s: Seq<char>)
    ensures
        is_hex_text(s) <==> is_group(s),
        is_hex_text(s) ==> !s.contains(':') && 0 <= number(s, 16) <= 0xffff && group_value(s)
            == number(s, 16),
{
    if is_hex_text(s) {
        assert(is_group(s));
        lemma_group_bound(s, 16);
    }
    if is_group(s) {
        assert forall|i: int| 0 <= i < s.len() implies {
            ||| '0' <= #[trigger] s[i] <= '9'
            ||| 'a' <= s[i] <= 'f'
            ||| 'A' <= s[i] <= 'F'
        } by {
            assert(digit_value(s[i]) < 16);
        }
        assert(is_hex_text(s));
    }
}

proof fn lemma_group_bound(s: Seq<char>, base: int)
    requires
        s.len() <= 4,
        all_digits(s, 16),
        base == 16,
    ensures
        0 <= number(s, 16),
        s.len() == 0 ==> number(s, 16) < 1,
        s.len() == 1 ==> number(s, 16) < 0x10,
        s.len() == 2 ==> number(s, 16) < 0x100,
        s.len() == 3 ==> number(s, 16) < 0x1000,
        s.len() == 4 ==> number(s, 16) < 0x1_0000,
    decreases s.len(),
{
    if s.len() > 0 {
        let t = s.drop_last();
        assert forall|i: int| 0 <= i < t.len() implies digit_value(#[trigger] t[i]) < 16 by {
            assert(t[i] == s[i]);
        }
        assert(digit_value(s[s.len() - 1]) < 16);
        lemma_group_bound(t, base);
    }
}

/// Parts that are not empty and hold no colon, joined by colons.
proof fn lemma_gapless(parts: Seq<Seq<char>>)
    requires
        parts.len() >= 1,
        forall|p: int|
            0 <= p < parts.len() ==> (#[trigger] parts[p]).len() >= 1 && !parts[p].contains(':'),
    ensures
        joined_by(parts, ':').len() >= 1,
        joined_by(parts, ':')[0] != ':',
        joined_by(parts, ':').last() != ':',
        parts.len() >= 2 ==> joined_by(parts, ':').contains(':'),
        forall|i: int| !(#[trigger] gap_at(joined_by(parts, ':'), i)),
    decreases parts.len(),
{
    let s = joined_by(parts, ':');
    let x = parts.last();
    assert(x == parts[parts.len() - 1]);
    assert(x[0] != ':' && x[x.len() - 1] != ':');
    if parts.len() == 1 {
        assert forall|i: int| !(#[trigger] gap_at(s, i)) by {
            if gap_at(s, i) {
                assert(x[i] == ':');
            }
        }
    } else {
        let front = parts.drop_last();
        assert forall|p: int| 0 <= p < front.len() implies (#[trigger] front[p]).len() >= 1
            && !front[p].contains(':') by {
            assert(front[p] == parts[p]);
        }
        lemma_gapless(front);
        let t = joined_by(front, ':');
        assert(s[t.len() as int] == ':');
        assert(s.last() == x.last());
        assert forall|i: int| !(#[trigger] gap_at(s, i)) by {
            if gap_at(s, i) {
                if i + 1 < t.len() {
                    assert(gap_at(t, i));
                } else if i + 1 == t.len() {
                    assert(s[i] == t.last());
                } else if i == t.len() {
                    assert(s[i + 1] == x[0]);
                } else {
                    assert(s[i] == x[i - t.len() - 1]);
                }
            }
        }
    }
}

/// Parts that write segments are not empty and hold no colon.
proof fn lemma_spelled_parts(parts: Seq<Seq<char>>, g: Seq<u16>)
    requires
        spells(parts, g),
    ensures
        forall|p: int|
            0 <= p < parts.len() ==> (#[trigger] parts[p]).len() >= 1 && !parts[p].contains(':'),
{
    assert forall|p: int| 0 <= p < parts.len() implies (#[trigger] parts[p]).len() >= 1
        && !parts[p].contains(':') by {
        lemma_hex_text(parts[p]);
        if !spells_hex(parts, g) {
            let v4 = choose|v4: Ipv4Addr| spells_dotted(parts, g, v4);
            if p == parts.len() - 1 {
                lemma_v4_round_trip(v4);
            } else {
                assert(parts.drop_last()[p] == parts[p]);
            }
        }
    }
}

/// What [`parsed_groups`] reads is spelled by the pieces.
proof fn lemma_groups_spelled(s: Seq<char>, v4_tail: bool, g: Seq<u16>) -> (parts: Seq<Seq<char>>)
    requires
        parsed_groups(s, v4_tail) == Some(g),
    ensures
        s == joined_by(parts, ':'),
        if v4_tail {
            spells(parts, g)
        } else {
            spells_hex(parts, g)
        },
{
    if s.len() == 0 {
        let parts = Seq::<Seq<char>>::empty();
        assert(s =~= joined_by(parts, ':'));
        parts
    } else {
        let p = pieces(s, ':');
        let front = p.drop_last();
        pieces_make_up_the_text(s, ':');
        assert forall|i: int| 0 <= i < front.len() implies is_hex_text(#[trigger] front[i])
            && group_value(front[i]) == number(front[i], 16) by {
            assert(is_group(front[i]));
            lemma_hex_text(front[i]);
        }
        lemma_hex_text(p.last());
        if is_group(p.last()) {
            assert forall|i: int| 0 <= i < p.len() implies is_hex_text(#[trigger] p[i]) && g[i]
                == number(p[i], 16) by {
                if i < front.len() {
                    assert(front[i] == p[i]);
                } else {
                    assert(p[i] == p.last());
                }
            }
            assert(spells_hex(p, g));
        } else {
            let v4 = parsed_v4(p.last())->0;
            v4_has_one_spelling(p.last(), v4);
            assert(g.take(g.len() - 2) =~= front.map_values(|x: Seq<char>| group_value(x)));
            assert(spells_dotted(p, g, v4));
        }
        p
    }
}

/// What parts spell is read by [`parsed_groups`].
proof fn lemma_spelled_groups(parts: Seq<Seq<char>>, v4_tail: bool, g: Seq<u16>)
    requires
        if v4_tail {
            spells(parts, g)
        } else {
            spells_hex(parts, g)
        },
    ensures
        parsed_groups(joined_by(parts, ':'), v4_tail) == Some(g),
{
    let s = joined_by(parts, ':');
    if parts.len() == 0 {
        assert(s =~= Seq::<char>::empty());
        assert(spells_hex(parts, g));
        assert(g =~= Seq::<u16>::empty());
    } else {
        lemma_spelled_parts(parts, g);
        lemma_gapless(parts);
        parts_are_the_pieces(parts, ':');
        let front = parts.drop_last();
        assert(parts.last() == parts[parts.len() - 1]);
        assert forall|i: int| 0 <= i < front.len() implies is_group(#[trigger] front[i]) by {
            assert(front[i] == parts[i]);
            lemma_hex_text(parts[i]);
        }
        if spells_hex(parts, g) {
            lemma_hex_text(parts.last());
            let read = parts.map_values(|x: Seq<char>| group_value(x));
            assert forall|i: int| 0 <= i < parts.len() implies read[i] == g[i] by {
                lemma_hex_text(parts[i]);
            }
            assert(read =~= g);
        } else {
            let v4 = choose|v4: Ipv4Addr| spells_dotted(parts, g, v4);
            v4_has_one_spelling(parts.last(), v4);
            lemma_v4_round_trip(v4);
            assert(!is_group(parts.last())) by {
                let i = choose|i: int| 0 <= i < parts.last().len() && parts.last()[i] == '.';
                assert(digit_value(parts.last()[i]) == 16);
            }
            let read = front.map_values(|x: Seq<char>| group_value(x)) + v4_segments(v4);
            let short = g.take(g.len() - 2);
            assert forall|i: int| 0 <= i < front.len() implies read[i] == g[i] by {
                lemma_hex_text(front[i]);
                assert(short[i] == g[i]);
            }
            assert(read =~= g);
        }
    }
}

proof fn lemma_read_is_spelled(s: Seq<char>, v6: Ipv6Addr)
    requires
        parsed_v6(s) == Some(v6),
    ensures
        spells_v6(s, v6),
{
    match first_gap(s, 0) {
        Some(k) => {
            lemma_first_gap_range(s, 0);
            let (a, b) = (s.take(k), s.skip(k + 2));
            let h = parsed_groups(a, false)->0;
            let t = parsed_groups(b, true)->0;
            let head = lemma_groups_spelled(a, false, h);
            let tail = lemma_groups_spelled(b, true, t);
            assert(s =~= a + seq![':', ':'] + b);
            let z = h + zeros(8 - h.len() - t.len()) + t;
            assert(z.len() == 8);
            assert(v6 == from_segments(z));
            assert(v6.segments() =~= z);
            assert(spelled_with_gap(s, v6, head, tail, h, t));
        },
        None => {
            let g = parsed_groups(s, true)->0;
            let parts = lemma_groups_spelled(s, true, g);
            assert(v6.segments() =~= g);
            assert(spelled_in_full(s, v6, parts));
        },
    }
}

proof fn lemma_full_is_read(s: Seq<char>, v6: Ipv6Addr, parts: Seq<Seq<char>>)
    requires
        spelled_in_full(s, v6, parts),
    ensures
        parsed_v6(s) == Some(v6),
        s.contains(':'),
{
    let g = v6.segments();
    lemma_spelled_parts(parts, g);
    assert(parts.len() >= 2) by {
        if !spells_hex(parts, g) {
            let v4 = choose|v4: Ipv4Addr| spells_dotted(parts, g, v4);
            assert(spells_dotted(parts, g, v4));
        }
    }
    lemma_gapless(parts);
    lemma_no_gap(s, 0);
    lemma_spelled_groups(parts, true, g);
    assert(from_segments(g) == v6);
}

proof fn lemma_gapped_is_read(
    s: Seq<char>,
    v6: Ipv6Addr,
    head: Seq<Seq<char>>,
    tail: Seq<Seq<char>>,
    h: Seq<u16>,
    t: Seq<u16>,
)
    requires
        spelled_with_gap(s, v6, head, tail, h, t),
    ensures
        parsed_v6(s) == Some(v6),
        s.contains(':'),
{
    let (a, b) = (joined_by(head, ':'), joined_by(tail, ':'));
    let m = a.len() as int;
    lemma_spelled_groups(head, false, h);
    lemma_spelled_groups(tail, true, t);
    if head.len() > 0 {
        lemma_spelled_parts(head, h);
        lemma_gapless(head);
    }
    assert(s[m] == ':' && s[m + 1] == ':');
    assert forall|j: int| 0 <= j < m implies !(#[trigger] gap_at(s, j)) by {
        assert(s[j] == a[j]);
        if j + 1 < m {
            assert(s[j + 1] == a[j + 1]);
            assert(!gap_at(a, j));
        } else {
            assert(s[j] == a.last());
        }
    }
    lemma_first_gap(s, 0, m);
    assert(s.take(m) =~= a);
    assert(s.skip(m + 2) =~= b);
    let n = 8 - h.len() - t.len();
    assert(zeros(n) =~= Seq::new(n as nat, |i: int| 0u16));
    assert(from_segments(v6.segments()) == v6);
}

/// A text reads as an IPv6 address exactly if it is one of its spellings.
pub proof fn v6_is_read_from_its_spellings(s: Seq<char>, v6: Ipv6Addr)
    ensures
        parsed_v6(s) == Some(v6) <==> spells_v6(s, v6),
        spells_v6(s, v6) ==> s.contains(':'),
{
    if parsed_v6(s) == Some(v6) {
        lemma_read_is_spelled(s, v6);
    }
    if exists|parts: Seq<Seq<char>>| spelled_in_full(s, v6, parts) {
        let parts = choose|parts: Seq<Seq<char>>| spelled_in_full(s, v6, parts);
        lemma_full_is_read(s, v6, parts);
    } else if spells_v6(s, v6) {
        let (head, tail, h, t) = choose|
            head: Seq<Seq<char>>,
            tail: Seq<Seq<char>>,
            h: Seq<u16>,
            t: Seq<u16>,
        |
            spelled_with_gap(s, v6, head, tail, h, t);
        lemma_gapped_is_read(s, v6, head, tail, h, t);
    }
}

/// A text reads as an address exactly if it is that address as it is written, for IPv4, or
/// one of its spellings, for IPv6.
pub proof fn literals_are_the_spellings(s: Seq<char>, ip: IpAddr)
    ensures
        parsed_ip(s) == Some(ip) <==> match ip {
            IpAddr::V4(v4) => s == rendered_v4(v4),
            IpAddr::V6(v6) => spells_v6(s, v6),
        },
{
    match ip {
        IpAddr::V4(v4) => v4_has_one_spelling(s, v4),
        IpAddr::V6(v6) => {
            v6_is_read_from_its_spellings(s, v6);
            if spells_v6(s, v6) {
                lemma_no_v4(s);
            }
        },
    }
}

/// The segments in hexadecimal.
pub open spec fn hexadecimals(g: Seq<u16>) -> Seq<Seq<char>> {
    g.map_values(|x: u16| hexadecimal(x as nat))
}

/// Whether `n` segments from `i` on are there and zero.
pub open spec fn zero_from(g: Seq<u16>, i: int, n: int) -> bool {
    &&& 0 <= i
    &&& 0 <= n
    &&& i + n <= g.len()
    &&& forall|j: int| i <= j < i + n ==> #[trigger] g[j] == 0
}

proof fn lemma_joined_by(g: Seq<u16>)
    ensures
        joined(g) == joined_by(hexadecimals(g), ':'),
    decreases g.len(),
{
    if g.len() > 1 {
        lemma_joined_by(g.drop_last());
        assert(hexadecimals(g).drop_last() =~= hexadecimals(g.drop_last()));
    }
}

proof fn lemma_zero_run_is_longest(g: Seq<u16>, i: int, n: int)
    requires
        zero_from(g, i, n),
    ensures
        n <= zero_run(g, i),
    decreases n,
{
    if n > 0 {
        assert(g[i] == 0);
        lemma_zero_run_is_longest(g, i + 1, n - 1);
    }
}

/// An IPv6 address that is not IPv4-mapped is written in hexadecimal with the longest run
/// of two or more zero segments, the first of them where two are equally long, left out
/// between two colons.
pub proof fn v6_is_written_without_its_first_longest_run(v6: Ipv6Addr, k: int, n: int)
    requires
        !(v6.s0 == 0 && v6.s1 == 0 && v6.s2 == 0 && v6.s3 == 0 && v6.s4 == 0 && v6.s5 == 0xffff),
        n >= 2,
        zero_from(v6.segments(), k, n),
        forall|i: int, m: int| #[trigger]
            zero_from(v6.segments(), i, m) ==> m < n || (m == n && k <= i),
    ensures
        rendered_ip(IpAddr::V6(v6)) == joined_by(hexadecimals(v6.segments().take(k)), ':') + seq![
            ':',
            ':',
        ] + joined_by(hexadecimals(v6.segments().skip(k + n)), ':'),
{
    let g = v6.segments();
    let b = longest_run(g, 8);
    lemma_longest_run(g, 8);
    lemma_zero_run(g, b);
    lemma_zero_run(g, k);
    assert(zero_from(g, b, zero_run(g, b) as int));
    assert(zero_from(g, k, zero_run(g, k) as int));
    lemma_zero_run_is_longest(g, k, n);
    assert(zero_run(g, k) <= zero_run(g, b));
    assert(b == k && zero_run(g, b) == n);
    lemma_joined_by(g.take(k));
    lemma_joined_by(g.skip(k + n));
}

/// An IPv6 address without two zero segments next to each other is written in full.
pub proof fn v6_without_zeros_together_is_written_in_full(v6: Ipv6Addr)
    requires
        forall|i: int| !(#[trigger] zero_from(v6.segments(), i, 2)),
    ensures
        rendered_ip(IpAddr::V6(v6)) == joined_by(hexadecimals(v6.segments()), ':'),
{
    let g = v6.segments();
    let b = longest_run(g, 8);
    lemma_longest_run(g, 8);
    lemma_zero_run(g, b);
    assert(!zero_from(g, b, 2));
    assert(!zero_from(g, 0, 2));
    assert(!(g[0] == 0 && g[1] == 0));
    lemma_joined_by(g);
}

/// An IPv4-mapped address is written `::ffff:` and the IPv4 address in it.
pub proof fn mapped_addresses_are_written_dotted(v6: Ipv6Addr, v4: Ipv4Addr)
    requires
        v6.s0 == 0 && v6.s1 == 0 && v6.s2 == 0 && v6.s3 == 0 && v6.s4 == 0 && v6.s5 == 0xffff,
        v6.s6 == v4.a * 256 + v4.b,
        v6.s7 == v4.c * 256 + v4.d,
    ensures
        rendered_ip(IpAddr::V6(v6)) == "::ffff:"@ + rendered_ip(IpAddr::V4(v4)),
{
    reveal_strlit("::ffff:");
    assert("::ffff:"@ =~= seq![':', ':', 'f', 'f', 'f', 'f', ':']);
    assert(mapped_v4(v6) == v4);
}

/// An IPv4 address is written as four decimals with dots between them.
pub proof fn v4_is_written_dotted(v4: Ipv4Addr)
    ensures
        rendered_ip(IpAddr::V4(v4)) == joined_by(
            seq![
                decimal(v4.a as nat),
                decimal(v4.b as nat),
                decimal(v4.c as nat),
                decimal(v4.d as nat),
            ],
            '.',
        ),
{
    v4_is_written_in_four_parts(v4);
}

/// The numbers of IPv4 addresses stand in the order of their octets, the first one first.
pub proof fn v4_numbers_follow_the_octets(x: Ipv4Addr, y: Ipv4Addr)
    ensures
        0 <= x.value() < 0x1_0000_0000,
        x.value() == y.value() <==> x == y,
        x.value() < y.value() <==> {
            ||| x.a < y.a
            ||| x.a == y.a && x.b < y.b
            ||| x.a == y.a && x.b == y.b && x.c < y.c
            ||| x.a == y.a && x.b == y.b && x.c == y.c && x.d < y.d
        },
{
}

/// The numbers of IPv6 addresses stand in the order of their segments, the first one first.
pub proof fn v6_numbers_follow_the_segments(x: Ipv6Addr, y: Ipv6Addr)
    ensures
        0 <= x.value() < 0x1_0000_0000_0000_0000_0000_0000_0000_0000,
        x.value() == y.value() <==> x == y,
        x.value() < y.value() <==> {
            ||| x.s0 < y.s0
            ||| x.s0 == y.s0 && x.s1 < y.s1
            ||| x.s0 == y.s0 && x.s1 == y.s1 && x.s2 < y.s2
            ||| x.s0 == y.s0 && x.s1 == y.s1 && x.s2 == y.s2 && x.s3 < y.s3
            ||| x.s0 == y.s0 && x.s1 == y.s1 && x.s2 == y.s2 && x.s3 == y.s3 && x.s4 < y.s4
            ||| x.s0 == y.s0 && x.s1 == y.s1 && x.s2 == y.s2 && x.s3 == y.s3 && x.s4 == y.s4 && x.s5
                < y.s5
            ||| x.s0 == y.s0 && x.s1 == y.s1 && x.s2 == y.s2 && x.s3 == y.s3 && x.s4 == y.s4 && x.s5
                == y.s5 && x.s6 < y.s6
            ||| x.s0 == y.s0 && x.s1 == y.s1 && x.s2 == y.s2 && x.s3 == y.s3 && x.s4 == y.s4 && x.s5
                == y.s5 && x.s6 == y.s6 && x.s7 < y.s7
        },
{
}

} // verus!
