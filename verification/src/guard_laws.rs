//! What the guard promises of every fetch.
use crate::guard::{
    addrs_verdict, exceptions, fetch_exceptions, fetch_step, fetch_verdict, first_refused,
    lookup_verdict, lookup_view, policy_check, restricted, restricted_v4, restricted_v6,
    unbracketed, verdict_view, vouched, DnsPin, FetchStep, FetchStepView, Verdict,
};
use crate::ip::{IpAddr, Ipv4Addr, Ipv6Addr};
use crate::ip_laws::{
    literal_char, literals_hold_literal_characters, written_addresses_are_lower_case,
    written_addresses_read_back,
};
use crate::ip_text::{mapped_v4, parsed_ip, rendered_ip};
use crate::network_policy::NetworkPolicyDecider;
use crate::text::lowered;
use crate::tool::{ToolError, ToolErrorKind};
use crate::url::Url;
use vstd::arithmetic::power2::{
    lemma2_to64, lemma2_to64_rest, lemma_pow2_adds, lemma_pow2_pos, pow2,
};
use vstd::prelude::*;

verus! {

/// Whether the scheme is one that can be fetched.
pub open spec fn fetchable(scheme: Seq<char>) -> bool {
    scheme == "http"@ || scheme == "https"@
}

/// The IPv4 address with these octets.
pub open spec fn v4(a: u8, b: u8, c: u8, d: u8) -> Ipv4Addr {
    Ipv4Addr { a, b, c, d }
}

/// The IPv6 address whose first segment is `s0` and whose others are zero.
pub open spec fn v6(s0: u16) -> Ipv6Addr {
    Ipv6Addr { s0, s1: 0, s2: 0, s3: 0, s4: 0, s5: 0, s6: 0, s7: 0 }
}

/// The restricted IPv4 addresses are those of these blocks.
pub proof fn restricted_v4_blocks(ip: Ipv4Addr)
    ensures
        restricted_v4(ip) <==> {
            ||| ip.in_block(v4(127, 0, 0, 0), 8)
            ||| ip.in_block(v4(10, 0, 0, 0), 8)
            ||| ip.in_block(v4(172, 16, 0, 0), 12)
            ||| ip.in_block(v4(192, 168, 0, 0), 16)
            ||| ip.in_block(v4(169, 254, 0, 0), 16)
            ||| ip.in_block(v4(224, 0, 0, 0), 4)
            ||| ip.in_block(v4(240, 0, 0, 0), 4)
            ||| ip.in_block(v4(0, 0, 0, 0), 32)
            ||| ip.in_block(v4(100, 64, 0, 0), 10)
            ||| ip.in_block(v4(198, 18, 0, 0), 15)
        },
{
    lemma2_to64();
    let n = ip.value();
    assert(ip.in_block(v4(127, 0, 0, 0), 8) <==> n / 0x100_0000
        == v4(127, 0, 0, 0).value() / 0x100_0000);
    assert(ip.in_block(v4(10, 0, 0, 0), 8) <==> n / 0x100_0000
        == v4(10, 0, 0, 0).value() / 0x100_0000);
    assert(ip.in_block(v4(172, 16, 0, 0), 12) <==> n / 0x10_0000
        == v4(172, 16, 0, 0).value() / 0x10_0000);
    assert(ip.in_block(v4(192, 168, 0, 0), 16) <==> n / 0x1_0000
        == v4(192, 168, 0, 0).value() / 0x1_0000);
    assert(ip.in_block(v4(169, 254, 0, 0), 16) <==> n / 0x1_0000
        == v4(169, 254, 0, 0).value() / 0x1_0000);
    assert(ip.in_block(v4(224, 0, 0, 0), 4) <==> n / 0x1000_0000
        == v4(224, 0, 0, 0).value() / 0x1000_0000);
    assert(ip.in_block(v4(240, 0, 0, 0), 4) <==> n / 0x1000_0000
        == v4(240, 0, 0, 0).value() / 0x1000_0000);
    assert(ip.in_block(v4(0, 0, 0, 0), 32) <==> n / 1 == v4(0, 0, 0, 0).value() / 1);
    assert(ip.in_block(v4(100, 64, 0, 0), 10) <==> n / 0x40_0000
        == v4(100, 64, 0, 0).value() / 0x40_0000);
    assert(ip.in_block(v4(198, 18, 0, 0), 15) <==> n / 0x2_0000
        == v4(198, 18, 0, 0).value() / 0x2_0000);
}

/// The restricted IPv6 addresses are those of these blocks, of the IPv4-mapped ones only
/// those with a restricted IPv4 address in them.
pub proof fn restricted_v6_blocks(ip: Ipv6Addr)
    ensures
        restricted_v6(ip) <==> {
            ||| ip.in_block(v6(0), 128)
            ||| ip.in_block(Ipv6Addr { s7: 1, ..v6(0) }, 128)
            ||| ip.in_block(Ipv6Addr { s5: 0xffff, ..v6(0) }, 96) && restricted_v4(mapped_v4(ip))
            ||| ip.in_block(v6(0xff00), 8)
            ||| ip.in_block(v6(0xfc00), 7)
            ||| ip.in_block(v6(0xfe80), 10)
        },
{
    lemma2_to64();
    lemma2_to64_rest();
    lemma_pow2_adds(64, 54);
    lemma_pow2_adds(64, 56);
    lemma_pow2_adds(64, 57);
    assert(pow2(118) == 0x40_0000_0000_0000_0000_0000_0000_0000);
    assert(pow2(120) == 0x100_0000_0000_0000_0000_0000_0000_0000);
    assert(pow2(121) == 0x200_0000_0000_0000_0000_0000_0000_0000);
    let n = ip.value();
    assert(ip.in_block(v6(0), 128) <==> n / 1 == v6(0).value() / 1);
    assert(ip.in_block(Ipv6Addr { s7: 1, ..v6(0) }, 128) <==> n / 1
        == (Ipv6Addr { s7: 1, ..v6(0) }).value() / 1);
    assert(ip.in_block(Ipv6Addr { s5: 0xffff, ..v6(0) }, 96) <==> n / 0x1_0000_0000
        == (Ipv6Addr { s5: 0xffff, ..v6(0) }).value() / 0x1_0000_0000);
    assert(ip.in_block(v6(0xff00), 8) <==> n / 0x100_0000_0000_0000_0000_0000_0000_0000
        == v6(0xff00).value() / 0x100_0000_0000_0000_0000_0000_0000_0000);
    assert(ip.in_block(v6(0xfc00), 7) <==> n / 0x200_0000_0000_0000_0000_0000_0000_0000
        == v6(0xfc00).value() / 0x200_0000_0000_0000_0000_0000_0000_0000);
    assert(ip.in_block(v6(0xfe80), 10) <==> n / 0x40_0000_0000_0000_0000_0000_0000_0000
        == v6(0xfe80).value() / 0x40_0000_0000_0000_0000_0000_0000_0000);
}

/// An IPv4 address and its IPv4-mapped form are restricted alike: the form neither gets
/// round the block nor brings one about.
pub proof fn mapped_addresses_are_restricted_alike(ip: Ipv4Addr)
    ensures
        restricted(IpAddr::V6(Ipv6Addr::mapped(ip))) == restricted(IpAddr::V4(ip)),
{
    assert(mapped_v4(Ipv6Addr::mapped(ip)) == ip);
}

proof fn lemma_first_refused(
    host: Seq<char>,
    addrs: Seq<IpAddr>,
    decider: Option<NetworkPolicyDecider>,
    i: int,
)
    requires
        0 <= i,
    ensures
        first_refused(host, addrs, decider, i) is None <==> forall|j: int|
            i <= j < addrs.len() ==> !restricted(#[trigger] addrs[j]) || vouched(
                host,
                addrs[j],
                decider,
            ),
        first_refused(host, addrs, decider, i) matches Some(ip) ==> restricted(ip) && !vouched(
            host,
            ip,
            decider,
        ),
    decreases addrs.len() - i,
{
    if i < addrs.len() {
        lemma_first_refused(host, addrs, decider, i + 1);
    }
}

/// A pin stands for checked addresses: a fetch that ends with one has a scheme that can be
/// fetched and a host, in lower case, that the policy allows; the pin is the first address
/// of its lookup; and no address of the lookup is restricted, unless the policy vouches
/// for it.
pub proof fn pins_are_checked(
    parts: (Seq<char>, Option<Seq<char>>),
    lookup: Result<Seq<IpAddr>, Seq<char>>,
    decider: Option<NetworkPolicyDecider>,
    tool: Seq<char>,
)
    requires
        fetch_verdict(parts, lookup, decider, tool) matches Ok(Some(_)),
    ensures
        ({
            let (host, ip) = fetch_verdict(parts, lookup, decider, tool)->Ok_0->0;
            &&& fetchable(parts.0)
            &&& parts.1 is Some
            &&& host == lowered(parts.1->0)
            &&& policy_check(host, decider, tool) is Ok
            &&& lookup is Ok
            &&& lookup->Ok_0.len() > 0
            &&& ip == lookup->Ok_0[0]
            &&& forall|j: int|
                0 <= j < lookup->Ok_0.len() ==> !restricted(#[trigger] lookup->Ok_0[j]) || vouched(
                    host,
                    lookup->Ok_0[j],
                    decider,
                )
        }),
{
    let host = lowered(parts.1->0);
    lemma_first_refused(host, lookup->Ok_0, decider, 0);
}

/// Without a policy no fetch is pinned to a restricted address, nor to a host with one.
pub proof fn pins_are_public_without_policy(
    parts: (Seq<char>, Option<Seq<char>>),
    lookup: Result<Seq<IpAddr>, Seq<char>>,
    tool: Seq<char>,
)
    requires
        fetch_verdict(parts, lookup, None, tool) matches Ok(Some(_)),
    ensures
        fetch_verdict(parts, lookup, None, tool) matches Ok(Some(pin)) && !restricted(pin.1),
        forall|j: int| 0 <= j < lookup->Ok_0.len() ==> !restricted(#[trigger] lookup->Ok_0[j]),
{
    pins_are_checked(parts, lookup, None, tool);
}

/// A host with one restricted address that the policy does not vouch for is refused,
/// whatever its other addresses are.
pub proof fn one_bad_address_is_enough(
    host: Seq<char>,
    addrs: Seq<IpAddr>,
    i: int,
    decider: Option<NetworkPolicyDecider>,
    tool: Seq<char>,
)
    requires
        0 <= i < addrs.len(),
        restricted(addrs[i]),
        !vouched(host, addrs[i], decider),
    ensures
        lookup_verdict(host, Ok(addrs), decider, tool) matches Err(e) && e.0
            == ToolErrorKind::PermissionDenied,
{
    lemma_first_refused(host, addrs, decider, 0);
}

/// A host that was looked up is let through exactly if it has addresses and each one is
/// public or vouched for.
pub proof fn lookups_pass_exactly_if_every_address_does(
    host: Seq<char>,
    addrs: Seq<IpAddr>,
    decider: Option<NetworkPolicyDecider>,
    tool: Seq<char>,
)
    ensures
        lookup_verdict(host, Ok(addrs), decider, tool) is Ok <==> {
            &&& addrs.len() > 0
            &&& forall|j: int|
                0 <= j < addrs.len() ==> !restricted(#[trigger] addrs[j]) || vouched(
                    host,
                    addrs[j],
                    decider,
                )
        },
{
    lemma_first_refused(host, addrs, decider, 0);
}

/// A fetch ends without a pin exactly if its host is a literal public address that the
/// policy allows; the lookup plays no part in it.
pub proof fn unpinned_fetches_are_public_literals(
    parts: (Seq<char>, Option<Seq<char>>),
    lookup: Result<Seq<IpAddr>, Seq<char>>,
    decider: Option<NetworkPolicyDecider>,
    tool: Seq<char>,
)
    ensures
        fetch_verdict(parts, lookup, decider, tool) == Verdict::Ok(None) <==> {
            &&& fetchable(parts.0)
            &&& parts.1 is Some
            &&& policy_check(lowered(parts.1->0), decider, tool) is Ok
            &&& parsed_ip(unbracketed(lowered(parts.1->0))) matches Some(ip) && !restricted(ip)
        },
{
    if parts.1 is Some {
        let host = lowered(parts.1->0);
        if host == "localhost"@ || host == "localhost.localdomain"@ {
            lemma_localhost_is_no_literal(host);
        }
    }
}

proof fn lemma_localhost_is_no_literal(host: Seq<char>)
    requires
        host == "localhost"@ || host == "localhost.localdomain"@,
    ensures
        parsed_ip(unbracketed(host)) is None,
{
    reveal_strlit("localhost");
    reveal_strlit("localhost.localdomain");
    assert(host[0] == 'l');
    assert(unbracketed(host) == host);
    if parsed_ip(host) is Some {
        literals_hold_literal_characters(host);
    }
}

/// What the policy does not allow is refused with the policy's answer, whatever a lookup
/// would give.
pub proof fn policy_has_the_first_word(
    scheme: Seq<char>,
    host: Seq<char>,
    lookup: Result<Seq<IpAddr>, Seq<char>>,
    decider: Option<NetworkPolicyDecider>,
    tool: Seq<char>,
)
    requires
        fetchable(scheme),
        policy_check(lowered(host), decider, tool) is Err,
    ensures
        fetch_verdict((scheme, Some(host)), lookup, decider, tool) == Verdict::Err(
            policy_check(lowered(host), decider, tool)->Err_0,
        ),
{
}

/// The local host is never fetched under its names, in whatever case they are written.
pub proof fn localhost_is_never_fetched(
    scheme: Seq<char>,
    host: Seq<char>,
    lookup: Result<Seq<IpAddr>, Seq<char>>,
    decider: Option<NetworkPolicyDecider>,
    tool: Seq<char>,
)
    requires
        lowered(host) == "localhost"@ || lowered(host) == "localhost.localdomain"@,
    ensures
        fetch_verdict((scheme, Some(host)), lookup, decider, tool) is Err,
{
}

/// A restricted address in its text form, bare or in square brackets, is never fetched,
/// whatever the policy and the lookup.
pub proof fn restricted_literals_are_never_fetched(
    scheme: Seq<char>,
    ip: IpAddr,
    lookup: Result<Seq<IpAddr>, Seq<char>>,
    decider: Option<NetworkPolicyDecider>,
    tool: Seq<char>,
)
    requires
        restricted(ip),
    ensures
        fetch_verdict((scheme, Some(rendered_ip(ip))), lookup, decider, tool) is Err,
        fetch_verdict((scheme, Some(bracketed(rendered_ip(ip)))), lookup, decider, tool) is Err,
{
    written_addresses_read_back(ip);
    written_addresses_are_lower_case(ip);
    lemma_literal_hosts(rendered_ip(ip));
}

/// A public address in its text form, bare or in square brackets, is fetched without a
/// pin where no policy is configured.
pub proof fn public_literals_are_fetched(
    scheme: Seq<char>,
    ip: IpAddr,
    lookup: Result<Seq<IpAddr>, Seq<char>>,
    tool: Seq<char>,
)
    requires
        fetchable(scheme),
        !restricted(ip),
    ensures
        fetch_verdict((scheme, Some(rendered_ip(ip))), lookup, None, tool) == Verdict::Ok(None),
        fetch_verdict((scheme, Some(bracketed(rendered_ip(ip)))), lookup, None, tool)
            == Verdict::Ok(None),
{
    written_addresses_read_back(ip);
    written_addresses_are_lower_case(ip);
    lemma_literal_hosts(rendered_ip(ip));
    unpinned_fetches_are_public_literals(
        (scheme, Some(rendered_ip(ip))),
        lookup,
        None,
        tool,
    );
    unpinned_fetches_are_public_literals(
        (scheme, Some(bracketed(rendered_ip(ip)))),
        lookup,
        None,
        tool,
    );
}

/// `host` in square brackets.
pub open spec fn bracketed(host: Seq<char>) -> Seq<char> {
    seq!['['] + host + seq![']']
}

/// A literal comes out of its brackets, has none of its own, and case does not touch them.
proof fn lemma_literal_hosts(host: Seq<char>)
    requires
        parsed_ip(lowered(host)) is Some,
    ensures
        unbracketed(lowered(host)) == lowered(host),
        unbracketed(lowered(bracketed(host))) == lowered(host),
{
    let low = lowered(host);
    literals_hold_literal_characters(low);
    if low.len() > 0 {
        assert(literal_char(low[0]));
    }
    assert(lowered(bracketed(host)) =~= bracketed(low));
    assert(unbracketed(bracketed(low)) =~= low);
}

/// Square brackets round an address literal make no difference to the address rules: where
/// no policy is configured, both forms end alike.
pub proof fn brackets_make_no_difference(
    scheme: Seq<char>,
    host: Seq<char>,
    lookup: Result<Seq<IpAddr>, Seq<char>>,
    tool: Seq<char>,
)
    requires
        parsed_ip(lowered(host)) is Some,
    ensures
        fetch_verdict((scheme, Some(bracketed(host))), lookup, None, tool) == fetch_verdict(
            (scheme, Some(host)),
            lookup,
            None,
            tool,
        ),
{
    lemma_literal_hosts(host);
    let low = lowered(host);
    if low == "localhost"@ || low == "localhost.localdomain"@ {
        lemma_localhost_is_no_literal(low);
    }
    let b = lowered(bracketed(host));
    if b == "localhost"@ || b == "localhost.localdomain"@ {
        lemma_localhost_is_no_literal(b);
    }
}

/// The case in which a host is written makes no difference.
pub proof fn case_makes_no_difference(
    scheme: Seq<char>,
    host: Seq<char>,
    lookup: Result<Seq<IpAddr>, Seq<char>>,
    decider: Option<NetworkPolicyDecider>,
    tool: Seq<char>,
)
    ensures
        fetch_verdict((scheme, Some(lowered(host))), lookup, decider, tool) == fetch_verdict(
            (scheme, Some(host)),
            lookup,
            decider,
            tool,
        ),
{
    assert(lowered(lowered(host)) =~= lowered(host));
}

/// The input is at fault exactly if the scheme cannot be fetched or there is no host;
/// every other refusal is a denied permission.
pub proof fn input_is_at_fault_without_scheme_or_host(
    parts: (Seq<char>, Option<Seq<char>>),
    lookup: Result<Seq<IpAddr>, Seq<char>>,
    decider: Option<NetworkPolicyDecider>,
    tool: Seq<char>,
)
    ensures
        (fetch_verdict(parts, lookup, decider, tool) matches Err(e) && e.0
            == ToolErrorKind::InvalidInput) <==> !fetchable(parts.0) || parts.1 is None,
{
    if parts.1 is Some && lookup is Ok {
        lemma_first_refused(lowered(parts.1->0), lookup->Ok_0, decider, 0);
    }
}

/// Nothing is recorded where no policy is configured.
pub proof fn no_policy_records_nothing(
    parts: (Seq<char>, Option<Seq<char>>),
    lookup: Result<Seq<IpAddr>, Seq<char>>,
    tool: Seq<char>,
)
    ensures
        fetch_exceptions(parts, lookup, None, tool) == 0,
{
    if parts.1 is Some && lookup is Ok {
        lemma_no_exceptions(lowered(parts.1->0), lookup->Ok_0, 0);
    }
}

proof fn lemma_no_exceptions(host: Seq<char>, addrs: Seq<IpAddr>, i: int)
    requires
        0 <= i,
    ensures
        exceptions(host, addrs, None, i) == 0,
    decreases addrs.len() - i,
{
    if i < addrs.len() {
        lemma_no_exceptions(host, addrs, i + 1);
    }
}

/// How many of the addresses from `i` on are restricted.
pub open spec fn restricted_count(addrs: Seq<IpAddr>, i: int) -> nat
    decreases addrs.len() - i,
{
    if i < 0 || i >= addrs.len() {
        0
    } else {
        (if restricted(addrs[i]) {
            1nat
        } else {
            0nat
        }) + restricted_count(addrs, i + 1)
    }
}

/// Every restricted address of a host that is let through leaves one record.
pub proof fn every_exception_is_recorded(
    parts: (Seq<char>, Option<Seq<char>>),
    lookup: Result<Seq<IpAddr>, Seq<char>>,
    decider: Option<NetworkPolicyDecider>,
    tool: Seq<char>,
)
    requires
        fetch_verdict(parts, lookup, decider, tool) matches Ok(Some(_)),
    ensures
        fetch_exceptions(parts, lookup, decider, tool) == restricted_count(lookup->Ok_0, 0),
{
    lemma_all_exceptions(lowered(parts.1->0), lookup->Ok_0, decider, 0);
}

proof fn lemma_all_exceptions(
    host: Seq<char>,
    addrs: Seq<IpAddr>,
    decider: Option<NetworkPolicyDecider>,
    i: int,
)
    requires
        0 <= i,
        first_refused(host, addrs, decider, i) is None,
    ensures
        exceptions(host, addrs, decider, i) == restricted_count(addrs, i),
    decreases addrs.len() - i,
{
    if i < addrs.len() {
        lemma_all_exceptions(host, addrs, decider, i + 1);
    }
}

/// A block of IPv4 addresses is the stretch of its size from its base on, where the base
/// is a multiple of the size.
pub proof fn v4_blocks_are_stretches(ip: Ipv4Addr, base: Ipv4Addr, len: nat)
    requires
        len <= 32,
        base.value() % (pow2((32 - len) as nat) as int) == 0,
    ensures
        ip.in_block(base, len) <==> base.value() <= ip.value() < base.value() + pow2(
            (32 - len) as nat,
        ),
{
    lemma_pow2_pos((32 - len) as nat);
    lemma_stretch(ip.value(), base.value(), pow2((32 - len) as nat) as int);
}

/// The same of IPv6 addresses.
pub proof fn v6_blocks_are_stretches(ip: Ipv6Addr, base: Ipv6Addr, len: nat)
    requires
        len <= 128,
        base.value() % (pow2((128 - len) as nat) as int) == 0,
    ensures
        ip.in_block(base, len) <==> base.value() <= ip.value() < base.value() + pow2(
            (128 - len) as nat,
        ),
{
    lemma_pow2_pos((128 - len) as nat);
    lemma_stretch(ip.value(), base.value(), pow2((128 - len) as nat) as int);
}

proof fn lemma_stretch(n: int, base: int, size: int)
    requires
        size > 0,
        base % size == 0,
    ensures
        n / size == base / size <==> base <= n < base + size,
{
    vstd::arithmetic::div_mod::lemma_fundamental_div_mod(n, size);
    vstd::arithmetic::div_mod::lemma_fundamental_div_mod(base, size);
    let (p, q) = (n / size, base / size);
    if p < q {
        assert(size * p + size <= size * q) by (nonlinear_arith)
            requires
                p + 1 <= q,
                size > 0,
        ;
    }
    if p > q {
        assert(size * q + size <= size * p) by (nonlinear_arith)
            requires
                q + 1 <= p,
                size > 0,
        ;
    }
}

/// An IPv4 address is restricted exactly if it lies in one of these blocks.
pub proof fn v4_is_restricted_exactly_in_these_blocks(ip: Ipv4Addr)
    ensures
        restricted(IpAddr::V4(ip)) <==> {
            ||| ip.in_block(v4(127, 0, 0, 0), 8)
            ||| ip.in_block(v4(10, 0, 0, 0), 8)
            ||| ip.in_block(v4(172, 16, 0, 0), 12)
            ||| ip.in_block(v4(192, 168, 0, 0), 16)
            ||| ip.in_block(v4(169, 254, 0, 0), 16)
            ||| ip.in_block(v4(224, 0, 0, 0), 4)
            ||| ip.in_block(v4(240, 0, 0, 0), 4)
            ||| ip.in_block(v4(0, 0, 0, 0), 32)
            ||| ip.in_block(v4(100, 64, 0, 0), 10)
            ||| ip.in_block(v4(198, 18, 0, 0), 15)
        },
{
    restricted_v4_blocks(ip);
}

/// The same by the address as one number: these stretches and the number zero.
pub proof fn v4_is_restricted_exactly_in_these_stretches(a: u8, b: u8, c: u8, d: u8)
    ensures
        ({
            let n = ((a * 0x100 + b) * 0x100 + c) * 0x100 + d;
            restricted(IpAddr::V4(Ipv4Addr { a, b, c, d })) <==> {
                ||| n == 0
                ||| 0x0a00_0000 <= n <= 0x0aff_ffff
                ||| 0x6440_0000 <= n <= 0x647f_ffff
                ||| 0x7f00_0000 <= n <= 0x7fff_ffff
                ||| 0xa9fe_0000 <= n <= 0xa9fe_ffff
                ||| 0xac10_0000 <= n <= 0xac1f_ffff
                ||| 0xc0a8_0000 <= n <= 0xc0a8_ffff
                ||| 0xc612_0000 <= n <= 0xc613_ffff
                ||| 0xe000_0000 <= n
            }
        }),
{
}

/// An IPv6 address is restricted exactly if it lies in one of these blocks, or is
/// IPv4-mapped with a restricted IPv4 address in it.
pub proof fn v6_is_restricted_exactly_in_these_blocks(ip: Ipv6Addr)
    ensures
        restricted(IpAddr::V6(ip)) <==> {
            ||| ip.in_block(v6(0), 128)
            ||| ip.in_block(Ipv6Addr { s7: 1, ..v6(0) }, 128)
            ||| ip.in_block(v6(0xff00), 8)
            ||| ip.in_block(v6(0xfc00), 7)
            ||| ip.in_block(v6(0xfe80), 10)
            ||| ip.in_block(Ipv6Addr { s5: 0xffff, ..v6(0) }, 96) && exists|inner: Ipv4Addr|
                restricted(IpAddr::V4(inner)) && ip.s6 == #[trigger] (inner.a * 256 + inner.b) && ip.s7
                    == inner.c * 256 + inner.d
        },
{
    restricted_v6_blocks(ip);
    let inner = mapped_v4(ip);
    assert(ip.s6 == inner.a * 256 + inner.b && ip.s7 == inner.c * 256 + inner.d);
    assert forall|other: Ipv4Addr|
        ip.s6 == #[trigger] (other.a * 256 + other.b) && ip.s7 == other.c * 256
            + other.d implies other == inner by {}
}

/// The same by the segments.
pub proof fn v6_is_restricted_exactly_by_its_segments(ip: Ipv6Addr)
    ensures
        restricted(IpAddr::V6(ip)) <==> {
            let first_five = ip.s0 == 0 && ip.s1 == 0 && ip.s2 == 0 && ip.s3 == 0 && ip.s4 == 0;
            ||| ip.s0 / 0x100 == 0xff
            ||| ip.s0 / 0x200 == 0xfc00int / 0x200
            ||| ip.s0 / 0x40 == 0xfe80int / 0x40
            ||| first_five && ip.s5 == 0 && ip.s6 == 0 && ip.s7 <= 1
            ||| first_five && ip.s5 == 0xffff && restricted(
                IpAddr::V4(
                    Ipv4Addr {
                        a: (ip.s6 / 0x100) as u8,
                        b: (ip.s6 % 0x100) as u8,
                        c: (ip.s7 / 0x100) as u8,
                        d: (ip.s7 % 0x100) as u8,
                    },
                ),
            )
        },
{
}

/// Whether `host`, in lower case, is a name of the local host.
pub open spec fn names_localhost(host: Seq<char>) -> bool {
    host == "localhost"@ || host == "localhost.localdomain"@
}

/// Brackets come off where there are both, and nothing else does.
pub proof fn brackets_come_off_in_pairs(host: Seq<char>)
    ensures
        unbracketed(bracketed(host)) == host,
        (forall|inner: Seq<char>| host != #[trigger] bracketed(inner)) ==> unbracketed(host)
            == host,
{
    assert(unbracketed(bracketed(host)) =~= host);
    if host.len() >= 2 && host.first() == '[' && host.last() == ']' {
        let inner = host.subrange(1, host.len() - 1);
        assert(host =~= bracketed(inner));
    }
}

/// A fetch comes to a lookup exactly if nothing forbids it and nothing settles it: the
/// scheme can be fetched, the policy allows the host, and the host is neither a name of the
/// local host nor an address. What is looked up is the host in lower case.
pub proof fn names_that_nothing_forbids_are_looked_up(
    parts: (Seq<char>, Option<Seq<char>>),
    decider: Option<NetworkPolicyDecider>,
    tool: Seq<char>,
    name: Seq<char>,
)
    ensures
        fetch_step(parts, decider, tool) == FetchStepView::Resolve(name) <==> {
            &&& fetchable(parts.0)
            &&& parts.1 is Some
            &&& name == lowered(parts.1->0)
            &&& policy_check(name, decider, tool) is Ok
            &&& !names_localhost(name)
            &&& parsed_ip(unbracketed(name)) is None
        },
{
}

/// Without a lookup a fetch ends well exactly if its host is a public address that the
/// policy allows, and then without a pin.
pub proof fn public_addresses_need_no_lookup(
    parts: (Seq<char>, Option<Seq<char>>),
    decider: Option<NetworkPolicyDecider>,
    tool: Seq<char>,
)
    ensures
        (fetch_step(parts, decider, tool) matches FetchStepView::Finished(v) && v is Ok) <==> {
            &&& fetchable(parts.0)
            &&& parts.1 is Some
            &&& policy_check(lowered(parts.1->0), decider, tool) is Ok
            &&& parsed_ip(unbracketed(lowered(parts.1->0))) matches Some(ip) && !restricted(ip)
        },
        fetch_step(parts, decider, tool) matches FetchStepView::Finished(v) ==> (v is Ok ==> v
            == Verdict::Ok(None)),
{
    if parts.1 is Some {
        let host = lowered(parts.1->0);
        if host == "localhost"@ || host == "localhost.localdomain"@ {
            lemma_localhost_is_no_literal(host);
        }
    }
}

/// What forbids a fetch is told, and in this order: the scheme, the missing host, the
/// policy, the local host, the restricted address.
pub proof fn fetches_are_refused_for_the_first_reason(
    parts: (Seq<char>, Option<Seq<char>>),
    decider: Option<NetworkPolicyDecider>,
    tool: Seq<char>,
    ip: IpAddr,
)
    ensures
        !fetchable(parts.0) ==> fetch_step(parts, decider, tool) == FetchStepView::Finished(
            Verdict::Err(
                (ToolErrorKind::InvalidInput, "only http:// and https:// URLs are supported"@),
            ),
        ),
        fetchable(parts.0) && parts.1 is None ==> fetch_step(parts, decider, tool)
            == FetchStepView::Finished(
            Verdict::Err((ToolErrorKind::InvalidInput, "URL must include a host"@)),
        ),
        fetchable(parts.0) && parts.1 is Some ==> {
            let host = lowered(parts.1->0);
            let asked = policy_check(host, decider, tool);
            let literal = parsed_ip(unbracketed(host));
            &&& asked is Err ==> fetch_step(parts, decider, tool) == FetchStepView::Finished(
                Verdict::Err(asked->Err_0),
            )
            &&& asked is Ok && names_localhost(host) ==> fetch_step(parts, decider, tool)
                == FetchStepView::Finished(
                Verdict::Err(
                    (ToolErrorKind::PermissionDenied, "requests to localhost are not allowed"@),
                ),
            )
            &&& asked is Ok && literal == Some(ip) && restricted(ip) ==> fetch_step(
                parts,
                decider,
                tool,
            ) == FetchStepView::Finished(
                Verdict::Err(
                    (
                        ToolErrorKind::PermissionDenied,
                        "IP "@ + rendered_ip(ip)
                            + " is a restricted address (private/loopback/link-local)"@,
                    ),
                ),
            )
        },
{
    if parts.1 is Some {
        let host = lowered(parts.1->0);
        if names_localhost(host) {
            lemma_localhost_is_no_literal(host);
        }
    }
}

/// Both schemes are treated alike.
pub proof fn http_and_https_are_fetched_alike(
    host: Option<Seq<char>>,
    lookup: Result<Seq<IpAddr>, Seq<char>>,
    decider: Option<NetworkPolicyDecider>,
    tool: Seq<char>,
)
    ensures
        fetch_step(("http"@, host), decider, tool) == fetch_step(("https"@, host), decider, tool),
        fetch_verdict(("http"@, host), lookup, decider, tool) == fetch_verdict(
            ("https"@, host),
            lookup,
            decider,
            tool,
        ),
{
}

/// A fetch that does not come to a lookup ends as its first step says, whatever a lookup
/// would have given; one that does ends as the lookup of that host is judged.
pub proof fn fetches_end_with_their_step_or_their_lookup(
    parts: (Seq<char>, Option<Seq<char>>),
    lookup: Result<Seq<IpAddr>, Seq<char>>,
    decider: Option<NetworkPolicyDecider>,
    tool: Seq<char>,
)
    ensures
        match fetch_step(parts, decider, tool) {
            FetchStepView::Finished(v) => fetch_verdict(parts, lookup, decider, tool) == v,
            FetchStepView::Resolve(host) => fetch_verdict(parts, lookup, decider, tool)
                == lookup_verdict(host, lookup, decider, tool),
        },
{
}

/// A fetch passes whenever nothing forbids it: a host name that the policy allows and that
/// is not the local host's is pinned to its first address, under either scheme, if it has
/// addresses and each one is public or vouched for.
pub proof fn fetches_pass_whenever_nothing_forbids_them(
    scheme: Seq<char>,
    host: Seq<char>,
    addrs: Seq<IpAddr>,
    decider: Option<NetworkPolicyDecider>,
    tool: Seq<char>,
)
    requires
        fetchable(scheme),
        policy_check(lowered(host), decider, tool) is Ok,
        !names_localhost(lowered(host)),
        parsed_ip(unbracketed(lowered(host))) is None,
        addrs.len() > 0,
        forall|j: int|
            0 <= j < addrs.len() ==> !restricted(#[trigger] addrs[j]) || vouched(
                lowered(host),
                addrs[j],
                decider,
            ),
    ensures
        fetch_step((scheme, Some(host)), decider, tool) == FetchStepView::Resolve(lowered(host)),
        fetch_verdict((scheme, Some(host)), Ok(addrs), decider, tool) == Verdict::Ok(
            Some((lowered(host), addrs[0])),
        ),
{
    lemma_first_refused(lowered(host), addrs, decider, 0);
}

/// Without a policy every host name but the local host's is pinned to the first of its
/// public addresses.
pub proof fn public_names_are_fetched_without_policy(
    scheme: Seq<char>,
    host: Seq<char>,
    addrs: Seq<IpAddr>,
    tool: Seq<char>,
)
    requires
        fetchable(scheme),
        !names_localhost(lowered(host)),
        parsed_ip(unbracketed(lowered(host))) is None,
        addrs.len() > 0,
        forall|j: int| 0 <= j < addrs.len() ==> !restricted(#[trigger] addrs[j]),
    ensures
        fetch_verdict((scheme, Some(host)), Ok(addrs), None, tool) == Verdict::Ok(
            Some((lowered(host), addrs[0])),
        ),
{
    fetches_pass_whenever_nothing_forbids_them(scheme, host, addrs, None, tool);
}

/// A lookup that gave addresses is judged by them alone.
pub proof fn lookups_are_judged_by_their_addresses(
    host: Seq<char>,
    addrs: Seq<IpAddr>,
    decider: Option<NetworkPolicyDecider>,
    tool: Seq<char>,
)
    ensures
        lookup_verdict(host, Ok(addrs), decider, tool) == addrs_verdict(host, addrs, decider, tool),
{
}

/// A lookup that failed is told with the tool and the reason, and one without addresses
/// with the tool.
pub proof fn lookups_without_addresses_are_refused(
    host: Seq<char>,
    reason: Seq<char>,
    decider: Option<NetworkPolicyDecider>,
    tool: Seq<char>,
)
    ensures
        lookup_verdict(host, Err(reason), decider, tool) == Verdict::Err(
            (
                ToolErrorKind::PermissionDenied,
                "could not resolve host before "@ + tool + " request: "@ + reason,
            ),
        ),
        lookup_verdict(host, Ok(Seq::empty()), decider, tool) == Verdict::Err(
            (
                ToolErrorKind::PermissionDenied,
                "host resolved to no addresses before "@ + tool + " request"@,
            ),
        ),
{
}

/// Whether each of the first `i` addresses is public or vouched for.
pub open spec fn first_pass(
    host: Seq<char>,
    addrs: Seq<IpAddr>,
    decider: Option<NetworkPolicyDecider>,
    i: int,
) -> bool {
    forall|j: int|
        0 <= j < i ==> !restricted(#[trigger] addrs[j]) || vouched(host, addrs[j], decider)
}

/// The first address that is restricted and not vouched for is the one that the refusal
/// names.
pub proof fn the_first_bad_address_is_named(
    host: Seq<char>,
    addrs: Seq<IpAddr>,
    i: int,
    decider: Option<NetworkPolicyDecider>,
    tool: Seq<char>,
)
    requires
        0 <= i < addrs.len(),
        first_pass(host, addrs, decider, i),
        restricted(addrs[i]),
        !vouched(host, addrs[i], decider),
    ensures
        lookup_verdict(host, Ok(addrs), decider, tool) == Verdict::Err(
            (
                ToolErrorKind::PermissionDenied,
                "resolved IP "@ + rendered_ip(addrs[i])
                    + " is a restricted address (private/loopback/link-local)"@,
            ),
        ),
{
    lemma_refused_at(host, addrs, decider, 0, i);
}

proof fn lemma_refused_at(
    host: Seq<char>,
    addrs: Seq<IpAddr>,
    decider: Option<NetworkPolicyDecider>,
    from: int,
    i: int,
)
    requires
        0 <= from <= i < addrs.len(),
        first_pass(host, addrs, decider, i),
        restricted(addrs[i]),
        !vouched(host, addrs[i], decider),
    ensures
        first_refused(host, addrs, decider, from) == Some(addrs[i]),
    decreases i - from,
{
    if from < i {
        assert(!restricted(addrs[from]) || vouched(host, addrs[from], decider));
        lemma_refused_at(host, addrs, decider, from + 1, i);
    }
}

/// A host whose addresses all pass is pinned to the first of them.
pub proof fn hosts_are_pinned_to_their_first_address(
    host: Seq<char>,
    addrs: Seq<IpAddr>,
    decider: Option<NetworkPolicyDecider>,
    tool: Seq<char>,
)
    requires
        addrs.len() > 0,
        first_pass(host, addrs, decider, addrs.len() as int),
    ensures
        lookup_verdict(host, Ok(addrs), decider, tool) == Verdict::Ok(Some((host, addrs[0]))),
{
    lemma_first_refused(host, addrs, decider, 0);
}

/// The restricted addresses up to the first that is refused, or all of them if none is,
/// leave one record each.
pub proof fn records_count_the_restricted_addresses_that_pass(
    host: Seq<char>,
    addrs: Seq<IpAddr>,
    decider: Option<NetworkPolicyDecider>,
    i: int,
)
    requires
        0 <= i <= addrs.len(),
        first_pass(host, addrs, decider, i),
        i < addrs.len() ==> restricted(addrs[i]) && !vouched(host, addrs[i], decider),
    ensures
        exceptions(host, addrs, decider, 0) == addrs.take(i).filter(
            |ip: IpAddr| restricted(ip),
        ).len(),
{
    lemma_exceptions_counted(host, addrs, decider, 0, i);
    assert(addrs.subrange(0, i) =~= addrs.take(i));
}

proof fn lemma_exceptions_counted(
    host: Seq<char>,
    addrs: Seq<IpAddr>,
    decider: Option<NetworkPolicyDecider>,
    from: int,
    i: int,
)
    requires
        0 <= from <= i <= addrs.len(),
        first_pass(host, addrs, decider, i),
        i < addrs.len() ==> restricted(addrs[i]) && !vouched(host, addrs[i], decider),
    ensures
        exceptions(host, addrs, decider, from) == addrs.subrange(from, i).filter(
            |ip: IpAddr| restricted(ip),
        ).len(),
    decreases i - from,
{
    let f = |ip: IpAddr| restricted(ip);
    reveal(Seq::filter);
    if from < i {
        assert(!restricted(addrs[from]) || vouched(host, addrs[from], decider));
        lemma_exceptions_counted(host, addrs, decider, from + 1, i);
        let one = seq![addrs[from]];
        let rest = addrs.subrange(from + 1, i);
        assert(addrs.subrange(from, i) =~= one + rest);
        Seq::filter_distributes_over_add(one, rest, f);
        assert(one.drop_last() =~= Seq::<IpAddr>::empty());
        assert(one.drop_last().filter(f) =~= Seq::<IpAddr>::empty());
        assert(one.filter(f).len() == (if restricted(addrs[from]) {
            1nat
        } else {
            0nat
        }));
    } else {
        assert(addrs.subrange(from, i) =~= Seq::<IpAddr>::empty());
        assert(addrs.subrange(from, i).filter(f) =~= Seq::<IpAddr>::empty());
    }
}

/// A fetch leaves the records of its lookup, and none if it does not come to one.
pub proof fn fetches_leave_the_records_of_their_lookup(
    parts: (Seq<char>, Option<Seq<char>>),
    addrs: Seq<IpAddr>,
    reason: Seq<char>,
    decider: Option<NetworkPolicyDecider>,
    tool: Seq<char>,
)
    ensures
        fetch_exceptions(parts, Err(reason), decider, tool) == 0,
        match fetch_step(parts, decider, tool) {
            FetchStepView::Finished(_) => fetch_exceptions(parts, Ok(addrs), decider, tool) == 0,
            FetchStepView::Resolve(host) => fetch_exceptions(parts, Ok(addrs), decider, tool)
                == exceptions(host, addrs, decider, 0),
        },
{
}

/// A verdict shows its pin, host and address, or its error, kind and text.
pub proof fn verdicts_are_shown_whole(r: Result<DnsPin, ToolError>)
    ensures
        r matches Ok(Some(pin)) ==> verdict_view(r) == Verdict::Ok(Some((pin.0@, pin.1))),
        r matches Ok(None) ==> verdict_view(r) == Verdict::Ok(None),
        r matches Err(e) ==> verdict_view(r) == Verdict::Err((e.kind, e.message@)),
{
}

/// A step shows the host to look up, or the verdict.
pub proof fn steps_are_shown_whole(step: FetchStep)
    ensures
        step matches FetchStep::Resolve(host) ==> step@ == FetchStepView::Resolve(host@),
        step matches FetchStep::Finished(r) ==> step@ == FetchStepView::Finished(verdict_view(r)),
{
}

/// A lookup's answer shows all its addresses in order, or its reason; a URL its scheme and
/// its host.
pub proof fn answers_and_urls_are_shown_whole(lookup: Result<Vec<IpAddr>, String>, url: Url)
    ensures
        lookup matches Ok(addrs) ==> lookup_view(lookup) == Ok::<_, Seq<char>>(addrs@),
        lookup matches Err(e) ==> lookup_view(lookup) == Err::<Seq<IpAddr>, _>(e@),
        url.parts().0 == url.scheme@,
        url.host matches Some(h) ==> url.parts().1 == Some(h@),
        url.host is None ==> url.parts().1 is None,
{
}

} // verus!
