//! What the network policy decides, and what it vouches for.
use crate::guard::{
    address_check, check_view, decision_check, excepted, owned, policy_check, recorded, restricted,
    vouched,
};
use crate::ip::{IpAddr, Ipv4Addr, Ipv6Addr};
use crate::ip_text::rendered_ip;
use crate::network_policy::{
    names, AddrRange, AuditRecord, Decision, NetworkPolicy, NetworkPolicyDecider,
};
use crate::tool::{ToolError, ToolErrorKind};
use vstd::prelude::*;

verus! {

/// Whether the text `host` is an item of `hosts`.
pub open spec fn in_list(hosts: Seq<String>, host: Seq<char>) -> bool {
    hosts.map_values(|h: String| h@).contains(host)
}

/// A list names its items and nothing else.
pub proof fn lists_name_their_items(hosts: Seq<String>, host: Seq<char>)
    ensures
        names(hosts, host) <==> in_list(hosts, host),
{
    let texts = hosts.map_values(|h: String| h@);
    if names(hosts, host) {
        let i = choose|i: int| 0 <= i < hosts.len() && (#[trigger] hosts[i])@ == host;
        assert(texts[i] == host);
    }
    if in_list(hosts, host) {
        let i = choose|i: int| 0 <= i < texts.len() && texts[i] == host;
        assert(hosts[i]@ == host);
    }
}

/// A host on the deny list is denied, one on the allow list only is allowed, and one on
/// neither gets the default, under every label and whatever else is configured.
pub proof fn decisions_go_by_the_lists_alone(p: NetworkPolicy, host: Seq<char>, tool: Seq<char>)
    ensures
        p.decision_for(host, tool) == Decision::Deny <==> {
            ||| in_list(p.deny@, host)
            ||| !in_list(p.allow@, host) && p.default == Decision::Deny
        },
        p.decision_for(host, tool) == Decision::Allow <==> {
            &&& !in_list(p.deny@, host)
            &&& in_list(p.allow@, host) || p.default == Decision::Allow
        },
        p.decision_for(host, tool) == Decision::Prompt <==> {
            &&& !in_list(p.deny@, host)
            &&& !in_list(p.allow@, host)
            &&& p.default == Decision::Prompt
        },
{
    p.decisions_go_by_the_lists(host, tool);
    lists_name_their_items(p.deny@, host);
    lists_name_their_items(p.allow@, host);
}

/// Policies with the same lists and the same default answer alike, under any labels,
/// whatever their proxies and whether they are audited.
pub proof fn other_settings_do_not_decide(
    p: NetworkPolicy,
    q: NetworkPolicy,
    host: Seq<char>,
    tool: Seq<char>,
    label: Seq<char>,
)
    requires
        p.deny@ == q.deny@,
        p.allow@ == q.allow@,
        p.default == q.default,
    ensures
        p.decision_for(host, tool) == q.decision_for(host, label),
{
    p.decisions_go_by_the_lists(host, tool);
    q.decisions_go_by_the_lists(host, label);
}

/// A call passes the policy exactly if there is none or it decides to allow.
pub proof fn calls_pass_exactly_if_allowed(
    host: Seq<char>,
    decider: Option<NetworkPolicyDecider>,
    tool: Seq<char>,
)
    ensures
        policy_check(host, decider, tool) is Ok <==> match decider {
            Some(d) => d.policy.decision_for(host, tool) == Decision::Allow,
            None => true,
        },
        policy_check(host, decider, tool) is Ok <==> match decider {
            Some(d) => !in_list(d.policy.deny@, host) && (in_list(d.policy.allow@, host)
                || d.policy.default == Decision::Allow),
            None => true,
        },
{
    if decider is Some {
        decisions_go_by_the_lists_alone(decider->0.policy, host, tool);
    }
}

/// What the policy does not allow is refused as a denied permission, with a text that
/// names the host: blocked where the policy denies, and with the way to an approval where
/// it wants one.
pub proof fn refused_calls_name_the_host(
    host: Seq<char>,
    d: NetworkPolicyDecider,
    tool: Seq<char>,
)
    ensures
        d.policy.decision_for(host, tool) == Decision::Deny ==> policy_check(host, Some(d), tool)
            == Err::<(), _>(
            (
                ToolErrorKind::PermissionDenied,
                "network call to '"@ + host + "' blocked by network policy"@,
            ),
        ),
        d.policy.decision_for(host, tool) == Decision::Prompt ==> policy_check(host, Some(d), tool)
            == Err::<(), _>(
            (
                ToolErrorKind::PermissionDenied,
                "network call to '"@ + host + "' requires approval; re-run after `/network allow "@
                    + host + "` or set network.default = \"allow\" in config"@,
            ),
        ),
{
}

/// A decision becomes an error exactly if it is not to allow, whoever took it, and the two
/// refusals of a host are told apart.
pub proof fn decisions_are_enforced(host: Seq<char>, decision: Decision)
    ensures
        decision_check(host, decision) is Ok <==> decision == Decision::Allow,
        decision_check(host, Decision::Deny) == Err::<(), _>(
            (
                ToolErrorKind::PermissionDenied,
                "network call to '"@ + host + "' blocked by network policy"@,
            ),
        ),
        decision_check(host, Decision::Prompt) == Err::<(), _>(
            (
                ToolErrorKind::PermissionDenied,
                "network call to '"@ + host + "' requires approval; re-run after `/network allow "@
                    + host + "` or set network.default = \"allow\" in config"@,
            ),
        ),
        decision_check(host, Decision::Deny) != decision_check(host, Decision::Prompt),
{
    let start = "network call to '"@ + host;
    let blocked = "' blocked by network policy"@;
    let approval = "' requires approval; re-run after `/network allow "@;
    reveal_strlit("' blocked by network policy");
    reveal_strlit("' requires approval; re-run after `/network allow ");
    let deny = decision_check(host, Decision::Deny)->Err_0;
    let prompt = decision_check(host, Decision::Prompt)->Err_0;
    assert(deny.1[start.len() as int + 2] == 'b');
    assert(prompt.1[start.len() as int + 2] == 'r');
}

/// A range holds both its ends and all addresses between two that it holds, and none
/// before the first or after the last.
pub proof fn v4_ranges_reach_from_end_to_end(
    first: Ipv4Addr,
    last: Ipv4Addr,
    x: Ipv4Addr,
    y: Ipv4Addr,
    z: Ipv4Addr,
)
    ensures
        ({
            let range = AddrRange { first: IpAddr::V4(first), last: IpAddr::V4(last) };
            &&& first.value() <= last.value() ==> range.covers(range.first) && range.covers(
                range.last,
            )
            &&& range.covers(IpAddr::V4(x)) && range.covers(IpAddr::V4(z)) && x.value() <= y.value()
                <= z.value() ==> range.covers(IpAddr::V4(y))
            &&& y.value() < first.value() || last.value() < y.value() ==> !range.covers(
                IpAddr::V4(y),
            )
        }),
{
}

/// The same of IPv6 addresses.
pub proof fn v6_ranges_reach_from_end_to_end(
    first: Ipv6Addr,
    last: Ipv6Addr,
    x: Ipv6Addr,
    y: Ipv6Addr,
    z: Ipv6Addr,
)
    ensures
        ({
            let range = AddrRange { first: IpAddr::V6(first), last: IpAddr::V6(last) };
            &&& first.value() <= last.value() ==> range.covers(range.first) && range.covers(
                range.last,
            )
            &&& range.covers(IpAddr::V6(x)) && range.covers(IpAddr::V6(z)) && x.value() <= y.value()
                <= z.value() ==> range.covers(IpAddr::V6(y))
            &&& y.value() < first.value() || last.value() < y.value() ==> !range.covers(
                IpAddr::V6(y),
            )
        }),
{
}

/// A range holds addresses of its own family only, and none if its ends differ in theirs.
pub proof fn ranges_keep_to_their_family(range: AddrRange, ip: IpAddr)
    requires
        range.covers(ip),
    ensures
        range.first is V4 <==> ip is V4,
        range.last is V4 <==> ip is V4,
{
}

/// No range vouches for no address, and one range more vouches for the addresses that it
/// holds and no others.
pub proof fn every_range_counts(
    d: NetworkPolicyDecider,
    more: NetworkPolicyDecider,
    range: AddrRange,
    ip: IpAddr,
)
    requires
        more.fakeip_ranges@ == d.fakeip_ranges@.push(range),
    ensures
        d.fakeip_ranges@.len() == 0 ==> !d.fakeip(ip),
        more.fakeip(ip) <==> d.fakeip(ip) || range.covers(ip),
{
    let old_ranges = d.fakeip_ranges@;
    let ranges = more.fakeip_ranges@;
    if d.fakeip(ip) {
        let i = choose|i: int| 0 <= i < old_ranges.len() && (#[trigger] old_ranges[i]).covers(ip);
        assert(ranges[i].covers(ip));
    }
    if range.covers(ip) {
        assert(ranges[old_ranges.len() as int].covers(ip));
    }
    if more.fakeip(ip) {
        let i = choose|i: int| 0 <= i < ranges.len() && (#[trigger] ranges[i]).covers(ip);
        if i < old_ranges.len() {
            assert(old_ranges[i].covers(ip));
        }
    }
}

/// An address is vouched for exactly if a policy is configured and either a placeholder
/// range of it holds the address or the host is on its proxy list.
pub proof fn vouching_takes_a_range_or_a_proxy(
    host: Seq<char>,
    ip: IpAddr,
    decider: Option<NetworkPolicyDecider>,
)
    ensures
        vouched(host, ip, decider) <==> {
            &&& decider is Some
            &&& decider->0.fakeip(ip) || in_list(decider->0.policy.proxy@, host)
        },
        excepted(host, ip, decider) <==> restricted(ip) && vouched(host, ip, decider),
{
    if decider is Some {
        lists_name_their_items(decider->0.policy.proxy@, host);
    }
}

/// A borrowed policy is the policy.
pub proof fn borrowing_changes_nothing(d: NetworkPolicyDecider)
    ensures
        owned(Some(&d)) == Some(d),
        owned(None) is None,
{
}

/// An address of a lookup passes exactly if it is public or vouched for, and is otherwise
/// refused as a denied permission, with a text that names it.
pub proof fn addresses_pass_exactly_if_public_or_vouched_for(ip: IpAddr, vouched: bool)
    ensures
        address_check(ip, vouched) is Ok <==> !restricted(ip) || vouched,
        address_check(ip, vouched) matches Err(e) ==> {
            &&& e.0 == ToolErrorKind::PermissionDenied
            &&& e.1 == "resolved IP "@ + rendered_ip(ip)
                + " is a restricted address (private/loopback/link-local)"@
        },
{
}

/// What is recorded is added at the end, as many times as said, and each new record tells
/// the host, the tool and that a trusted proxy's address was let through.
pub proof fn records_tell_host_tool_and_decision(
    before: Seq<AuditRecord>,
    after: Seq<AuditRecord>,
    n: nat,
    host: Seq<char>,
    tool: Seq<char>,
)
    ensures
        recorded(before, after, n, host, tool) <==> {
            &&& after.len() == before.len() + n
            &&& after.take(before.len() as int) == before
            &&& forall|i: int|
                0 <= i < n ==> {
                    let r = #[trigger] after.skip(before.len() as int)[i];
                    &&& r.host@ == host
                    &&& r.tool@ == tool
                    &&& r.decision@ == "TrustedProxyFakeIp-Allow"@
                }
        },
{
    let k = before.len() as int;
    if recorded(before, after, n, host, tool) {
        assert(after.take(k) =~= before);
        assert forall|i: int| 0 <= i < n implies {
            let r = #[trigger] after.skip(k)[i];
            &&& r.host@ == host
            &&& r.tool@ == tool
            &&& r.decision@ == "TrustedProxyFakeIp-Allow"@
        } by {
            assert(after[k + i].allows(host, tool));
        }
    }
    if after.len() == k + n && after.take(k) == before && forall|i: int|
        0 <= i < n ==> {
            let r = #[trigger] after.skip(k)[i];
            &&& r.host@ == host
            &&& r.tool@ == tool
            &&& r.decision@ == "TrustedProxyFakeIp-Allow"@
        } {
        assert forall|i: int| 0 <= i < k implies #[trigger] after[i] == before[i] by {
            assert(after.take(k)[i] == after[i]);
        }
        assert forall|i: int| k <= i < after.len() implies (#[trigger] after[i]).allows(
            host,
            tool,
        ) by {
            assert(after.skip(k)[i - k] == after[i]);
        }
    }
}

/// A check shows whether it passed, and of an error its kind and its text.
pub proof fn checks_are_shown_whole(r: Result<(), ToolError>)
    ensures
        check_view(r) is Ok <==> r is Ok,
        r matches Err(e) ==> check_view(r) == Err::<(), _>((e.kind, e.message@)),
{
}

} // verus!
