//! The guard on fetches that the model asks for.
//!
//! It looks at scheme and host, enforces the network policy, refuses private, loopback,
//! link-local and metadata addresses, and hands back a pin with which the HTTP client is
//! bound to the address that was checked. Looking a name up is the caller's part:
//! [`validate_fetch_target`] says whether it is needed and [`validate_lookup`] judges the
//! answer. Whoever follows redirects asks again for every new location.
use crate::ip::{IpAddr, Ipv4Addr, Ipv6Addr};
use crate::network_policy::{AuditRecord, Decision, NetworkPolicyDecider};
use crate::text::same_text;
use crate::tool::{ToolContext, ToolError, ToolErrorKind};
use crate::url::Url;
use vstd::prelude::*;

verus! {

/// The host and the address to bind the connection to, for a host that was looked up.
pub type DnsPin = Option<(String, IpAddr)>;

/// How a check that only passes or fails ends.
pub type Check = Result<(), (ToolErrorKind, Seq<char>)>;

/// How the check of a fetch ends.
pub type Verdict = Result<Option<(Seq<char>, IpAddr)>, (ToolErrorKind, Seq<char>)>;

/// What comes next for a fetch.
#[derive(Debug)]
pub enum FetchStep {
    /// The host has to be looked up first.
    Resolve(String),
    /// The check is over.
    Finished(Result<DnsPin, ToolError>),
}

/// What comes next for a fetch, with the text in it as sequences.
pub enum FetchStepView {
    Resolve(Seq<char>),
    Finished(Verdict),
}

/// A check's end by the text in it.
pub open spec fn check_view(r: Result<(), ToolError>) -> Check {
    match r {
        Ok(()) => Ok(()),
        Err(e) => Err(e@),
    }
}

/// A fetch check's end by the text in it.
pub open spec fn verdict_view(r: Result<DnsPin, ToolError>) -> Verdict {
    match r {
        Ok(Some(pin)) => Ok(Some((pin.0@, pin.1))),
        Ok(None) => Ok(None),
        Err(e) => Err(e@),
    }
}

impl View for FetchStep {
    type V = FetchStepView;

    open spec fn view(&self) -> FetchStepView {
        match *self {
            FetchStep::Resolve(host) => FetchStepView::Resolve(host@),
            FetchStep::Finished(r) => FetchStepView::Finished(verdict_view(r)),
        }
    }
}

/// Loopback, private, link-local (with the metadata address 169.254.169.254), multicast,
/// unspecified, carrier-grade NAT, benchmark testing and reserved addresses.
pub open spec fn restricted_v4(v4: Ipv4Addr) -> bool {
    ||| v4.a == 127
    ||| v4.a == 10
    ||| v4.a == 172 && 16 <= v4.b <= 31
    ||| v4.a == 192 && v4.b == 168
    ||| v4.a == 169 && v4.b == 254
    ||| v4.a == 0 && v4.b == 0 && v4.c == 0 && v4.d == 0
    ||| v4.a == 100 && 64 <= v4.b <= 127
    ||| v4.a == 198 && 18 <= v4.b <= 19
    ||| v4.a >= 224
}

/// The unspecified and the loopback address, multicast, unique local and link-local
/// addresses; an IPv4-mapped address is what the IPv4 address in it is.
pub open spec fn restricted_v6(v6: Ipv6Addr) -> bool {
    ||| v6.value() == 0
    ||| v6.value() == 1
    ||| v6.is_v4_mapped() && restricted_v4(crate::ip_text::mapped_v4(v6))
    ||| v6.s0 >= 0xff00
    ||| 0xfc00 <= v6.s0 <= 0xfdff
    ||| 0xfe80 <= v6.s0 <= 0xfebf
}

/// The addresses that a fetch must not reach.
pub open spec fn restricted(ip: IpAddr) -> bool {
    match ip {
        IpAddr::V4(v4) => restricted_v4(v4),
        IpAddr::V6(v6) => restricted_v6(v6),
    }
}

/// Whether an IPv4 address must not be reached.
fn is_restricted_v4(v4: &Ipv4Addr) -> (r: bool)
    ensures
        r == restricted_v4(*v4),
{
    // 100.64.0.0/10, shared by carrier-grade NAT
    let cgnat = v4.a == 100 && 64 <= v4.b && v4.b <= 127;
    // 198.18.0.0/15, for benchmark testing
    let benchmark = v4.a == 198 && 18 <= v4.b && v4.b <= 19;
    // 240.0.0.0/4, formerly class E
    let reserved = v4.a >= 240;
    v4.is_loopback() || v4.is_private() || v4.is_link_local() || v4.is_multicast()
        || v4.is_broadcast() || v4.is_unspecified() || cgnat || benchmark || reserved
}

/// Whether `ip` is loopback, private, link-local, cloud metadata, multicast or reserved:
/// an address that a fetch must not reach.
pub fn is_restricted_ip(ip: &IpAddr) -> (r: bool)
    ensures
        r == restricted(*ip),
{
    match ip {
        IpAddr::V4(v4) => is_restricted_v4(v4),
        IpAddr::V6(v6) => {
            // An IPv4-mapped address is unwrapped, so that ::ffff:127.0.0.1 is loopback.
            if let Some(v4) = v6.to_ipv4_mapped() {
                assert(crate::ip_text::mapped_v4(*v6) == v4);
                return is_restricted_v4(&v4);
            }
            // fc00::/7
            let unique_local = 0xfc00 <= v6.s0 && v6.s0 <= 0xfdff;
            // fe80::/10
            let link_local = 0xfe80 <= v6.s0 && v6.s0 <= 0xfebf;
            v6.is_unspecified() || v6.is_loopback() || v6.is_multicast() || unique_local
                || link_local
        },
    }
}

/// How `decision` on a call to `host` is answered.
pub open spec fn decision_check(host: Seq<char>, decision: Decision) -> Check {
    match decision {
        Decision::Allow => Ok(()),
        Decision::Deny => Err(
            (
                ToolErrorKind::PermissionDenied,
                "network call to '"@ + host + "' blocked by network policy"@,
            ),
        ),
        Decision::Prompt => Err(
            (
                ToolErrorKind::PermissionDenied,
                "network call to '"@ + host + "' requires approval; re-run after `/network allow "@
                    + host + "` or set network.default = \"allow\" in config"@,
            ),
        ),
    }
}

/// How the policy of a context, if it has one, answers a call to `host` under the label
/// `tool`.
pub open spec fn policy_check(
    host: Seq<char>,
    decider: Option<NetworkPolicyDecider>,
    tool: Seq<char>,
) -> Check {
    match decider {
        Some(d) => decision_check(host, d.policy.decision_for(host, tool)),
        None => Ok(()),
    }
}

/// Turns the policy's `decision` on a call to `host` into an error, unless it is to allow.
pub fn enforce_decision(host: &str, decision: Decision) -> (r: Result<(), ToolError>)
    ensures
        check_view(r) == decision_check(host@, decision),
{
    match decision {
        Decision::Allow => Ok(()),
        Decision::Deny => {
            let mut m = "network call to '".to_owned();
            m.append(host);
            m.append("' blocked by network policy");
            Err(ToolError::permission_denied(m))
        },
        Decision::Prompt => {
            let mut m = "network call to '".to_owned();
            m.append(host);
            m.append("' requires approval; re-run after `/network allow ");
            m.append(host);
            m.append("` or set network.default = \"allow\" in config");
            Err(ToolError::permission_denied(m))
        },
    }
}

/// Asks the network policy, if there is one, whether `tool` may call `host`.
pub fn validate_network_policy(host: &str, context: &ToolContext, tool: &str) -> (r: Result<
    (),
    ToolError,
>)
    ensures
        check_view(r) == policy_check(host@, context.network_policy, tool@),
{
    match &context.network_policy {
        Some(decider) => enforce_decision(host, decider.evaluate(host, tool)),
        None => Ok(()),
    }
}

/// How an address that a lookup gave is answered, where `vouched` says whether it is
/// trusted although restricted.
pub open spec fn address_check(ip: IpAddr, vouched: bool) -> Check {
    if restricted(ip) && !vouched {
        Err(
            (
                ToolErrorKind::PermissionDenied,
                "resolved IP "@ + crate::ip_text::rendered_ip(ip)
                    + " is a restricted address (private/loopback/link-local)"@,
            ),
        )
    } else {
        Ok(())
    }
}

/// Whether the policy vouches for the address `ip` of `host`; without a policy nothing
/// does.
pub open spec fn vouched(
    host: Seq<char>,
    ip: IpAddr,
    decider: Option<NetworkPolicyDecider>,
) -> bool {
    match decider {
        Some(d) => d.vouches(host, ip),
        None => false,
    }
}

/// What a borrowed decider is.
pub open spec fn owned(decider: Option<&NetworkPolicyDecider>) -> Option<NetworkPolicyDecider> {
    match decider {
        Some(d) => Some(*d),
        None => None,
    }
}

/// Whether `ip` is let through for `host` only because the policy vouches for it.
pub open spec fn excepted(
    host: Seq<char>,
    ip: IpAddr,
    decider: Option<NetworkPolicyDecider>,
) -> bool {
    restricted(ip) && vouched(host, ip, decider)
}

/// Whether `after` is `before` and `n` records more, each on `host` and `tool`.
pub open spec fn recorded(
    before: Seq<AuditRecord>,
    after: Seq<AuditRecord>,
    n: nat,
    host: Seq<char>,
    tool: Seq<char>,
) -> bool {
    &&& after.len() == before.len() + n
    &&& forall|i: int| 0 <= i < before.len() ==> #[trigger] after[i] == before[i]
    &&& forall|i: int| before.len() <= i < after.len() ==> (#[trigger] after[i]).allows(host, tool)
}

/// Refuses a restricted address that a lookup gave, unless it is `vouched` for.
pub fn enforce_address(ip: &IpAddr, vouched: bool) -> (r: Result<(), ToolError>)
    ensures
        check_view(r) == address_check(*ip, vouched),
{
    if !is_restricted_ip(ip) || vouched {
        return Ok(());
    }
    let mut m = "resolved IP ".to_owned();
    ip.push_to(&mut m);
    m.append(" is a restricted address (private/loopback/link-local)");
    Err(ToolError::permission_denied(m))
}

/// Checks an address that `host` resolved to.
///
/// A restricted address is let past if it lies in a configured placeholder range of a
/// proxy in fake-IP mode, or if `host` is on the list of hosts behind a trusted proxy;
/// `audit` then gains a record. Every other restricted address is refused.
pub fn validate_dns_resolved_ip(
    host: &str,
    ip: &IpAddr,
    decider: Option<&NetworkPolicyDecider>,
    tool: &str,
    audit: &mut Vec<AuditRecord>,
) -> (r: Result<(), ToolError>)
    ensures
        check_view(r) == address_check(*ip, vouched(host@, *ip, owned(decider))),
        recorded(
            old(audit)@,
            final(audit)@,
            if excepted(host@, *ip, owned(decider)) {
                1
            } else {
                0
            },
            host@,
            tool@,
        ),
{
    if !is_restricted_ip(ip) {
        return Ok(());
    }
    if let Some(d) = decider {
        if d.is_trusted_fakeip_addr(ip) || d.trusts_proxy_fakeip_host(host) {
            audit.push(AuditRecord::trusted_proxy_fakeip_allow(host, tool));
            return Ok(());
        }
    }
    enforce_address(ip, false)
}

/// The first of the addresses from `i` on that is refused.
pub open spec fn first_refused(
    host: Seq<char>,
    addrs: Seq<IpAddr>,
    decider: Option<NetworkPolicyDecider>,
    i: int,
) -> Option<IpAddr>
    decreases addrs.len() - i,
{
    if i < 0 || i >= addrs.len() {
        None
    } else if restricted(addrs[i]) && !vouched(host, addrs[i], decider) {
        Some(addrs[i])
    } else {
        first_refused(host, addrs, decider, i + 1)
    }
}

/// How many of the addresses from `i` on, up to the first that is refused, are let
/// through only because the policy vouches for them.
pub open spec fn exceptions(
    host: Seq<char>,
    addrs: Seq<IpAddr>,
    decider: Option<NetworkPolicyDecider>,
    i: int,
) -> nat
    decreases addrs.len() - i,
{
    if i < 0 || i >= addrs.len() || (restricted(addrs[i]) && !vouched(host, addrs[i], decider)) {
        0
    } else {
        (if restricted(addrs[i]) {
            1nat
        } else {
            0nat
        }) + exceptions(host, addrs, decider, i + 1)
    }
}

/// How the addresses of `host` are answered: refused if one of them is or if there is
/// none, and otherwise pinned to the first.
pub open spec fn addrs_verdict(
    host: Seq<char>,
    addrs: Seq<IpAddr>,
    decider: Option<NetworkPolicyDecider>,
    tool: Seq<char>,
) -> Verdict {
    match first_refused(host, addrs, decider, 0) {
        Some(ip) => Err(address_check(ip, false)->Err_0),
        None => if addrs.len() == 0 {
            Err(
                (
                    ToolErrorKind::PermissionDenied,
                    "host resolved to no addresses before "@ + tool + " request"@,
                ),
            )
        } else {
            Ok(Some((host, addrs[0])))
        },
    }
}

/// Judges the answer to a lookup of `host`: its addresses, or why it failed.
pub fn validate_lookup(
    host: String,
    lookup: &Result<Vec<IpAddr>, String>,
    context: &ToolContext,
    tool: &str,
    audit: &mut Vec<AuditRecord>,
) -> (r: Result<DnsPin, ToolError>)
    ensures
        verdict_view(r) == lookup_verdict(host@, lookup_view(*lookup), context.network_policy, tool@),
        recorded(
            old(audit)@,
            final(audit)@,
            match *lookup {
                Ok(addrs) => exceptions(host@, addrs@, context.network_policy, 0),
                Err(_) => 0,
            },
            host@,
            tool@,
        ),
{
    match lookup {
        Err(e) => {
            let mut m = "could not resolve host before ".to_owned();
            m.append(tool);
            m.append(" request: ");
            m.append(e.as_str());
            Err(ToolError::permission_denied(m))
        },
        Ok(addrs) => {
            let policy = context.network_policy.as_ref();
            let ghost decider = context.network_policy;
            let ghost start = audit@;
            let ghost mut n: nat = 0;
            for i in 0..addrs.len()
                invariant
                    decider == context.network_policy,
                    decider == owned(policy),
                    *lookup == Ok::<Vec<IpAddr>, String>(*addrs),
                    start == old(audit)@,
                    first_refused(host@, addrs@, decider, 0) == first_refused(
                        host@,
                        addrs@,
                        decider,
                        i as int,
                    ),
                    recorded(start, audit@, n, host@, tool@),
                    n + exceptions(host@, addrs@, decider, i as int) == exceptions(
                        host@,
                        addrs@,
                        decider,
                        0,
                    ),
            {
                let ghost before = audit@;
                let checked = validate_dns_resolved_ip(
                    host.as_str(),
                    &addrs[i],
                    policy,
                    tool,
                    audit,
                );
                proof {
                    if excepted(host@, addrs@[i as int], decider) {
                        n = n + 1;
                    }
                    assert forall|j: int| 0 <= j < start.len() implies #[trigger] audit@[j]
                        == start[j] by {
                        assert(before[j] == start[j]);
                    }
                    assert forall|j: int| start.len() <= j < audit@.len() implies (
                    #[trigger] audit@[j]).allows(host@, tool@) by {
                        if j < before.len() {
                            assert(before[j].allows(host@, tool@));
                        }
                    }
                }
                if let Err(e) = checked {
                    return Err(e);
                }
            }
            if addrs.len() == 0 {
                let mut m = "host resolved to no addresses before ".to_owned();
                m.append(tool);
                m.append(" request");
                return Err(ToolError::permission_denied(m));
            }
            Ok(Some((host, addrs[0])))
        },
    }
}

/// A lookup's answer by the text in it.
pub open spec fn lookup_view(lookup: Result<Vec<IpAddr>, String>) -> Result<
    Seq<IpAddr>,
    Seq<char>,
> {
    match lookup {
        Ok(addrs) => Ok(addrs@),
        Err(e) => Err(e@),
    }
}

/// How the answer to a lookup of `host` is judged.
pub open spec fn lookup_verdict(
    host: Seq<char>,
    lookup: Result<Seq<IpAddr>, Seq<char>>,
    decider: Option<NetworkPolicyDecider>,
    tool: Seq<char>,
) -> Verdict {
    match lookup {
        Ok(addrs) => addrs_verdict(host, addrs, decider, tool),
        Err(e) => Err(
            (
                ToolErrorKind::PermissionDenied,
                "could not resolve host before "@ + tool + " request: "@ + e,
            ),
        ),
    }
}

/// `host` without square brackets around it; a host with one of them only stays as it is.
pub open spec fn unbracketed(host: Seq<char>) -> Seq<char> {
    if host.len() >= 2 && host.first() == '[' && host.last() == ']' {
        host.subrange(1, host.len() - 1)
    } else {
        host
    }
}

/// `host` without square brackets around it.
fn unbracket(host: &str) -> (r: &str)
    ensures
        r@ == unbracketed(host@),
{
    let n = host.unicode_len();
    if n >= 2 && host.get_char(0) == '[' && host.get_char(n - 1) == ']' {
        host.substring_char(1, n - 1)
    } else {
        host
    }
}

/// What comes next for a URL with this scheme and host.
pub open spec fn fetch_step(
    parts: (Seq<char>, Option<Seq<char>>),
    decider: Option<NetworkPolicyDecider>,
    tool: Seq<char>,
) -> FetchStepView {
    if parts.0 != "http"@ && parts.0 != "https"@ {
        FetchStepView::Finished(
            Err((ToolErrorKind::InvalidInput, "only http:// and https:// URLs are supported"@)),
        )
    } else {
        match parts.1 {
            None => FetchStepView::Finished(
                Err((ToolErrorKind::InvalidInput, "URL must include a host"@)),
            ),
            Some(host) => host_step(crate::text::lowered(host), decider, tool),
        }
    }
}

/// What comes next for a host in lower case.
pub open spec fn host_step(
    host: Seq<char>,
    decider: Option<NetworkPolicyDecider>,
    tool: Seq<char>,
) -> FetchStepView {
    match policy_check(host, decider, tool) {
        Err(e) => FetchStepView::Finished(Err(e)),
        Ok(()) => if host == "localhost"@ || host == "localhost.localdomain"@ {
            FetchStepView::Finished(
                Err((ToolErrorKind::PermissionDenied, "requests to localhost are not allowed"@)),
            )
        } else {
            match crate::ip_text::parsed_ip(unbracketed(host)) {
                Some(ip) => if restricted(ip) {
                    FetchStepView::Finished(
                        Err(
                            (
                                ToolErrorKind::PermissionDenied,
                                "IP "@ + crate::ip_text::rendered_ip(ip)
                                    + " is a restricted address (private/loopback/link-local)"@,
                            ),
                        ),
                    )
                } else {
                    FetchStepView::Finished(Ok(None))
                },
                None => FetchStepView::Resolve(host),
            }
        },
    }
}

/// How a fetch ends if the lookup that it may need gives `lookup`.
pub open spec fn fetch_verdict(
    parts: (Seq<char>, Option<Seq<char>>),
    lookup: Result<Seq<IpAddr>, Seq<char>>,
    decider: Option<NetworkPolicyDecider>,
    tool: Seq<char>,
) -> Verdict {
    match fetch_step(parts, decider, tool) {
        FetchStepView::Resolve(host) => lookup_verdict(host, lookup, decider, tool),
        FetchStepView::Finished(v) => v,
    }
}

/// Checks whether `url` may be fetched, as far as that can be told without a lookup.
///
/// `tool` is the label under which the policy is asked. A literal public address needs no
/// pin. For a host name the step says what to look up; [`validate_lookup`] takes the
/// answer.
pub fn validate_fetch_target(url: &Url, context: &ToolContext, tool: &str) -> (r: FetchStep)
    ensures
        r@ == fetch_step(url.parts(), context.network_policy, tool@),
{
    if !same_text(url.scheme.as_str(), "http") && !same_text(url.scheme.as_str(), "https") {
        return FetchStep::Finished(
            Err(
                ToolError::invalid_input(
                    "only http:// and https:// URLs are supported".to_owned(),
                ),
            ),
        );
    }
    let host = match &url.host {
        Some(host) => host.as_str().to_ascii_lowercase(),
        None => {
            return FetchStep::Finished(
                Err(ToolError::invalid_input("URL must include a host".to_owned())),
            );
        },
    };
    if let Err(e) = validate_network_policy(host.as_str(), context, tool) {
        return FetchStep::Finished(Err(e));
    }
    if same_text(host.as_str(), "localhost") || same_text(host.as_str(), "localhost.localdomain") {
        return FetchStep::Finished(
            Err(ToolError::permission_denied("requests to localhost are not allowed".to_owned())),
        );
    }
    // A bracketed IPv6 literal falls under the same rule as a bare one.
    match IpAddr::parse(unbracket(host.as_str())) {
        Some(ip) => {
            if is_restricted_ip(&ip) {
                let mut m = "IP ".to_owned();
                ip.push_to(&mut m);
                m.append(" is a restricted address (private/loopback/link-local)");
                return FetchStep::Finished(Err(ToolError::permission_denied(m)));
            }
            FetchStep::Finished(Ok(None))
        },
        None => FetchStep::Resolve(host),
    }
}

/// How many records a fetch leaves: none where it ends without a lookup.
pub open spec fn fetch_exceptions(
    parts: (Seq<char>, Option<Seq<char>>),
    lookup: Result<Seq<IpAddr>, Seq<char>>,
    decider: Option<NetworkPolicyDecider>,
    tool: Seq<char>,
) -> nat {
    match (fetch_step(parts, decider, tool), lookup) {
        (FetchStepView::Resolve(host), Ok(addrs)) => exceptions(host, addrs, decider, 0),
        _ => 0,
    }
}

/// Checks whether `url` may be fetched where the answer to a lookup of its host is at
/// hand; it is left alone if the check ends without it.
pub fn validate_fetch_with_lookup(
    url: &Url,
    lookup: &Result<Vec<IpAddr>, String>,
    context: &ToolContext,
    tool: &str,
    audit: &mut Vec<AuditRecord>,
) -> (r: Result<DnsPin, ToolError>)
    ensures
        verdict_view(r) == fetch_verdict(
            url.parts(),
            lookup_view(*lookup),
            context.network_policy,
            tool@,
        ),
        recorded(
            old(audit)@,
            final(audit)@,
            fetch_exceptions(url.parts(), lookup_view(*lookup), context.network_policy, tool@),
            match url.parts().1 {
                Some(host) => crate::text::lowered(host),
                None => Seq::empty(),
            },
            tool@,
        ),
{
    match validate_fetch_target(url, context, tool) {
        FetchStep::Resolve(host) => validate_lookup(host, lookup, context, tool, audit),
        FetchStep::Finished(r) => r,
    }
}

} // verus!
