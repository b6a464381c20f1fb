//! Which hosts a tool may reach, and which resolved addresses a proxy set-up vouches for.
use crate::ip::IpAddr;
use crate::text::same_text;
use vstd::prelude::*;

verus! {

/// What the policy says about one host.
#[derive(Clone, Copy, Debug, PartialEq, Eq, Structural)]
pub enum Decision {
    Allow,
    Deny,
    Prompt,
}

/// The configured policy. Hosts are compared as they stand.
#[derive(Debug)]
pub struct NetworkPolicy {
    /// What holds for a host that neither list names.
    pub default: Decision,
    pub allow: Vec<String>,
    pub deny: Vec<String>,
    /// Hosts that a trusted proxy resolves into placeholder addresses.
    pub proxy: Vec<String>,
    /// Whether audit records are to be written.
    pub audit: bool,
}

/// The addresses from `first` to `last`, both of one family.
#[derive(Clone, Copy, Debug, PartialEq, Eq, Structural)]
pub struct AddrRange {
    pub first: IpAddr,
    pub last: IpAddr,
}

/// A policy together with the placeholder ranges of a proxy in fake-IP mode.
#[derive(Debug)]
pub struct NetworkPolicyDecider {
    pub policy: NetworkPolicy,
    pub fakeip_ranges: Vec<AddrRange>,
}

/// A line for the audit log: an address that was let past the block on restricted
/// addresses.
#[derive(Debug)]
pub struct AuditRecord {
    pub host: String,
    pub tool: String,
    pub decision: String,
}

/// Whether `hosts` names `host`.
pub open spec fn names(hosts: Seq<String>, host: Seq<char>) -> bool {
    exists|i: int| 0 <= i < hosts.len() && (#[trigger] hosts[i])@ == host
}

impl NetworkPolicy {
    /// The answer to the question whether `host` may be called under the label `tool`: a
    /// denied host is denied even if it is allowed too, a host on neither list gets the
    /// default, and all labels are answered alike. It is opaque, so that what speaks of it
    /// speaks of the very host and label that were asked for.
    #[verifier::opaque]
    pub open spec fn decision_for(self, host: Seq<char>, tool: Seq<char>) -> Decision {
        if names(self.deny@, host) {
            Decision::Deny
        } else if names(self.allow@, host) {
            Decision::Allow
        } else {
            self.default
        }
    }

    /// A denied host is denied under every label, an allowed one that is not denied is
    /// allowed, and every other one gets the default.
    pub proof fn decisions_go_by_the_lists(self, host: Seq<char>, tool: Seq<char>)
        ensures
            names(self.deny@, host) ==> self.decision_for(host, tool) == Decision::Deny,
            !names(self.deny@, host) && names(self.allow@, host) ==> self.decision_for(host, tool)
                == Decision::Allow,
            !names(self.deny@, host) && !names(self.allow@, host) ==> self.decision_for(host, tool)
                == self.default,
    {
        reveal(NetworkPolicy::decision_for);
    }
}

impl AddrRange {
    /// Whether `ip` lies between the two ends, in their family.
    pub open spec fn covers(self, ip: IpAddr) -> bool {
        match (self.first, ip, self.last) {
            (IpAddr::V4(lo), IpAddr::V4(v), IpAddr::V4(hi)) => lo.value() <= v.value()
                <= hi.value(),
            (IpAddr::V6(lo), IpAddr::V6(v), IpAddr::V6(hi)) => lo.value() <= v.value()
                <= hi.value(),
            _ => false,
        }
    }

    /// Whether `ip` lies in the range.
    pub fn contains(&self, ip: &IpAddr) -> (r: bool)
        ensures
            r == self.covers(*ip),
    {
        match (&self.first, ip, &self.last) {
            (IpAddr::V4(lo), IpAddr::V4(v), IpAddr::V4(hi)) => lo.to_bits() <= v.to_bits()
                && v.to_bits() <= hi.to_bits(),
            (IpAddr::V6(lo), IpAddr::V6(v), IpAddr::V6(hi)) => lo.to_bits() <= v.to_bits()
                && v.to_bits() <= hi.to_bits(),
            _ => false,
        }
    }
}

/// Whether `hosts` names `host`.
fn lists(hosts: &Vec<String>, host: &str) -> (r: bool)
    ensures
        r == names(hosts@, host@),
{
    for i in 0..hosts.len()
        invariant
            forall|j: int| 0 <= j < i ==> (#[trigger] hosts@[j])@ != host@,
    {
        if same_text(hosts[i].as_str(), host) {
            return true;
        }
    }
    false
}

impl NetworkPolicyDecider {
    /// Whether a configured placeholder range covers `ip`.
    pub open spec fn fakeip(self, ip: IpAddr) -> bool {
        exists|i: int|
            0 <= i < self.fakeip_ranges@.len() && (#[trigger] self.fakeip_ranges@[i]).covers(ip)
    }

    /// Whether a restricted address that `host` resolved to is let past all the same.
    pub open spec fn vouches(self, host: Seq<char>, ip: IpAddr) -> bool {
        self.fakeip(ip) || names(self.policy.proxy@, host)
    }

    /// A decider without placeholder ranges.
    pub fn new(policy: NetworkPolicy) -> (r: NetworkPolicyDecider)
        ensures
            r.policy == policy,
            r.fakeip_ranges@ == Seq::<AddrRange>::empty(),
    {
        NetworkPolicyDecider { policy, fakeip_ranges: Vec::new() }
    }

    /// The same decider with these placeholder ranges.
    pub fn with_fakeip_ranges(self, ranges: Vec<AddrRange>) -> (r: NetworkPolicyDecider)
        ensures
            r.policy == self.policy,
            r.fakeip_ranges == ranges,
    {
        NetworkPolicyDecider { policy: self.policy, fakeip_ranges: ranges }
    }

    /// What the policy says about `host` under the label `tool`.
    pub fn evaluate(&self, host: &str, tool: &str) -> (r: Decision)
        ensures
            r == self.policy.decision_for(host@, tool@),
    {
        proof {
            self.policy.decisions_go_by_the_lists(host@, tool@);
        }
        if lists(&self.policy.deny, host) {
            Decision::Deny
        } else if lists(&self.policy.allow, host) {
            Decision::Allow
        } else {
            self.policy.default
        }
    }

    /// Whether `ip` falls inside a configured placeholder range.
    pub fn is_trusted_fakeip_addr(&self, ip: &IpAddr) -> (r: bool)
        ensures
            r == self.fakeip(*ip),
    {
        for i in 0..self.fakeip_ranges.len()
            invariant
                forall|j: int| 0 <= j < i ==> !(#[trigger] self.fakeip_ranges@[j]).covers(*ip),
        {
            if self.fakeip_ranges[i].contains(ip) {
                return true;
            }
        }
        false
    }

    /// Whether `host` is on the list of hosts behind a trusted proxy.
    pub fn trusts_proxy_fakeip_host(&self, host: &str) -> (r: bool)
        ensures
            r == names(self.policy.proxy@, host@),
    {
        lists(&self.policy.proxy, host)
    }
}

impl AuditRecord {
    /// Whether the record says that `tool` was let through to `host`.
    pub open spec fn allows(self, host: Seq<char>, tool: Seq<char>) -> bool {
        &&& self.host@ == host
        &&& self.tool@ == tool
        &&& self.decision@ == "TrustedProxyFakeIp-Allow"@
    }

    /// The record of a restricted address that was let past for `host`.
    pub fn trusted_proxy_fakeip_allow(host: &str, tool: &str) -> (r: AuditRecord)
        ensures
            r.allows(host@, tool@),
    {
        AuditRecord {
            host: host.to_owned(),
            tool: tool.to_owned(),
            decision: "TrustedProxyFakeIp-Allow".to_owned(),
        }
    }
}

} // verus!
