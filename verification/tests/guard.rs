use codewhale_tui::guard::{
    enforce_address, enforce_decision, is_restricted_ip, validate_dns_resolved_ip,
    validate_fetch_target, validate_fetch_with_lookup, validate_lookup, validate_network_policy,
    DnsPin, FetchStep,
};
use codewhale_tui::ip::{IpAddr, Ipv4Addr, Ipv6Addr};
use codewhale_tui::network_policy::{
    AddrRange, AuditRecord, Decision, NetworkPolicy, NetworkPolicyDecider,
};
use codewhale_tui::tool::{ToolContext, ToolError, ToolErrorKind};
use codewhale_tui::url::Url;

fn ip(text: &str) -> IpAddr {
    IpAddr::parse(text).unwrap()
}

fn ctx() -> ToolContext {
    ToolContext::new()
}

fn policy(default: Decision, allow: &[&str], deny: &[&str], proxy: &[&str]) -> NetworkPolicy {
    NetworkPolicy {
        default,
        allow: allow.iter().map(|h| h.to_string()).collect(),
        deny: deny.iter().map(|h| h.to_string()).collect(),
        proxy: proxy.iter().map(|h| h.to_string()).collect(),
        audit: false,
    }
}

/// Runs the whole check, with `lookup` as the answer to a lookup if one is needed.
fn fetch(
    url: &str,
    context: &ToolContext,
    tool: &str,
    lookup: Result<Vec<IpAddr>, String>,
) -> Result<DnsPin, ToolError> {
    let url = Url::parse(url).unwrap();
    validate_fetch_with_lookup(&url, &lookup, context, tool, &mut Vec::new())
}

/// The error of a check that must not need a lookup.
fn refused(url: &str, context: &ToolContext, tool: &str) -> ToolError {
    let url = Url::parse(url).unwrap();
    match validate_fetch_target(&url, context, tool) {
        FetchStep::Finished(Err(e)) => e,
        other => panic!("{other:?}"),
    }
}

#[test]
fn rejects_private_localhost_literal() {
    assert!(is_restricted_ip(&ip("127.0.0.1")));
    assert!(is_restricted_ip(&ip("::1")));
}

#[test]
fn rejects_private_rfc1918() {
    assert!(is_restricted_ip(&ip("10.0.0.1")));
    assert!(is_restricted_ip(&ip("172.16.0.1")));
    assert!(is_restricted_ip(&ip("192.168.1.1")));
}

#[test]
fn rejects_cloud_metadata() {
    assert!(is_restricted_ip(&ip("169.254.169.254")));
}

#[test]
fn rejects_link_local() {
    assert!(is_restricted_ip(&ip("169.254.1.1")));
}

#[test]
fn rejects_cgnat() {
    assert!(is_restricted_ip(&ip("100.64.0.1")));
    assert!(!is_restricted_ip(&ip("100.63.0.1")));
    assert!(!is_restricted_ip(&ip("100.128.0.1")));
}

#[test]
fn rejects_ipv6_ula() {
    assert!(is_restricted_ip(&ip("fc00::1")));
    assert!(is_restricted_ip(&ip("fd12:3456::1")));
}

#[test]
fn rejects_ipv4_mapped_ipv6() {
    assert!(is_restricted_ip(&ip("::ffff:127.0.0.1")));
    assert!(is_restricted_ip(&ip("::ffff:10.0.0.1")));
    assert!(is_restricted_ip(&ip("::ffff:169.254.169.254")));
    assert!(is_restricted_ip(&ip("::ffff:192.168.1.1")));
    assert!(is_restricted_ip(&ip("::")));
}

#[test]
fn allows_public_ips() {
    assert!(!is_restricted_ip(&ip("8.8.8.8")));
    assert!(!is_restricted_ip(&ip("1.1.1.1")));
    assert!(!is_restricted_ip(&ip("93.184.216.34")));
    assert!(!is_restricted_ip(&ip("2606:4700::1")));
}

#[test]
fn block_borders() {
    let restricted = [
        "127.255.255.255", "10.255.255.255", "172.31.255.255", "192.168.0.0", "169.254.0.0",
        "224.0.0.0", "239.255.255.255", "240.0.0.0", "255.255.255.255", "0.0.0.0",
        "100.64.0.0", "100.127.255.255", "198.18.0.0", "198.19.255.255", "::ffff:100.64.0.1",
        "ff00::", "ff02::1", "fdff:ffff::", "fe80::", "febf:ffff::1",
    ];
    for text in restricted {
        assert!(is_restricted_ip(&ip(text)), "{text}");
    }
    let public = [
        "126.255.255.255", "128.0.0.0", "9.255.255.255", "11.0.0.0", "172.15.255.255",
        "172.32.0.0", "192.167.255.255", "192.169.0.0", "169.253.255.255", "169.255.0.0",
        "223.255.255.255", "0.0.0.1", "198.17.255.255", "198.20.0.0", "::2", "::fffe:8.8.8.8",
        "::ffff:8.8.8.8", "::ffff:0.0.0.1",
        "fbff::", "fe00::", "fe7f::", "fec0::", "feff::",
    ];
    for text in public {
        assert!(!is_restricted_ip(&ip(text)), "{text}");
    }
}

#[test]
fn redirected_localhost_hostname_is_rejected() {
    let err = refused("http://localhost:8080/admin", &ctx(), "fetch_url");
    assert!(err.message.contains("localhost"));
    assert_eq!(err.message, "requests to localhost are not allowed");
    assert_eq!(err.kind, ToolErrorKind::PermissionDenied);
    let err = refused("http://LocalHost.LocalDomain/", &ctx(), "fetch_url");
    assert_eq!(err.message, "requests to localhost are not allowed");
}

#[test]
fn redirected_private_ip_literal_is_rejected() {
    let err = refused("http://169.254.169.254/latest/meta-data", &ctx(), "fetch_url");
    assert!(err.message.contains("restricted address"));
    assert_eq!(
        err.message,
        "IP 169.254.169.254 is a restricted address (private/loopback/link-local)"
    );
}

#[test]
fn rejects_ipv6_literal_loopback() {
    let err = refused("http://[::1]/", &ctx(), "fetch_url");
    assert!(err.message.contains("restricted"));
}

#[test]
fn rejects_ipv6_literal_ula() {
    let err = refused("http://[fc00::1]/", &ctx(), "fetch_url");
    assert!(err.message.contains("restricted"));
    assert_eq!(
        err.message,
        "IP fc00::1 is a restricted address (private/loopback/link-local)"
    );
}

#[test]
fn rejects_ipv6_literal_link_local() {
    let err = refused("http://[fe80::1]/", &ctx(), "fetch_url");
    assert!(err.message.contains("restricted"));
}

#[test]
fn rejects_ipv6_literal_ipv4_mapped_loopback() {
    let err = refused("http://[::ffff:127.0.0.1]/", &ctx(), "fetch_url");
    assert!(err.message.contains("restricted"));
    assert_eq!(
        err.message,
        "IP ::ffff:127.0.0.1 is a restricted address (private/loopback/link-local)"
    );
}

#[test]
fn rejects_ipv6_literal_unspecified() {
    let err = refused("http://[::]/", &ctx(), "fetch_url");
    assert!(err.message.contains("restricted"));
}

#[test]
fn redirected_host_respects_network_policy() {
    let policy = NetworkPolicy {
        default: Decision::Deny,
        allow: vec!["api.deepseek.com".to_string()],
        deny: vec![],
        proxy: Vec::new(),
        audit: false,
    };
    let ctx = ctx().with_network_policy(NetworkPolicyDecider::new(policy));
    let err = refused("https://example.com/redirect-target", &ctx, "fetch_url");
    assert!(err.message.contains("blocked"));
    assert_eq!(err.message, "network call to 'example.com' blocked by network policy");
    assert!(validate_network_policy("api.deepseek.com", &ctx, "fetch_url").is_ok());
}

#[test]
fn prompt_asks_for_approval() {
    let decider = NetworkPolicyDecider::new(policy(Decision::Prompt, &[], &["bad.com"], &[]));
    let ctx = ctx().with_network_policy(decider);
    let err = validate_network_policy("example.com", &ctx, "web_run").unwrap_err();
    assert_eq!(
        err.message,
        "network call to 'example.com' requires approval; re-run after `/network allow \
         example.com` or set network.default = \"allow\" in config"
    );
    let err = validate_network_policy("bad.com", &ctx, "web_run").unwrap_err();
    assert_eq!(err.message, "network call to 'bad.com' blocked by network policy");
    assert!(enforce_decision("example.com", Decision::Allow).is_ok());
}

#[test]
fn policy_is_asked_before_localhost_and_literals() {
    let decider = NetworkPolicyDecider::new(policy(Decision::Deny, &[], &[], &[]));
    let ctx = ctx().with_network_policy(decider);
    for url in ["http://localhost/", "http://8.8.8.8/", "http://[::1]/"] {
        assert!(refused(url, &ctx, "fetch_url").message.contains("blocked"));
    }
}

#[test]
fn denied_wins_over_allowed() {
    let decider = NetworkPolicyDecider::new(policy(Decision::Allow, &["a.com"], &["a.com"], &[]));
    assert_eq!(decider.evaluate("a.com", "fetch_url"), Decision::Deny);
    assert_eq!(decider.evaluate("b.com", "fetch_url"), Decision::Allow);
}

#[test]
fn unresolved_hostname_is_rejected_before_request() {
    let err = fetch(
        "https://codewhale-unresolvable-fetch-target.invalid/resource",
        &ctx(),
        "fetch_url",
        Err("failed to lookup address information".to_string()),
    )
    .unwrap_err();
    assert!(err.message.contains("could not resolve host"));
    assert_eq!(
        err.message,
        "could not resolve host before fetch_url request: failed to lookup address information"
    );
}

#[test]
fn web_run_tool_label_is_used_in_dns_error() {
    let err = fetch(
        "https://codewhale-unresolvable-web-run-target.invalid/resource",
        &ctx(),
        "web_run",
        Err("no such host".to_string()),
    )
    .unwrap_err();
    assert!(err.message.contains("web_run"));
}

#[test]
fn empty_lookup_is_rejected() {
    let err = fetch("https://example.com/", &ctx(), "web_run", Ok(vec![])).unwrap_err();
    assert_eq!(err.message, "host resolved to no addresses before web_run request");
    assert_eq!(err.kind, ToolErrorKind::PermissionDenied);
}

#[test]
fn restricted_dns_result_is_denied_without_proxy_opt_in() {
    let mut audit = Vec::new();
    let err =
        validate_dns_resolved_ip("github.com", &ip("198.18.0.1"), None, "fetch_url", &mut audit)
            .unwrap_err();
    assert!(err.message.contains("resolved IP 198.18.0.1 is a restricted address"));
    assert!(audit.is_empty());
}

#[test]
fn proxy_opt_in_allows_restricted_dns_for_matching_host() {
    let policy = NetworkPolicy {
        default: Decision::Allow,
        allow: Vec::new(),
        deny: Vec::new(),
        proxy: vec!["github.com".to_string()],
        audit: false,
    };
    let decider = NetworkPolicyDecider::new(policy);
    let mut audit = Vec::new();
    let ip = ip("198.18.0.1");
    assert!(
        validate_dns_resolved_ip("github.com", &ip, Some(&decider), "fetch_url", &mut audit)
            .is_ok()
    );
}

#[test]
fn proxy_opt_in_does_not_allow_unlisted_host() {
    let policy = NetworkPolicy {
        default: Decision::Allow,
        allow: Vec::new(),
        deny: Vec::new(),
        proxy: vec!["github.com".to_string()],
        audit: false,
    };
    let decider = NetworkPolicyDecider::new(policy);
    let mut audit = Vec::new();
    let ip = ip("198.18.0.1");
    let err =
        validate_dns_resolved_ip("example.com", &ip, Some(&decider), "fetch_url", &mut audit)
            .unwrap_err();
    assert!(err.message.contains("resolved IP 198.18.0.1 is a restricted address"));
    assert!(audit.is_empty());
}

#[test]
fn proxy_dns_allow_is_audited() {
    let policy = NetworkPolicy {
        default: Decision::Allow,
        allow: Vec::new(),
        deny: Vec::new(),
        proxy: vec!["github.com".to_string()],
        audit: true,
    };
    let decider = NetworkPolicyDecider::new(policy);
    let mut audit: Vec<AuditRecord> = Vec::new();
    let ip = ip("198.18.0.1");
    assert!(
        validate_dns_resolved_ip("github.com", &ip, Some(&decider), "fetch_url", &mut audit)
            .is_ok()
    );
    assert_eq!(audit.len(), 1);
    assert!(audit[0].host.contains("github.com"));
    assert!(audit[0].decision.contains("TrustedProxyFakeIp-Allow"));
    assert_eq!(audit[0].tool, "fetch_url");
}

#[test]
fn fakeip_range_vouches_for_its_addresses_only() {
    let range = AddrRange { first: ip("198.18.0.0"), last: ip("198.19.255.255") };
    let v6 = AddrRange { first: ip("fc00::"), last: ip("fc00::ff") };
    let decider = NetworkPolicyDecider::new(policy(Decision::Allow, &[], &[], &[]))
        .with_fakeip_ranges(vec![range, v6]);
    assert!(decider.is_trusted_fakeip_addr(&ip("198.18.0.1")));
    assert!(decider.is_trusted_fakeip_addr(&ip("fc00::7")));
    assert!(!decider.is_trusted_fakeip_addr(&ip("fc00::100")));
    assert!(!decider.is_trusted_fakeip_addr(&ip("10.0.0.1")));
    let mut audit = Vec::new();
    let ok = ip("198.19.255.255");
    assert!(validate_dns_resolved_ip("a.com", &ok, Some(&decider), "t", &mut audit).is_ok());
    let real = ip("169.254.169.254");
    assert!(validate_dns_resolved_ip("a.com", &real, Some(&decider), "t", &mut audit).is_err());
    assert_eq!(audit.len(), 1);
}

#[test]
fn first_address_is_pinned_when_all_pass() {
    let pin = fetch(
        "https://EXAMPLE.com:8443/x?y",
        &ctx(),
        "fetch_url",
        Ok(vec![ip("93.184.216.34"), ip("2606:4700::1")]),
    )
    .unwrap()
    .unwrap();
    assert_eq!(pin.0, "example.com");
    assert_eq!(pin.1, ip("93.184.216.34"));
}

#[test]
fn one_restricted_address_spoils_the_lookup() {
    let addrs = vec![ip("93.184.216.34"), ip("10.0.0.5"), ip("127.0.0.1")];
    let err = fetch("https://example.com/", &ctx(), "fetch_url", Ok(addrs)).unwrap_err();
    assert_eq!(
        err.message,
        "resolved IP 10.0.0.5 is a restricted address (private/loopback/link-local)"
    );
}

#[test]
fn audit_counts_exceptions_up_to_the_refusal() {
    let range = AddrRange { first: ip("198.18.0.0"), last: ip("198.19.255.255") };
    let decider = NetworkPolicyDecider::new(policy(Decision::Allow, &[], &[], &[]))
        .with_fakeip_ranges(vec![range]);
    let ctx = ctx().with_network_policy(decider);
    let mut audit = Vec::new();
    let addrs = Ok(vec![
        ip("198.18.0.1"), ip("8.8.8.8"), ip("198.18.0.2"), ip("10.0.0.1"), ip("198.18.0.3"),
    ]);
    assert!(validate_lookup("a.com".to_string(), &addrs, &ctx, "t", &mut audit).is_err());
    assert_eq!(audit.len(), 2);
}

#[test]
fn literal_public_address_needs_no_pin() {
    assert!(fetch("http://8.8.8.8/", &ctx(), "t", Err(String::new())).unwrap().is_none());
    assert!(fetch("http://[2606:4700::1]/", &ctx(), "t", Err(String::new())).unwrap().is_none());
}

#[test]
fn odd_ipv4_spellings_are_normalised_by_the_url() {
    for url in ["http://127.1/", "http://0x7f.0.0.1/", "http://2130706433/", "http://017700000001/"] {
        let err = refused(url, &ctx(), "t");
        assert_eq!(
            err.message,
            "IP 127.0.0.1 is a restricted address (private/loopback/link-local)"
        );
    }
}

#[test]
fn other_schemes_are_invalid() {
    for url in ["ftp://example.com/", "file:///etc/passwd", "data:text/plain,x"] {
        let err = refused(url, &ctx(), "t");
        assert_eq!(err.kind, ToolErrorKind::InvalidInput);
        assert_eq!(err.message, "only http:// and https:// URLs are supported");
    }
}

#[test]
fn missing_host_is_invalid() {
    let url = Url { scheme: "http".to_string(), host: None };
    match validate_fetch_target(&url, &ctx(), "t") {
        FetchStep::Finished(Err(e)) => {
            assert_eq!(e.kind, ToolErrorKind::InvalidInput);
            assert_eq!(e.message, "URL must include a host");
        }
        other => panic!("{other:?}"),
    }
}

#[test]
fn half_a_bracket_is_no_literal() {
    for host in ["[::1", "::1]", "[", "]", "[]", ""] {
        let url = Url { scheme: "https".to_string(), host: Some(host.to_string()) };
        match validate_fetch_target(&url, &ctx(), "t") {
            FetchStep::Resolve(h) => assert_eq!(h, host),
            other => panic!("{other:?}"),
        }
    }
}

#[test]
fn url_parts_come_from_the_parser() {
    let url = Url::parse("HTTPS://User@Example.COM:80/p").unwrap();
    assert_eq!(url.scheme, "https");
    assert_eq!(url.host.as_deref(), Some("example.com"));
    assert_eq!(Url::parse("mailto:a@b.c").unwrap().host, None);
    assert!(Url::parse("no url").is_none());
    assert!(Url::parse("http://").is_none());
}

#[test]
fn vouched_address_passes() {
    assert!(enforce_address(&ip("10.0.0.1"), true).is_ok());
    assert!(enforce_address(&ip("8.8.8.8"), false).is_ok());
    assert_eq!(
        enforce_address(&ip("fe80::1"), false).unwrap_err().message,
        "resolved IP fe80::1 is a restricted address (private/loopback/link-local)"
    );
}

#[test]
fn mapped_form_is_no_way_round() {
    for a in 0..=255u8 {
        for b in 0..=255u8 {
            let v4 = Ipv4Addr::new(a, b, 2, 3);
            let high = a as u16 * 256 + b as u16;
            let v6 = Ipv6Addr::new(0, 0, 0, 0, 0, 0xffff, high, 2 * 256 + 3);
            assert_eq!(v6.to_ipv4_mapped(), Some(v4));
            assert_eq!(is_restricted_ip(&IpAddr::V6(v6)), is_restricted_ip(&IpAddr::V4(v4)));
        }
    }
    assert!(is_restricted_ip(&ip("::ffff:7f00:1")));
    assert!(!is_restricted_ip(&ip("::ffff:8.8.8.8")));
    assert!(!is_restricted_ip(&ip("8.8.8.8")));
    let r = fetch("http://[::ffff:8.8.8.8]/", &ctx(), "t", Err(String::new()));
    assert!(r.unwrap().is_none());
}

fn verdict(host: &str, lookup: Result<Vec<IpAddr>, String>) -> (Option<DnsPin>, Option<String>) {
    let url = Url { scheme: "https".to_string(), host: Some(host.to_string()) };
    match validate_fetch_with_lookup(&url, &lookup, &ctx(), "t", &mut Vec::new()) {
        Ok(pin) => (Some(pin), None),
        Err(e) => (None, Some(e.message)),
    }
}

#[test]
fn brackets_and_case_make_no_difference() {
    for host in ["10.0.0.1", "8.8.8.8", "::1", "FE80::A", "2606:4700::1", "::FFFF:8.8.8.8"] {
        let none = || Err(String::new());
        assert_eq!(verdict(host, none()), verdict(&format!("[{host}]"), none()));
        assert_eq!(verdict(host, none()), verdict(&host.to_lowercase(), none()));
    }
    let addrs = || Ok(vec![ip("93.184.216.34")]);
    assert_eq!(verdict("EXAMPLE.com", addrs()), verdict("example.COM", addrs()));
    assert_eq!(verdict("LOCALHOST", addrs()), verdict("localhost", addrs()));
    assert!(verdict("localhost", addrs()).0.is_none());
    // Only ASCII letters change their case.
    let pin = verdict("\u{c4}X.com", addrs()).0.unwrap().unwrap();
    assert_eq!(pin.0, "\u{c4}x.com");
}

#[test]
fn trusted_host_is_pinned_and_recorded() {
    let decider = NetworkPolicyDecider::new(policy(Decision::Allow, &[], &[], &["github.com"]));
    let ctx = ctx().with_network_policy(decider);
    let url = Url::parse("https://GitHub.com/x").unwrap();
    let lookup = Ok(vec![ip("198.18.0.1"), ip("140.82.112.3"), ip("198.18.0.2")]);
    let mut audit = Vec::new();
    let pin = validate_fetch_with_lookup(&url, &lookup, &ctx, "web_run", &mut audit).unwrap();
    assert_eq!(pin, Some(("github.com".to_string(), ip("198.18.0.1"))));
    assert_eq!(audit.len(), 2);
    assert!(audit.iter().all(|r| r.host == "github.com" && r.tool == "web_run"));
}
