use codewhale_tui::ip::{IpAddr, Ipv4Addr, Ipv6Addr};
use codewhale_tui::url::Url;

#[test]
fn literals_are_read() {
    let v6 = |s: [u16; 8]| {
        Some(IpAddr::V6(Ipv6Addr::new(s[0], s[1], s[2], s[3], s[4], s[5], s[6], s[7])))
    };
    assert_eq!(IpAddr::parse("1.2.30.255"), Some(IpAddr::V4(Ipv4Addr::new(1, 2, 30, 255))));
    assert_eq!(IpAddr::parse("0.0.0.0"), Some(IpAddr::V4(Ipv4Addr::new(0, 0, 0, 0))));
    assert_eq!(IpAddr::parse("::"), v6([0; 8]));
    assert_eq!(IpAddr::parse("1::"), v6([1, 0, 0, 0, 0, 0, 0, 0]));
    assert_eq!(IpAddr::parse("1:2:3:4:5:6:7::"), v6([1, 2, 3, 4, 5, 6, 7, 0]));
    assert_eq!(IpAddr::parse("::2:3:4:5:6:7:8"), v6([0, 2, 3, 4, 5, 6, 7, 8]));
    assert_eq!(IpAddr::parse("1:2:3:4:5:6:1.2.3.4"), v6([1, 2, 3, 4, 5, 6, 0x102, 0x304]));
    assert_eq!(IpAddr::parse("a::b:1.2.3.4"), v6([10, 0, 0, 0, 0, 11, 0x102, 0x304]));
    assert_eq!(
        IpAddr::parse("2001:DB8:0:00:000:0000:aB:ffff"),
        v6([0x2001, 0xdb8, 0, 0, 0, 0, 0xab, 0xffff])
    );
}

#[test]
fn other_texts_are_no_literals() {
    let bad = [
        "", " ", "1.2.3", "1.2.3.4.5", "1.2.3.256", "1.2.3.04", "1.2.3.4 ", "1..2.3", "+1.2.3.4",
        "1.2.3.0004", ":", ":::", "1:::2", "1::2::3", "1:2:3:4:5:6:7", "1:2:3:4:5:6:7:8:9",
        "1:2:3:4:5:6:7:8::", "::1:2:3:4:5:6:7:8", "12345::", "g::", ":1:2:3:4:5:6:7:8",
        "1:2:3:4:5:6:7:8:", "1.2.3.4::", "::1.2.3.4:5", "1:2:3:4:5:6:7:1.2.3.4", "::1%lo",
        "[::1]", "fe80::1/64", "example.com", "\u{661}.2.3.4",
    ];
    for text in bad {
        assert_eq!(IpAddr::parse(text), None, "{text}");
    }
}

#[test]
fn addresses_are_written() {
    let same = [
        "0.0.0.0", "1.20.255.9", "::", "::1", "1::", "::ffff:1.2.3.4", "2001:db8::1",
        "1:2:3:4:5:6:7:8", "1:0:3:4:5:6:7:8", "1:0:0:4::", "0:0:3::7:8", "fe80::1:0:0:1",
        "::fffe:0:1", "abcd:ef01::",
    ];
    for text in same {
        assert_eq!(IpAddr::parse(text).unwrap().render(), *text);
    }
    let other = [
        ("1:0:0:4:0:0:7:8", "1::4:0:0:7:8"),
        ("0:0:0:0:0:ffff:7f00:1", "::ffff:127.0.0.1"),
        ("::1.2.3.4", "::102:304"),
        ("ABCD::00EF", "abcd::ef"),
        ("1:2:3:4:5:6:7::", "1:2:3:4:5:6:7:0"),
    ];
    for (text, written) in other {
        assert_eq!(IpAddr::parse(text).unwrap().render(), written);
    }
}

#[test]
fn written_addresses_are_read_back() {
    for bits in 0..=255u16 {
        let s = |i: u16| if bits >> i & 1 == 0 { 0 } else { 0x9a0 + i };
        let v6 = Ipv6Addr::new(s(0), s(1), s(2), s(3), s(4), s(5), s(6), s(7));
        let ip = IpAddr::V6(v6);
        assert_eq!(IpAddr::parse(&ip.render()), Some(ip));
    }
}

#[test]
fn numbers_of_addresses() {
    assert_eq!(Ipv4Addr::new(1, 2, 3, 4).to_bits(), 0x0102_0304);
    assert_eq!(Ipv6Addr::new(0, 0, 0, 0, 0, 0, 1, 2).to_bits(), 0x1_0002);
    assert_eq!(Ipv6Addr::new(0xffff, 0, 0, 0, 0, 0, 0, 0).to_bits() >> 112, 0xffff);
}

/// Hosts in square brackets are read by the URL parser too, which knows the same grammar
/// and writes the address in the same form, except that it has no dotted decimals.
#[test]
fn literals_agree_with_the_url_parser() {
    let tokens = [
        "0", "1", "a", "F", "00", "ffff", "255", "256", "12345", ":", ":", ":", ":", "::", "::",
        ".", ":0", ":0", ":b", "c:", "0:", "1.2.3.4", "1.2.3.04", "255.0.0.10",
    ];
    let mut state: u64 = 1;
    let mut read = 0;
    for round in 0..60_000usize {
        let mut text = String::new();
        for _ in 0..1 + round % 12 {
            state = state.wrapping_mul(6364136223846793005).wrapping_add(1442695040888963407);
            text.push_str(tokens[(state >> 33) as usize % tokens.len()]);
        }
        let ours = match IpAddr::parse(&text) {
            Some(IpAddr::V6(v6)) => Some(v6),
            _ => None,
        };
        let host = Url::parse(&format!("http://[{text}]/")).and_then(|url| url.host);
        assert_eq!(ours.is_some(), host.is_some(), "{text}");
        if let (Some(v6), Some(host)) = (ours, host) {
            read += 1;
            let inner = &host[1..host.len() - 1];
            assert_eq!(IpAddr::parse(inner), Some(IpAddr::V6(v6)), "{text}");
            if v6.to_ipv4_mapped().is_none() {
                assert_eq!(IpAddr::V6(v6).render(), inner);
            }
        }
    }
    assert!(read > 1_000, "{read}");
}
