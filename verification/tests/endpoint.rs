use ulpf::endpoint::parse_endpoint_str;
use ulpf::ip::ip_literal;

fn parts(text: &str, default: Option<&str>) -> (String, Option<u16>, Option<String>) {
    let (ip, port, interface) = parse_endpoint_str(text, default);
    (ip.unwrap(), port, interface)
}

fn expect(text: &str, default: Option<&str>, ip: &str, port: Option<u16>, interface: Option<&str>) {
    assert_eq!(
        parts(text, default),
        (ip.to_string(), port, interface.map(|s| s.to_string())),
        "{}",
        text
    );
}

#[test]
fn every_form_of_an_endpoint() {
    expect("outside:192.168.1.50/51234", None, "192.168.1.50", Some(51234), Some("outside"));
    expect("10.0.0.1/53", Some("dmz"), "10.0.0.1", Some(53), Some("dmz"));
    expect("inside:10.0.0.1", Some("dmz"), "10.0.0.1", None, Some("inside"));
    expect("10.0.0.1", None, "10.0.0.1", None, None);
    expect("[2001:db8::5]/443", Some("outside"), "2001:db8::5", Some(443), Some("outside"));
    expect("inside:[2001:db8::5]/443", None, "2001:db8::5", Some(443), Some("inside"));
    expect("2001:db8::1", Some("x"), "2001:db8::1", None, Some("x"));
    expect("2001:db8::1/80", None, "2001:db8::1", Some(80), None);
    expect("inside:2001:db8::1/80", None, "2001:db8::1", Some(80), Some("inside"));
}

#[test]
fn an_interface_of_hex_digits_before_an_ipv6_address_is_a_part_of_it() {
    expect("dead:2001:db8::1/80", Some("x"), "dead:2001:db8::1", Some(80), Some("x"));
    expect("decade:2001:db8::1/80", Some("x"), "2001:db8::1", Some(80), Some("decade"));
    expect("dead:1:2:3:4:5:6:7:8/80", Some("x"), "1:2:3:4:5:6:7:8", Some(80), Some("dead"));
}

#[test]
fn edges_of_an_endpoint() {
    expect("  (10.0.0.1/53) ", None, "10.0.0.1", Some(53), None);
    expect("((a:1.2.3.4/5]", None, "1.2.3.4", Some(5), Some("a"));
    expect("", None, "", None, None);
    expect("/", Some("i"), "", None, Some("i"));
    expect("a:b:c", None, "b:c", None, Some("a"));
    expect("1.2.3.4/65536", None, "1.2.3.4", None, None);
    expect("1.2.3.4/+80", None, "1.2.3.4", Some(80), None);
    expect("1.2.3.4/", None, "1.2.3.4", None, None);
    expect("a/b/1", None, "a/b", Some(1), None);
    expect(":1.2.3.4/7", None, "1.2.3.4", Some(7), Some(""));
    expect("::ffff:1.2.3.4/9", Some("i"), "::ffff:1.2.3.4", Some(9), Some("i"));
    expect("a[b]c/1", None, "abc", Some(1), None);
}

fn is_ip(s: &str) -> bool {
    ip_literal(&s.chars().collect())
}

#[test]
fn addresses() {
    for s in [
        "0.0.0.0", "255.255.255.255", "1.2.3.4", "::", "::1", "1::", "2001:db8::1",
        "1:2:3:4:5:6:7:8", "1:2:3:4:5:6:7::", "::2:3:4:5:6:7:8", "1:2:3:4:5:6:1.2.3.4",
        "::1.2.3.4", "1::1.2.3.4", "::ffff:255.255.255.255", "ABCD:abcd::", "0000:0:00:000::",
        "1:2:3:4:5::1.2.3.4", "fe80::1:2:3:4:5:6",
    ] {
        assert!(is_ip(s), "{}", s);
    }
    for s in [
        "", "1", "1.2.3", "1.2.3.4.5", "256.1.1.1", "01.2.3.4", "1.2.3.04", "1..2.3", "1.2.3.4 ",
        ":", ":::", "1:", ":1", "1:2", "1:2:3:4:5:6:7", "1:2:3:4:5:6:7:8:9", "1:2:3:4:5:6:7:8::",
        "::1::", "12345::", "g::", "1.2.3.4::", "1:2:3:4:5:6:7:1.2.3.4", "1:2:3:4:5:6::1.2.3.4",
        "::1.2.3", "1.2.3.4:5::", "fe80::1%eth0", "::1.2.3.4:5", "1:2:3:4:5:6:7::8",
        "[::1]", "+1::", "::-1",
    ] {
        assert!(!is_ip(s), "{}", s);
    }
}
