use ulpf::cisco_asa::{built_event, read_header, session_disconnect_event, CiscoAsaExtractor};
use ulpf::direction::normalize_direction;
use ulpf::ocsf::{activity_id, disposition};
use ulpf::protocol::protocol_num_from_name;

#[test]
fn test_cisco_asa_built() {
    let extractor = CiscoAsaExtractor::new();
    let raw = "%ASA-6-302013: Built inbound UDP connection 12345 for outside:192.168.1.50/51234 (192.168.1.50/51234) to inside:10.0.0.1/53 (10.0.0.1/53)";
    let event = extractor.parse(raw).unwrap();

    assert_eq!(event.activity_id, activity_id::OPEN);
    assert_eq!(event.disposition, disposition::ALLOWED);
    assert_eq!(event.src_endpoint.ip.as_deref(), Some("192.168.1.50"));
    assert_eq!(event.src_endpoint.port, Some(51234));
    assert_eq!(event.src_endpoint.interface.as_deref(), Some("outside"));
    assert_eq!(event.dst_endpoint.ip.as_deref(), Some("10.0.0.1"));
    assert_eq!(event.dst_endpoint.port, Some(53));
    assert_eq!(event.dst_endpoint.interface.as_deref(), Some("inside"));
    assert_eq!(event.connection_info.protocol_name.as_deref(), Some("UDP"));
    assert_eq!(event.connection_info.protocol_num, Some(17));
    assert_eq!(event.connection_info.direction.as_deref(), Some("Inbound"));
}

#[test]
fn test_cisco_asa_teardown() {
    let extractor = CiscoAsaExtractor::new();
    let raw = "%ASA-6-302014: Teardown TCP connection 98765 for inside:10.0.0.5/49152 to outside:203.0.113.10/443 duration 0:00:30 bytes 1234 TCP FINs";
    let event = extractor.parse(raw).unwrap();

    assert_eq!(event.activity_id, activity_id::CLOSE);
    assert_eq!(event.disposition, disposition::ALLOWED);
    assert_eq!(event.src_endpoint.ip.as_deref(), Some("10.0.0.5"));
    assert_eq!(event.src_endpoint.port, Some(49152));
    assert_eq!(event.dst_endpoint.ip.as_deref(), Some("203.0.113.10"));
    assert_eq!(event.dst_endpoint.port, Some(443));
    assert_eq!(event.traffic.as_ref().and_then(|t| t.bytes_out), Some(1234));
}

#[test]
fn test_cisco_asa_deny() {
    let extractor = CiscoAsaExtractor::new();
    let raw = "%ASA-4-106023: Deny tcp src outside:198.51.100.25/1234 dst inside:10.0.0.10/80 by access-group \"outside_in\" [0x0, 0x0]";
    let event = extractor.parse(raw).unwrap();

    assert_eq!(event.activity_id, activity_id::OTHER);
    assert_eq!(event.disposition, disposition::BLOCKED);
    assert_eq!(event.src_endpoint.ip.as_deref(), Some("198.51.100.25"));
    assert_eq!(event.src_endpoint.port, Some(1234));
    assert_eq!(event.dst_endpoint.ip.as_deref(), Some("10.0.0.10"));
    assert_eq!(event.dst_endpoint.port, Some(80));
}

#[test]
fn test_cisco_asa_drop() {
    let extractor = CiscoAsaExtractor::new();
    let raw = "%ASA-2-106001: Inbound TCP connection denied from 198.51.100.5/5555 to 10.0.0.2/80 flags SYN on interface outside";
    let event = extractor.parse(raw).unwrap();

    assert_eq!(event.activity_id, activity_id::OTHER);
    assert_eq!(event.disposition, disposition::DROPPED);
    assert_eq!(event.src_endpoint.ip.as_deref(), Some("198.51.100.5"));
    assert_eq!(event.src_endpoint.port, Some(5555));
    assert_eq!(event.src_endpoint.interface.as_deref(), Some("outside"));
    assert_eq!(event.dst_endpoint.ip.as_deref(), Some("10.0.0.2"));
    assert_eq!(event.dst_endpoint.port, Some(80));
}

#[test]
fn test_cisco_asa_session_disconnect_113019() {
    let extractor = CiscoAsaExtractor::new();
    let raw = "<164>Sep 21 14:00:12 asa-dc-01 %ASA-4-113019: Group = RemoteAccess-Corp, Username = agarcia, IP = 203.0.113.163, Session disconnected. Session Type: SSL, Duration: 0h:39m:20s, Bytes xmt: 32799774, Bytes rcv: 663531, Reason: User Requested";
    let event = extractor.parse(raw).unwrap();

    assert_eq!(event.activity_id, activity_id::CLOSE);
    assert_eq!(event.disposition, disposition::ALLOWED);
    assert_eq!(
        event.src_endpoint.ip.as_deref(),
        Some("203.0.113.163"),
        "VPN peer IP is the session endpoint"
    );
    // No ports or protocol exist in this message — honest nulls
    assert_eq!(event.src_endpoint.port, None);
    assert_eq!(event.dst_endpoint.ip, None);
    assert_eq!(event.connection_info.protocol_name, None);
    assert_eq!(event.connection_info.protocol_num, None);
    assert_eq!(
        event.traffic.as_ref().and_then(|t| t.bytes_out),
        Some(32799774)
    );
    assert_eq!(
        event.traffic.as_ref().and_then(|t| t.bytes_in),
        Some(663531)
    );
    let unmapped = event.unmapped.unwrap();
    assert_eq!(
        unmapped.get("username").map(|s| s.as_str()),
        Some("agarcia")
    );
    assert_eq!(
        unmapped.get("disconnect_reason").map(|s| s.as_str()),
        Some("User Requested")
    );
    assert_eq!(
        unmapped.get("vpn_group").map(|s| s.as_str()),
        Some("RemoteAccess-Corp")
    );
}

fn fields(event: &ulpf::ocsf::NetworkActivity, name: &str) -> Option<String> {
    event.unmapped.as_ref().and_then(|m| m.get(name).cloned())
}

#[test]
fn a_line_without_header_is_refused() {
    let extractor = CiscoAsaExtractor::new();
    match extractor.parse("Sep 21 14:00:12 host sshd: accepted") {
        Ok(_) => panic!("no header, no event"),
        Err(e) => assert_eq!(
            e.message(),
            "Raw log does not contain valid %ASA- header: Sep 21 14:00:12 host sshd: accepted"
        ),
    }
}

#[test]
fn unknown_code_without_known_words() {
    let extractor = CiscoAsaExtractor::default();
    let event = extractor.parse_at("%ASA-3-999999: nothing known", 17).unwrap();
    assert_eq!(event.time, 17);
    assert_eq!(event.metadata.logged_time, 17);
    assert_eq!(event.metadata.raw_data, "%ASA-3-999999: nothing known");
    assert_eq!(event.metadata.product.vendor_name, "Cisco");
    assert_eq!(event.metadata.product.name, "ASA");
    assert_eq!(event.disposition, disposition::UNKNOWN);
    assert_eq!(event.activity_id, activity_id::OTHER);
    assert_eq!(event.activity_name, "Other");
    assert_eq!(fields(&event, "cisco_severity").as_deref(), Some("3"));
    assert_eq!(fields(&event, "cisco_message_code").as_deref(), Some("999999"));
}

#[test]
fn parse_reads_the_clock() {
    let extractor = CiscoAsaExtractor::new();
    let event = extractor.parse("%ASA-6-302013: x").unwrap();
    assert!(event.time > 1_500_000_000_000);
    assert_eq!(event.time, event.metadata.logged_time);
}

#[test]
fn a_severity_that_is_no_byte_counts_as_six() {
    let extractor = CiscoAsaExtractor::new();
    let event = extractor.parse("%ASA-300-1: x").unwrap();
    assert_eq!(fields(&event, "cisco_severity").as_deref(), Some("6"));
    let event = extractor.parse("%ASA-004-1: x").unwrap();
    assert_eq!(fields(&event, "cisco_severity").as_deref(), Some("4"));
}

#[test]
fn built_keeps_the_connection_number_and_an_unnamed_direction() {
    let extractor = CiscoAsaExtractor::new();
    let event = extractor
        .parse("%ASA-6-302015: Built icmp connection 7 for a:1.2.3.4/0 to b:5.6.7.8/0")
        .unwrap();
    assert_eq!(fields(&event, "connection_id").as_deref(), Some("7"));
    assert_eq!(event.connection_info.direction.as_deref(), Some("Unknown"));
    assert_eq!(event.connection_info.protocol_name.as_deref(), Some("ICMP"));
    assert_eq!(event.connection_info.protocol_num, Some(1));
    assert_eq!(event.activity_name, "Open");
}

#[test]
fn teardown_without_duration_and_bytes() {
    let extractor = CiscoAsaExtractor::new();
    let event = extractor
        .parse("%ASA-6-302016: Teardown UDP connection 9 for a:1.2.3.4/1 to b:5.6.7.8/2")
        .unwrap();
    assert!(event.traffic.is_none());
    assert_eq!(fields(&event, "duration"), None);
    assert_eq!(fields(&event, "connection_id").as_deref(), Some("9"));
    assert_eq!(event.connection_info.direction, None);

    let event = extractor
        .parse("%ASA-6-302021: Teardown UDP connection 9 for a:1.2.3.4/1 to b:5.6.7.8/2 duration 0:01:02 bytes 99999999999999999999")
        .unwrap();
    assert_eq!(fields(&event, "duration").as_deref(), Some("0:01:02"));
    assert!(event.traffic.is_none());
}

#[test]
fn deny_strips_the_quotes_of_the_access_group() {
    let extractor = CiscoAsaExtractor::new();
    let raw = "%ASA-4-106023: Deny tcp src outside:198.51.100.25/1234 dst inside:10.0.0.10/80 by access-group \"outside_in\" [0x0, 0x0]";
    let event = extractor.parse(raw).unwrap();
    assert_eq!(fields(&event, "access_group").as_deref(), Some("outside_in"));
    assert_eq!(event.connection_info.protocol_num, Some(6));
    assert_eq!(event.connection_info.direction, None);
}

#[test]
fn dropped_by_access_list_has_no_direction() {
    let extractor = CiscoAsaExtractor::new();
    let event = extractor
        .parse("%ASA-4-106007: dropped udp from 10.1.1.1/53 to 10.2.2.2/4096, access-list x denied")
        .unwrap();
    assert_eq!(event.disposition, disposition::DROPPED);
    assert_eq!(event.connection_info.direction, None);
    assert_eq!(event.connection_info.protocol_num, Some(17));
    assert_eq!(event.src_endpoint.ip.as_deref(), Some("10.1.1.1"));
    assert_eq!(event.src_endpoint.port, Some(53));
    assert_eq!(event.dst_endpoint.ip.as_deref(), Some("10.2.2.2"));
    assert_eq!(event.dst_endpoint.port, Some(4096));
}

#[test]
fn denied_connection_names_the_interface_of_its_source() {
    let extractor = CiscoAsaExtractor::new();
    let event = extractor
        .parse("%ASA-2-106006: Outbound UDP connection denied from 2001:db8::5/5 to dmz:10.0.0.2/80 on interface inside")
        .unwrap();
    assert_eq!(event.connection_info.direction.as_deref(), Some("Outbound"));
    assert_eq!(event.src_endpoint.ip.as_deref(), Some("2001:db8::5"));
    assert_eq!(event.src_endpoint.interface.as_deref(), Some("inside"));
    assert_eq!(event.dst_endpoint.interface.as_deref(), Some("dmz"));
}

#[test]
fn an_unmatched_body_falls_back_to_its_words() {
    let extractor = CiscoAsaExtractor::new();
    for code in ["302013", "302014", "106023", "106001", "113019", "000000"] {
        let raw = format!("%ASA-5-{}: Teardown of something dropped", code);
        let event = extractor.parse(&raw).unwrap();
        assert_eq!(event.disposition, disposition::ALLOWED);
        assert_eq!(event.activity_id, activity_id::CLOSE);
        assert_eq!(event.src_endpoint.ip, None);
        assert_eq!(event.dst_endpoint.port, None);
        assert_eq!(event.connection_info.protocol_name, None);
        assert!(event.traffic.is_none());
    }
}

#[test]
fn words_give_the_verdict() {
    let cases = [
        ("AAA user Authentication FAILED, tunnel established", disposition::BLOCKED),
        ("Login failed for Built user", disposition::BLOCKED),
        ("Built local-host", disposition::ALLOWED),
        ("Successful LOGIN from x", disposition::ALLOWED),
        ("IPSEC Tunnel Established", disposition::ALLOWED),
        ("SESSION DISCONNECTED, denied", disposition::ALLOWED),
        ("Deny IP spoof", disposition::BLOCKED),
        ("access denied", disposition::BLOCKED),
        ("packet dropped", disposition::DROPPED),
        ("will drop", disposition::DROPPED),
        ("built teardown deny DROP", disposition::UNKNOWN),
        ("", disposition::UNKNOWN),
    ];
    for (body, verdict) in cases {
        assert_eq!(ulpf::cisco_asa::fallback_disposition(body), verdict, "{}", body);
    }
}

#[test]
fn fallback_parse_keeps_the_given_fields() {
    let extractor = CiscoAsaExtractor::new();
    let mut unmapped = ulpf::fields::FieldMap::new();
    unmapped.insert("a".to_string(), "1".to_string());
    unmapped.insert("a".to_string(), "2".to_string());
    let event = extractor
        .fallback_parse("raw", "1", "Built x", 5, unmapped)
        .unwrap();
    assert_eq!(event.activity_id, activity_id::OPEN);
    assert_eq!(fields(&event, "a").as_deref(), Some("2"));
    assert_eq!(fields(&event, "b"), None);
    assert_eq!(event.unmapped.unwrap().entries().len(), 1);
}

#[test]
fn two_readings_differ_in_time_only() {
    let extractor = CiscoAsaExtractor::new();
    let raw = "%ASA-6-302013: Built inbound UDP connection 1 for a:1.1.1.1/1 to b:2.2.2.2/2";
    let mut first = extractor.parse_at(raw, 1).unwrap();
    let second = extractor.parse_at(raw, 2).unwrap();
    first.time = 2;
    first.metadata.logged_time = 2;
    assert_eq!(format!("{:?}", first), format!("{:?}", second));
}

#[test]
fn events_from_given_groups() {
    let some = |s: &str| Some(s.to_string());
    let header = read_header(&vec![some("all"), some("4"), some("113019"), some("body")]);
    assert_eq!(header.severity, 4);
    assert_eq!(header.message_code, "113019");
    assert_eq!(header.body, "body");

    let none = read_header(&vec![]);
    assert_eq!(none.severity, 6);
    assert_eq!(none.message_code, "");

    let event = built_event("raw", &header, &vec![], 0);
    assert_eq!(event.connection_info.protocol_name.as_deref(), Some("TCP"));
    assert_eq!(event.connection_info.direction.as_deref(), Some("Unknown"));
    assert_eq!(event.src_endpoint.ip.as_deref(), Some(""));

    let groups = vec![
        None, some(" g "), None, some("\t1.2.3.4 "), some("SSL"), None, some("7"), some("x"), some("r"),
    ];
    let event = session_disconnect_event("raw", &header, &groups, 0);
    assert_eq!(event.src_endpoint.ip.as_deref(), Some("1.2.3.4"));
    assert!(event.traffic.is_none());
    assert_eq!(fields(&event, "vpn_group").as_deref(), Some("g"));
    assert_eq!(fields(&event, "username"), None);
    assert_eq!(fields(&event, "disconnect_reason").as_deref(), Some("r"));
}

#[test]
fn directions() {
    assert_eq!(normalize_direction("INBOUND"), "Inbound");
    assert_eq!(normalize_direction("In"), "Inbound");
    assert_eq!(normalize_direction("outbound"), "Outbound");
    assert_eq!(normalize_direction("OUT"), "Outbound");
    assert_eq!(normalize_direction(" in"), "Unknown");
    assert_eq!(normalize_direction(""), "Unknown");
    assert_eq!(normalize_direction(&normalize_direction("iNbOuNd")), "Inbound");
}

#[test]
fn protocols() {
    assert_eq!(protocol_num_from_name("TCP"), Some(6));
    assert_eq!(protocol_num_from_name("GRE"), Some(47));
    assert_eq!(protocol_num_from_name("ICMPV6"), Some(58));
    assert_eq!(protocol_num_from_name("tcp"), None);
}

#[test]
fn extractors_can_be_made_again_and_again() {
    let raw = "%ASA-6-302014: Teardown TCP connection 9 for a:10.0.0.5/1 to b:10.0.0.6/2";
    let first = CiscoAsaExtractor::new();
    let before = format!("{:?}", first.parse_at(raw, 1).unwrap());
    let second = CiscoAsaExtractor::new();
    assert_eq!(format!("{:?}", first.parse_at(raw, 1).unwrap()), before);
    assert_eq!(format!("{:?}", second.parse_at(raw, 1).unwrap()), before);
}

#[test]
fn a_preface_changes_nothing_but_the_raw_line() {
    let extractor = CiscoAsaExtractor::new();
    let messages = [
        "%ASA-4-106023: Deny tcp src outside:198.51.100.25/1234 dst inside:10.0.0.10/80",
        "%ASA-x %ASA-6-302013: Built UDP connection 1 for a:10.0.0.1/1 to b:10.0.0.2/2",
        "%ASA-1-2: %ASA-3-4: drop",
    ];
    for message in messages {
        let bare = extractor.parse_at(message, 3).unwrap();
        for preface in ["<164>Sep 21 14:00:12 caf\u{e9} ", "%", "%ASA", "%ASA%ASA", "line\n"] {
            let raw = format!("{}{}", preface, message);
            let mut event = extractor.parse_at(&raw, 3).unwrap();
            assert_eq!(event.metadata.raw_data, raw);
            event.metadata.raw_data = message.to_string();
            assert_eq!(format!("{:?}", event), format!("{:?}", bare));
        }
    }
}

#[test]
fn a_denied_connection_without_a_direction_word_counts_as_inbound() {
    let extractor = CiscoAsaExtractor::new();
    let event = extractor
        .parse_at("%ASA-2-106001: connection denied from 10.0.0.1/1 to 10.0.0.2/2", 0)
        .unwrap();
    assert_eq!(event.connection_info.direction, None);
    let event = extractor
        .parse_at("%ASA-2-106001: TCP connection denied from 10.0.0.1/1 to 10.0.0.2/2", 0)
        .unwrap();
    assert_eq!(event.connection_info.direction.as_deref(), Some("Inbound"));
}
