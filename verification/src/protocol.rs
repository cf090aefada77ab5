//! Names and numbers of transport protocols.
use vstd::prelude::*;
use crate::text::same;

verus! {

/// The number that IANA assigns to the protocol of that upper-case name.
pub open spec fn protocol_number(name: Seq<char>) -> Option<u8> {
    if name == "TCP"@ {
        Some(6)
    } else if name == "UDP"@ {
        Some(17)
    } else if name == "ICMP"@ {
        Some(1)
    } else if name == "IGMP"@ {
        Some(2)
    } else if name == "GRE"@ {
        Some(47)
    } else if name == "ESP"@ {
        Some(50)
    } else if name == "AH"@ {
        Some(51)
    } else if name == "ICMP6"@ || name == "ICMPV6"@ {
        Some(58)
    } else if name == "SCTP"@ {
        Some(132)
    } else {
        None
    }
}

/// The number of the protocol named `name`, where the name is known.
pub fn protocol_num_from_name(name: &str) -> (r: Option<u8>)
    ensures
        r == protocol_number(name@),
{
    if same(name, "TCP") {
        Some(6)
    } else if same(name, "UDP") {
        Some(17)
    } else if same(name, "ICMP") {
        Some(1)
    } else if same(name, "IGMP") {
        Some(2)
    } else if same(name, "GRE") {
        Some(47)
    } else if same(name, "ESP") {
        Some(50)
    } else if same(name, "AH") {
        Some(51)
    } else if same(name, "ICMP6") || same(name, "ICMPV6") {
        Some(58)
    } else if same(name, "SCTP") {
        Some(132)
    } else {
        None
    }
}

}
