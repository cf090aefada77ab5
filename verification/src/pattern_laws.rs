//! Where the patterns find the groups of a message: each group behind the words
//! that announce it, in the order in which the groups are numbered.
use vstd::prelude::*;
use crate::cisco_asa::{BUILT, DENIED_CONN, DENY, DROPPED_ACL, HEADER, SESSION_DISCONNECT, TEARDOWN};
use crate::tamper::ADDRESS;

verus! {

/// A group of a pattern, with what stands in front of it.
pub struct Announced {
    pub by: Seq<char>,
    pub group: Seq<char>,
}

/// The pattern with these groups, in this order, and `end` behind the last.
pub open spec fn pattern_of(groups: Seq<Announced>, end: Seq<char>) -> Seq<char>
    decreases groups.len(),
{
    if groups.len() == 0 {
        end
    } else {
        groups[0].by + seq!['('] + groups[0].group + seq![')'] + pattern_of(
            groups.drop_first(),
            end,
        )
    }
}

/// The header pattern reads the severity behind the mark, the code behind a dash,
/// and the rest of the line behind a colon.
pub proof fn header_pattern_reads()
    ensures
        HEADER@ == pattern_of(
            seq![
                Announced { by: "%ASA-"@, group: r"\d+"@ },
                Announced { by: "-"@, group: r"\d+"@ },
                Announced { by: r":\s*"@, group: ".*"@ },
            ],
            ""@,
        ),
{
    reveal_strlit(r"%ASA-(\d+)-(\d+):\s*(.*)");
    reveal_strlit("%ASA-");
    reveal_strlit(r"\d+");
    reveal_strlit("-");
    reveal_strlit(r":\s*");
    reveal_strlit(".*");
    reveal_strlit("");
    reveal_with_fuel(pattern_of, 4);
    let groups = seq![
        Announced { by: "%ASA-"@, group: r"\d+"@ },
        Announced { by: "-"@, group: r"\d+"@ },
        Announced { by: r":\s*"@, group: ".*"@ },
    ];
    assert(pattern_of(groups, ""@) =~= HEADER@);
}

/// The pattern of a connection that was built reads the direction behind `Built`,
/// where there is one, the protocol behind that, the number behind `connection`,
/// the source behind `for` and the destination behind `to`. An address in
/// brackets may follow the source.
pub proof fn built_pattern_reads()
    ensures
        BUILT@ == pattern_of(
            seq![
                Announced { by: r"Built\s+"@, group: "inbound|outbound"@ },
                Announced { by: r"?\s*"@, group: "[A-Za-z0-9]+"@ },
                Announced { by: r"\s+connection\s+"@, group: r"\d+"@ },
                Announced { by: r"\s+for\s+"@, group: r"[^\s]+"@ },
                Announced { by: r"(?:\s+\([^\)]+\))?\s+to\s+"@, group: r"[^\s]+"@ },
            ],
            ""@,
        ),
{
    reveal_strlit(r"Built\s+(inbound|outbound)?\s*([A-Za-z0-9]+)\s+connection\s+(\d+)\s+for\s+([^\s]+)(?:\s+\([^\)]+\))?\s+to\s+([^\s]+)");
    reveal_strlit(r"Built\s+");
    reveal_strlit("inbound|outbound");
    reveal_strlit(r"?\s*");
    reveal_strlit("[A-Za-z0-9]+");
    reveal_strlit(r"\s+connection\s+");
    reveal_strlit(r"\d+");
    reveal_strlit(r"\s+for\s+");
    reveal_strlit(r"[^\s]+");
    reveal_strlit(r"(?:\s+\([^\)]+\))?\s+to\s+");
    reveal_strlit("");
    reveal_with_fuel(pattern_of, 6);
    let groups = seq![
        Announced { by: r"Built\s+"@, group: "inbound|outbound"@ },
        Announced { by: r"?\s*"@, group: "[A-Za-z0-9]+"@ },
        Announced { by: r"\s+connection\s+"@, group: r"\d+"@ },
        Announced { by: r"\s+for\s+"@, group: r"[^\s]+"@ },
        Announced { by: r"(?:\s+\([^\)]+\))?\s+to\s+"@, group: r"[^\s]+"@ },
    ];
    assert(pattern_of(groups, ""@) =~= BUILT@);
}

/// The pattern of a connection that was torn down reads the protocol behind
/// `Teardown`, the number behind `connection`, the source behind `for`, the
/// destination behind `to` and, where they are there, the duration behind
/// `duration` and the bytes behind `bytes`.
pub proof fn teardown_pattern_reads()
    ensures
        TEARDOWN@ == pattern_of(
            seq![
                Announced { by: r"Teardown\s+"@, group: "[A-Za-z0-9]+"@ },
                Announced { by: r"\s+connection\s+"@, group: r"\d+"@ },
                Announced { by: r"\s+for\s+"@, group: r"[^\s]+"@ },
                Announced { by: r"\s+to\s+"@, group: r"[^\s]+"@ },
                Announced { by: r"(?:.*?duration\s+"@, group: r"[^\s]+"@ },
                Announced { by: r")?(?:.*?bytes\s+"@, group: r"\d+"@ },
            ],
            ")?"@,
        ),
{
    reveal_strlit(r"Teardown\s+([A-Za-z0-9]+)\s+connection\s+(\d+)\s+for\s+([^\s]+)\s+to\s+([^\s]+)(?:.*?duration\s+([^\s]+))?(?:.*?bytes\s+(\d+))?");
    reveal_strlit(r"Teardown\s+");
    reveal_strlit("[A-Za-z0-9]+");
    reveal_strlit(r"\s+connection\s+");
    reveal_strlit(r"\d+");
    reveal_strlit(r"\s+for\s+");
    reveal_strlit(r"[^\s]+");
    reveal_strlit(r"\s+to\s+");
    reveal_strlit(r"(?:.*?duration\s+");
    reveal_strlit(r")?(?:.*?bytes\s+");
    reveal_strlit(")?");
    reveal_with_fuel(pattern_of, 7);
    let groups = seq![
        Announced { by: r"Teardown\s+"@, group: "[A-Za-z0-9]+"@ },
        Announced { by: r"\s+connection\s+"@, group: r"\d+"@ },
        Announced { by: r"\s+for\s+"@, group: r"[^\s]+"@ },
        Announced { by: r"\s+to\s+"@, group: r"[^\s]+"@ },
        Announced { by: r"(?:.*?duration\s+"@, group: r"[^\s]+"@ },
        Announced { by: r")?(?:.*?bytes\s+"@, group: r"\d+"@ },
    ];
    assert(pattern_of(groups, ")?"@) =~= TEARDOWN@);
}

/// The pattern of a denied packet reads the protocol behind `Deny`, the source
/// behind `src`, the destination behind `dst` and, where it is there, the access
/// group behind `access-group`.
pub proof fn deny_pattern_reads()
    ensures
        DENY@ == pattern_of(
            seq![
                Announced { by: r"Deny\s+"@, group: "[A-Za-z0-9]+"@ },
                Announced { by: r"\s+src\s+"@, group: r"[^\s]+"@ },
                Announced { by: r"\s+dst\s+"@, group: r"[^\s]+"@ },
                Announced { by: r"(?:.*?by\s+access-group\s+"@, group: r"[^\s\[]+"@ },
            ],
            ")?"@,
        ),
{
    reveal_strlit(r"Deny\s+([A-Za-z0-9]+)\s+src\s+([^\s]+)\s+dst\s+([^\s]+)(?:.*?by\s+access-group\s+([^\s\[]+))?");
    reveal_strlit(r"Deny\s+");
    reveal_strlit("[A-Za-z0-9]+");
    reveal_strlit(r"\s+src\s+");
    reveal_strlit(r"[^\s]+");
    reveal_strlit(r"\s+dst\s+");
    reveal_strlit(r"(?:.*?by\s+access-group\s+");
    reveal_strlit(r"[^\s\[]+");
    reveal_strlit(")?");
    reveal_with_fuel(pattern_of, 5);
    let groups = seq![
        Announced { by: r"Deny\s+"@, group: "[A-Za-z0-9]+"@ },
        Announced { by: r"\s+src\s+"@, group: r"[^\s]+"@ },
        Announced { by: r"\s+dst\s+"@, group: r"[^\s]+"@ },
        Announced { by: r"(?:.*?by\s+access-group\s+"@, group: r"[^\s\[]+"@ },
    ];
    assert(pattern_of(groups, ")?"@) =~= DENY@);
}

/// The pattern of a denied connection reads the direction, where there is one,
/// the protocol behind it, the source behind `from`, the destination behind `to`
/// and, where it is there, the interface behind `interface`.
pub proof fn denied_connection_pattern_reads()
    ensures
        DENIED_CONN@ == pattern_of(
            seq![
                Announced { by: "(?:"@, group: "Inbound|Outbound"@ },
                Announced { by: r"\s+)?"@, group: "[A-Za-z0-9]+"@ },
                Announced { by: r"\s+connection\s+denied\s+from\s+"@, group: r"[^\s]+"@ },
                Announced { by: r"\s+to\s+"@, group: r"[^\s]+"@ },
                Announced { by: r"(?:.*?interface\s+"@, group: r"[^\s]+"@ },
            ],
            ")?"@,
        ),
{
    reveal_strlit(r"(?:(Inbound|Outbound)\s+)?([A-Za-z0-9]+)\s+connection\s+denied\s+from\s+([^\s]+)\s+to\s+([^\s]+)(?:.*?interface\s+([^\s]+))?");
    reveal_strlit("(?:");
    reveal_strlit("Inbound|Outbound");
    reveal_strlit(r"\s+)?");
    reveal_strlit("[A-Za-z0-9]+");
    reveal_strlit(r"\s+connection\s+denied\s+from\s+");
    reveal_strlit(r"[^\s]+");
    reveal_strlit(r"\s+to\s+");
    reveal_strlit(r"(?:.*?interface\s+");
    reveal_strlit(")?");
    reveal_with_fuel(pattern_of, 6);
    let groups = seq![
        Announced { by: "(?:"@, group: "Inbound|Outbound"@ },
        Announced { by: r"\s+)?"@, group: "[A-Za-z0-9]+"@ },
        Announced { by: r"\s+connection\s+denied\s+from\s+"@, group: r"[^\s]+"@ },
        Announced { by: r"\s+to\s+"@, group: r"[^\s]+"@ },
        Announced { by: r"(?:.*?interface\s+"@, group: r"[^\s]+"@ },
    ];
    assert(pattern_of(groups, ")?"@) =~= DENIED_CONN@);
}

/// The pattern of a dropped packet, in any letter case, reads the protocol behind
/// `dropped`, the source behind `from` and the destination behind `to`.
pub proof fn dropped_pattern_reads()
    ensures
        DROPPED_ACL@ == pattern_of(
            seq![
                Announced { by: r"(?i)dropped\s+"@, group: "[A-Za-z0-9]+"@ },
                Announced { by: r"\s+from\s+"@, group: r"[^\s,]+"@ },
                Announced { by: r"\s+to\s+"@, group: r"[^\s,]+"@ },
            ],
            ""@,
        ),
{
    reveal_strlit(r"(?i)dropped\s+([A-Za-z0-9]+)\s+from\s+([^\s,]+)\s+to\s+([^\s,]+)");
    reveal_strlit(r"(?i)dropped\s+");
    reveal_strlit("[A-Za-z0-9]+");
    reveal_strlit(r"\s+from\s+");
    reveal_strlit(r"[^\s,]+");
    reveal_strlit(r"\s+to\s+");
    reveal_strlit("");
    reveal_with_fuel(pattern_of, 4);
    let groups = seq![
        Announced { by: r"(?i)dropped\s+"@, group: "[A-Za-z0-9]+"@ },
        Announced { by: r"\s+from\s+"@, group: r"[^\s,]+"@ },
        Announced { by: r"\s+to\s+"@, group: r"[^\s,]+"@ },
    ];
    assert(pattern_of(groups, ""@) =~= DROPPED_ACL@);
}

/// The pattern of a VPN session that ended reads eight values, each behind its
/// label.
pub proof fn session_pattern_reads()
    ensures
        SESSION_DISCONNECT@ == pattern_of(
            seq![
                Announced { by: r"Group\s*=\s*"@, group: "[^,]+"@ },
                Announced { by: r",\s*Username\s*=\s*"@, group: "[^,]+"@ },
                Announced { by: r",\s*IP\s*=\s*"@, group: r"[^,\s]+"@ },
                Announced { by: r",\s*Session disconnected\.\s*Session Type:\s*"@, group: "[^,]+"@ },
                Announced { by: r",\s*Duration:\s*"@, group: "[^,]+"@ },
                Announced { by: r",\s*Bytes xmt:\s*"@, group: r"\d+"@ },
                Announced { by: r",\s*Bytes rcv:\s*"@, group: r"\d+"@ },
                Announced { by: r",\s*Reason:\s*"@, group: ".+?"@ },
            ],
            r"\s*$"@,
        ),
{
    reveal_strlit(r"Group\s*=\s*([^,]+),\s*Username\s*=\s*([^,]+),\s*IP\s*=\s*([^,\s]+),\s*Session disconnected\.\s*Session Type:\s*([^,]+),\s*Duration:\s*([^,]+),\s*Bytes xmt:\s*(\d+),\s*Bytes rcv:\s*(\d+),\s*Reason:\s*(.+?)\s*$");
    reveal_strlit(r"Group\s*=\s*");
    reveal_strlit("[^,]+");
    reveal_strlit(r",\s*Username\s*=\s*");
    reveal_strlit(r",\s*IP\s*=\s*");
    reveal_strlit(r"[^,\s]+");
    reveal_strlit(r",\s*Session disconnected\.\s*Session Type:\s*");
    reveal_strlit(r",\s*Duration:\s*");
    reveal_strlit(r",\s*Bytes xmt:\s*");
    reveal_strlit(r"\d+");
    reveal_strlit(r",\s*Bytes rcv:\s*");
    reveal_strlit(r",\s*Reason:\s*");
    reveal_strlit(".+?");
    reveal_strlit(r"\s*$");
    reveal_with_fuel(pattern_of, 9);
    let groups = seq![
        Announced { by: r"Group\s*=\s*"@, group: "[^,]+"@ },
        Announced { by: r",\s*Username\s*=\s*"@, group: "[^,]+"@ },
        Announced { by: r",\s*IP\s*=\s*"@, group: r"[^,\s]+"@ },
        Announced { by: r",\s*Session disconnected\.\s*Session Type:\s*"@, group: "[^,]+"@ },
        Announced { by: r",\s*Duration:\s*"@, group: "[^,]+"@ },
        Announced { by: r",\s*Bytes xmt:\s*"@, group: r"\d+"@ },
        Announced { by: r",\s*Bytes rcv:\s*"@, group: r"\d+"@ },
        Announced { by: r",\s*Reason:\s*"@, group: ".+?"@ },
    ];
    assert(pattern_of(groups, r"\s*$"@) =~= SESSION_DISCONNECT@);
}

/// The address pattern asks for three numbers of up to three digits with a dot
/// behind each, and one more such number, all of it a word of its own.
pub proof fn address_pattern_reads()
    ensures
        ADDRESS@ == r"\b"@ + r"(?:[0-9]{1,3}\.)"@ + "{3}"@ + "[0-9]{1,3}"@ + r"\b"@,
{
    reveal_strlit(r"\b(?:[0-9]{1,3}\.){3}[0-9]{1,3}\b");
    reveal_strlit(r"\b");
    reveal_strlit(r"(?:[0-9]{1,3}\.)");
    reveal_strlit("{3}");
    reveal_strlit("[0-9]{1,3}");
}

}
