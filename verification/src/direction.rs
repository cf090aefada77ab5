//! The direction of a connection.
use vstd::prelude::*;
use crate::text::{lowered, same, to_ascii_lowercase};

verus! {

/// The direction that the word `dir` names, in any letter case.
pub open spec fn direction_of(dir: Seq<char>) -> Seq<char> {
    if lowered(dir) == "inbound"@ || lowered(dir) == "in"@ {
        "Inbound"@
    } else if lowered(dir) == "outbound"@ || lowered(dir) == "out"@ {
        "Outbound"@
    } else {
        "Unknown"@
    }
}

/// The direction that the word `dir` names, in any letter case.
pub fn normalize_direction(dir: &str) -> (r: String)
    ensures
        r@ == direction_of(dir@),
{
    let low = to_ascii_lowercase(dir);
    if same(low.as_str(), "inbound") || same(low.as_str(), "in") {
        "Inbound".to_owned()
    } else if same(low.as_str(), "outbound") || same(low.as_str(), "out") {
        "Outbound".to_owned()
    } else {
        "Unknown".to_owned()
    }
}

/// There are three directions, and each is its own normal form.
pub proof fn directions_are_normal(dir: Seq<char>)
    ensures
        direction_of(dir) == "Inbound"@ || direction_of(dir) == "Outbound"@ || direction_of(dir)
            == "Unknown"@,
        direction_of(direction_of(dir)) == direction_of(dir),
{
    reveal_strlit("inbound");
    reveal_strlit("in");
    reveal_strlit("outbound");
    reveal_strlit("out");
    reveal_strlit("Inbound");
    reveal_strlit("Outbound");
    reveal_strlit("Unknown");
    assert(lowered("Inbound"@) =~= "inbound"@);
    assert(lowered("Outbound"@) =~= "outbound"@);
    assert(lowered("Unknown"@)[0] == 'u');
    assert("outbound"@[0] == 'o' && "out"@[0] == 'o');
    assert("inbound"@[0] == 'i' && "in"@[0] == 'i');
}

/// The words that stand for a missing direction name themselves.
pub proof fn default_directions()
    ensures
        direction_of("Inbound"@) == "Inbound"@,
        direction_of("Unknown"@) == "Unknown"@,
{
    reveal_strlit("inbound");
    reveal_strlit("in");
    reveal_strlit("outbound");
    reveal_strlit("out");
    reveal_strlit("Inbound");
    reveal_strlit("Unknown");
    assert(lowered("Inbound"@) =~= "inbound"@);
    assert(lowered("Unknown"@)[0] == 'u');
    assert("outbound"@[0] == 'o' && "out"@[0] == 'o');
    assert("inbound"@[0] == 'i' && "in"@[0] == 'i');
}

/// The direction does not depend on the letter case of the word.
pub proof fn direction_ignores_case(a: Seq<char>, b: Seq<char>)
    requires
        lowered(a) == lowered(b),
    ensures
        direction_of(a) == direction_of(b),
{
}

}
