//! Preparing sample lines for the synthesis of a parser.
use vstd::prelude::*;
use crate::lines::{at_most, first_lines, nonblank, nonblank_lines, views};
use crate::text::lowered;
use vstd::utf8::is_ascii_chars;

verus! {

/// The most sample lines that are looked at.
pub const MAX_SAMPLES: usize = 10;

/// The fewest sample lines that a parser is made from.
pub const MIN_SAMPLES: usize = 3;

/// The sample lines among the lines of a file: the first few that are not blank.
pub open spec fn samples_of(lines: Seq<Seq<char>>) -> Seq<Seq<char>> {
    at_most(nonblank(lines), MAX_SAMPLES as int)
}

/// The sample lines of a file; their number, where they are too few.
pub open spec fn sample_answer(lines: Seq<Seq<char>>) -> Result<Seq<Seq<char>>, nat> {
    if samples_of(lines).len() >= MIN_SAMPLES {
        Ok(samples_of(lines))
    } else {
        Err(samples_of(lines).len())
    }
}

/// The sample lines of a file; their number, where they are too few.
pub fn sample_lines(lines: &Vec<String>) -> (r: Result<Vec<String>, usize>)
    ensures
        match r {
            Ok(s) => sample_answer(views(lines@)) == Ok::<Seq<Seq<char>>, nat>(views(s@)),
            Err(n) => sample_answer(views(lines@)) == Err::<Seq<Seq<char>>, nat>(n as nat),
        },
{
    let s = first_lines(nonblank_lines(lines), MAX_SAMPLES);
    assert(views(s@).len() == s@.len());
    if s.len() < MIN_SAMPLES {
        Err(s.len())
    } else {
        Ok(s)
    }
}

/// What `str::to_lowercase` makes of a text.
pub uninterp spec fn lowercase_of(s: Seq<char>) -> Seq<char>;

/// `str::to_lowercase`: the text in Unicode lower case. The contract names the
/// result, and states it for a text of ASCII characters.
#[verifier::external_body]
fn lowercase(s: &str) -> (r: String)
    ensures
        r@ == lowercase_of(s@),
        is_ascii_chars(s@) ==> r@ == lowered(s@),
{
    s.to_lowercase()
}

/// The file names of a parser specification, as JSON and as YAML, given the
/// vendor in lower case.
pub open spec fn file_names_of(vendor: Seq<char>) -> (Seq<char>, Seq<char>) {
    (vendor + ".json"@, vendor + ".yaml"@)
}

/// The file names of a parser specification, as JSON and as YAML, given the
/// vendor in lower case.
pub fn spec_file_names_for(vendor: &str) -> (r: (String, String))
    ensures
        (r.0@, r.1@) == file_names_of(vendor@),
{
    (vendor.to_owned().concat(".json"), vendor.to_owned().concat(".yaml"))
}

/// The file names of a vendor's parser specification, as JSON and as YAML.
pub fn spec_file_names(vendor: &str) -> (r: (String, String))
    ensures
        (r.0@, r.1@) == file_names_of(lowercase_of(vendor@)),
        is_ascii_chars(vendor@) ==> (r.0@, r.1@) == file_names_of(lowered(vendor@)),
{
    let low = lowercase(vendor);
    spec_file_names_for(low.as_str())
}

}
