//! The labels of one run, as the name of its result directory gives them.
//!
//! The name is made of fields with `-` between them. The last field is the
//! scenario of the run and the one before it is its profile.

use vstd::prelude::*;
use vstd::string::StrSliceExecFns;

verus! {

/// The character between the fields of a name.
pub const SEPARATOR: char = '-';

/// The profile and the scenario of one run.
#[derive(Debug, Clone, PartialEq, Eq)]
pub struct RunLabels {
    pub profile: String,
    pub scenario: String,
}

/// The position of the last separator in the name, if it holds one.
pub open spec fn last_separator(name: Seq<char>) -> Option<int>
    decreases name.len(),
{
    if name.len() == 0 {
        None
    } else if name.last() == SEPARATOR {
        Some(name.len() - 1)
    } else {
        last_separator(name.drop_last())
    }
}

/// The profile and the scenario that a name ends with: what follows its last
/// separator is the scenario; what stands before that separator, from the
/// separator before it on or else from the start, is the profile. A name
/// without a separator gives neither.
pub open spec fn labels_of(name: Seq<char>) -> Option<(Seq<char>, Seq<char>)> {
    match last_separator(name) {
        None => None,
        Some(cut) => {
            let head = name.subrange(0, cut);
            let from = match last_separator(head) {
                Some(inner) => inner + 1,
                None => 0,
            };
            Some((name.subrange(from, cut), name.subrange(cut + 1, name.len() as int)))
        },
    }
}

/// Finds the last separator among the first `end` characters of the name.
fn find_last_separator(name: &str, end: usize) -> (at: Option<usize>)
    requires
        end <= name@.len(),
    ensures
        match at {
            Some(i) => last_separator(name@.subrange(0, end as int)) == Some(i as int) && i < end,
            None => last_separator(name@.subrange(0, end as int)) is None,
        },
{
    let mut i: usize = end;
    while i > 0
        invariant
            i <= end <= name@.len(),
            last_separator(name@.subrange(0, end as int)) == last_separator(
                name@.subrange(0, i as int),
            ),
        decreases i,
    {
        proof {
            assert(name@.subrange(0, i as int).drop_last() =~= name@.subrange(0, i - 1));
            assert(name@.subrange(0, i as int).last() == name@[i - 1]);
        }
        if name.get_char(i - 1) == SEPARATOR {
            return Some(i - 1);
        }
        i -= 1;
    }
    None
}

/// Reads the profile and the scenario of a run off the name of its result
/// directory.
pub fn run_labels(name: &str) -> (labels: Option<RunLabels>)
    ensures
        match labels {
            Some(found) => labels_of(name@) == Some((found.profile@, found.scenario@)),
            None => labels_of(name@) is None,
        },
{
    let len = name.unicode_len();
    proof {
        assert(name@.subrange(0, len as int) =~= name@);
    }
    let cut = match find_last_separator(name, len) {
        Some(cut) => cut,
        None => {
            return None;
        },
    };
    let from = match find_last_separator(name, cut) {
        Some(inner) => inner + 1,
        None => 0,
    };
    let profile = name.substring_char(from, cut).to_owned();
    let scenario = name.substring_char(cut + 1, len).to_owned();
    Some(RunLabels { profile, scenario })
}

} // verus!
