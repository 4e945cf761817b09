//! The output of the group-listing command: one line per group name,
//! then a count summary.

use vstd::prelude::*;
use crate::text::dec_of;
use crate::text::u64_to_string;

verus! {

/// A possibly-absent group name, defaulted to the empty string.
pub open spec fn name_or_empty(n: Option<String>) -> Seq<char> {
    match n {
        Option::Some(s) => s@,
        Option::None => Seq::empty(),
    }
}

/// The summary line: `Found <n> log groups`.
pub open spec fn summary_line(n: int) -> Seq<char> {
    "Found "@ + dec_of(n) + " log groups"@
}

/// The lines the listing command prints: each group's name (empty when
/// the service omitted it), then the count summary.
pub fn list_lines(names: Vec<Option<String>>) -> (lines: Vec<String>)
    ensures
        lines@.len() == names@.len() + 1,
        forall|i: int| 0 <= i < names@.len() ==> lines@[i]@ == name_or_empty(names@[i]),
        lines@[names@.len() as int]@ == summary_line(names@.len() as int),
{
    let ghost orig = names@;
    let total: u64 = names.len() as u64;
    let mut names = names;
    let mut lines: Vec<String> = Vec::new();
    let ghost mut processed = Seq::<Option<String>>::empty();
    proof {
        assert(processed + names@ =~= orig);
    }
    while names.len() > 0
        invariant
            processed + names@ == orig,
            lines@.len() == processed.len(),
            forall|i: int| 0 <= i < processed.len() ==> lines@[i]@ == name_or_empty(processed[i]),
        decreases names@.len(),
    {
        let ghost pre_names = names@;
        let n = names.remove(0);
        let ghost n_snap = n;
        proof {
            assert(pre_names[0] == n);
            assert(pre_names.drop_first() =~= names@);
        }
        let line = match n {
            Option::Some(s) => s,
            Option::None => String::new(),
        };
        lines.push(line);
        proof {
            processed = processed.push(n_snap);
            assert(processed + names@ =~= orig);
        }
    }
    proof {
        assert(processed =~= orig);
    }
    let mut summary = String::new();
    summary.append("Found ");
    let count = u64_to_string(total);
    summary.append(count.as_str());
    summary.append(" log groups");
    proof {
        assert(summary@ =~= summary_line(orig.len() as int));
    }
    lines.push(summary);
    lines
}

} // verus!
