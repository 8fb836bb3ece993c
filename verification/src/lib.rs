//! Task tracking over a key-value store: the data model, the reading of
//! stored fields into tasks and project summaries, the writes that task
//! operations make, and the metrics and page logic built on them.
use vstd::prelude::*;

pub mod handlers;
pub mod json;
pub mod laws;
pub mod metrics;
pub mod models;
pub mod queries;
pub mod tasks;
pub mod text;

use crate::text::chars_of;

verus! {

/// The characters an id may not hold: the store's wildcards and
/// separators `*`, `?`, `#`, `$` and `/`.
pub open spec fn forbidden_in_id(c: char) -> bool {
    c == '*' || c == '?' || c == '#' || c == '$' || c == '/'
}

/// Whether a text may serve as a project or task id: it is not empty and
/// holds none of the forbidden characters.
pub open spec fn valid_id(value: Seq<char>) -> bool {
    value.len() > 0 && forall|i: int| 0 <= i < value.len() ==> !forbidden_in_id(#[trigger] value[i])
}

/// Whether `value` may serve as a project or task id (see `valid_id`).
pub fn is_valid_id(value: &str) -> (r: bool)
    ensures
        r == valid_id(value@),
{
    let cs = chars_of(value);
    if cs.len() == 0 {
        return false;
    }
    let mut i: usize = 0;
    while i < cs.len()
        invariant
            i <= cs.len(),
            cs@ == value@,
            forall|k: int| 0 <= k < i ==> !forbidden_in_id(#[trigger] cs@[k]),
        decreases cs.len() - i,
    {
        let c = cs[i];
        if c == '*' || c == '?' || c == '#' || c == '$' || c == '/' {
            assert(forbidden_in_id(value@[i as int]));
            return false;
        }
        i = i + 1;
    }
    true
}

} // verus!
