//! What a walk over the roots turns up.
use vstd::prelude::*;

use crate::text::{chars_eq, chars_of, owned};

verus! {

/// A repository found under a root, and the name it is listed by: its path
/// relative to the root, or the root's own name when the root is the
/// repository.
#[derive(Debug, Clone, PartialEq, Eq)]
pub struct Found {
    pub path: String,
    pub display_name: String,
}

/// A path the walk could not read, and why.
#[derive(Debug, Clone, PartialEq, Eq)]
pub struct Problem {
    pub path: String,
    pub reason: String,
}

/// What a root that does not exist is reported as: a problem at the root
/// itself, not a reason to stop.
pub fn missing_root(root: &str) -> (r: Problem)
    ensures
        r.path@ == root@,
        r.reason@ == "root does not exist"@,
{
    Problem { path: owned(root), reason: owned("root does not exist") }
}

/// Whether a directory of this name is skipped entirely.
pub fn is_pruned(name: &str, prune: &Vec<String>) -> (r: bool)
    ensures
        r == exists|i: int| 0 <= i < prune@.len() && #[trigger] prune@[i]@ == name@,
{
    let n = chars_of(name);
    let mut i: usize = 0;
    while i < prune.len()
        invariant
            i <= prune@.len(),
            n@ == name@,
            forall|k: int| 0 <= k < i ==> #[trigger] prune@[k]@ != name@,
        decreases prune.len() - i,
    {
        if chars_eq(&chars_of(prune[i].as_str()), &n) {
            assert(prune@[i as int]@ == name@);
            return true;
        }
        i += 1;
    }
    false
}

pub open spec fn spec_display_name(root_label: Seq<char>, relative: Option<Seq<char>>, path: Seq<char>) -> Seq<char> {
    match relative {
        Some(rel) => if rel.len() == 0 {
            root_label
        } else {
            rel
        },
        None => path,
    }
}

/// The name a repository found at `path` is listed by: its path relative
/// to the root (`relative`, when it lies under the root), the root's own
/// label when the root is itself the repository, or the whole path.
pub fn display_name(root_label: &str, relative: Option<&str>, path: &str) -> (r: String)
    ensures
        r@ == spec_display_name(
            root_label@,
            match relative {
                Some(x) => Some(x@),
                None => None,
            },
            path@,
        ),
{
    match relative {
        Some(rel) => if chars_of(rel).len() == 0 {
            owned(root_label)
        } else {
            owned(rel)
        },
        None => owned(path),
    }
}

} // verus!
