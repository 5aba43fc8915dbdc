//! Wording shared by the messages and prompts.

use vstd::prelude::*;
use vstd::string::*;

verus! {

/// `singular` when `count` is 1, otherwise `plural`.
pub fn pluralize<'a>(count: usize, singular: &'a str, plural: &'a str) -> (r: &'a str)
    ensures
        r@ == if count == 1 {
            singular@
        } else {
            plural@
        },
{
    if count == 1 {
        singular
    } else {
        plural
    }
}

/// "branch" or "branches".
pub fn pluralize_branch(count: usize) -> (r: &'static str)
    ensures
        r@ == if count == 1 {
            "branch"@
        } else {
            "branches"@
        },
{
    pluralize(count, "branch", "branches")
}

/// "Branch" or "Branches".
pub fn pluralize_branch_cap(count: usize) -> (r: &'static str)
    ensures
        r@ == if count == 1 {
            "Branch"@
        } else {
            "Branches"@
        },
{
    pluralize(count, "Branch", "Branches")
}

} // verus!
