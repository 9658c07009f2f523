//! Names that a `let` statement may not bind.

use crate::text::text_eq;
use vstd::prelude::*;

verus! {

/// Whether `name` is one of the reserved names.
pub open spec fn spec_is_reserved_name(name: Seq<char>) -> bool {
    name == "女性"@ || name == "her"@ || name == "女"@ || name == "female"@ || name == "woman"@
        || name == "girl"@ || name == "lady"@
}

/// Whether `name` is one of the reserved names.
pub fn is_reserved_name(name: &str) -> (r: bool)
    ensures
        r == spec_is_reserved_name(name@),
{
    text_eq(name, "女性") || text_eq(name, "her") || text_eq(name, "女") || text_eq(
        name,
        "female",
    ) || text_eq(name, "woman") || text_eq(name, "girl") || text_eq(name, "lady")
}

} // verus!
