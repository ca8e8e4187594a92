//! `==` on JSON values and numbers.

use crate::json::Json;
use crate::number::Number;
use vstd::prelude::*;

verus! {

impl PartialEq for Number {
    /// Whether the two are the same JSON number.
    fn eq(&self, other: &Number) -> (same: bool) {
        self.same_as(other)
    }
}

impl vstd::std_specs::cmp::PartialEqSpecImpl for Number {
    open spec fn obeys_eq_spec() -> bool {
        true
    }

    open spec fn eq_spec(&self, other: &Number) -> bool {
        self@ == other@
    }
}

impl PartialEq for Json {
    /// Whether the two stand for the same JSON value.
    fn eq(&self, other: &Json) -> (same: bool) {
        self.same_as(other)
    }
}

impl vstd::std_specs::cmp::PartialEqSpecImpl for Json {
    open spec fn obeys_eq_spec() -> bool {
        true
    }

    open spec fn eq_spec(&self, other: &Json) -> bool {
        self@ == other@
    }
}

} // verus!
