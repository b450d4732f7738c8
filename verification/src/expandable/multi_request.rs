//! Entries that stand for one request for each item of a list.

use vstd::prelude::*;
use crate::actions::{Step, StepView};
use crate::error::{Error, Failure};
use crate::expandable::{arranged_expansion, commit, expand_arranged, grows, outcome, steps_model};
use crate::reader::Files;
use crate::value::{array_field, object_field, Json, Value};

verus! {

/// Whether `r` is what the entry `item` may expand to: the requests for its
/// `with_items`, taken in an order that the entry allows; an item that holds an
/// interpolation is refused.
pub open spec fn expands_to(item: Json, files: Files, r: Result<Seq<StepView>, Failure>) -> bool {
    match array_field(item, "with_items"@) {
        Some(source) => arranged_expansion(item, source, files, true, r),
        None => r == Ok::<Seq<StepView>, Failure>(Seq::empty()),
    }
}

/// Whether the entry `item` is a request over a list of items.
pub fn is_that_you(item: &Value) -> (r: bool)
    ensures
        r == (object_field(item@, "request"@).is_some() && array_field(
            item@,
            "with_items"@,
        ).is_some()),
{
    item.get_mapping("request").is_some() && item.get_sequence("with_items").is_some()
}

/// The steps that the entry `item` expands to.
pub fn steps(item: &Value, files: &Files) -> (r: Result<Vec<Step>, Error>)
    ensures
        expands_to(item@, *files, steps_model(r)),
{
    match item.get_sequence("with_items") {
        Some(with_items) => {
            expand_arranged(item, with_items, files, true)
        },
        None => {
            let r: Vec<Step> = Vec::new();
            assert(crate::actions::step_views(r@) =~= Seq::<StepView>::empty());
            Ok(r)
        },
    }
}

/// Adds the steps that the entry `item` expands to to the plan; where that
/// fails, nothing is added.
pub fn expand(item: &Value, benchmark: &mut Vec<Step>, files: &Files) -> (r: Result<(), Error>)
    ensures
        grows(old(benchmark)@, final(benchmark)@, r),
        expands_to(item@, *files, outcome(old(benchmark)@, final(benchmark)@, r)),
{
    commit(benchmark, steps(item, files))
}

} // verus!
