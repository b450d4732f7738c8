//! Entries that stand for one request for each line of a text file.

use vstd::prelude::*;
use crate::actions::{Step, StepView};
use crate::error::{Error, ErrorKind, Failure};
use crate::expandable::{
    arranged_expansion, commit, expand_arranged, grows, outcome, resolve_path, sibling_path,
    steps_model,
};
use crate::interpolator::{has_interpolation, has_token};
use crate::reader::Files;
use crate::value::{object_field, text_field, Json, Value};

verus! {

/// Whether `r` is what the entry `item` of the document at `parent` may expand
/// to: the requests for the lines of the file that `with_items_from_file`
/// names, taken in an order that the entry allows. The name must be literal,
/// and the file among `files`.
pub open spec fn expands_to(
    parent: Seq<char>,
    item: Json,
    files: Files,
    r: Result<Seq<StepView>, Failure>,
) -> bool {
    match text_field(item, "with_items_from_file"@) {
        None => r == Err::<Seq<StepView>, Failure>(
            (ErrorKind::UnknownProperty, "with_items_from_file"@),
        ),
        Some(name) => if has_token(name) {
            r == Err::<Seq<StepView>, Failure>(
                (ErrorKind::InterpolationNotSupported, "with_items_from_file"@),
            )
        } else {
            match files.lines_at(sibling_path(parent, name)) {
                None => r == Err::<Seq<StepView>, Failure>(
                    (ErrorKind::MissingLines, sibling_path(parent, name)),
                ),
                Some(source) => arranged_expansion(item, source, files, false, r),
            }
        },
    }
}

/// Whether the entry `item` is a request over the lines of a text file.
pub fn is_that_you(item: &Value) -> (r: bool)
    ensures
        r == (object_field(item@, "request"@).is_some() && (text_field(
            item@,
            "with_items_from_file"@,
        ).is_some() || object_field(item@, "with_items_from_file"@).is_some())),
{
    item.get_mapping("request").is_some() && (item.get_str("with_items_from_file").is_some()
        || item.get_mapping("with_items_from_file").is_some())
}

/// The steps that the entry `item` of the document at `parent_path` expands to.
pub fn steps(parent_path: &str, item: &Value, files: &Files) -> (r: Result<Vec<Step>, Error>)
    ensures
        expands_to(parent_path@, item@, *files, steps_model(r)),
{
    let name = match item.get_str("with_items_from_file") {
        Some(name) => name,
        None => {
            return Err(Error::about(ErrorKind::UnknownProperty, "with_items_from_file"));
        },
    };
    if has_interpolation(name.as_str()) {
        return Err(Error::about(ErrorKind::InterpolationNotSupported, "with_items_from_file"));
    }
    let path = resolve_path(parent_path, name.as_str());
    match files.lines(path.as_str()) {
        Some(source) => {
            expand_arranged(item, source, files, false)
        },
        None => Err(Error::new(ErrorKind::MissingLines, path)),
    }
}

/// Adds the steps that the entry `item` expands to to the plan; where that
/// fails, nothing is added.
pub fn expand(parent_path: &str, item: &Value, benchmark: &mut Vec<Step>, files: &Files) -> (r:
    Result<(), Error>)
    ensures
        grows(old(benchmark)@, final(benchmark)@, r),
        expands_to(
            parent_path@,
            item@,
            *files,
            outcome(old(benchmark)@, final(benchmark)@, r),
        ),
{
    commit(benchmark, steps(parent_path, item, files))
}

} // verus!
