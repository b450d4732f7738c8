//! Entries that stand for one request for each row of a CSV file.

use vstd::prelude::*;
use crate::actions::{Step, StepView};
use crate::error::{Error, ErrorKind, Failure};
use crate::expandable::{
    arranged_expansion, commit, expand_arranged, grows, outcome, resolve_path, sibling_path,
    steps_model,
};
use crate::interpolator::{has_interpolation, has_token};
use crate::reader::Files;
use crate::text::chars_of;
use crate::value::{field, object_field, text_field, Json, Value};

verus! {

/// The quote character of CSV files that name none.
pub const DEFAULT_QUOTE: u8 = 34;

/// The quote character that the text `q` names: its first character, which
/// must be an ASCII character.
pub open spec fn quote_spec(q: Seq<char>) -> Result<u8, Failure> {
    if q.len() > 0 && (q[0] as u32) < 128 {
        Ok(q[0] as u8)
    } else {
        Err((ErrorKind::InvalidQuote, q))
    }
}

/// The file that the entry `item` takes its rows from, and the quote character
/// to read it with: `with_items_from_csv` is the name of the file, or a mapping
/// with its `file_name` and, if wanted, its `quote_char`.
pub open spec fn csv_source(item: Json) -> Result<(Seq<char>, u8), Failure> {
    match field(item, "with_items_from_csv"@) {
        Some(Json::Text(name)) => Ok((name, DEFAULT_QUOTE)),
        Some(Json::Object(entries)) => match text_field(Json::Object(entries), "file_name"@) {
            None => Err((ErrorKind::MissingField, "file_name"@)),
            Some(name) => match text_field(Json::Object(entries), "quote_char"@) {
                None => Ok((name, DEFAULT_QUOTE)),
                Some(q) => match quote_spec(q) {
                    Ok(quote) => Ok((name, quote)),
                    Err(f) => Err(f),
                },
            },
        },
        _ => Err((ErrorKind::UnknownProperty, "with_items_from_csv"@)),
    }
}

/// Whether `r` is what the entry `item` of the document at `parent` may expand
/// to: the requests for the rows of its CSV file, taken in an order that the
/// entry allows. The name of the file must be literal, and the file among
/// `files`.
pub open spec fn expands_to(
    parent: Seq<char>,
    item: Json,
    files: Files,
    r: Result<Seq<StepView>, Failure>,
) -> bool {
    match csv_source(item) {
        Err(f) => r == Err::<Seq<StepView>, Failure>(f),
        Ok(source) => if has_token(source.0) {
            r == Err::<Seq<StepView>, Failure>(
                (ErrorKind::InterpolationNotSupported, "with_items_from_csv"@),
            )
        } else {
            match files.table_at(sibling_path(parent, source.0), source.1) {
                None => r == Err::<Seq<StepView>, Failure>(
                    (ErrorKind::MissingTable(source.1), sibling_path(parent, source.0)),
                ),
                Some(rows) => arranged_expansion(item, rows, files, false, r),
            }
        },
    }
}

/// Whether the entry `item` is a request over the rows of a CSV file.
pub fn is_that_you(item: &Value) -> (r: bool)
    ensures
        r == (object_field(item@, "request"@).is_some() && (text_field(
            item@,
            "with_items_from_csv"@,
        ).is_some() || object_field(item@, "with_items_from_csv"@).is_some())),
{
    item.get_mapping("request").is_some() && (item.get_str("with_items_from_csv").is_some()
        || item.get_mapping("with_items_from_csv").is_some())
}

/// The file that the entry `item` takes its rows from, and the quote character
/// to read it with.
pub fn source(item: &Value) -> (r: Result<(String, u8), Error>)
    ensures
        match r {
            Ok(s) => csv_source(item@) == Ok::<(Seq<char>, u8), Failure>((s.0@, s.1)),
            Err(e) => csv_source(item@) == Err::<(Seq<char>, u8), Failure>(e@),
        },
{
    match item.get("with_items_from_csv") {
        Some(Value::Text(name)) => Ok((name.clone(), DEFAULT_QUOTE)),
        Some(v) => {
            if v.as_mapping().is_none() {
                return Err(Error::about(ErrorKind::UnknownProperty, "with_items_from_csv"));
            }
            let name = match v.get_str("file_name") {
                Some(name) => name,
                None => {
                    return Err(Error::about(ErrorKind::MissingField, "file_name"));
                },
            };
            match v.get_str("quote_char") {
                None => Ok((name.clone(), DEFAULT_QUOTE)),
                Some(q) => {
                    let chars = chars_of(q.as_str());
                    if chars.len() > 0 && (chars[0] as u32) < 128 {
                        Ok((name.clone(), chars[0] as u8))
                    } else {
                        Err(Error::new(ErrorKind::InvalidQuote, q.clone()))
                    }
                },
            }
        },
        None => Err(Error::about(ErrorKind::UnknownProperty, "with_items_from_csv")),
    }
}

/// The steps that the entry `item` of the document at `parent_path` expands to.
pub fn steps(parent_path: &str, item: &Value, files: &Files) -> (r: Result<Vec<Step>, Error>)
    ensures
        expands_to(parent_path@, item@, *files, steps_model(r)),
{
    let (name, quote) = match source(item) {
        Ok(s) => s,
        Err(e) => {
            return Err(e);
        },
    };
    if has_interpolation(name.as_str()) {
        return Err(Error::about(ErrorKind::InterpolationNotSupported, "with_items_from_csv"));
    }
    let path = resolve_path(parent_path, name.as_str());
    match files.table(path.as_str(), quote) {
        Some(rows) => {
            expand_arranged(item, rows, files, false)
        },
        None => Err(Error::new(ErrorKind::MissingTable(quote), path)),
    }
}

/// Adds the steps that the entry `item` expands to to the plan; where that
/// fails, nothing is added.
pub fn expand(parent_path: &str, item: &Value, benchmark: &mut Vec<Step>, files: &Files) -> (r:
    Result<(), Error>)
    ensures
        grows(old(benchmark)@, final(benchmark)@, r),
        expands_to(
            parent_path@,
            item@,
            *files,
            outcome(old(benchmark)@, final(benchmark)@, r),
        ),
{
    commit(benchmark, steps(parent_path, item, files))
}

} // verus!
