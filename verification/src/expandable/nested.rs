//! Compiling a document into steps: entry by entry, in the order of the
//! document, with the documents that it splices in compiled in their place.

use vstd::prelude::*;
use crate::actions::assign::assign_spec;
use crate::actions::check::assert_spec;
use crate::actions::delay::delay_spec;
use crate::actions::exec::exec_spec;
use crate::actions::request::request_spec;
use crate::actions::{step_views, Assert, Assign, Delay, Exec, Request, Step, StepView};
use crate::error::{Error, ErrorKind, Failure};
use crate::expandable::{
    append_steps, commit, grows, multi_csv_request, multi_file_request, multi_iter_request,
    multi_request, outcome, resolve_path, sibling_path, steps_model,
};
use crate::interpolator::{has_interpolation, has_token};
use crate::reader::{doc_entries, read_yaml_doc_accessor, Files};
use crate::tags::{skips, Tags};
use crate::value::{array_field, items_model, json_text, object_field, text_field, Json, Value};

verus! {

/// How deeply documents may splice one another in.
pub const DEPTH_LIMIT: usize = 64;

/// The tags asked for and the tags to leave out.
pub type Filter = (Option<Seq<Seq<char>>>, Option<Seq<Seq<char>>>);

/// Whether the entry has the mapping `key`.
pub open spec fn has_mapping(item: Json, key: Seq<char>) -> bool {
    object_field(item, key).is_some()
}

/// Whether the entry names a file under `key`, as a string or in a mapping.
pub open spec fn names_file(item: Json, key: Seq<char>) -> bool {
    text_field(item, key).is_some() || object_field(item, key).is_some()
}

/// One step, or the error that kept it from being made.
pub open spec fn single(step: Result<StepView, Failure>) -> Result<Seq<StepView>, Failure> {
    match step {
        Ok(s) => Ok(seq![s]),
        Err(f) => Err(f),
    }
}

/// Whether `r` is what the entry `item` of the document at `path` may compile
/// to, the entry being no splice and not left out. The kind of the entry is the
/// first of these that it has the shape of: a request over a list, over a
/// range, over a CSV file, over a text file; a delay, a command, an
/// assignment, an assertion, a request. An entry of no kind is refused.
pub open spec fn step_compiles(
    path: Seq<char>,
    item: Json,
    files: Files,
    r: Result<Seq<StepView>, Failure>,
) -> bool {
    if has_mapping(item, "request"@) && array_field(item, "with_items"@).is_some() {
        multi_request::expands_to(item, files, r)
    } else if has_mapping(item, "request"@) && has_mapping(item, "with_items_range"@) {
        multi_iter_request::expands_to(item, files, r)
    } else if has_mapping(item, "request"@) && names_file(item, "with_items_from_csv"@) {
        multi_csv_request::expands_to(path, item, files, r)
    } else if has_mapping(item, "request"@) && names_file(item, "with_items_from_file"@) {
        multi_file_request::expands_to(path, item, files, r)
    } else if has_mapping(item, "delay"@) {
        r == single(
            match delay_spec(item) {
                Ok(s) => Ok(StepView::Delay(s)),
                Err(f) => Err(f),
            },
        )
    } else if has_mapping(item, "exec"@) {
        r == single(
            match exec_spec(item) {
                Ok(s) => Ok(StepView::Exec(s)),
                Err(f) => Err(f),
            },
        )
    } else if has_mapping(item, "assign"@) {
        r == single(
            match assign_spec(item) {
                Ok(s) => Ok(StepView::Assign(s)),
                Err(f) => Err(f),
            },
        )
    } else if has_mapping(item, "assert"@) {
        r == single(
            match assert_spec(item) {
                Ok(s) => Ok(StepView::Assert(s)),
                Err(f) => Err(f),
            },
        )
    } else if has_mapping(item, "request"@) {
        r == single(
            match request_spec(item, None, None, files) {
                Ok(s) => Ok(StepView::Request(s)),
                Err(f) => Err(f),
            },
        )
    } else {
        r == Err::<Seq<StepView>, Failure>((ErrorKind::UnknownNode, json_text(item)))
    }
}

/// The steps `head`, followed by what `tail` adds.
pub open spec fn followed(head: Seq<StepView>, tail: Result<Seq<StepView>, Failure>) -> Result<
    Seq<StepView>,
    Failure,
> {
    match tail {
        Ok(t) => Ok(head + t),
        Err(f) => Err(f),
    }
}

/// Whether `r` is what the entry `item` of the document at `path` may compile
/// to. An entry that names a document with `include` stands for the steps of
/// that document, which is found beside the document at `path`; the name must
/// be literal. Any other entry is left out where the filter says so, and else
/// compiled by its kind.
pub open spec fn entry_compiles(
    path: Seq<char>,
    item: Json,
    filter: Filter,
    files: Files,
    depth: nat,
    r: Result<Seq<StepView>, Failure>,
) -> bool
    decreases depth, 0nat, 0nat,
{
    match text_field(item, "include"@) {
        Some(name) => if has_token(name) {
            r == Err::<Seq<StepView>, Failure>((ErrorKind::InterpolationNotSupported, "include"@))
        } else if depth == 0 {
            r == Err::<Seq<StepView>, Failure>(
                (ErrorKind::IncludeTooDeep, sibling_path(path, name)),
            )
        } else {
            document_compiles(sibling_path(path, name), None, filter, files, (depth - 1) as nat, r)
        },
        None => if skips(filter.0, filter.1, item) {
            r == Ok::<Seq<StepView>, Failure>(Seq::empty())
        } else {
            step_compiles(path, item, files, r)
        },
    }
}

/// Whether `r` is what the first `n` of the entries `items` of the document at
/// `path` may compile to: the steps of each entry, one entry after the other;
/// the first entry that fails ends the compilation with its error.
pub open spec fn entries_compile(
    path: Seq<char>,
    items: Seq<Json>,
    n: nat,
    filter: Filter,
    files: Files,
    depth: nat,
    r: Result<Seq<StepView>, Failure>,
) -> bool
    decreases depth, 1nat, n,
{
    if n == 0 || n > items.len() {
        r == Ok::<Seq<StepView>, Failure>(Seq::empty())
    } else {
        ||| r is Err && entries_compile(path, items, (n - 1) as nat, filter, files, depth, r)
        ||| exists|head: Seq<StepView>, tail: Result<Seq<StepView>, Failure>|
            #![trigger followed(head, tail)]
            entries_compile(path, items, (n - 1) as nat, filter, files, depth, Ok(head))
                && entry_compiles(path, items[n - 1], filter, files, depth, tail) && r
                == followed(head, tail)
    }
}

/// Whether `r` is what the document at `path` may compile to: the steps of the
/// entries under `accessor` in its first document. The document must be among
/// `files`.
pub open spec fn document_compiles(
    path: Seq<char>,
    accessor: Option<Seq<char>>,
    filter: Filter,
    files: Files,
    depth: nat,
    r: Result<Seq<StepView>, Failure>,
) -> bool
    decreases depth, 2nat, 0nat,
{
    match files.documents_at(path) {
        None => r == Err::<Seq<StepView>, Failure>((ErrorKind::MissingDocument, path)),
        Some(docs) => if docs.len() == 0 {
            r == Err::<Seq<StepView>, Failure>((ErrorKind::MissingDocument, path))
        } else {
            match doc_entries(docs[0], accessor) {
                Err(f) => r == Err::<Seq<StepView>, Failure>(f),
                Ok(items) => entries_compile(path, items, items.len(), filter, files, depth, r),
            }
        },
    }
}

/// An error among the first entries is the error of all the entries.
pub proof fn lemma_entries_fail(
    path: Seq<char>,
    items: Seq<Json>,
    n: nat,
    m: nat,
    filter: Filter,
    files: Files,
    depth: nat,
    f: Failure,
)
    requires
        n <= m <= items.len(),
        entries_compile(path, items, n, filter, files, depth, Err(f)),
    ensures
        entries_compile(path, items, m, filter, files, depth, Err(f)),
    decreases m - n,
{
    if n < m {
        lemma_entries_fail(path, items, n, (m - 1) as nat, filter, files, depth, f);
    }
}

/// The steps of the entries so far, followed by what the next entry compiles
/// to, are what the entries up to and with that one compile to.
pub proof fn lemma_entries_next(
    path: Seq<char>,
    items: Seq<Json>,
    n: nat,
    filter: Filter,
    files: Files,
    depth: nat,
    h: Seq<StepView>,
    tail: Result<Seq<StepView>, Failure>,
)
    requires
        n < items.len(),
        entries_compile(path, items, n, filter, files, depth, Ok(h)),
        entry_compiles(path, items[n as int], filter, files, depth, tail),
    ensures
        entries_compile(path, items, n + 1, filter, files, depth, followed(h, tail)),
{
}

/// The filter that `tags` stands for.
pub open spec fn filter_of(tags: Tags) -> Filter {
    (tags.wanted(), tags.unwanted())
}

/// Whether the entry `item` splices a document in: it names one with `include`.
pub fn is_that_you(item: &Value) -> (r: bool)
    ensures
        r == text_field(item@, "include"@).is_some(),
{
    item.get_str("include").is_some()
}

/// The steps of an entry that is no splice and is not left out.
pub fn plain_steps(parent_path: &str, item: &Value, files: &Files) -> (r: Result<Vec<Step>, Error>)
    ensures
        step_compiles(parent_path@, item@, *files, steps_model(r)),
{
    if multi_request::is_that_you(item) {
        multi_request::steps(item, files)
    } else if multi_iter_request::is_that_you(item) {
        multi_iter_request::steps(item, files)
    } else if multi_csv_request::is_that_you(item) {
        multi_csv_request::steps(parent_path, item, files)
    } else if multi_file_request::is_that_you(item) {
        multi_file_request::steps(parent_path, item, files)
    } else {
        let step = if Delay::is_that_you(item) {
            match Delay::new(item, None) {
                Ok(s) => Step::Delay(s),
                Err(e) => {
                    return Err(e);
                },
            }
        } else if Exec::is_that_you(item) {
            match Exec::new(item, None) {
                Ok(s) => Step::Exec(s),
                Err(e) => {
                    return Err(e);
                },
            }
        } else if Assign::is_that_you(item) {
            match Assign::new(item, None) {
                Ok(s) => Step::Assign(s),
                Err(e) => {
                    return Err(e);
                },
            }
        } else if Assert::is_that_you(item) {
            match Assert::new(item, None) {
                Ok(s) => Step::Assert(s),
                Err(e) => {
                    return Err(e);
                },
            }
        } else if Request::is_that_you(item) {
            match Request::new(item, None, None, files) {
                Ok(s) => Step::Request(s),
                Err(e) => {
                    return Err(e);
                },
            }
        } else {
            return Err(Error::new(ErrorKind::UnknownNode, item.to_json()));
        };
        let mut steps: Vec<Step> = Vec::new();
        steps.push(step);
        assert(step_views(steps@) =~= seq![step@]);
        Ok(steps)
    }
}

/// The steps of one entry of the document at `parent_path`.
pub fn entry_steps(parent_path: &str, item: &Value, tags: &Tags, files: &Files, depth: usize) -> (r:
    Result<Vec<Step>, Error>)
    ensures
        entry_compiles(
            parent_path@,
            item@,
            filter_of(*tags),
            *files,
            depth as nat,
            steps_model(r),
        ),
    decreases depth, 0nat,
{
    match item.get_str("include") {
        Some(name) => {
            if has_interpolation(name.as_str()) {
                return Err(Error::about(ErrorKind::InterpolationNotSupported, "include"));
            }
            let path = resolve_path(parent_path, name.as_str());
            if depth == 0 {
                return Err(Error::new(ErrorKind::IncludeTooDeep, path));
            }
            document_steps(path.as_str(), None, tags, files, depth - 1)
        },
        None => {
            if tags.should_skip_item(item) {
                let r: Vec<Step> = Vec::new();
                assert(step_views(r@) =~= Seq::<StepView>::empty());
                Ok(r)
            } else {
                plain_steps(parent_path, item, files)
            }
        },
    }
}

/// The model of an optional name.
pub open spec fn optional_name(name: Option<&str>) -> Option<Seq<char>> {
    match name {
        Some(a) => Some(a@),
        None => None,
    }
}

/// The steps of the document at `parent_path`.
pub fn document_steps(
    parent_path: &str,
    accessor: Option<&str>,
    tags: &Tags,
    files: &Files,
    depth: usize,
) -> (r: Result<Vec<Step>, Error>)
    ensures
        document_compiles(
            parent_path@,
            optional_name(accessor),
            filter_of(*tags),
            *files,
            depth as nat,
            steps_model(r),
        ),
    decreases depth, 1nat,
{
    let docs = match files.documents(parent_path) {
        Some(docs) => docs,
        None => {
            return Err(Error::about(ErrorKind::MissingDocument, parent_path));
        },
    };
    if docs.len() == 0 {
        return Err(Error::about(ErrorKind::MissingDocument, parent_path));
    }
    assert(items_model(docs@)[0] == docs@[0]@);
    let items = match read_yaml_doc_accessor(&docs[0], accessor) {
        Ok(items) => items,
        Err(e) => {
            return Err(e);
        },
    };
    let ghost model = items_model(items@);
    let ghost filter = filter_of(*tags);
    let mut out: Vec<Step> = Vec::new();
    let mut i: usize = 0;
    assert(step_views(out@) =~= Seq::<StepView>::empty());
    while i < items.len()
        invariant
            i <= items.len(),
            model == items_model(items@),
            filter == filter_of(*tags),
            files.documents_at(parent_path@) == Some(items_model(docs@)),
            docs@.len() > 0,
            doc_entries(items_model(docs@)[0], optional_name(accessor)) == Ok::<
                Seq<Json>,
                Failure,
            >(model),
            entries_compile(
                parent_path@,
                model,
                i as nat,
                filter,
                *files,
                depth as nat,
                Ok(step_views(out@)),
            ),
        decreases items.len() - i,
    {
        let ghost before = step_views(out@);
        assert(model[i as int] == items@[i as int]@);
        let added = entry_steps(parent_path, &items[i], tags, files, depth);
        proof {
            lemma_entries_next(
                parent_path@,
                model,
                i as nat,
                filter,
                *files,
                depth as nat,
                before,
                steps_model(added),
            );
        }
        match added {
            Ok(steps) => {
                append_steps(&mut out, steps);
            },
            Err(e) => {
                proof {
                    lemma_entries_fail(
                        parent_path@,
                        model,
                        (i + 1) as nat,
                        model.len(),
                        filter,
                        *files,
                        depth as nat,
                        e@,
                    );
                }
                return Err(e);
            },
        }
        i += 1;
    }
    Ok(out)
}

/// Adds the steps of the entry `item` to the plan: of an entry that names a
/// document, the steps of that document. Where that fails, nothing is added.
pub fn expand(
    parent_path: &str,
    item: &Value,
    benchmark: &mut Vec<Step>,
    tags: &Tags,
    files: &Files,
    depth: usize,
) -> (r: Result<(), Error>)
    ensures
        grows(old(benchmark)@, final(benchmark)@, r),
        entry_compiles(
            parent_path@,
            item@,
            filter_of(*tags),
            *files,
            depth as nat,
            outcome(old(benchmark)@, final(benchmark)@, r),
        ),
{
    commit(benchmark, entry_steps(parent_path, item, tags, files, depth))
}

/// Compiles the document at `parent_path` and adds its steps to the plan. The
/// documents and files that it draws on are taken from `files`; where one is
/// missing, the error says which, and nothing is added.
pub fn expand_from_filepath(
    parent_path: &str,
    benchmark: &mut Vec<Step>,
    accessor: Option<&str>,
    tags: &Tags,
    files: &Files,
    depth: usize,
) -> (r: Result<(), Error>)
    ensures
        grows(old(benchmark)@, final(benchmark)@, r),
        document_compiles(
            parent_path@,
            optional_name(accessor),
            filter_of(*tags),
            *files,
            depth as nat,
            outcome(old(benchmark)@, final(benchmark)@, r),
        ),
{
    commit(benchmark, document_steps(parent_path, accessor, tags, files, depth))
}

} // verus!
