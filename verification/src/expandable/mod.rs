//! Entries that stand for many steps: one for each item of a list, of a range
//! of numbers, of the rows of a CSV file or of the lines of a text file.

pub mod nested;
pub mod multi_csv_request;
pub mod multi_file_request;
pub mod multi_iter_request;
pub mod multi_request;

use rand::seq::SliceRandom;
use vstd::prelude::*;
use crate::actions::request::request_spec;
use crate::actions::{step_views, Request, Step, StepView};
use crate::error::{Error, ErrorKind, Failure};
use crate::interpolator::{has_interpolation, has_token};
use crate::reader::Files;
use crate::text::{chars_of, decimal_text, format_i64, string_of};
use crate::value::{bool_field, integer_field, items_model, Json, Value};

verus! {

/// How many items an entry keeps: what its `pick` says, or all `len` of them.
/// A `pick` that is negative or greater than `len` is refused.
pub open spec fn pick_spec(item: Json, len: nat) -> Result<nat, Failure> {
    match integer_field(item, "pick"@) {
        Some(value) => if value < 0 {
            Err((ErrorKind::NegativePick, decimal_text(value as int)))
        } else if value > len {
            Err((ErrorKind::PickTooLarge, decimal_text(value as int)))
        } else {
            Ok(value as nat)
        },
        None => Ok(len),
    }
}

/// How many of the items `with_items` the entry `item` keeps.
pub fn pick(item: &Value, with_items: &[Value]) -> (r: Result<usize, Error>)
    ensures
        match r {
            Ok(n) => pick_spec(item@, with_items@.len()) == Ok::<nat, Failure>(n as nat),
            Err(e) => pick_spec(item@, with_items@.len()) == Err::<nat, Failure>(e@),
        },
{
    match item.get_i64("pick") {
        Some(value) => {
            if value < 0 {
                Err(Error::new(ErrorKind::NegativePick, string_of(&format_i64(value))))
            } else if value as u64 > with_items.len() as u64 {
                Err(Error::new(ErrorKind::PickTooLarge, string_of(&format_i64(value))))
            } else {
                Ok(value as usize)
            }
        },
        None => Ok(with_items.len()),
    }
}

/// `SliceRandom::shuffle` with the generator of the thread: the items are put
/// into an order that chance decides. Each value is there as often as before.
#[verifier::external_body]
pub(crate) fn shuffle(items: &mut Vec<Value>)
    ensures
        items_model(final(items)@).to_multiset() == items_model(old(items)@).to_multiset(),
{
    items.shuffle(&mut rand::thread_rng());
}

/// Whether `list` is an order in which the entry `item` may take the items
/// `source`: any order where the entry asks for a shuffle, and the order of
/// `source` where it does not.
pub open spec fn arrangement(item: Json, source: Seq<Json>, list: Seq<Json>) -> bool {
    if bool_field(item, "shuffle"@) == Some(true) {
        list.to_multiset() == source.to_multiset()
    } else {
        list == source
    }
}

/// The items `source`, in the order in which the entry `item` takes them.
pub fn arrange(item: &Value, source: &Vec<Value>) -> (r: Vec<Value>)
    ensures
        arrangement(item@, items_model(source@), items_model(r@)),
{
    let mut list: Vec<Value> = Vec::new();
    let mut i: usize = 0;
    while i < source.len()
        invariant
            i <= source.len(),
            list@.len() == i,
            forall|j: int| 0 <= j < i ==> list@[j]@ == source@[j]@,
        decreases source.len() - i,
    {
        list.push(source[i].clone());
        i += 1;
    }
    assert(items_model(list@) =~= items_model(source@));
    match item.get_bool("shuffle") {
        Some(true) => {
            shuffle(&mut list);
        },
        _ => {},
    }
    list
}

/// The position of an item as the step carries it.
pub open spec fn index_spec(i: int) -> u32 {
    (i % 0x1_0000_0000) as u32
}

/// The requests that the entry `item` stands for over the first `n` items of
/// `list`: one for each item, in their order, each with its item and its
/// position. With `literal`, an item that is a string with an interpolation is
/// refused.
pub open spec fn expansion(item: Json, list: Seq<Json>, n: nat, files: Files, literal: bool)
    -> Result<Seq<StepView>, Failure>
    decreases n,
{
    if n == 0 || n > list.len() {
        Ok(Seq::empty())
    } else {
        match expansion(item, list, (n - 1) as nat, files, literal) {
            Err(f) => Err(f),
            Ok(head) => {
                let with_item = list[n - 1];
                if literal && with_item is Text && has_token(with_item->Text_0) {
                    Err((ErrorKind::InterpolatedItem, with_item->Text_0))
                } else {
                    match request_spec(item, Some(with_item), Some(index_spec(n - 1)), files) {
                        Ok(request) => Ok(head.push(StepView::Request(request))),
                        Err(f) => Err(f),
                    }
                }
            },
        }
    }
}

/// The steps that the entry `item` stands for over `list`: as many requests as
/// its `pick` allows.
pub open spec fn picked_expansion(item: Json, list: Seq<Json>, files: Files, literal: bool)
    -> Result<Seq<StepView>, Failure> {
    match pick_spec(item, list.len()) {
        Err(f) => Err(f),
        Ok(count) => expansion(item, list, count, files, literal),
    }
}

/// Once an item is refused, the expansion fails whatever follows.
pub proof fn lemma_expansion_fails(
    item: Json,
    list: Seq<Json>,
    n: nat,
    m: nat,
    files: Files,
    literal: bool,
)
    requires
        n <= m <= list.len(),
        expansion(item, list, n, files, literal) is Err,
    ensures
        expansion(item, list, m, files, literal) == expansion(item, list, n, files, literal),
    decreases m - n,
{
    if n < m {
        lemma_expansion_fails(item, list, n, (m - 1) as nat, files, literal);
    }
}

/// An expansion that succeeds gives one request for each item: the request at
/// position `i` carries the item at position `i` of the list, and `i` as its
/// index.
pub proof fn law_expansion(item: Json, list: Seq<Json>, n: nat, files: Files, literal: bool)
    requires
        n <= list.len(),
        expansion(item, list, n, files, literal) is Ok,
    ensures
        ({
            let steps = expansion(item, list, n, files, literal)->Ok_0;
            &&& steps.len() == n
            &&& forall|i: int|
                0 <= i < n ==> (#[trigger] steps[i]) is Request && steps[i]->Request_0.with_item
                    == Some(list[i]) && steps[i]->Request_0.index == Some(index_spec(i))
        }),
    decreases n,
{
    if n > 0 {
        law_expansion(item, list, (n - 1) as nat, files, literal);
    }
}

/// With `pick`, an expansion that succeeds keeps that many items, the first of
/// the list; without it, all of them. A `pick` that is negative or greater than
/// the number of items makes the expansion fail.
pub proof fn law_pick(item: Json, list: Seq<Json>, files: Files, literal: bool)
    ensures
        match integer_field(item, "pick"@) {
            Some(v) => if 0 <= v <= list.len() {
                picked_expansion(item, list, files, literal) is Ok ==> picked_expansion(
                    item,
                    list,
                    files,
                    literal,
                )->Ok_0.len() == v
            } else {
                picked_expansion(item, list, files, literal) is Err
            },
            None => picked_expansion(item, list, files, literal) is Ok ==> picked_expansion(
                item,
                list,
                files,
                literal,
            )->Ok_0.len() == list.len(),
        },
{
    match pick_spec(item, list.len()) {
        Ok(count) => {
            if expansion(item, list, count, files, literal) is Ok {
                law_expansion(item, list, count, files, literal);
            }
        },
        Err(_) => {},
    }
}

/// The steps that the entry `item` stands for over `list`, which is in the
/// order in which the entry takes its items.
pub fn expand_list(item: &Value, list: &Vec<Value>, files: &Files, literal: bool) -> (r: Result<
    Vec<Step>,
    Error,
>)
    ensures
        match r {
            Ok(steps) => picked_expansion(item@, items_model(list@), *files, literal) == Ok::<
                Seq<StepView>,
                Failure,
            >(step_views(steps@)),
            Err(e) => picked_expansion(item@, items_model(list@), *files, literal) == Err::<
                Seq<StepView>,
                Failure,
            >(e@),
        },
{
    let count = match pick(item, list.as_slice()) {
        Ok(n) => n,
        Err(e) => {
            return Err(e);
        },
    };
    let ghost model = items_model(list@);
    let mut steps: Vec<Step> = Vec::new();
    let mut i: usize = 0;
    assert(step_views(steps@) =~= Seq::<StepView>::empty());
    while i < count
        invariant
            i <= count <= list.len(),
            model == items_model(list@),
            pick_spec(item@, model.len()) == Ok::<nat, Failure>(count as nat),
            expansion(item@, model, i as nat, *files, literal) == Ok::<Seq<StepView>, Failure>(
                step_views(steps@),
            ),
        decreases count - i,
    {
        let with_item = &list[i];
        assert(model[i as int] == with_item@);
        if literal {
            match with_item {
                Value::Text(t) => {
                    if has_interpolation(t.as_str()) {
                        proof {
                            lemma_expansion_fails(
                                item@,
                                model,
                                (i + 1) as nat,
                                count as nat,
                                *files,
                                literal,
                            );
                        }
                        return Err(Error::new(ErrorKind::InterpolatedItem, t.clone()));
                    }
                },
                _ => {},
            }
        }
        let index: u32 = ((i as u64) % 0x1_0000_0000) as u32;
        match Request::new(item, Some(with_item.clone()), Some(index), files) {
            Ok(request) => {
                let ghost before = step_views(steps@);
                steps.push(Step::Request(request));
                assert(step_views(steps@) =~= before.push(StepView::Request(request@)));
            },
            Err(e) => {
                proof {
                    lemma_expansion_fails(
                        item@,
                        model,
                        (i + 1) as nat,
                        count as nat,
                        *files,
                        literal,
                    );
                }
                return Err(e);
            },
        }
        i += 1;
    }
    Ok(steps)
}

/// Appends `steps` to `benchmark`.
pub fn append_steps(benchmark: &mut Vec<Step>, steps: Vec<Step>)
    ensures
        final(benchmark)@ == old(benchmark)@ + steps@,
        step_views(final(benchmark)@) == step_views(old(benchmark)@) + step_views(steps@),
{
    let ghost added = steps@;
    let mut steps = steps;
    benchmark.append(&mut steps);
    assert(step_views(benchmark@) =~= step_views(old(benchmark)@) + step_views(added));
}

/// Whether `r` is what the entry `item` may expand to over the items `source`:
/// the requests for the items taken in an order that the entry allows, as many
/// as its `pick` allows.
pub open spec fn arranged_expansion(
    item: Json,
    source: Seq<Json>,
    files: Files,
    literal: bool,
    r: Result<Seq<StepView>, Failure>,
) -> bool {
    exists|list: Seq<Json>|
        #![trigger arrangement(item, source, list)]
        arrangement(item, source, list) && r == picked_expansion(item, list, files, literal)
}

/// An order that the entry allows gives an expansion that the entry may have.
pub proof fn lemma_arranged(
    item: Json,
    source: Seq<Json>,
    list: Seq<Json>,
    files: Files,
    literal: bool,
)
    requires
        arrangement(item, source, list),
    ensures
        arranged_expansion(
            item,
            source,
            files,
            literal,
            picked_expansion(item, list, files, literal),
        ),
{
}

/// The steps that the entry `item` expands to over the items `source`.
pub fn expand_arranged(item: &Value, source: &Vec<Value>, files: &Files, literal: bool) -> (r:
    Result<Vec<Step>, Error>)
    ensures
        arranged_expansion(item@, items_model(source@), *files, literal, steps_model(r)),
{
    let list = arrange(item, source);
    let r = expand_list(item, &list, files, literal);
    proof {
        lemma_arranged(item@, items_model(source@), items_model(list@), *files, literal);
        assert(steps_model(r) == picked_expansion(item@, items_model(list@), *files, literal));
    }
    r
}

/// What a result of steps is, as models.
pub open spec fn steps_model(r: Result<Vec<Step>, Error>) -> Result<Seq<StepView>, Failure> {
    match r {
        Ok(steps) => Ok(step_views(steps@)),
        Err(e) => Err(e@),
    }
}

/// What an expansion has added to the plan, or the error it ended in.
pub open spec fn outcome(before: Seq<Step>, after: Seq<Step>, r: Result<(), Error>) -> Result<
    Seq<StepView>,
    Failure,
> {
    match r {
        Ok(_) => Ok(step_views(after).skip(before.len() as int)),
        Err(e) => Err(e@),
    }
}

/// Whether the plan `after` is the plan `before` with steps added at its end
/// and, where the expansion failed, with none added.
pub open spec fn grows(before: Seq<Step>, after: Seq<Step>, r: Result<(), Error>) -> bool {
    match r {
        Ok(_) => before.len() <= after.len() && after.take(before.len() as int) == before,
        Err(_) => after == before,
    }
}

/// Adds the steps of `result` to the plan, or hands its error on.
pub fn commit(benchmark: &mut Vec<Step>, result: Result<Vec<Step>, Error>) -> (r: Result<
    (),
    Error,
>)
    ensures
        grows(old(benchmark)@, final(benchmark)@, r),
        outcome(old(benchmark)@, final(benchmark)@, r) == steps_model(result),
{
    match result {
        Ok(steps) => {
            let ghost added = step_views(steps@);
            append_steps(benchmark, steps);
            assert(benchmark@.take(old(benchmark)@.len() as int) =~= old(benchmark)@);
            assert(step_views(benchmark@).skip(old(benchmark)@.len() as int) =~= added);
            Ok(())
        },
        Err(e) => Err(e),
    }
}

/// Where the last `/` of `path` stands, plus one; zero where it has none.
pub open spec fn directory_end(path: Seq<char>) -> int
    decreases path.len(),
{
    if path.len() == 0 {
        0
    } else if path.last() == '/' {
        path.len() as int
    } else {
        directory_end(path.drop_last())
    }
}

/// The path of the file `name` as seen from the file at `parent`: `name`
/// itself where it starts at the root, and else `name` in the directory of
/// `parent`.
pub open spec fn sibling_path(parent: Seq<char>, name: Seq<char>) -> Seq<char> {
    if name.len() > 0 && name[0] == '/' {
        name
    } else {
        parent.take(directory_end(parent)) + name
    }
}

/// The directory of a path ends inside the path.
pub proof fn lemma_directory_end(path: Seq<char>)
    ensures
        0 <= directory_end(path) <= path.len(),
    decreases path.len(),
{
    if path.len() > 0 && path.last() != '/' {
        lemma_directory_end(path.drop_last());
    }
}

/// The path of the file `name` as seen from the file at `parent`.
pub fn resolve_path(parent: &str, name: &str) -> (r: String)
    ensures
        r@ == sibling_path(parent@, name@),
{
    let n = chars_of(name);
    if n.len() > 0 && n[0] == '/' {
        return name.to_owned();
    }
    let p = chars_of(parent);
    let mut end: usize = p.len();
    assert(p@.take(end as int) == p@);
    while end > 0 && p[end - 1] != '/'
        invariant
            end <= p.len(),
            directory_end(p@) == directory_end(p@.take(end as int)),
        decreases end,
    {
        assert(p@.take(end as int).drop_last() == p@.take(end - 1));
        end -= 1;
    }
    proof {
        lemma_directory_end(p@);
        assert(directory_end(p@.take(end as int)) == end);
    }
    let mut out: Vec<char> = Vec::new();
    let mut i: usize = 0;
    while i < end
        invariant
            i <= end <= p.len(),
            out@ == p@.take(i as int),
        decreases end - i,
    {
        out.push(p[i]);
        assert(p@.take(i + 1) == p@.take(i as int).push(p@[i as int]));
        i += 1;
    }
    crate::text::append_chars(&mut out, &n);
    string_of(&out)
}

} // verus!
