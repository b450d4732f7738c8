//! Entries that stand for one request for each number of a range.

use vstd::prelude::*;
use crate::actions::{step_views, Step, StepView};
use crate::error::{Error, ErrorKind, Failure};
use crate::expandable::{arranged_expansion, commit, expand_arranged, grows, outcome, steps_model};
use crate::interpolator::{has_interpolation, has_token};
use crate::reader::Files;
use crate::value::{entries_get, entries_model, items_model, member, object_field, Json, Value};

verus! {

/// A bound of a range: it must be literal, and a whole number.
pub open spec fn bound_spec(v: Json, name: Seq<char>) -> Result<i64, Failure> {
    match v {
        Json::Integer(n) => Ok(n),
        _ => Err((ErrorKind::BoundNotNumber, name)),
    }
}

/// Whether the bound `v` is a string that holds an interpolation.
pub open spec fn interpolated(v: Json) -> bool {
    v is Text && has_token(v->Text_0)
}

/// The start, the step and the stop of the range `range`. The step is 1 where
/// none is given. The three are first held to be literal, in this order, and
/// then to be whole numbers, in this order; a step of zero is refused.
pub open spec fn range_spec(range: Seq<(Seq<char>, Json)>) -> Result<(i64, i64, i64), Failure> {
    match entries_get(range, "start"@) {
        None => Err((ErrorKind::MissingBound, "start"@)),
        Some(vstart) => {
            let vstep = match entries_get(range, "step"@) {
                Some(v) => v,
                None => Json::Integer(1),
            };
            match entries_get(range, "stop"@) {
                None => Err((ErrorKind::MissingBound, "stop"@)),
                Some(vstop) => if interpolated(vstart) {
                    Err((ErrorKind::InterpolationNotSupported, "start"@))
                } else if interpolated(vstep) {
                    Err((ErrorKind::InterpolationNotSupported, "step"@))
                } else if interpolated(vstop) {
                    Err((ErrorKind::InterpolationNotSupported, "stop"@))
                } else {
                    match bound_spec(vstart, "start"@) {
                        Err(f) => Err(f),
                        Ok(start) => match bound_spec(vstep, "step"@) {
                            Err(f) => Err(f),
                            Ok(step) => match bound_spec(vstop, "stop"@) {
                                Err(f) => Err(f),
                                Ok(stop) => if step == 0 {
                                    Err((ErrorKind::InvalidStep, "step"@))
                                } else {
                                    Ok((start, step, stop))
                                },
                            },
                        },
                    }
                },
            }
        },
    }
}

/// The numbers `v`, `v + step`, `v + 2 * step` and so on, up to `stop`.
pub open spec fn count_up(v: int, step: int, stop: int) -> Seq<Json>
    decreases
            (if v > stop {
                0
            } else {
                stop - v + 1
            }),
{
    if step <= 0 || v > stop {
        Seq::empty()
    } else {
        let rest = count_up(v + step, step, stop);
        seq![Json::Integer(#[verifier::truncate] (v as i64))] + rest
    }
}

/// The numbers of a range: from `start` in steps of `step` up to `stop`, which
/// is the last one where it is reached. A range whose start is not positive or
/// lies above its stop is empty, and so is one whose step is zero. With a
/// negative step the range is its start.
pub open spec fn range_items(start: i64, step: i64, stop: i64) -> Seq<Json> {
    if stop < start || start <= 0 {
        Seq::empty()
    } else if step < 0 {
        seq![Json::Integer(start)]
    } else {
        count_up(start as int, step as int, stop as int)
    }
}

/// Whether `r` is what the entry `item` may expand to: the requests for the
/// numbers of its `with_items_range`, taken in an order that the entry allows.
pub open spec fn expands_to(item: Json, files: Files, r: Result<Seq<StepView>, Failure>) -> bool {
    match object_field(item, "with_items_range"@) {
        None => r == Ok::<Seq<StepView>, Failure>(Seq::empty()),
        Some(range) => match range_spec(range) {
            Err(f) => r == Err::<Seq<StepView>, Failure>(f),
            Ok(b) => arranged_expansion(item, range_items(b.0, b.1, b.2), files, false, r),
        },
    }
}

/// Whether the entry `item` is a request over a range of numbers.
pub fn is_that_you(item: &Value) -> (r: bool)
    ensures
        r == (object_field(item@, "request"@).is_some() && object_field(
            item@,
            "with_items_range"@,
        ).is_some()),
{
    item.get_mapping("request").is_some() && item.get_mapping("with_items_range").is_some()
}

/// Whether the bound `v` is a string that holds an interpolation.
fn is_interpolated(v: &Value) -> (r: bool)
    ensures
        r == interpolated(v@),
{
    match v {
        Value::Text(t) => has_interpolation(t.as_str()),
        _ => false,
    }
}

/// The bound `v`, which is called `name`.
fn bound(v: &Value, name: &str) -> (r: Result<i64, Error>)
    ensures
        match r {
            Ok(n) => bound_spec(v@, name@) == Ok::<i64, Failure>(n),
            Err(e) => bound_spec(v@, name@) == Err::<i64, Failure>(e@),
        },
{
    match v {
        Value::Integer(n) => Ok(*n),
        _ => Err(Error::about(ErrorKind::BoundNotNumber, name)),
    }
}

/// The start, the step and the stop of the range `range`.
pub fn bounds(range: &Vec<(String, Value)>) -> (r: Result<(i64, i64, i64), Error>)
    ensures
        match r {
            Ok(b) => range_spec(entries_model(range@)) == Ok::<(i64, i64, i64), Failure>(b),
            Err(e) => range_spec(entries_model(range@)) == Err::<(i64, i64, i64), Failure>(e@),
        },
{
    let init = Value::Integer(1);
    let vstart = match member(range, "start") {
        Some(v) => v,
        None => {
            return Err(Error::about(ErrorKind::MissingBound, "start"));
        },
    };
    let vstep = match member(range, "step") {
        Some(v) => v,
        None => &init,
    };
    let vstop = match member(range, "stop") {
        Some(v) => v,
        None => {
            return Err(Error::about(ErrorKind::MissingBound, "stop"));
        },
    };
    if is_interpolated(vstart) {
        return Err(Error::about(ErrorKind::InterpolationNotSupported, "start"));
    }
    if is_interpolated(vstep) {
        return Err(Error::about(ErrorKind::InterpolationNotSupported, "step"));
    }
    if is_interpolated(vstop) {
        return Err(Error::about(ErrorKind::InterpolationNotSupported, "stop"));
    }
    let start = match bound(vstart, "start") {
        Ok(n) => n,
        Err(e) => {
            return Err(e);
        },
    };
    let step = match bound(vstep, "step") {
        Ok(n) => n,
        Err(e) => {
            return Err(e);
        },
    };
    let stop = match bound(vstop, "stop") {
        Ok(n) => n,
        Err(e) => {
            return Err(e);
        },
    };
    if step == 0 {
        return Err(Error::about(ErrorKind::InvalidStep, "step"));
    }
    Ok((start, step, stop))
}

/// The numbers of the range from `start` in steps of `step` up to `stop`.
pub fn range(start: i64, step: i64, stop: i64) -> (r: Vec<Value>)
    ensures
        items_model(r@) == range_items(start, step, stop),
{
    let mut out: Vec<Value> = Vec::new();
    if stop < start || start <= 0 || step == 0 {
        assert(items_model(out@) =~= Seq::<Json>::empty());
        return out;
    }
    if step < 0 {
        out.push(Value::Integer(start));
        assert(items_model(out@) =~= seq![Json::Integer(start)]);
        return out;
    }
    let mut v: i64 = start;
    let mut more = true;
    assert(items_model(out@) + count_up(v as int, step as int, stop as int) =~= count_up(
        start as int,
        step as int,
        stop as int,
    ));
    while more
        invariant
            step > 0,
            0 < start <= v,
            more ==> v <= stop,
            count_up(start as int, step as int, stop as int) == items_model(out@) + (if more {
                count_up(v as int, step as int, stop as int)
            } else {
                Seq::empty()
            }),
        decreases
                (if more {
                    stop - v + 1
                } else {
                    0
                }),
    {
        let ghost before = items_model(out@);
        out.push(Value::Integer(v));
        assert(items_model(out@) =~= before.push(Json::Integer(v)));
        let ghost rest = count_up(v + step, step as int, stop as int);
        assert(before + (seq![Json::Integer(v)] + rest) =~= before.push(Json::Integer(v))
            + rest);
        if stop - v < step {
            more = false;
            assert(rest =~= Seq::<Json>::empty());
        } else {
            v = v + step;
        }
    }
    assert(items_model(out@) + Seq::<Json>::empty() =~= items_model(out@));
    out
}

/// The steps that the entry `item` expands to.
pub fn steps(item: &Value, files: &Files) -> (r: Result<Vec<Step>, Error>)
    ensures
        expands_to(item@, *files, steps_model(r)),
{
    match item.get_mapping("with_items_range") {
        None => {
            let r: Vec<Step> = Vec::new();
            assert(step_views(r@) =~= Seq::<StepView>::empty());
            Ok(r)
        },
        Some(with_iter_items) => {
            let (start, step, stop) = match bounds(with_iter_items) {
                Ok(b) => b,
                Err(e) => {
                    return Err(e);
                },
            };
            let with_items = range(start, step, stop);
            expand_arranged(item, &with_items, files, false)
        },
    }
}

/// Adds the steps that the entry `item` expands to to the plan; where that
/// fails, nothing is added.
pub fn expand(item: &Value, benchmark: &mut Vec<Step>, files: &Files) -> (r: Result<(), Error>)
    ensures
        grows(old(benchmark)@, final(benchmark)@, r),
        expands_to(item@, *files, outcome(old(benchmark)@, final(benchmark)@, r)),
{
    commit(benchmark, steps(item, files))
}

} // verus!
