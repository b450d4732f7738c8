//! The step that compares a variable with a text.

use vstd::prelude::*;
use crate::actions::{extract, extract_spec, Report};
use crate::config::Config;
use crate::error::{agrees, Error, ErrorKind, Failure};
use crate::interpolator::{interpolation, resolve_spec, Environment, Interpolator};
use crate::text::{append_str, string_of};
use crate::value::{field, object_field, Context, Json, Value};

verus! {

/// A step that fails unless the variable `key` holds the text `value`.
#[derive(Debug, PartialEq, Eq)]
pub struct Assert {
    pub name: String,
    pub key: String,
    pub value: String,
}

/// The model of an `Assert`.
pub struct AssertView {
    pub name: Seq<char>,
    pub key: Seq<char>,
    pub value: Seq<char>,
}

impl View for Assert {
    type V = AssertView;

    open spec fn view(&self) -> AssertView {
        AssertView { name: self.name@, key: self.key@, value: self.value@ }
    }
}

impl Clone for Assert {
    fn clone(&self) -> (r: Assert)
        ensures
            r@ == self@,
    {
        Assert { name: self.name.clone(), key: self.key.clone(), value: self.value.clone() }
    }
}

/// The step that the entry `item` describes.
pub open spec fn assert_spec(item: Json) -> Result<AssertView, Failure> {
    match extract_spec(item, "name"@) {
        Err(f) => Err(f),
        Ok(name) => match field(item, "assert"@) {
            None => Err((ErrorKind::MissingField, "assert"@)),
            Some(inner) => match extract_spec(inner, "key"@) {
                Err(f) => Err(f),
                Ok(key) => match extract_spec(inner, "value"@) {
                    Err(f) => Err(f),
                    Ok(value) => Ok(AssertView { name, key, value }),
                },
            },
        },
    }
}

/// The two texts of a failed comparison, as the detail of the error.
pub open spec fn mismatch(stored: Seq<char>, expected: Seq<char>) -> Seq<char> {
    stored + " != "@ + expected
}

/// What running the step gives: the variable `key` is resolved strictly, the
/// text `value` as the run is set; the step succeeds where the two are equal.
pub open spec fn assert_outcome(
    a: AssertView,
    store: Seq<(Seq<char>, Json)>,
    env: Seq<(Seq<char>, Seq<char>)>,
    strict: bool,
) -> Result<(), Failure> {
    match resolve_spec(interpolation(a.key), store, env, true) {
        Err(f) => Err(f),
        Ok(stored) => match resolve_spec(a.value, store, env, strict) {
            Err(f) => Err(f),
            Ok(expected) => if stored == expected {
                Ok(())
            } else {
                Err((ErrorKind::AssertionMismatched, mismatch(stored, expected)))
            },
        },
    }
}

impl Assert {
    /// Whether the entry `item` is an assertion: it has the mapping `assert`.
    pub fn is_that_you(item: &Value) -> (r: bool)
        ensures
            r == object_field(item@, "assert"@).is_some(),
    {
        item.get_mapping("assert").is_some()
    }

    /// The assertion that the entry `item` describes.
    pub fn new(item: &Value, _with_item: Option<Value>) -> (r: Result<Assert, Error>)
        ensures
            agrees(r, assert_spec(item@)),
    {
        let name = match extract(item, "name") {
            Ok(v) => v,
            Err(e) => {
                return Err(e);
            },
        };
        let inner = match item.get("assert") {
            Some(v) => v,
            None => {
                return Err(Error::about(ErrorKind::MissingField, "assert"));
            },
        };
        let key = match extract(inner, "key") {
            Ok(v) => v,
            Err(e) => {
                return Err(e);
            },
        };
        let value = match extract(inner, "value") {
            Ok(v) => v,
            Err(e) => {
                return Err(e);
            },
        };
        Ok(Assert { name, key, value })
    }

    /// Runs the step: it changes neither the store nor the reports, and fails
    /// where the variable does not hold the text.
    pub fn execute(
        &self,
        context: &mut Context,
        reports: &mut Vec<Report>,
        env: &Environment,
        config: &Config,
    ) -> (r: Result<(), Error>)
        ensures
            agrees(
                r,
                assert_outcome(self@, old(context)@, env@, !config.relaxed_interpolations),
            ),
            final(context)@ == old(context)@,
            final(reports)@ == old(reports)@,
    {
        let mut eval: Vec<char> = Vec::new();
        eval.push('{');
        eval.push('{');
        eval.push(' ');
        append_str(&mut eval, self.key.as_str());
        eval.push(' ');
        eval.push('}');
        eval.push('}');
        assert(eval@ =~= interpolation(self.key@));
        let eval = string_of(&eval);
        let interpolator = Interpolator::new(context, env);
        let stored = match interpolator.resolve(eval.as_str(), true) {
            Ok(v) => v,
            Err(e) => {
                return Err(e);
            },
        };
        let expected = match interpolator.resolve(
            self.value.as_str(),
            !config.relaxed_interpolations,
        ) {
            Ok(v) => v,
            Err(e) => {
                return Err(e);
            },
        };
        if stored == expected {
            Ok(())
        } else {
            let mut detail: Vec<char> = Vec::new();
            append_str(&mut detail, stored.as_str());
            append_str(&mut detail, " != ");
            append_str(&mut detail, expected.as_str());
            assert(detail@ =~= mismatch(stored@, expected@));
            Err(Error::new(ErrorKind::AssertionMismatched, string_of(&detail)))
        }
    }
}

} // verus!
