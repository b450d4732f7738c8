//! The step that stores a text under a name.

use vstd::prelude::*;
use crate::actions::{
    COMPLETED, Report, ReportView, extract, extract_spec, push_report, report_views,
};
use crate::config::Config;
use crate::error::{agrees, Error, ErrorKind, Failure};
use crate::interpolator::{resolve_spec, Environment, Interpolator};
use crate::value::{entries_insert, field, object_field, Context, Json, Value};

verus! {

/// A step that stores the text `value` in the variable `key`.
#[derive(Debug, PartialEq, Eq)]
pub struct Assign {
    pub name: String,
    pub key: String,
    pub value: String,
}

/// The model of an `Assign`.
pub struct AssignView {
    pub name: Seq<char>,
    pub key: Seq<char>,
    pub value: Seq<char>,
}

impl View for Assign {
    type V = AssignView;

    open spec fn view(&self) -> AssignView {
        AssignView { name: self.name@, key: self.key@, value: self.value@ }
    }
}

impl Clone for Assign {
    fn clone(&self) -> (r: Assign)
        ensures
            r@ == self@,
    {
        Assign { name: self.name.clone(), key: self.key.clone(), value: self.value.clone() }
    }
}

/// The step that the entry `item` describes.
pub open spec fn assign_spec(item: Json) -> Result<AssignView, Failure> {
    match extract_spec(item, "name"@) {
        Err(f) => Err(f),
        Ok(name) => match field(item, "assign"@) {
            None => Err((ErrorKind::MissingField, "assign"@)),
            Some(inner) => match extract_spec(inner, "key"@) {
                Err(f) => Err(f),
                Ok(key) => match extract_spec(inner, "value"@) {
                    Err(f) => Err(f),
                    Ok(value) => Ok(AssignView { name, key, value }),
                },
            },
        },
    }
}

impl Assign {
    /// Whether the entry `item` is an assignment: it has the mapping `assign`.
    pub fn is_that_you(item: &Value) -> (r: bool)
        ensures
            r == object_field(item@, "assign"@).is_some(),
    {
        item.get_mapping("assign").is_some()
    }

    /// The assignment that the entry `item` describes.
    pub fn new(item: &Value, _with_item: Option<Value>) -> (r: Result<Assign, Error>)
        ensures
            agrees(r, assign_spec(item@)),
    {
        let name = match extract(item, "name") {
            Ok(v) => v,
            Err(e) => {
                return Err(e);
            },
        };
        let inner = match item.get("assign") {
            Some(v) => v,
            None => {
                return Err(Error::about(ErrorKind::MissingField, "assign"));
            },
        };
        let key = match extract(inner, "key") {
            Ok(v) => v,
            Err(e) => {
                return Err(e);
            },
        };
        let value = match extract(inner, "value") {
            Ok(v) => v,
            Err(e) => {
                return Err(e);
            },
        };
        Ok(Assign { name, key, value })
    }

    /// Runs the step: the text `value`, resolved against the store, is stored
    /// under `key`, and one report is added. Where the text does not resolve,
    /// nothing changes.
    pub fn execute(
        &self,
        context: &mut Context,
        reports: &mut Vec<Report>,
        env: &Environment,
        config: &Config,
    ) -> (r: Result<(), Error>)
        ensures
            match resolve_spec(
                self.value@,
                old(context)@,
                env@,
                !config.relaxed_interpolations,
            ) {
                Ok(v) => {
                    &&& r is Ok
                    &&& final(context)@ == entries_insert(old(context)@, self.key@, Json::Text(v))
                    &&& report_views(final(reports)@) == report_views(old(reports)@).push(
                        ReportView { name: self.name@, duration: 0, status: COMPLETED },
                    )
                },
                Err(f) => {
                    &&& r is Err
                    &&& r->Err_0@ == f
                    &&& final(context)@ == old(context)@
                    &&& final(reports)@ == old(reports)@
                },
            },
    {
        let resolved = Interpolator::new(context, env).resolve(
            self.value.as_str(),
            !config.relaxed_interpolations,
        );
        match resolved {
            Ok(v) => {
                context.insert(self.key.clone(), Value::Text(v));
                push_report(reports, self.name.as_str(), 0, COMPLETED);
                Ok(())
            },
            Err(e) => Err(e),
        }
    }
}

} // verus!
