//! The step that waits.

use vstd::prelude::*;
use crate::actions::{
    COMPLETED, Report, ReportView, extract, extract_spec, push_report, report_views,
};
use crate::error::{agrees, Error, ErrorKind, Failure};
use crate::value::{field, integer_field, object_field, Json, Value};

verus! {

/// A step that suspends its iteration for a number of seconds.
#[derive(Debug, PartialEq, Eq)]
pub struct Delay {
    pub name: String,
    pub seconds: u64,
}

/// The model of a `Delay`.
pub struct DelayView {
    pub name: Seq<char>,
    pub seconds: u64,
}

impl View for Delay {
    type V = DelayView;

    open spec fn view(&self) -> DelayView {
        DelayView { name: self.name@, seconds: self.seconds }
    }
}

impl Clone for Delay {
    fn clone(&self) -> (r: Delay)
        ensures
            r@ == self@,
    {
        Delay { name: self.name.clone(), seconds: self.seconds }
    }
}

/// The step that the entry `item` describes.
pub open spec fn delay_spec(item: Json) -> Result<DelayView, Failure> {
    match extract_spec(item, "name"@) {
        Err(f) => Err(f),
        Ok(name) => match field(item, "delay"@) {
            None => Err((ErrorKind::MissingField, "delay"@)),
            Some(inner) => match integer_field(inner, "seconds"@) {
                Some(n) => if n >= 0 {
                    Ok(DelayView { name, seconds: n as u64 })
                } else {
                    Err((ErrorKind::InvalidSeconds, name))
                },
                None => Err((ErrorKind::InvalidSeconds, name)),
            },
        },
    }
}

impl Delay {
    /// Whether the entry `item` is a delay: it has the mapping `delay`.
    pub fn is_that_you(item: &Value) -> (r: bool)
        ensures
            r == object_field(item@, "delay"@).is_some(),
    {
        item.get_mapping("delay").is_some()
    }

    /// The delay that the entry `item` describes.
    pub fn new(item: &Value, _with_item: Option<Value>) -> (r: Result<Delay, Error>)
        ensures
            agrees(r, delay_spec(item@)),
    {
        let name = match extract(item, "name") {
            Ok(v) => v,
            Err(e) => {
                return Err(e);
            },
        };
        let inner = match item.get("delay") {
            Some(v) => v,
            None => {
                return Err(Error::about(ErrorKind::MissingField, "delay"));
            },
        };
        match inner.get_i64("seconds") {
            Some(n) => {
                if n >= 0 {
                    Ok(Delay { name, seconds: n as u64 })
                } else {
                    Err(Error::new(ErrorKind::InvalidSeconds, name))
                }
            },
            None => Err(Error::new(ErrorKind::InvalidSeconds, name)),
        }
    }

    /// Records that the delay is over, after `elapsed` microseconds.
    pub fn complete(&self, reports: &mut Vec<Report>, elapsed: u64)
        ensures
            report_views(final(reports)@) == report_views(old(reports)@).push(
                ReportView { name: self.name@, duration: elapsed, status: COMPLETED },
            ),
    {
        push_report(reports, self.name.as_str(), elapsed, COMPLETED);
    }
}

} // verus!
