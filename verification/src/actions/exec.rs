//! The step that runs a command.

use vstd::prelude::*;
use crate::actions::{
    COMPLETED, Report, ReportView, extract, extract_optional, extract_optional_spec, extract_spec,
    push_report, report_views,
};
use crate::config::Config;
use crate::error::{agrees, Error, ErrorKind, Failure};
use crate::interpolator::{resolve_spec, Environment, Interpolator};
use crate::text::{chars_of, string_of, trim_end, trim_end_spec};
use crate::value::{entries_insert, field, object_field, Context, Json, Value};

verus! {

/// A step that runs a command through a shell and may store what it prints.
#[derive(Debug, PartialEq, Eq)]
pub struct Exec {
    pub name: String,
    pub command: String,
    pub assign: Option<String>,
}

/// The model of an `Exec`.
pub struct ExecView {
    pub name: Seq<char>,
    pub command: Seq<char>,
    pub assign: Option<Seq<char>>,
}

/// The model of an optional string.
pub open spec fn optional_text(s: Option<String>) -> Option<Seq<char>> {
    match s {
        Some(t) => Some(t@),
        None => None,
    }
}

impl View for Exec {
    type V = ExecView;

    open spec fn view(&self) -> ExecView {
        ExecView {
            name: self.name@,
            command: self.command@,
            assign: optional_text(self.assign),
        }
    }
}

impl Clone for Exec {
    fn clone(&self) -> (r: Exec)
        ensures
            r@ == self@,
    {
        Exec {
            name: self.name.clone(),
            command: self.command.clone(),
            assign: match &self.assign {
                Some(a) => Some(a.clone()),
                None => None,
            },
        }
    }
}

/// The step that the entry `item` describes.
pub open spec fn exec_spec(item: Json) -> Result<ExecView, Failure> {
    match extract_spec(item, "name"@) {
        Err(f) => Err(f),
        Ok(name) => match field(item, "exec"@) {
            None => Err((ErrorKind::MissingField, "exec"@)),
            Some(inner) => match extract_spec(inner, "command"@) {
                Err(f) => Err(f),
                Ok(command) => match extract_optional_spec(item, "assign"@) {
                    Err(f) => Err(f),
                    Ok(assign) => Ok(ExecView { name, command, assign }),
                },
            },
        },
    }
}

impl Exec {
    /// Whether the entry `item` is a command: it has the mapping `exec`.
    pub fn is_that_you(item: &Value) -> (r: bool)
        ensures
            r == object_field(item@, "exec"@).is_some(),
    {
        item.get_mapping("exec").is_some()
    }

    /// The command that the entry `item` describes.
    pub fn new(item: &Value, _with_item: Option<Value>) -> (r: Result<Exec, Error>)
        ensures
            agrees(r, exec_spec(item@)),
    {
        let name = match extract(item, "name") {
            Ok(v) => v,
            Err(e) => {
                return Err(e);
            },
        };
        let inner = match item.get("exec") {
            Some(v) => v,
            None => {
                return Err(Error::about(ErrorKind::MissingField, "exec"));
            },
        };
        let command = match extract(inner, "command") {
            Ok(v) => v,
            Err(e) => {
                return Err(e);
            },
        };
        let assign = match extract_optional(item, "assign") {
            Ok(v) => v,
            Err(e) => {
                return Err(e);
            },
        };
        Ok(Exec { name, command, assign })
    }

    /// The command to run: the template `command`, resolved against the store.
    pub fn command_line(&self, context: &Context, env: &Environment, config: &Config) -> (r:
        Result<String, Error>)
        ensures
            agrees(
                r,
                resolve_spec(self.command@, context@, env@, !config.relaxed_interpolations),
            ),
    {
        Interpolator::new(context, env).resolve(
            self.command.as_str(),
            !config.relaxed_interpolations,
        )
    }

    /// Records that the command has run and printed `output`, after `elapsed`
    /// microseconds: the output without the white space at its end is stored
    /// under `assign`, where the step has one, and one report is added.
    pub fn complete(
        &self,
        context: &mut Context,
        reports: &mut Vec<Report>,
        output: &str,
        elapsed: u64,
    )
        ensures
            final(context)@ == match self.assign {
                Some(key) => entries_insert(
                    old(context)@,
                    key@,
                    Json::Text(trim_end_spec(output@)),
                ),
                None => old(context)@,
            },
            report_views(final(reports)@) == report_views(old(reports)@).push(
                ReportView { name: self.name@, duration: elapsed, status: COMPLETED },
            ),
    {
        match &self.assign {
            Some(key) => {
                let mut text = chars_of(output);
                trim_end(&mut text);
                context.insert(key.clone(), Value::Text(string_of(&text)));
            },
            None => {},
        }
        push_report(reports, self.name.as_str(), elapsed, COMPLETED);
    }
}

} // verus!
