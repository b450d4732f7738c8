//! The steps of a plan, and what they have in common.

pub mod assign;
pub mod check;
pub mod delay;
pub mod exec;
pub mod http;
pub mod request;

pub use self::assign::Assign;
pub use self::check::Assert;
pub use self::delay::Delay;
pub use self::exec::Exec;
pub use self::request::{Body, Request};

use vstd::prelude::*;
use crate::error::{agrees, Error, ErrorKind, Failure};
use crate::text::{
    append_chars, append_str, decimal_digits, decimal_text, digit_char, format_i64, format_u64,
    string_of,
};
use crate::value::{field, strings, Json, Value};

verus! {

/// The status recorded for a request that got no response.
pub const TRANSPORT_FAILURE: u16 = 520;

/// The status recorded for a step that is no request.
pub const COMPLETED: u16 = 200;

/// What one step of one iteration took and how it ended.
#[derive(Debug, PartialEq, Eq)]
pub struct Report {
    pub name: String,
    /// In microseconds.
    pub duration: u64,
    pub status: u16,
}

/// The model of a `Report`.
pub struct ReportView {
    pub name: Seq<char>,
    pub duration: u64,
    pub status: u16,
}

impl View for Report {
    type V = ReportView;

    open spec fn view(&self) -> ReportView {
        ReportView { name: self.name@, duration: self.duration, status: self.status }
    }
}

impl Clone for Report {
    fn clone(&self) -> (r: Report)
        ensures
            r@ == self@,
    {
        Report { name: self.name.clone(), duration: self.duration, status: self.status }
    }
}

/// A number of microseconds as milliseconds: the whole milliseconds, a point,
/// and the three digits of the microseconds that are left.
pub open spec fn millis_text(micros: u64) -> Seq<char> {
    decimal_digits((micros / 1000) as nat) + seq![
        '.',
        digit_char(((micros % 1000) / 100) as nat),
        digit_char(((micros % 100) / 10) as nat),
        digit_char((micros % 10) as nat),
    ]
}

/// A report as a record of a list in a YAML document: its name, its duration
/// in milliseconds and its status.
pub open spec fn record_text(r: ReportView) -> Seq<char> {
    "\n- name: "@ + r.name + "\n  duration: "@ + millis_text(r.duration) + "\n  status: "@
        + decimal_digits(r.status as nat) + "\n"@
}

/// The records of the first `n` of `reports`, with `sep` between two of them.
pub open spec fn joined(reports: Seq<ReportView>, sep: Seq<char>, n: nat) -> Seq<char>
    decreases n,
{
    if n == 0 || n > reports.len() {
        Seq::empty()
    } else if n == 1 {
        record_text(reports[0])
    } else {
        joined(reports, sep, (n - 1) as nat) + sep + record_text(reports[n - 1])
    }
}

impl Report {
    /// The report as a record of a list in a YAML document.
    pub fn record(&self) -> (r: String)
        ensures
            r@ == record_text(self@),
    {
        let mut out: Vec<char> = Vec::new();
        append_str(&mut out, "\n- name: ");
        append_str(&mut out, self.name.as_str());
        append_str(&mut out, "\n  duration: ");
        let whole = format_u64(self.duration / 1000);
        append_chars(&mut out, &whole);
        out.push('.');
        out.push((('0' as u8) + (((self.duration % 1000) / 100) as u8)) as char);
        out.push((('0' as u8) + (((self.duration % 100) / 10) as u8)) as char);
        out.push((('0' as u8) + ((self.duration % 10) as u8)) as char);
        append_str(&mut out, "\n  status: ");
        let status = format_u64(self.status as u64);
        append_chars(&mut out, &status);
        append_str(&mut out, "\n");
        assert(out@ =~= record_text(self@));
        string_of(&out)
    }
}

/// The records of `reports`, with `sep` between two of them.
pub fn join(reports: &Vec<Report>, sep: &str) -> (r: String)
    ensures
        r@ == joined(report_views(reports@), sep@, reports@.len()),
{
    let ghost views = report_views(reports@);
    let mut out: Vec<char> = Vec::new();
    let mut i: usize = 0;
    while i < reports.len()
        invariant
            i <= reports.len(),
            views == report_views(reports@),
            out@ == joined(views, sep@, i as nat),
        decreases reports.len() - i,
    {
        if i > 0 {
            append_str(&mut out, sep);
        }
        let record = reports[i].record();
        append_str(&mut out, record.as_str());
        assert(views[i as int] == reports@[i as int]@);
        assert(out@ =~= joined(views, sep@, (i + 1) as nat));
        i += 1;
    }
    string_of(&out)
}

/// The models of a list of reports.
pub open spec fn report_views(reports: Seq<Report>) -> Seq<ReportView> {
    Seq::new(reports.len(), |i: int| reports[i]@)
}

/// Appends a report to `reports`.
pub fn push_report(reports: &mut Vec<Report>, name: &str, duration: u64, status: u16)
    ensures
        report_views(final(reports)@) == report_views(old(reports)@).push(
            ReportView { name: name@, duration, status },
        ),
{
    reports.push(Report { name: name.to_owned(), duration, status });
    assert(report_views(reports@) =~= report_views(old(reports)@).push(
        ReportView { name: name@, duration, status },
    ));
}

/// The required property `attr` of `item` as text: a string as it is, a whole
/// number as its decimal text.
pub open spec fn extract_spec(item: Json, attr: Seq<char>) -> Result<Seq<char>, Failure> {
    match field(item, attr) {
        Some(Json::Text(s)) => Ok(s),
        Some(Json::Integer(n)) => Ok(decimal_text(n as int)),
        Some(Json::Object(_)) => Err((ErrorKind::RequiredString, attr)),
        _ => Err((ErrorKind::UnknownProperty, attr)),
    }
}

/// The optional property `attr` of `item`: a string, or nothing where the
/// property is missing or of another kind; a mapping is refused.
pub open spec fn extract_optional_spec(item: Json, attr: Seq<char>) -> Result<
    Option<Seq<char>>,
    Failure,
> {
    match field(item, attr) {
        Some(Json::Text(s)) => Ok(Some(s)),
        Some(Json::Object(_)) => Err((ErrorKind::NotAString, attr)),
        _ => Ok(None),
    }
}

/// One step of a plan.
#[derive(Debug, PartialEq, Eq)]
pub enum Step {
    Request(Request),
    Delay(Delay),
    Exec(Exec),
    Assign(Assign),
    Assert(Assert),
}

/// The model of a `Step`.
pub enum StepView {
    Request(crate::actions::request::RequestView),
    Delay(crate::actions::delay::DelayView),
    Exec(crate::actions::exec::ExecView),
    Assign(crate::actions::assign::AssignView),
    Assert(crate::actions::check::AssertView),
}

impl View for Step {
    type V = StepView;

    open spec fn view(&self) -> StepView {
        match self {
            Step::Request(s) => StepView::Request(s@),
            Step::Delay(s) => StepView::Delay(s@),
            Step::Exec(s) => StepView::Exec(s@),
            Step::Assign(s) => StepView::Assign(s@),
            Step::Assert(s) => StepView::Assert(s@),
        }
    }
}

impl Clone for Step {
    fn clone(&self) -> (r: Step)
        ensures
            r@ == self@,
    {
        match self {
            Step::Request(s) => Step::Request(s.clone()),
            Step::Delay(s) => Step::Delay(s.clone()),
            Step::Exec(s) => Step::Exec(s.clone()),
            Step::Assign(s) => Step::Assign(s.clone()),
            Step::Assert(s) => Step::Assert(s.clone()),
        }
    }
}

impl Step {
    /// The templates that the step resolves against the store when it runs.
    pub fn templates(&self) -> (r: Vec<String>)
        ensures
            strings(r@) == step_templates(self@),
    {
        let mut out: Vec<String> = Vec::new();
        match self {
            Step::Request(q) => {
                out.push(q.name.clone());
                out.push(q.url.clone());
                match &q.body {
                    Some(Body::Template(t)) => {
                        out.push(t.clone());
                    },
                    _ => {},
                }
                let ghost base = strings(out@);
                let ghost headers = crate::actions::request::pairs(q.headers@);
                let mut i: usize = 0;
                assert(base + header_values(headers).take(0) =~= base);
                while i < q.headers.len()
                    invariant
                        i <= q.headers.len(),
                        headers == crate::actions::request::pairs(q.headers@),
                        strings(out@) == base + header_values(headers).take(i as int),
                    decreases q.headers.len() - i,
                {
                    let ghost before = strings(out@);
                    out.push(q.headers[i].1.clone());
                    assert(strings(out@) =~= before.push(q.headers@[i as int].1@));
                    assert(header_values(headers).take(i + 1) =~= header_values(headers).take(
                        i as int,
                    ).push(q.headers@[i as int].1@));
                    assert(base + header_values(headers).take(i as int).push(
                        q.headers@[i as int].1@,
                    ) =~= (base + header_values(headers).take(i as int)).push(
                        q.headers@[i as int].1@,
                    ));
                    i += 1;
                }
                assert(header_values(headers).take(headers.len() as int) =~= header_values(
                    headers,
                ));
                assert(base =~= seq![q.name@, q.url@] + match self@->Request_0.body {
                    Some(crate::actions::request::BodyView::Template(t)) => seq![t],
                    _ => Seq::empty(),
                });
            },
            Step::Delay(_) => {
                assert(strings(out@) =~= Seq::<Seq<char>>::empty());
            },
            Step::Exec(e) => {
                out.push(e.command.clone());
                assert(strings(out@) =~= seq![e.command@]);
            },
            Step::Assign(a) => {
                out.push(a.value.clone());
                assert(strings(out@) =~= seq![a.value@]);
            },
            Step::Assert(a) => {
                out.push(a.value.clone());
                assert(strings(out@) =~= seq![a.value@]);
            },
        }
        out
    }

    /// The name of the step, as the plan gives it.
    pub fn name(&self) -> (r: &String)
        ensures
            r@ == step_name(self@),
    {
        match self {
            Step::Request(s) => &s.name,
            Step::Delay(s) => &s.name,
            Step::Exec(s) => &s.name,
            Step::Assign(s) => &s.name,
            Step::Assert(s) => &s.name,
        }
    }
}

/// The values of a list of headers.
pub open spec fn header_values(h: Seq<(Seq<char>, Seq<char>)>) -> Seq<Seq<char>> {
    Seq::new(h.len(), |i: int| h[i].1)
}

/// The templates that a step resolves against the store when it runs, in the
/// order in which it resolves them.
pub open spec fn step_templates(s: StepView) -> Seq<Seq<char>> {
    match s {
        StepView::Request(q) => seq![q.name, q.url] + match q.body {
            Some(crate::actions::request::BodyView::Template(t)) => seq![t],
            _ => Seq::empty(),
        } + header_values(q.headers),
        StepView::Delay(_) => Seq::empty(),
        StepView::Exec(e) => seq![e.command],
        StepView::Assign(a) => seq![a.value],
        StepView::Assert(a) => seq![a.value],
    }
}

/// The name of a step.
pub open spec fn step_name(s: StepView) -> Seq<char> {
    match s {
        StepView::Request(s) => s.name,
        StepView::Delay(s) => s.name,
        StepView::Exec(s) => s.name,
        StepView::Assign(s) => s.name,
        StepView::Assert(s) => s.name,
    }
}

/// The models of a list of steps.
pub open spec fn step_views(steps: Seq<Step>) -> Seq<StepView> {
    Seq::new(steps.len(), |i: int| steps[i]@)
}

/// The optional property `attr` of `item`, where it is a string.
pub fn extract_optional(item: &Value, attr: &str) -> (r: Result<Option<String>, Error>)
    ensures
        match r {
            Ok(Some(s)) => extract_optional_spec(item@, attr@) == Ok::<
                Option<Seq<char>>,
                Failure,
            >(Some(s@)),
            Ok(None) => extract_optional_spec(item@, attr@) == Ok::<Option<Seq<char>>, Failure>(
                None,
            ),
            Err(e) => extract_optional_spec(item@, attr@) == Err::<Option<Seq<char>>, Failure>(
                e@,
            ),
        },
{
    match item.get(attr) {
        Some(Value::Text(s)) => Ok(Some(s.clone())),
        Some(Value::Object(_)) => Err(Error::about(ErrorKind::NotAString, attr)),
        _ => Ok(None),
    }
}

/// The required property `attr` of `item`, as text.
pub fn extract(item: &Value, attr: &str) -> (r: Result<String, Error>)
    ensures
        agrees(r, extract_spec(item@, attr@)),
{
    match item.get(attr) {
        Some(Value::Text(s)) => Ok(s.clone()),
        Some(Value::Integer(n)) => Ok(string_of(&format_i64(*n))),
        Some(Value::Object(_)) => Err(Error::about(ErrorKind::RequiredString, attr)),
        _ => Err(Error::about(ErrorKind::UnknownProperty, attr)),
    }
}

} // verus!
