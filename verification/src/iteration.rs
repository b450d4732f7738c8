//! One iteration of a plan: its steps one after the other, each against the
//! variable store of the iteration.
//!
//! What a step does outside of the program is not done here: the iteration
//! says what is to be done, and is told how it went.

use vstd::prelude::*;
use crate::actions::assign::Assign;
use crate::actions::check::{assert_outcome, Assert};
use crate::actions::http::{completed, outgoing_spec, reported_status, seeded, Outgoing, Response};
use crate::actions::request::pairs;
use crate::actions::{report_views, step_templates, Report, ReportView, Step, StepView, COMPLETED};
use crate::config::Config;
use crate::error::{Error, ErrorKind};
use crate::interpolator::{resolve_spec, unknown_spec, Environment, Interpolator};
use crate::pool::{acquire, Pool};
use crate::text::{decimal_text, format_i64, string_of, trim_end_spec};
use crate::value::{entries_insert, strings, Context, Json, Value};

verus! {

/// What the iteration asks to be done before it goes on.
#[derive(Debug, PartialEq, Eq)]
pub enum Effect {
    /// Nothing: the step is done; take the next.
    Continue,
    /// Wait for so many seconds.
    Sleep { seconds: u64 },
    /// Run the command through a shell and catch what it prints.
    Run { command: String },
    /// Make the call.
    Send(Outgoing),
    /// Nothing: the iteration is over.
    Finished,
}

/// How what the iteration asked for went.
#[derive(Debug, PartialEq, Eq)]
pub enum Event {
    /// The wait is over, after `elapsed` microseconds.
    Slept { elapsed: u64 },
    /// The command has printed `output`, or could not be started.
    Ran { output: Option<String>, elapsed: u64 },
    /// The call got `response`, or none.
    Answered { response: Option<Response>, elapsed: u64 },
}

/// One iteration: its number, its variable store, its reports so far, the
/// position of its next step, and whether it waits to be told how the step at
/// that position went.
#[derive(Debug, PartialEq, Eq)]
pub struct Iteration {
    pub number: i64,
    pub context: Context,
    pub reports: Vec<Report>,
    pub position: usize,
    pub waiting: bool,
    /// The variables that the step taken last named and that were unknown,
    /// where interpolation is not strict.
    pub warnings: Vec<String>,
}

/// The store that an iteration starts with: its number, as text, under
/// `iteration`, and the base address under `base`.
pub open spec fn initial_store(number: i64, base: Seq<char>) -> Seq<(Seq<char>, Json)> {
    entries_insert(
        entries_insert(Seq::empty(), "iteration"@, Json::Text(decimal_text(number as int))),
        "base"@,
        Json::Text(base),
    )
}

/// The model of a response that an event holds.
pub open spec fn held_response(r: Option<Response>) -> Option<crate::actions::http::ResponseView> {
    match r {
        Some(response) => Some(response@),
        None => None,
    }
}

/// The unknown variables of the first `n` of `templates`, template by
/// template.
pub open spec fn unknown_among(
    templates: Seq<Seq<char>>,
    n: nat,
    store: Seq<(Seq<char>, Json)>,
    env: Seq<(Seq<char>, Seq<char>)>,
) -> Seq<Seq<char>>
    decreases n,
{
    if n == 0 || n > templates.len() {
        Seq::empty()
    } else {
        unknown_among(templates, (n - 1) as nat, store, env) + unknown_spec(
            templates[n - 1],
            store,
            env,
        )
    }
}

/// What a step warns of: the unknown variables of its templates, where
/// interpolation is not strict; nothing where it is.
pub open spec fn step_warnings(
    step: StepView,
    store: Seq<(Seq<char>, Json)>,
    env: Seq<(Seq<char>, Seq<char>)>,
    relaxed: bool,
) -> Seq<Seq<char>> {
    if relaxed {
        unknown_among(step_templates(step), step_templates(step).len(), store, env)
    } else {
        Seq::empty()
    }
}

/// The unknown variables of the templates of `step`.
fn warnings_of(step: &Step, context: &Context, env: &Environment, config: &Config) -> (r: Vec<
    String,
>)
    ensures
        strings(r@) == step_warnings(step@, context@, env@, config.relaxed_interpolations),
{
    let mut out: Vec<String> = Vec::new();
    assert(strings(out@) =~= Seq::<Seq<char>>::empty());
    if !config.relaxed_interpolations {
        return out;
    }
    let templates = step.templates();
    let interpolator = Interpolator::new(context, env);
    let mut i: usize = 0;
    while i < templates.len()
        invariant
            i <= templates.len(),
            interpolator.store() == context@,
            interpolator.environment() == env@,
            strings(out@) == unknown_among(strings(templates@), i as nat, context@, env@),
        decreases templates.len() - i,
    {
        let ghost before = strings(out@);
        let mut more = interpolator.unknown_variables(templates[i].as_str());
        let ghost added = strings(more@);
        out.append(&mut more);
        assert(strings(out@) =~= before + added);
        assert(strings(templates@)[i as int] == templates@[i as int]@);
        i += 1;
    }
    out
}

impl Iteration {
    /// The iteration `number` of a run against `base`, before its first step.
    pub fn new(number: i64, base: &str) -> (r: Iteration)
        ensures
            r.number == number,
            r.context@ == initial_store(number, base@),
            r.reports@.len() == 0,
            r.position == 0,
            !r.waiting,
            r.warnings@.len() == 0,
    {
        let mut context = Context::new();
        context.insert("iteration".to_owned(), Value::Text(string_of(&format_i64(number))));
        context.insert("base".to_owned(), Value::Text(base.to_owned()));
        Iteration {
            number,
            context,
            reports: Vec::new(),
            position: 0,
            waiting: false,
            warnings: Vec::new(),
        }
    }

    /// Takes the next step of `plan`.
    ///
    /// An assignment or an assertion is carried out: the iteration moves on to
    /// the step after it, or fails with the error of the step. Of a delay, a
    /// command or a request the iteration says what is to be done, and waits.
    /// After the last step the iteration is over. An iteration that waits, and
    /// one whose step fails, stays where it is. The warnings of the iteration
    /// are those of the step taken: the variables that it names and that the
    /// store it is resolved against does not know.
    pub fn step(
        &mut self,
        plan: &Vec<Step>,
        env: &Environment,
        pool: &mut Pool,
        config: &Config,
    ) -> (r: Result<Effect, Error>)
        ensures
            final(self).number == old(self).number,
            old(self).waiting ==> r is Err && r->Err_0.kind == ErrorKind::UnexpectedEvent
                && *final(self) == *old(self) && final(pool)@ == old(pool)@,
            !old(self).waiting && old(self).position >= plan.len() ==> r == Ok::<Effect, Error>(
                Effect::Finished,
            ) && *final(self) == *old(self) && final(pool)@ == old(pool)@,
            !old(self).waiting && old(self).position < plan.len() ==> strings(
                final(self).warnings@,
            ) == step_warnings(
                plan[old(self).position as int]@,
                if plan[old(self).position as int] is Request {
                    final(self).context@
                } else {
                    old(self).context@
                },
                env@,
                config.relaxed_interpolations,
            ),
            !old(self).waiting && old(self).position < plan.len() ==> match plan[old(self).position as int] {
                Step::Assign(a) => {
                    &&& final(pool)@ == old(pool)@
                    &&& !final(self).waiting
                    &&& match resolve_spec(
                        a.value@,
                        old(self).context@,
                        env@,
                        !config.relaxed_interpolations,
                    ) {
                        Ok(v) => {
                            &&& r == Ok::<Effect, Error>(Effect::Continue)
                            &&& final(self).position == old(self).position + 1
                            &&& final(self).context@ == entries_insert(
                                old(self).context@,
                                a.key@,
                                Json::Text(v),
                            )
                            &&& report_views(final(self).reports@) == report_views(
                                old(self).reports@,
                            ).push(ReportView { name: a.name@, duration: 0, status: COMPLETED })
                        },
                        Err(f) => {
                            &&& r is Err
                            &&& r->Err_0@ == f
                            &&& final(self).position == old(self).position
                            &&& final(self).context@ == old(self).context@
                            &&& final(self).reports@ == old(self).reports@
                        },
                    }
                },
                Step::Assert(a) => {
                    &&& final(pool)@ == old(pool)@
                    &&& !final(self).waiting
                    &&& final(self).context@ == old(self).context@
                    &&& final(self).reports@ == old(self).reports@
                    &&& match assert_outcome(
                        a@,
                        old(self).context@,
                        env@,
                        !config.relaxed_interpolations,
                    ) {
                        Ok(_) => {
                            &&& r == Ok::<Effect, Error>(Effect::Continue)
                            &&& final(self).position == old(self).position + 1
                        },
                        Err(f) => {
                            &&& r is Err
                            &&& r->Err_0@ == f
                            &&& final(self).position == old(self).position
                        },
                    }
                },
                Step::Delay(d) => {
                    &&& r == Ok::<Effect, Error>(Effect::Sleep { seconds: d.seconds })
                    &&& final(pool)@ == old(pool)@
                    &&& final(self).waiting
                    &&& final(self).position == old(self).position
                    &&& final(self).context@ == old(self).context@
                    &&& final(self).reports@ == old(self).reports@
                },
                Step::Exec(e) => {
                    &&& final(pool)@ == old(pool)@
                    &&& final(self).position == old(self).position
                    &&& final(self).context@ == old(self).context@
                    &&& final(self).reports@ == old(self).reports@
                    &&& match resolve_spec(
                        e.command@,
                        old(self).context@,
                        env@,
                        !config.relaxed_interpolations,
                    ) {
                        Ok(c) => r is Ok && r->Ok_0 is Run && r->Ok_0->command@ == c && final(self).waiting,
                        Err(f) => r is Err && r->Err_0@ == f && !final(self).waiting,
                    }
                },
                Step::Request(q) => {
                    &&& final(self).position == old(self).position
                    &&& final(self).context@ == seeded(q@, old(self).context@)
                    &&& final(self).reports@ == old(self).reports@
                    &&& match outgoing_spec(
                        q@,
                        final(self).context@,
                        env@,
                        !config.relaxed_interpolations,
                        pairs(config.default_headers@),
                        config.timeout,
                    ) {
                        Ok(o) => {
                            &&& r is Ok
                            &&& r->Ok_0 is Send
                            &&& r->Ok_0->Send_0@ == o
                            &&& (
                                r->Ok_0->Send_0.client as int,
                                r->Ok_0->Send_0.created,
                                final(pool)@,
                            ) == acquire(old(pool)@, o.destination)
                            &&& final(self).waiting
                        },
                        Err(f) => r is Err && r->Err_0@ == f && final(pool)@ == old(pool)@
                            && !final(self).waiting,
                    }
                },
            },
    {
        if self.waiting {
            return Err(Error::about(ErrorKind::UnexpectedEvent, "step"));
        }
        if self.position >= plan.len() {
            return Ok(Effect::Finished);
        }
        match &plan[self.position] {
            Step::Request(_) => {},
            other => {
                self.warnings = warnings_of(other, &self.context, env, config);
            },
        }
        match &plan[self.position] {
            Step::Assign(a) => {
                match a.execute(&mut self.context, &mut self.reports, env, config) {
                    Ok(()) => {
                        self.position = self.position + 1;
                        Ok(Effect::Continue)
                    },
                    Err(e) => Err(e),
                }
            },
            Step::Assert(a) => {
                match a.execute(&mut self.context, &mut self.reports, env, config) {
                    Ok(()) => {
                        self.position = self.position + 1;
                        Ok(Effect::Continue)
                    },
                    Err(e) => Err(e),
                }
            },
            Step::Delay(d) => {
                self.waiting = true;
                Ok(Effect::Sleep { seconds: d.seconds })
            },
            Step::Exec(e) => {
                match e.command_line(&self.context, env, config) {
                    Ok(command) => {
                        self.waiting = true;
                        Ok(Effect::Run { command })
                    },
                    Err(e) => Err(e),
                }
            },
            Step::Request(q) => {
                let prepared = q.prepare(&mut self.context, env, pool, config);
                self.warnings = warnings_of(&plan[self.position], &self.context, env, config);
                match prepared {
                    Ok(outgoing) => {
                        self.waiting = true;
                        Ok(Effect::Send(outgoing))
                    },
                    Err(e) => Err(e),
                }
            },
        }
    }

    /// Takes the outcome of what the iteration asked for, and moves on to the
    /// next step.
    ///
    /// A delay that is over and a command that has run add one report each;
    /// what the command printed is stored where the step assigns. A command
    /// that could not be started is an error. A call adds one report whether or
    /// not it got a response, and none is no error. An outcome that was not
    /// asked for is refused, and the iteration stays as it is.
    pub fn resume(&mut self, plan: &Vec<Step>, config: &Config, event: &Event) -> (r: Result<
        (),
        Error,
    >)
        ensures
            final(self).number == old(self).number,
            final(self).warnings@ == old(self).warnings@,
            !old(self).waiting || old(self).position >= plan.len() ==> r is Err
                && r->Err_0.kind == ErrorKind::UnexpectedEvent && *final(self) == *old(self),
            old(self).waiting && old(self).position < plan.len() ==> match (
                plan[old(self).position as int],
                *event,
            ) {
                (Step::Delay(d), Event::Slept { elapsed }) => {
                    &&& r is Ok
                    &&& !final(self).waiting
                    &&& final(self).position == old(self).position + 1
                    &&& final(self).context@ == old(self).context@
                    &&& report_views(final(self).reports@) == report_views(
                        old(self).reports@,
                    ).push(ReportView { name: d.name@, duration: elapsed, status: COMPLETED })
                },
                (Step::Exec(e), Event::Ran { output: Some(output), elapsed }) => {
                    &&& r is Ok
                    &&& !final(self).waiting
                    &&& final(self).position == old(self).position + 1
                    &&& final(self).context@ == match e.assign {
                        Some(key) => entries_insert(
                            old(self).context@,
                            key@,
                            Json::Text(trim_end_spec(output@)),
                        ),
                        None => old(self).context@,
                    }
                    &&& report_views(final(self).reports@) == report_views(
                        old(self).reports@,
                    ).push(ReportView { name: e.name@, duration: elapsed, status: COMPLETED })
                },
                (Step::Exec(e), Event::Ran { output: None, elapsed }) => {
                    &&& r is Err
                    &&& r->Err_0@ == (ErrorKind::ExecFailed, e.command@)
                    &&& !final(self).waiting
                    &&& final(self).position == old(self).position
                    &&& final(self).context@ == old(self).context@
                    &&& final(self).reports@ == old(self).reports@
                },
                (Step::Request(q), Event::Answered { response, elapsed }) => {
                    &&& !final(self).waiting
                    &&& report_views(final(self).reports@) == report_views(
                        old(self).reports@,
                    ).push(
                        ReportView {
                            name: q.name@,
                            duration: elapsed,
                            status: reported_status(held_response(response)),
                        },
                    )
                    &&& match completed(
                        q@,
                        old(self).context@,
                        strings(config.copy_headers@),
                        held_response(response),
                    ) {
                        Ok(store) => {
                            &&& r is Ok
                            &&& final(self).context@ == store
                            &&& final(self).position == old(self).position + 1
                        },
                        Err(f) => {
                            &&& r is Err
                            &&& r->Err_0@ == f
                            &&& final(self).context@ == old(self).context@
                            &&& final(self).position == old(self).position
                        },
                    }
                },
                _ => r is Err && r->Err_0.kind == ErrorKind::UnexpectedEvent && *final(self)
                    == *old(self),
            },
    {
        if !self.waiting || self.position >= plan.len() {
            return Err(Error::about(ErrorKind::UnexpectedEvent, "resume"));
        }
        match (&plan[self.position], event) {
            (Step::Delay(d), Event::Slept { elapsed }) => {
                d.complete(&mut self.reports, *elapsed);
                self.waiting = false;
                self.position = self.position + 1;
                Ok(())
            },
            (Step::Exec(e), Event::Ran { output: Some(output), elapsed }) => {
                e.complete(&mut self.context, &mut self.reports, output.as_str(), *elapsed);
                self.waiting = false;
                self.position = self.position + 1;
                Ok(())
            },
            (Step::Exec(e), Event::Ran { output: None, elapsed: _ }) => {
                self.waiting = false;
                Err(Error::new(ErrorKind::ExecFailed, e.command.clone()))
            },
            (Step::Request(q), Event::Answered { response, elapsed }) => {
                self.waiting = false;
                match q.complete(
                    &mut self.context,
                    &mut self.reports,
                    config,
                    response.as_ref(),
                    *elapsed,
                ) {
                    Ok(()) => {
                        self.position = self.position + 1;
                        Ok(())
                    },
                    Err(e) => Err(e),
                }
            },
            _ => Err(Error::about(ErrorKind::UnexpectedEvent, "resume")),
        }
    }
}

} // verus!
