//! Comparing a run with a recorded one.

use vstd::prelude::*;
use crate::actions::{report_views, Report, ReportView};

verus! {

/// Whether a step that took `duration` is slower than the recorded one by more
/// than `threshold`, all in microseconds.
pub open spec fn is_slower(duration: u64, recorded: u64, threshold: u64) -> bool {
    duration - recorded > threshold
}

/// A step that was slower than recorded: its name, and by how much it was
/// slower, in microseconds.
pub struct Slower {
    pub name: String,
    pub delta: u64,
}

/// The model of a `Slower`.
pub struct SlowerView {
    pub name: Seq<char>,
    pub delta: u64,
}

impl View for Slower {
    type V = SlowerView;

    open spec fn view(&self) -> SlowerView {
        SlowerView { name: self.name@, delta: self.delta }
    }
}

/// The models of a list of slower steps.
pub open spec fn slower_views(steps: Seq<Slower>) -> Seq<SlowerView> {
    Seq::new(steps.len(), |i: int| steps[i]@)
}

/// The steps among the first `n` reports of an iteration that are slower than
/// the recorded step at the same position by more than `threshold`, in their
/// order. A report without a recorded step counts for nothing.
pub open spec fn slow_steps(reports: Seq<ReportView>, recorded: Seq<u64>, threshold: u64, n: nat)
    -> Seq<SlowerView>
    decreases n,
{
    if n == 0 || n > reports.len() {
        Seq::empty()
    } else {
        let head = slow_steps(reports, recorded, threshold, (n - 1) as nat);
        if n <= recorded.len() && is_slower(reports[n - 1].duration, recorded[n - 1], threshold) {
            head.push(
                SlowerView {
                    name: reports[n - 1].name,
                    delta: (reports[n - 1].duration - recorded[n - 1]) as u64,
                },
            )
        } else {
            head
        }
    }
}

/// The steps of the first `n` iterations that are slower than recorded,
/// iteration by iteration.
pub open spec fn slow_total(lists: Seq<Vec<Report>>, recorded: Seq<u64>, threshold: u64, n: nat)
    -> Seq<SlowerView>
    decreases n,
{
    if n == 0 || n > lists.len() {
        Seq::empty()
    } else {
        slow_total(lists, recorded, threshold, (n - 1) as nat) + slow_steps(
            report_views(lists[n - 1]@),
            recorded,
            threshold,
            lists[n - 1]@.len(),
        )
    }
}

/// The steps of a run that are slower than the recorded durations `recorded`
/// by more than `threshold`. Each iteration is held against the recording step
/// by step.
pub fn slower_steps(list_reports: &Vec<Vec<Report>>, recorded: &Vec<u64>, threshold: u64) -> (r:
    Vec<Slower>)
    ensures
        slower_views(r@) == slow_total(list_reports@, recorded@, threshold, list_reports@.len()),
{
    let mut out: Vec<Slower> = Vec::new();
    let mut i: usize = 0;
    assert(slower_views(out@) =~= Seq::<SlowerView>::empty());
    while i < list_reports.len()
        invariant
            i <= list_reports.len(),
            slower_views(out@) == slow_total(list_reports@, recorded@, threshold, i as nat),
        decreases list_reports.len() - i,
    {
        let reports = &list_reports[i];
        let ghost views = report_views(reports@);
        let ghost base = slower_views(out@);
        let mut j: usize = 0;
        assert(base + slow_steps(views, recorded@, threshold, 0) =~= base);
        while j < reports.len()
            invariant
                j <= reports.len(),
                views == report_views(reports@),
                slower_views(out@) == base + slow_steps(views, recorded@, threshold, j as nat),
            decreases reports.len() - j,
        {
            assert(views[j as int] == reports@[j as int]@);
            if j < recorded.len() {
                let duration = reports[j].duration;
                let before = recorded[j];
                if duration > before && duration - before > threshold {
                    let ghost held = slower_views(out@);
                    let slower = Slower { name: reports[j].name.clone(), delta: duration - before };
                    out.push(slower);
                    assert(slower_views(out@) =~= held.push(slower@));
                    assert(base + slow_steps(views, recorded@, threshold, j as nat).push(slower@)
                        =~= held.push(slower@));
                }
            }
            j += 1;
        }
        i += 1;
    }
    out
}

/// Compares the reports of a run with the recorded durations `recorded`: the
/// run passes where no step is slower than recorded by more than `threshold`;
/// else the number of slower steps is the error.
pub fn compare(list_reports: &Vec<Vec<Report>>, recorded: &Vec<u64>, threshold: u64) -> (r: Result<
    (),
    u64,
>)
    ensures
        match r {
            Ok(_) => slow_total(list_reports@, recorded@, threshold, list_reports@.len()).len()
                == 0,
            Err(n) => n > 0 && n == slow_total(
                list_reports@,
                recorded@,
                threshold,
                list_reports@.len(),
            ).len(),
        },
{
    let slow = slower_steps(list_reports, recorded, threshold);
    if slow.len() == 0 {
        Ok(())
    } else {
        Err(slow.len() as u64)
    }
}

} // verus!
