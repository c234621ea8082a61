//! The context of one run: the governor that bounds the outstanding
//! probes, the filter that judges each outcome, and the counters that
//! account for it.

use crate::filter::{includes, passes, FilterPolicy};
use crate::governor::{Dispatch, Governor, GovernorModel};
use crate::outcome::{BaselineSignature, Mode, ProbeOutcome};
use crate::progress::{bumped, percent_of, ProgressModel, ProgressState};
use vstd::prelude::*;

verus! {

/// What an outcome counts as.
#[derive(Clone, Copy, Debug, PartialEq, Eq, Structural)]
pub enum Verdict {
    /// A match: it is reported
    Match,
    /// Neither a match nor an error
    Miss,
    /// The probe failed
    Error,
    /// No probe was outstanding: nothing was counted
    Idle,
}

/// How the filter judges `outcome`.
pub open spec fn verdict_of(
    mode: Mode,
    outcome: ProbeOutcome,
    policy: FilterPolicy,
    baseline: Option<BaselineSignature>,
) -> Verdict {
    if outcome is Failure {
        Verdict::Error
    } else if passes(mode, outcome, policy, baseline) {
        Verdict::Match
    } else {
        Verdict::Miss
    }
}

/// The counters after an outcome with `verdict` was counted. A counter
/// that has reached the largest number of 64 bits stays there.
pub open spec fn counted(progress: ProgressModel, verdict: Verdict) -> ProgressModel {
    match verdict {
        Verdict::Idle => progress,
        Verdict::Match => ProgressModel {
            done: bumped(progress.done),
            found: bumped(progress.found),
            ..progress
        },
        Verdict::Error => ProgressModel {
            done: bumped(progress.done),
            errored: bumped(progress.errored),
            ..progress
        },
        Verdict::Miss => ProgressModel { done: bumped(progress.done), ..progress },
    }
}

/// One run. Its parts are private, so that the counters can only move
/// together with the governor: every run is accounted, because a new one
/// is and each step keeps it so.
pub struct Run {
    mode: Mode,
    policy: FilterPolicy,
    baseline: Option<BaselineSignature>,
    governor: Governor,
    progress: ProgressState,
}

impl Run {
    /// The mode of the run.
    pub closed spec fn mode(&self) -> Mode {
        self.mode
    }

    /// The filter policy of the run.
    pub closed spec fn policy(&self) -> FilterPolicy {
        self.policy
    }

    /// The noise signature of the run, if one was captured.
    pub closed spec fn baseline(&self) -> Option<BaselineSignature> {
        self.baseline
    }

    /// The governor of the run.
    pub closed spec fn governor(&self) -> GovernorModel {
        self.governor@
    }

    /// The counters of the run.
    pub closed spec fn progress(&self) -> ProgressModel {
        self.progress@
    }

    /// The percentage that the progress line showed last, if it was drawn
    /// at all.
    pub closed spec fn rendered(&self) -> Option<u8> {
        self.progress.rendered()
    }

    /// What holds of every run: each ended probe was counted as done
    /// exactly once, and as found or failed at most once.
    pub open spec fn accounted(&self) -> bool {
        &&& self.governor().consistent()
        &&& self.progress().done == self.governor().completed
        &&& self.progress().found + self.progress().errored <= self.progress().done
    }

    /// A run of `mode` over `candidates` candidates with at most `threads`
    /// probes outstanding, whose progress is measured against `expected`
    /// probes. Without a permit no probe could start, so there is no run.
    pub fn new(
        mode: Mode,
        policy: FilterPolicy,
        baseline: Option<BaselineSignature>,
        threads: usize,
        candidates: usize,
        expected: u64,
    ) -> (run: Option<Run>)
        ensures
            threads == 0 <==> run is None,
            run matches Some(r) ==> {
                &&& r.mode() == mode
                &&& r.policy() == policy
                &&& r.baseline() == baseline
                &&& r.governor() == GovernorModel::initial(threads as nat, candidates as nat)
                &&& r.progress() == (ProgressModel {
                    total: expected as nat,
                    done: 0,
                    found: 0,
                    errored: 0,
                })
                &&& r.rendered() is None
                &&& r.accounted()
            },
    {
        match Governor::new(threads, candidates) {
            None => None,
            Some(governor) => Some(
                Run { mode, policy, baseline, governor, progress: ProgressState::new(expected) },
            ),
        }
    }

    /// Asks the governor what to do next.
    pub fn next(&mut self) -> (d: Dispatch)
        ensures
            d == old(self).governor().dispatch(),
            final(self).governor() == old(self).governor().polled(),
            final(self).progress() == old(self).progress(),
            final(self).rendered() == old(self).rendered(),
            final(self).mode() == old(self).mode(),
            final(self).policy() == old(self).policy(),
            final(self).baseline() == old(self).baseline(),
            old(self).accounted() ==> final(self).accounted(),
    {
        self.governor.poll()
    }

    /// Takes the outcome of an outstanding probe: frees its permit, counts
    /// it, and says what it counts as. Without an outstanding probe
    /// nothing changes.
    pub fn settle(&mut self, outcome: &ProbeOutcome) -> (verdict: Verdict)
        ensures
            verdict == if old(self).governor().in_flight == 0 {
                Verdict::Idle
            } else {
                verdict_of(old(self).mode(), *outcome, old(self).policy(), old(self).baseline())
            },
            final(self).governor() == old(self).governor().ended(),
            final(self).progress() == counted(old(self).progress(), verdict),
            final(self).rendered() == old(self).rendered(),
            final(self).mode() == old(self).mode(),
            final(self).policy() == old(self).policy(),
            final(self).baseline() == old(self).baseline(),
            old(self).accounted() ==> final(self).accounted(),
            old(self).accounted() && verdict != Verdict::Idle ==> final(self).progress().done
                == old(self).progress().done + 1,
    {
        proof {
            self.governor.lemma_counts_fit();
        }
        if !self.governor.complete() {
            Verdict::Idle
        } else {
            self.progress.inc();
            match outcome {
                ProbeOutcome::Failure { .. } => {
                    self.progress.inc_error();
                    Verdict::Error
                },
                _ => if includes(self.mode, outcome, &self.policy, &self.baseline) {
                    self.progress.inc_found();
                    Verdict::Match
                } else {
                    Verdict::Miss
                },
            }
        }
    }

    /// The number of probes outstanding now, which is at most the limit.
    pub fn in_flight(&self) -> (n: usize)
        ensures
            n == self.governor().in_flight,
            n <= self.governor().limit,
    {
        self.governor.in_flight()
    }

    /// Whether every candidate was probed.
    pub fn is_finished(&self) -> (b: bool)
        ensures
            b == (self.governor().completed == self.governor().total),
    {
        self.governor.is_finished()
    }

    /// Probes that have ended.
    pub fn done(&self) -> (n: u64)
        ensures
            n == self.progress().done,
            self.accounted() ==> n == self.governor().completed,
    {
        self.progress.done()
    }

    /// Probes that matched.
    pub fn found(&self) -> (n: u64)
        ensures
            n == self.progress().found,
            self.accounted() ==> n <= self.progress().done,
    {
        self.progress.found()
    }

    /// Probes that failed.
    pub fn errored(&self) -> (n: u64)
        ensures
            n == self.progress().errored,
            self.accounted() ==> n <= self.progress().done,
    {
        self.progress.errored()
    }

    /// Whether the progress line should be drawn now: only when the
    /// percentage differs from the one drawn last, or nothing was drawn
    /// yet. The percentage of now then counts as drawn; nothing else of the
    /// run changes.
    pub fn render_due(&mut self) -> (due: bool)
        ensures
            due == (old(self).rendered() != Some(
                percent_of(old(self).progress().done, old(self).progress().total) as u8,
            )),
            final(self).rendered() == Some(
                percent_of(old(self).progress().done, old(self).progress().total) as u8,
            ),
            final(self).governor() == old(self).governor(),
            final(self).progress() == old(self).progress(),
            final(self).mode() == old(self).mode(),
            final(self).policy() == old(self).policy(),
            final(self).baseline() == old(self).baseline(),
    {
        self.progress.render_due()
    }

    /// The share of the expected probes that is done, in whole percent.
    pub fn percent(&self) -> (p: u8)
        ensures
            p == percent_of(self.progress().done, self.progress().total),
    {
        self.progress.percent()
    }
}

} // verus!
