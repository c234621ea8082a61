//! Run-wide progress counters.

use vstd::prelude::*;

verus! {

/// The counters of a run as numbers.
pub struct ProgressModel {
    /// Probes that the run expects to make
    pub total: nat,
    /// Probes that have ended
    pub done: nat,
    /// Probes that matched
    pub found: nat,
    /// Probes that failed
    pub errored: nat,
}

/// The share of `total` that `done` is, in whole percent and at most 100.
/// A run without candidates is complete.
pub open spec fn percent_of(done: nat, total: nat) -> nat {
    if total == 0 || done >= total {
        100
    } else {
        done * 100 / total
    }
}

/// One more than `n`, but never more than `u64::MAX`.
pub open spec fn bumped(n: nat) -> nat {
    if n < u64::MAX {
        n + 1
    } else {
        n
    }
}

/// Counters of one run: how many probes are expected, how many have
/// ended, how many matched and how many failed.
pub struct ProgressState {
    total: u64,
    done: u64,
    found: u64,
    errored: u64,
    rendered: Option<u8>,
}

impl View for ProgressState {
    type V = ProgressModel;

    closed spec fn view(&self) -> ProgressModel {
        ProgressModel {
            total: self.total as nat,
            done: self.done as nat,
            found: self.found as nat,
            errored: self.errored as nat,
        }
    }
}

impl ProgressState {
    /// The percentage that the renderer showed last, if it showed any.
    pub closed spec fn rendered(&self) -> Option<u8> {
        self.rendered
    }

    /// A fresh tracker for `total` expected probes.
    pub fn new(total: u64) -> (p: ProgressState)
        ensures
            p@ == (ProgressModel { total: total as nat, done: 0, found: 0, errored: 0 }),
            p.rendered() is None,
    {
        ProgressState { total, done: 0, found: 0, errored: 0, rendered: None }
    }

    /// Counts one ended probe.
    pub fn inc(&mut self)
        ensures
            final(self)@ == (ProgressModel { done: bumped(old(self)@.done), ..old(self)@ }),
            final(self).rendered() == old(self).rendered(),
    {
        if self.done < u64::MAX {
            self.done = self.done + 1;
        }
    }

    /// Counts one match.
    pub fn inc_found(&mut self)
        ensures
            final(self)@ == (ProgressModel { found: bumped(old(self)@.found), ..old(self)@ }),
            final(self).rendered() == old(self).rendered(),
    {
        if self.found < u64::MAX {
            self.found = self.found + 1;
        }
    }

    /// Counts one failed probe.
    pub fn inc_error(&mut self)
        ensures
            final(self)@ == (ProgressModel { errored: bumped(old(self)@.errored), ..old(self)@ }),
            final(self).rendered() == old(self).rendered(),
    {
        if self.errored < u64::MAX {
            self.errored = self.errored + 1;
        }
    }

    /// Probes that the run expects to make.
    pub fn total(&self) -> (n: u64)
        ensures
            n == self@.total,
    {
        self.total
    }

    /// Probes that have ended.
    pub fn done(&self) -> (n: u64)
        ensures
            n == self@.done,
    {
        self.done
    }

    /// Probes that matched.
    pub fn found(&self) -> (n: u64)
        ensures
            n == self@.found,
    {
        self.found
    }

    /// Probes that failed.
    pub fn errored(&self) -> (n: u64)
        ensures
            n == self@.errored,
    {
        self.errored
    }

    /// The share of the run that is done, in whole percent.
    pub fn percent(&self) -> (p: u8)
        ensures
            p == percent_of(self@.done, self@.total),
            p <= 100,
    {
        if self.total == 0 || self.done >= self.total {
            100
        } else {
            let scaled: u128 = (self.done as u128) * 100;
            let share: u128 = scaled / (self.total as u128);
            assert(share < 100) by (nonlinear_arith)
                requires
                    share == scaled / (self.total as u128),
                    scaled == self.done * 100,
                    self.done < self.total,
            ;
            share as u8
        }
    }

    /// Whether the renderer should draw now. Drawing is throttled: it is
    /// due only when the percentage differs from the one drawn last. When
    /// it is due, the percentage counts as drawn.
    pub fn render_due(&mut self) -> (due: bool)
        ensures
            due == (old(self).rendered() != Some(percent_of(old(self)@.done, old(self)@.total) as u8)),
            final(self)@ == old(self)@,
            final(self).rendered() == Some(percent_of(old(self)@.done, old(self)@.total) as u8),
    {
        let now = self.percent();
        let due = match self.rendered {
            Some(last) => last != now,
            None => true,
        };
        self.rendered = Some(now);
        due
    }
}

} // verus!
