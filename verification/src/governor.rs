//! The concurrency governor: a pool of permits that hands out the
//! candidates of a run in order and never lets more probes be outstanding
//! than the configured limit.

use vstd::prelude::*;

verus! {

/// What the governor asks of the driver.
#[derive(Clone, Copy, Debug, PartialEq, Eq, Structural)]
pub enum Dispatch {
    /// Start the probe of the candidate with this index
    Start(usize),
    /// Every permit is taken, or every candidate was started: wait for an
    /// outstanding probe to end
    Wait,
    /// Every candidate was probed
    Finished,
}

/// What the driver tells the governor.
pub enum GovernorEvent {
    /// The driver asks what to do next
    Poll,
    /// An outstanding probe has ended
    Complete,
}

/// The governor as numbers.
pub struct GovernorModel {
    /// Most probes that may be outstanding at once
    pub limit: nat,
    /// Candidates of the run
    pub total: nat,
    /// Candidates whose probe was started
    pub started: nat,
    /// Probes started and not yet ended
    pub in_flight: nat,
    /// Probes that have ended
    pub completed: nat,
}

impl GovernorModel {
    /// The governor of a run that has not begun.
    pub open spec fn initial(limit: nat, total: nat) -> GovernorModel {
        GovernorModel { limit, total, started: 0, in_flight: 0, completed: 0 }
    }

    /// What holds of every governor: no more probes outstanding than
    /// permits, no more started than there are candidates, and each started
    /// probe is either outstanding or has ended.
    pub open spec fn consistent(self) -> bool {
        &&& self.limit >= 1
        &&& self.in_flight <= self.limit
        &&& self.started <= self.total
        &&& self.completed + self.in_flight == self.started
    }

    /// Whether a permit is free and a candidate is left to start.
    pub open spec fn can_start(self) -> bool {
        self.in_flight < self.limit && self.started < self.total
    }

    /// The answer to a poll.
    pub open spec fn dispatch(self) -> Dispatch {
        if self.can_start() {
            Dispatch::Start(self.started as usize)
        } else if self.in_flight > 0 {
            Dispatch::Wait
        } else {
            Dispatch::Finished
        }
    }

    /// The governor after the driver polled it.
    pub open spec fn polled(self) -> GovernorModel {
        if self.can_start() {
            GovernorModel {
                started: self.started + 1,
                in_flight: self.in_flight + 1,
                ..self
            }
        } else {
            self
        }
    }

    /// The governor after a probe ended. Without an outstanding probe
    /// nothing changes.
    pub open spec fn ended(self) -> GovernorModel {
        if self.in_flight > 0 {
            GovernorModel {
                in_flight: (self.in_flight - 1) as nat,
                completed: self.completed + 1,
                ..self
            }
        } else {
            self
        }
    }

    /// The governor after one event.
    pub open spec fn after(self, event: GovernorEvent) -> GovernorModel {
        match event {
            GovernorEvent::Poll => self.polled(),
            GovernorEvent::Complete => self.ended(),
        }
    }

    /// The governor after a sequence of events.
    pub open spec fn after_all(self, events: Seq<GovernorEvent>) -> GovernorModel
        decreases events.len(),
    {
        if events.len() == 0 {
            self
        } else {
            self.after_all(events.drop_last()).after(events.last())
        }
    }
}

/// Every event keeps the governor consistent, and changes neither limit
/// nor total.
pub proof fn lemma_event_keeps_consistent(model: GovernorModel, event: GovernorEvent)
    requires
        model.consistent(),
    ensures
        model.after(event).consistent(),
        model.after(event).limit == model.limit,
        model.after(event).total == model.total,
{
}

/// Whatever the driver does, and in whatever order probes end, the number
/// of outstanding probes never exceeds the limit, and no candidate is
/// started twice or left out of the count.
pub proof fn lemma_never_exceeds_limit(limit: nat, total: nat, events: Seq<GovernorEvent>)
    requires
        limit >= 1,
    ensures
        GovernorModel::initial(limit, total).after_all(events).consistent(),
        GovernorModel::initial(limit, total).after_all(events).limit == limit,
        GovernorModel::initial(limit, total).after_all(events).total == total,
        GovernorModel::initial(limit, total).after_all(events).in_flight <= limit,
    decreases events.len(),
{
    if events.len() > 0 {
        lemma_never_exceeds_limit(limit, total, events.drop_last());
        lemma_event_keeps_consistent(
            GovernorModel::initial(limit, total).after_all(events.drop_last()),
            events.last(),
        );
    }
}

/// No candidate starves: while the run is not finished, either a probe can
/// be started or one is outstanding whose end frees a permit.
pub proof fn lemma_progress_is_possible(model: GovernorModel)
    requires
        model.consistent(),
    ensures
        model.dispatch() is Finished <==> model.completed == model.total,
        model.dispatch() is Wait ==> model.in_flight > 0 && model.ended().completed
            == model.completed + 1,
        model.dispatch() is Start ==> model.polled().started == model.started + 1,
{
}

/// The bounded worker pool of one run.
pub struct Governor {
    limit: usize,
    total: usize,
    started: usize,
    in_flight: usize,
    completed: usize,
}

impl View for Governor {
    type V = GovernorModel;

    closed spec fn view(&self) -> GovernorModel {
        GovernorModel {
            limit: self.limit as nat,
            total: self.total as nat,
            started: self.started as nat,
            in_flight: self.in_flight as nat,
            completed: self.completed as nat,
        }
    }
}

impl Governor {
    #[verifier::type_invariant]
    spec fn consistent(self) -> bool {
        self@.consistent()
    }

    /// A governor for `total` candidates with `limit` permits. A pool
    /// without permits could never start a probe, so there is none.
    pub fn new(limit: usize, total: usize) -> (g: Option<Governor>)
        ensures
            limit == 0 <==> g is None,
            g matches Some(governor) ==> governor@ == GovernorModel::initial(
                limit as nat,
                total as nat,
            ),
    {
        if limit == 0 {
            None
        } else {
            Some(Governor { limit, total, started: 0, in_flight: 0, completed: 0 })
        }
    }

    /// Asks what to do next. Where a permit is free and a candidate is
    /// left, the next candidate is started.
    pub fn poll(&mut self) -> (d: Dispatch)
        ensures
            d == old(self)@.dispatch(),
            final(self)@ == old(self)@.polled(),
            final(self)@.consistent(),
    {
        proof {
            use_type_invariant(&*self);
        }
        if self.in_flight < self.limit && self.started < self.total {
            let index = self.started;
            *self = Governor {
                limit: self.limit,
                total: self.total,
                started: self.started + 1,
                in_flight: self.in_flight + 1,
                completed: self.completed,
            };
            Dispatch::Start(index)
        } else if self.in_flight > 0 {
            Dispatch::Wait
        } else {
            Dispatch::Finished
        }
    }

    /// Tells the governor that an outstanding probe has ended, which frees
    /// its permit. Returns whether a probe was outstanding.
    pub fn complete(&mut self) -> (was_outstanding: bool)
        ensures
            was_outstanding == (old(self)@.in_flight > 0),
            final(self)@ == old(self)@.ended(),
            final(self)@.consistent(),
    {
        proof {
            use_type_invariant(&*self);
        }
        if self.in_flight > 0 {
            *self = Governor {
                limit: self.limit,
                total: self.total,
                started: self.started,
                in_flight: self.in_flight - 1,
                completed: self.completed + 1,
            };
            true
        } else {
            false
        }
    }

    /// The counts of a governor fit the machine's word.
    pub proof fn lemma_counts_fit(&self)
        ensures
            self@.limit <= usize::MAX,
            self@.total <= usize::MAX,
            self@.started <= usize::MAX,
            self@.in_flight <= usize::MAX,
            self@.completed <= usize::MAX,
    {
    }

    /// The number of probes outstanding now, which is at most the limit.
    pub fn in_flight(&self) -> (n: usize)
        ensures
            n == self@.in_flight,
            n <= self@.limit,
    {
        proof {
            use_type_invariant(self);
        }
        self.in_flight
    }

    /// The number of permits.
    pub fn limit(&self) -> (n: usize)
        ensures
            n == self@.limit,
            n >= 1,
    {
        proof {
            use_type_invariant(self);
        }
        self.limit
    }

    /// The number of candidates of the run.
    pub fn total(&self) -> (n: usize)
        ensures
            n == self@.total,
    {
        self.total
    }

    /// The number of probes that have ended.
    pub fn completed(&self) -> (n: usize)
        ensures
            n == self@.completed,
            n <= self@.total,
    {
        proof {
            use_type_invariant(self);
        }
        self.completed
    }

    /// Whether every candidate was probed.
    pub fn is_finished(&self) -> (b: bool)
        ensures
            b == (self@.completed == self@.total),
            b == (self@.dispatch() is Finished),
    {
        proof {
            use_type_invariant(self);
        }
        self.completed == self.total
    }
}

} // verus!
