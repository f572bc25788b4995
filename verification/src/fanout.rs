//! Bounded fan-out: a batch of independent operations of which only a few
//! run at the same time, abandoned at the first failure.

use vstd::prelude::*;

verus! {

/// How many operations of one batch may be in flight at the same time.
pub const MAX_IN_FLIGHT: usize = 10;

/// The progress of a batch, as the contracts see it.
pub struct FanOutView {
    /// Operations in the batch.
    pub total: nat,
    /// Operations handed out so far: those numbered below `issued`.
    pub issued: nat,
    /// Operations whose outcome has been reported.
    pub resolved: nat,
    /// Whether a reported outcome was a failure.
    pub failed: bool,
}

impl FanOutView {
    /// A batch of `total` operations of which none has been handed out.
    pub open spec fn start(total: nat) -> Self {
        FanOutView { total, issued: 0, resolved: 0, failed: false }
    }

    pub open spec fn wf(self) -> bool {
        &&& self.resolved <= self.issued <= self.total
        &&& self.issued - self.resolved <= MAX_IN_FLIGHT
        &&& self.failed ==> self.resolved > 0
    }

    /// Operations handed out whose outcome is still awaited.
    pub open spec fn in_flight(self) -> nat {
        (self.issued - self.resolved) as nat
    }

    /// Whether another operation may be handed out now: none has failed, some
    /// are left, and fewer than the limit are in flight.
    pub open spec fn can_issue(self) -> bool {
        &&& !self.failed
        &&& self.issued < self.total
        &&& self.issued - self.resolved < MAX_IN_FLIGHT
    }

    /// Every operation was handed out and reported success.
    pub open spec fn succeeded(self) -> bool {
        !self.failed && self.resolved == self.total
    }

    /// The batch after an attempt to hand out one more operation.
    pub open spec fn issue(self) -> Self {
        if self.can_issue() {
            FanOutView { issued: self.issued + 1, ..self }
        } else {
            self
        }
    }

    /// The batch after one outcome was reported. A report that answers no
    /// operation in flight changes nothing.
    pub open spec fn resolve(self, ok: bool) -> Self {
        if self.issued > self.resolved {
            FanOutView { resolved: self.resolved + 1, failed: self.failed || !ok, ..self }
        } else {
            self
        }
    }
}

/// A batch of operations numbered from zero, handed out in order.
pub struct FanOut {
    total: usize,
    issued: usize,
    resolved: usize,
    failed: bool,
}

impl View for FanOut {
    type V = FanOutView;

    closed spec fn view(&self) -> FanOutView {
        FanOutView {
            total: self.total as nat,
            issued: self.issued as nat,
            resolved: self.resolved as nat,
            failed: self.failed,
        }
    }
}

impl FanOut {
    #[verifier::type_invariant]
    spec fn inv(self) -> bool {
        self@.wf()
    }

    /// A batch of `total` operations of which none has been handed out.
    pub fn new(total: usize) -> (r: Self)
        ensures
            r@ == FanOutView::start(total as nat),
            r@.wf(),
    {
        FanOut { total, issued: 0, resolved: 0, failed: false }
    }

    /// Hands out the next operation, if one may start now.
    pub fn issue(self) -> (r: (Self, Option<usize>))
        ensures
            self@.wf(),
            r.0@.wf(),
            r.0@ == self@.issue(),
            r.1 == if self@.can_issue() {
                Some(self@.issued as usize)
            } else {
                None::<usize>
            },
    {
        proof {
            use_type_invariant(&self);
        }
        if !self.failed && self.issued < self.total && self.issued - self.resolved < MAX_IN_FLIGHT {
            let index: usize = self.issued;
            (FanOut { issued: index + 1, ..self }, Some(index))
        } else {
            (self, None)
        }
    }

    /// Records the outcome of one operation in flight.
    pub fn resolve(self, ok: bool) -> (r: Self)
        ensures
            self@.wf(),
            r@.wf(),
            r@ == self@.resolve(ok),
    {
        proof {
            use_type_invariant(&self);
        }
        if self.issued > self.resolved {
            FanOut { resolved: self.resolved + 1, failed: self.failed || !ok, ..self }
        } else {
            self
        }
    }

    pub fn total(&self) -> (r: usize)
        ensures
            r == self@.total,
    {
        self.total
    }

    pub fn issued(&self) -> (r: usize)
        ensures
            r == self@.issued,
    {
        self.issued
    }

    /// Operations handed out whose outcome is still awaited.
    pub fn in_flight(&self) -> (r: usize)
        ensures
            r == self@.in_flight(),
            r <= MAX_IN_FLIGHT,
    {
        proof {
            use_type_invariant(self);
        }
        self.issued - self.resolved
    }

    pub fn failed(&self) -> (r: bool)
        ensures
            r == self@.failed,
    {
        self.failed
    }

    pub fn succeeded(&self) -> (r: bool)
        ensures
            r == self@.succeeded(),
    {
        !self.failed && self.resolved == self.total
    }
}

} // verus!
