//! Repeating the pass on a fixed cadence.
//!
//! Ticks fall due at fixed multiples of the interval, however long a pass
//! takes. A tick that arrives while a pass is running is kept for later, but
//! only one such tick is kept: a burst of missed ticks gives one more pass,
//! not one for each. The first failure of a pass stops the scheduler for good.

use vstd::prelude::*;

verus! {

/// What the scheduler is doing.
#[derive(Clone, Copy, Debug, PartialEq, Eq, Structural)]
pub enum Activity {
    /// Waiting for the next tick.
    Idle,
    /// A pass is in flight.
    Running,
    /// A pass has failed; nothing will run again.
    Stopped,
}

/// What the scheduler is told.
#[derive(Clone, Copy, Debug, PartialEq, Eq, Structural)]
pub enum Event {
    /// A tick has fallen due.
    Tick,
    /// The pass in flight has ended.
    PassFinished { ok: bool },
}

/// What the scheduler asks for in return.
#[derive(Clone, Copy, Debug, PartialEq, Eq, Structural)]
pub enum Command {
    /// Start a pass now.
    StartPass,
    /// Nothing to do until the next event.
    Wait,
    /// Give up: a pass has failed.
    Stop,
}

/// The scheduler as the contracts see it.
pub struct SchedulerView {
    /// Seconds between two ticks.
    pub interval: u64,
    /// Ticks taken in so far.
    pub ticks: u64,
    /// Whether a tick arrived during the pass in flight.
    pub pending: bool,
    pub activity: Activity,
}

/// One more, unless that is more than 64 bits hold.
pub open spec fn succ(n: u64) -> u64 {
    if n < u64::MAX {
        (n + 1) as u64
    } else {
        n
    }
}

/// The second at which tick number `number` falls due, counted from the
/// start of the scheduler and numbering the ticks from one: `number`
/// intervals after the start, or the last second that 64 bits can name.
pub open spec fn due_at(interval: u64, number: u64) -> u64 {
    if number * interval <= u64::MAX {
        (number * interval) as u64
    } else {
        u64::MAX
    }
}

impl SchedulerView {
    /// A scheduler that has seen no tick.
    pub open spec fn start(interval: u64) -> Self {
        SchedulerView { interval, ticks: 0, pending: false, activity: Activity::Idle }
    }

    /// The second at which the next tick falls due.
    pub open spec fn next_due(self) -> u64 {
        due_at(self.interval, succ(self.ticks))
    }

    /// What the scheduler asks for when told `event`.
    pub open spec fn command(self, event: Event) -> Command {
        match (self.activity, event) {
            (Activity::Stopped, _) => Command::Stop,
            (Activity::Idle, Event::Tick) => Command::StartPass,
            (Activity::Running, Event::PassFinished { ok }) => if !ok {
                Command::Stop
            } else if self.pending {
                Command::StartPass
            } else {
                Command::Wait
            },
            _ => Command::Wait,
        }
    }

    /// The scheduler after it was told `event`.
    pub open spec fn next(self, event: Event) -> Self {
        match (self.activity, event) {
            (Activity::Stopped, _) => self,
            (Activity::Idle, Event::Tick) => SchedulerView {
                ticks: succ(self.ticks),
                activity: Activity::Running,
                ..self
            },
            (Activity::Running, Event::Tick) => SchedulerView {
                ticks: succ(self.ticks),
                pending: true,
                ..self
            },
            (Activity::Running, Event::PassFinished { ok }) => if !ok {
                SchedulerView { pending: false, activity: Activity::Stopped, ..self }
            } else if self.pending {
                SchedulerView { pending: false, ..self }
            } else {
                SchedulerView { activity: Activity::Idle, ..self }
            },
            (Activity::Idle, Event::PassFinished { .. }) => self,
        }
    }

    pub open spec fn wf(self) -> bool {
        self.pending ==> self.activity == Activity::Running
    }

    /// The scheduler after a sequence of events, taken in order.
    pub open spec fn run(self, events: Seq<Event>) -> Self
        decreases events.len(),
    {
        if events.len() == 0 {
            self
        } else {
            self.run(events.drop_last()).next(events.last())
        }
    }

    /// The passes that the scheduler asks to start while it takes in `events`.
    pub open spec fn started(self, events: Seq<Event>) -> nat
        decreases events.len(),
    {
        if events.len() == 0 {
            0
        } else {
            let before = self.run(events.drop_last());
            self.started(events.drop_last()) + if before.command(events.last())
                == Command::StartPass {
                1nat
            } else {
                0nat
            }
        }
    }

    /// The passes whose end the scheduler takes in among `events`.
    pub open spec fn ended(self, events: Seq<Event>) -> nat
        decreases events.len(),
    {
        if events.len() == 0 {
            0
        } else {
            let before = self.run(events.drop_last());
            self.ended(events.drop_last()) + if before.activity == Activity::Running
                && events.last() is PassFinished {
                1nat
            } else {
                0nat
            }
        }
    }
}

/// The periodic scheduler.
pub struct Scheduler {
    interval: u64,
    ticks: u64,
    pending: bool,
    activity: Activity,
}

impl View for Scheduler {
    type V = SchedulerView;

    closed spec fn view(&self) -> SchedulerView {
        SchedulerView {
            interval: self.interval,
            ticks: self.ticks,
            pending: self.pending,
            activity: self.activity,
        }
    }
}

impl Scheduler {
    #[verifier::type_invariant]
    spec fn inv(self) -> bool {
        self@.wf()
    }

    /// A scheduler whose ticks are `interval` seconds apart, the first one
    /// due one interval from now.
    pub fn new(interval: u64) -> (r: Self)
        ensures
            r@ == SchedulerView::start(interval),
            r@.wf(),
    {
        Scheduler { interval, ticks: 0, pending: false, activity: Activity::Idle }
    }

    /// Takes in an event and says what to do about it.
    pub fn on_event(self, event: Event) -> (r: (Self, Command))
        ensures
            self@.wf(),
            r.0@.wf(),
            r.0@ == self@.next(event),
            r.1 == self@.command(event),
    {
        proof {
            use_type_invariant(&self);
        }
        match (self.activity, event) {
            (Activity::Stopped, _) => (self, Command::Stop),
            (Activity::Idle, Event::Tick) => {
                let ticks = self.ticks.saturating_add(1);
                (Scheduler { ticks, activity: Activity::Running, ..self }, Command::StartPass)
            },
            (Activity::Running, Event::Tick) => {
                let ticks = self.ticks.saturating_add(1);
                (Scheduler { ticks, pending: true, ..self }, Command::Wait)
            },
            (Activity::Running, Event::PassFinished { ok }) => {
                if !ok {
                    (
                        Scheduler { pending: false, activity: Activity::Stopped, ..self },
                        Command::Stop,
                    )
                } else if self.pending {
                    (Scheduler { pending: false, ..self }, Command::StartPass)
                } else {
                    (Scheduler { activity: Activity::Idle, ..self }, Command::Wait)
                }
            },
            (Activity::Idle, Event::PassFinished { .. }) => (self, Command::Wait),
        }
    }

    /// The second, counted from the start of the scheduler, at which the next
    /// tick falls due.
    pub fn next_due(&self) -> (r: u64)
        ensures
            r == self@.next_due(),
    {
        let number = self.ticks.saturating_add(1);
        match number.checked_mul(self.interval) {
            Some(second) => second,
            None => u64::MAX,
        }
    }

    pub fn activity(&self) -> (r: Activity)
        ensures
            r == self@.activity,
    {
        self.activity
    }

    /// Whether a tick is kept for when the pass in flight ends.
    pub fn pending(&self) -> (r: bool)
        ensures
            r == self@.pending,
    {
        self.pending
    }
}

/// Every event keeps the scheduler well formed.
pub proof fn lemma_scheduler_run_wf(s: SchedulerView, events: Seq<Event>)
    requires
        s.wf(),
    ensures
        s.run(events).wf(),
    decreases events.len(),
{
    if events.len() > 0 {
        lemma_scheduler_run_wf(s, events.drop_last());
    }
}

/// At most one pass is in flight: whatever events a fresh scheduler takes
/// in, it has asked for exactly one more pass than it has seen end while a
/// pass is running, and for exactly as many otherwise. It asks for no pass
/// without a tick.
pub proof fn lemma_one_pass_in_flight(interval: u64, events: Seq<Event>)
    ensures
        ({
            let s = SchedulerView::start(interval);
            s.started(events) == s.ended(events) + if s.run(events).activity
                == Activity::Running {
                1nat
            } else {
                0nat
            }
        }),
    decreases events.len(),
{
    if events.len() > 0 {
        lemma_one_pass_in_flight(interval, events.drop_last());
        lemma_scheduler_run_wf(SchedulerView::start(interval), events.drop_last());
    }
}

/// Tick-collapsing: however many ticks arrive while a pass is running, one
/// pass and no more starts when that pass ends well, and the scheduler then
/// keeps no tick.
pub proof fn lemma_ticks_collapse(s: SchedulerView, ticks: nat)
    requires
        s.wf(),
        s.activity == Activity::Running,
        ticks >= 1,
    ensures
        ({
            let missed = Seq::new(ticks, |i: int| Event::Tick);
            &&& s.started(missed) == 0
            &&& s.run(missed).activity == Activity::Running
            &&& s.run(missed).pending
            &&& s.run(missed).command(Event::PassFinished { ok: true }) == Command::StartPass
            &&& !s.run(missed).next(Event::PassFinished { ok: true }).pending
            &&& s.run(missed).next(Event::PassFinished { ok: true }).activity
                == Activity::Running
        }),
    decreases ticks,
{
    let missed = Seq::new(ticks, |i: int| Event::Tick);
    let fewer = Seq::new((ticks - 1) as nat, |i: int| Event::Tick);
    assert(missed.drop_last() =~= fewer);
    if ticks > 1 {
        lemma_ticks_collapse(s, (ticks - 1) as nat);
    } else {
        assert(s.run(fewer) == s);
        assert(s.started(fewer) == 0);
    }
}

/// A failed pass stops the scheduler for good: no later event starts a pass.
pub proof fn lemma_failure_stops(s: SchedulerView, events: Seq<Event>)
    requires
        s.activity == Activity::Running,
    ensures
        s.command(Event::PassFinished { ok: false }) == Command::Stop,
        s.next(Event::PassFinished { ok: false }).run(events).activity == Activity::Stopped,
        s.next(Event::PassFinished { ok: false }).started(events) == 0,
        forall|event: Event|
            #[trigger] s.next(Event::PassFinished { ok: false }).run(events).command(event)
                == Command::Stop,
    decreases events.len(),
{
    if events.len() > 0 {
        lemma_failure_stops(s, events.drop_last());
    }
}

/// Fixed cadence: the tick that follows `ticks` earlier ones falls due
/// `ticks + 1` intervals after the start, whatever happened in between, as
/// long as 64 bits can name that second.
pub proof fn lemma_fixed_cadence(s: SchedulerView)
    requires
        (s.ticks + 1) * s.interval <= u64::MAX,
    ensures
        s.next_due() == (s.ticks + 1) * s.interval,
        s.activity != Activity::Stopped && s.ticks < u64::MAX ==> s.next(Event::Tick).ticks
            == s.ticks + 1,
        forall|ok: bool| #[trigger] s.next(Event::PassFinished { ok }).ticks == s.ticks,
{
    if s.ticks == u64::MAX {
        assert(s.interval == 0) by (nonlinear_arith)
            requires
                (s.ticks + 1) * s.interval <= u64::MAX,
                s.ticks == u64::MAX,
                s.interval >= 0,
        ;
    }
}

} // verus!
