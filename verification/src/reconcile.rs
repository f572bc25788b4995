//! Replacing the content of the managed table for one address family.
//!
//! A pass queries the routes of the family, deletes every one that lives in
//! the managed table, and then adds every desired route. Deletes and adds are
//! fanned out with a bound on how many are in flight, and the pass is
//! abandoned at the first failure.

use crate::fanout::{FanOut, FanOutView, MAX_IN_FLIGHT};
use crate::request::{Phase, Poll, Reply, ReplyView, Request};
use crate::route::{Family, RouteSpec};
use vstd::prelude::*;

verus! {

/// Where a pass stands.
#[derive(Clone, Copy, Debug, PartialEq, Eq, Structural)]
pub enum Stage {
    /// The existing routes are not known yet.
    Listing,
    /// Existing routes are being deleted.
    Deleting,
    /// Every delete has succeeded; desired routes are being added.
    Adding,
    /// Every add has succeeded.
    Done,
    /// A failure was observed in the given phase.
    Failed(Phase),
}

/// The routes of `routes` whose table field is `table`, in their order.
pub open spec fn in_table(routes: Seq<RouteSpec>, table: u8) -> Seq<RouteSpec> {
    routes.filter(|r: RouteSpec| r.table == table)
}

/// The positions in `routes` of the routes whose table field is `table`, in
/// rising order.
pub open spec fn positions_in_table(routes: Seq<RouteSpec>, table: u8) -> Seq<usize>
    decreases routes.len(),
{
    if routes.len() == 0 {
        Seq::empty()
    } else {
        let before = positions_in_table(routes.drop_last(), table);
        if routes.last().table == table {
            before.push((routes.len() - 1) as usize)
        } else {
            before
        }
    }
}

/// A pass as the contracts see it.
pub struct ReconcilerView {
    pub family: Family,
    pub table: u8,
    /// The routes to add, in the order in which they are handed out.
    pub desired: Seq<RouteSpec>,
    /// Whether the query for the existing routes has been handed out.
    pub list_requested: bool,
    /// The answer to the query, once it has arrived.
    pub listing: Seq<RouteSpec>,
    /// The routes of the answer that live in the managed table.
    pub existing: Seq<RouteSpec>,
    /// The position of each of them in the answer.
    pub positions: Seq<usize>,
    pub deletes: FanOutView,
    pub adds: FanOutView,
    pub stage: Stage,
}

impl ReconcilerView {
    /// A pass that has asked for nothing yet.
    pub open spec fn start(family: Family, table: u8, desired: Seq<RouteSpec>) -> Self {
        ReconcilerView {
            family,
            table,
            desired,
            list_requested: false,
            listing: Seq::empty(),
            existing: Seq::empty(),
            positions: Seq::empty(),
            deletes: FanOutView::start(0),
            adds: FanOutView::start(desired.len()),
            stage: Stage::Listing,
        }
    }

    pub open spec fn wf(self) -> bool {
        &&& self.deletes.wf()
        &&& self.adds.wf()
        &&& self.existing == in_table(self.listing, self.table)
        &&& self.positions == positions_in_table(self.listing, self.table)
        &&& self.deletes.total == self.existing.len()
        &&& self.positions.len() == self.existing.len()
        &&& self.adds.total == self.desired.len()
        &&& forall|i: int|
            0 <= i < self.existing.len() ==> (#[trigger] self.existing[i]).table == self.table
        &&& self.adds.issued > 0 ==> self.deletes.succeeded()
        &&& match self.stage {
            Stage::Listing => self.deletes.issued == 0 && self.adds.issued == 0,
            Stage::Deleting => {
                &&& self.list_requested
                &&& !self.deletes.failed
                &&& self.deletes.resolved < self.deletes.total
                &&& self.adds.issued == 0
            },
            Stage::Adding => {
                &&& self.list_requested
                &&& self.deletes.succeeded()
                &&& !self.adds.failed
                &&& self.adds.resolved < self.adds.total
            },
            Stage::Done => {
                &&& self.list_requested
                &&& self.deletes.succeeded()
                &&& self.adds.succeeded()
            },
            Stage::Failed(Phase::Fetch) => false,
            Stage::Failed(Phase::Delete) => self.list_requested && self.adds.issued == 0,
            Stage::Failed(Phase::Add) => {
                &&& self.list_requested
                &&& self.deletes.succeeded()
                &&& self.adds.failed
            },
        }
    }

    /// The stage that follows once every delete has succeeded.
    pub open spec fn stage_after_deletes(self) -> Stage {
        if self.desired.len() == 0 {
            Stage::Done
        } else {
            Stage::Adding
        }
    }

    /// The number of adds handed out: the count that a successful pass reports.
    pub open spec fn added(self) -> nat {
        self.adds.issued
    }

    /// The request that the pass hands out when asked now, if any.
    pub open spec fn next_request(self) -> Option<Request> {
        match self.stage {
            Stage::Listing => if self.list_requested {
                None
            } else {
                Some(Request::ListRoutes { family: self.family })
            },
            Stage::Deleting => if self.deletes.can_issue() {
                Some(
                    Request::DeleteRoute {
                        index: self.positions[self.deletes.issued as int],
                        route: self.existing[self.deletes.issued as int],
                    },
                )
            } else {
                None
            },
            Stage::Adding => if self.adds.can_issue() {
                Some(Request::AddRoute { route: self.desired[self.adds.issued as int] })
            } else {
                None
            },
            Stage::Done => None,
            Stage::Failed(_) => None,
        }
    }

    /// What the pass answers when asked now.
    pub open spec fn poll_result(self) -> Poll<Result<u64, Phase>> {
        match self.stage {
            Stage::Done => Poll::Finished(Ok(self.desired.len() as u64)),
            Stage::Failed(phase) => Poll::Finished(Err(phase)),
            _ => match self.next_request() {
                Some(request) => Poll::Perform(request),
                None => Poll::Wait,
            },
        }
    }

    /// The pass after it was asked: the request it answered with, if any, now
    /// counts as handed out.
    pub open spec fn polled(self) -> Self {
        match self.stage {
            Stage::Listing => ReconcilerView { list_requested: true, ..self },
            Stage::Deleting => ReconcilerView { deletes: self.deletes.issue(), ..self },
            Stage::Adding => ReconcilerView { adds: self.adds.issue(), ..self },
            Stage::Done => self,
            Stage::Failed(_) => self,
        }
    }

    /// The pass after a reply. A reply that answers nothing the pass is
    /// waiting for changes nothing.
    pub open spec fn handled(self, reply: ReplyView) -> Self {
        match (self.stage, reply) {
            (Stage::Listing, ReplyView::Listed(routes)) => if self.list_requested {
                let existing = in_table(routes, self.table);
                ReconcilerView {
                    listing: routes,
                    existing,
                    positions: positions_in_table(routes, self.table),
                    deletes: FanOutView::start(existing.len()),
                    stage: if existing.len() == 0 {
                        self.stage_after_deletes()
                    } else {
                        Stage::Deleting
                    },
                    ..self
                }
            } else {
                self
            },
            (Stage::Listing, ReplyView::ListFailed) => if self.list_requested {
                ReconcilerView { stage: Stage::Failed(Phase::Delete), ..self }
            } else {
                self
            },
            (Stage::Deleting, ReplyView::Completed { ok }) => {
                let deletes = self.deletes.resolve(ok);
                ReconcilerView {
                    deletes,
                    stage: if deletes.failed {
                        Stage::Failed(Phase::Delete)
                    } else if deletes.succeeded() {
                        self.stage_after_deletes()
                    } else {
                        Stage::Deleting
                    },
                    ..self
                }
            },
            (Stage::Adding, ReplyView::Completed { ok }) => {
                let adds = self.adds.resolve(ok);
                ReconcilerView {
                    adds,
                    stage: if adds.failed {
                        Stage::Failed(Phase::Add)
                    } else if adds.succeeded() {
                        Stage::Done
                    } else {
                        Stage::Adding
                    },
                    ..self
                }
            },
            _ => self,
        }
    }
}

/// One pass over the managed table for one family.
pub struct Reconciler {
    family: Family,
    table: u8,
    desired: Vec<RouteSpec>,
    list_requested: bool,
    listing: Ghost<Seq<RouteSpec>>,
    existing: Vec<RouteSpec>,
    positions: Vec<usize>,
    deletes: FanOut,
    adds: FanOut,
    stage: Stage,
}

impl View for Reconciler {
    type V = ReconcilerView;

    closed spec fn view(&self) -> ReconcilerView {
        ReconcilerView {
            family: self.family,
            table: self.table,
            desired: self.desired@,
            list_requested: self.list_requested,
            listing: self.listing@,
            existing: self.existing@,
            positions: self.positions@,
            deletes: self.deletes@,
            adds: self.adds@,
            stage: self.stage,
        }
    }
}

/// A pass that has asked for nothing yet is well formed.
pub proof fn lemma_start_wf(family: Family, table: u8, desired: Seq<RouteSpec>)
    ensures
        ReconcilerView::start(family, table, desired).wf(),
{
    reveal(Seq::filter);
    assert(in_table(Seq::<RouteSpec>::empty(), table) =~= Seq::<RouteSpec>::empty());
}

/// Every route that `in_table` keeps lives in the table, and one position
/// is kept with each.
pub proof fn lemma_in_table(routes: Seq<RouteSpec>, table: u8)
    ensures
        positions_in_table(routes, table).len() == in_table(routes, table).len(),
        forall|i: int|
            0 <= i < in_table(routes, table).len() ==> (#[trigger] in_table(
                routes,
                table,
            )[i]).table == table,
    decreases routes.len(),
{
    reveal(Seq::filter);
    if routes.len() > 0 {
        let init = routes.drop_last();
        lemma_in_table(init, table);
        assert forall|i: int| 0 <= i < in_table(routes, table).len() implies (#[trigger] in_table(
            routes,
            table,
        )[i]).table == table by {
            if i < in_table(init, table).len() {
                assert(in_table(routes, table)[i] == in_table(init, table)[i]);
            }
        }
    }
}

/// The position kept with a route is where the route stands in the answer
/// to the query, as long as the positions of the answer fit in a `usize`.
pub proof fn lemma_positions_in_table(routes: Seq<RouteSpec>, table: u8)
    requires
        routes.len() <= usize::MAX,
    ensures
        forall|i: int|
            0 <= i < in_table(routes, table).len() ==> {
                &&& (#[trigger] positions_in_table(routes, table)[i]) < routes.len()
                &&& routes[positions_in_table(routes, table)[i] as int] == in_table(
                    routes,
                    table,
                )[i]
            },
    decreases routes.len(),
{
    reveal(Seq::filter);
    lemma_in_table(routes, table);
    if routes.len() > 0 {
        let init = routes.drop_last();
        lemma_positions_in_table(init, table);
        lemma_in_table(init, table);
        let kept = in_table(routes, table);
        let places = positions_in_table(routes, table);
        assert forall|i: int| 0 <= i < kept.len() implies {
            &&& (#[trigger] places[i]) < routes.len()
            &&& routes[places[i] as int] == kept[i]
        } by {
            if i < in_table(init, table).len() {
                assert(kept[i] == in_table(init, table)[i]);
                assert(places[i] == positions_in_table(init, table)[i]);
                assert(init[places[i] as int] == routes[places[i] as int]);
            } else {
                assert(kept[i] == routes.last());
                assert(places[i] == routes.len() - 1);
            }
        }
    }
}

/// Keeps the routes whose table field is `table`, each with its position.
pub fn keep_table(routes: &Vec<RouteSpec>, table: u8) -> (kept: (Vec<RouteSpec>, Vec<usize>))
    ensures
        kept.0@ == in_table(routes@, table),
        kept.1@ == positions_in_table(routes@, table),
        kept.0@.len() == kept.1@.len(),
        forall|i: int|
            0 <= i < kept.0@.len() ==> {
                &&& (#[trigger] kept.1@[i]) < routes@.len()
                &&& routes@[kept.1@[i] as int] == kept.0@[i]
            },
{
    let ghost pred = |r: RouteSpec| r.table == table;
    let mut kept: Vec<RouteSpec> = Vec::new();
    let mut positions: Vec<usize> = Vec::new();
    let mut i: usize = 0;
    proof {
        reveal(Seq::filter);
        assert(routes@.take(0).filter(pred) =~= Seq::<RouteSpec>::empty());
    }
    while i < routes.len()
        invariant
            i <= routes.len(),
            pred == (|r: RouteSpec| r.table == table),
            kept@ == routes@.take(i as int).filter(pred),
            positions@ == positions_in_table(routes@.take(i as int), table),
        decreases routes.len() - i,
    {
        let route: RouteSpec = routes[i];
        proof {
            reveal(Seq::filter);
            assert(routes@.take(i + 1).drop_last() =~= routes@.take(i as int));
            assert(routes@.take(i + 1).last() == route);
        }
        if route.table == table {
            kept.push(route);
            positions.push(i);
        }
        i += 1;
    }
    proof {
        assert(routes@.take(i as int) =~= routes@);
        lemma_in_table(routes@, table);
        lemma_positions_in_table(routes@, table);
    }
    (kept, positions)
}

impl Reconciler {
    #[verifier::type_invariant]
    spec fn inv(self) -> bool {
        self@.wf() && self.listing@.len() <= usize::MAX
    }

    /// A pass that will leave exactly `desired` in table `table` of `family`.
    pub fn new(family: Family, table: u8, desired: Vec<RouteSpec>) -> (r: Self)
        ensures
            r@ == ReconcilerView::start(family, table, desired@),
            r@.wf(),
    {
        let adds = FanOut::new(desired.len());
        proof {
            lemma_start_wf(family, table, desired@);
        }
        Reconciler {
            family,
            table,
            desired,
            list_requested: false,
            listing: Ghost(Seq::empty()),
            existing: Vec::new(),
            positions: Vec::new(),
            deletes: FanOut::new(0),
            adds,
            stage: Stage::Listing,
        }
    }

    /// Says what to do next: start a request, wait for a reply, or stop with
    /// the number of routes added or the phase that failed. A request that is
    /// handed out counts as started.
    pub fn poll(self) -> (r: (Self, Poll<Result<u64, Phase>>))
        ensures
            self@.wf(),
            r.0@.wf(),
            r.0@ == self@.polled(),
            r.1 == self@.poll_result(),
            r.1 matches Poll::Perform(Request::DeleteRoute { index, route }) ==> index
                < self@.listing.len() && self@.listing[index as int] == route,
    {
        proof {
            use_type_invariant(&self);
            lemma_positions_in_table(self@.listing, self@.table);
        }
        match self.stage {
            Stage::Listing => {
                if self.list_requested {
                    (self, Poll::Wait)
                } else {
                    let request = Request::ListRoutes { family: self.family };
                    (Reconciler { list_requested: true, ..self }, Poll::Perform(request))
                }
            },
            Stage::Deleting => {
                let (deletes, issued) = self.deletes.issue();
                let poll = match issued {
                    Some(index) => Poll::Perform(
                        Request::DeleteRoute {
                            index: self.positions[index],
                            route: self.existing[index],
                        },
                    ),
                    None => Poll::Wait,
                };
                assert(self@.deletes.issued <= self.existing.len());
                (Reconciler { deletes, ..self }, poll)
            },
            Stage::Adding => {
                let (adds, issued) = self.adds.issue();
                let poll = match issued {
                    Some(index) => Poll::Perform(Request::AddRoute { route: self.desired[index] }),
                    None => Poll::Wait,
                };
                assert(self@.adds.issued <= self.desired.len());
                (Reconciler { adds, ..self }, poll)
            },
            Stage::Done => {
                let count = self.desired.len() as u64;
                (self, Poll::Finished(Ok(count)))
            },
            Stage::Failed(phase) => (self, Poll::Finished(Err(phase))),
        }
    }

    /// Takes in the outcome of a request that was handed out.
    pub fn handle(self, reply: Reply) -> (r: Self)
        ensures
            self@.wf(),
            r@.wf(),
            r@ == self@.handled(reply@),
    {
        proof {
            use_type_invariant(&self);
        }
        match (self.stage, reply) {
            (Stage::Listing, Reply::Listed(routes)) => {
                if self.list_requested {
                    let (existing, positions) = keep_table(&routes, self.table);
                    proof {
                        lemma_in_table(routes@, self.table);
                    }
                    let deletes = FanOut::new(existing.len());
                    let stage = if existing.len() == 0 {
                        self.stage_after_deletes()
                    } else {
                        Stage::Deleting
                    };
                    assert(routes@.len() == routes.len());
                    Reconciler {
                        listing: Ghost(routes@),
                        existing,
                        positions,
                        deletes,
                        stage,
                        ..self
                    }
                } else {
                    self
                }
            },
            (Stage::Listing, Reply::ListFailed) => {
                if self.list_requested {
                    Reconciler { stage: Stage::Failed(Phase::Delete), ..self }
                } else {
                    self
                }
            },
            (Stage::Deleting, Reply::Completed { ok }) => {
                let after = self.stage_after_deletes();
                let deletes = self.deletes.resolve(ok);
                let stage = if deletes.failed() {
                    Stage::Failed(Phase::Delete)
                } else if deletes.succeeded() {
                    after
                } else {
                    Stage::Deleting
                };
                Reconciler { deletes, stage, ..self }
            },
            (Stage::Adding, Reply::Completed { ok }) => {
                let adds = self.adds.resolve(ok);
                let stage = if adds.failed() {
                    Stage::Failed(Phase::Add)
                } else if adds.succeeded() {
                    Stage::Done
                } else {
                    Stage::Adding
                };
                Reconciler { adds, stage, ..self }
            },
            _ => self,
        }
    }

    fn stage_after_deletes(&self) -> (r: Stage)
        ensures
            r == self@.stage_after_deletes(),
    {
        if self.desired.len() == 0 {
            Stage::Done
        } else {
            Stage::Adding
        }
    }

    pub fn stage(&self) -> (r: Stage)
        ensures
            r == self@.stage,
    {
        self.stage
    }

    /// Deletes handed out whose outcome is still awaited.
    pub fn deletes_in_flight(&self) -> (r: usize)
        ensures
            r == self@.deletes.in_flight(),
            r <= MAX_IN_FLIGHT,
    {
        self.deletes.in_flight()
    }

    /// Adds handed out whose outcome is still awaited.
    pub fn adds_in_flight(&self) -> (r: usize)
        ensures
            r == self@.adds.in_flight(),
            r <= MAX_IN_FLIGHT,
    {
        self.adds.in_flight()
    }

    /// Adds handed out so far.
    pub fn added(&self) -> (r: u64)
        ensures
            r == self@.added(),
    {
        self.adds.issued() as u64
    }
}

/// What can happen to a pass: it is asked what to do next, or a reply arrives.
pub enum Input {
    Poll,
    Reply(ReplyView),
}

impl ReconcilerView {
    /// The pass after one input.
    pub open spec fn step(self, input: Input) -> Self {
        match input {
            Input::Poll => self.polled(),
            Input::Reply(reply) => self.handled(reply),
        }
    }

    /// The pass after a sequence of inputs, taken in order.
    pub open spec fn run(self, inputs: Seq<Input>) -> Self
        decreases inputs.len(),
    {
        if inputs.len() == 0 {
            self
        } else {
            self.run(inputs.drop_last()).step(inputs.last())
        }
    }

    /// The kernel mutations handed out so far, in the order in which they
    /// were handed out: deletes by position, then adds by position.
    pub open spec fn mutations(self) -> Seq<Request> {
        Seq::new(
            self.deletes.issued,
            |i: int| Request::DeleteRoute { index: self.positions[i], route: self.existing[i] },
        ) + Seq::new(self.adds.issued, |i: int| Request::AddRoute { route: self.desired[i] })
    }
}

/// Every input keeps a pass well formed.
pub proof fn lemma_step_wf(s: ReconcilerView, input: Input)
    requires
        s.wf(),
    ensures
        s.step(input).wf(),
{
    if let Input::Reply(ReplyView::Listed(routes)) = input {
        lemma_in_table(routes, s.table);
    }
}

/// Every pass that can be reached from a well-formed one is well formed.
pub proof fn lemma_run_wf(s: ReconcilerView, inputs: Seq<Input>)
    requires
        s.wf(),
    ensures
        s.run(inputs).wf(),
    decreases inputs.len(),
{
    if inputs.len() > 0 {
        lemma_run_wf(s, inputs.drop_last());
        lemma_step_wf(s.run(inputs.drop_last()), inputs.last());
    }
}

/// Concurrency bound: whatever inputs a fresh pass takes in, the deletes in
/// flight never exceed the limit, and neither do the adds.
pub proof fn lemma_in_flight_bounded(
    family: Family,
    table: u8,
    desired: Seq<RouteSpec>,
    inputs: Seq<Input>,
)
    ensures
        ReconcilerView::start(family, table, desired).run(inputs).deletes.in_flight()
            <= MAX_IN_FLIGHT,
        ReconcilerView::start(family, table, desired).run(inputs).adds.in_flight()
            <= MAX_IN_FLIGHT,
{
    lemma_start_wf(family, table, desired);
    lemma_run_wf(ReconcilerView::start(family, table, desired), inputs);
}

/// Ordering: when a pass hands out an add, every delete of the pass has been
/// handed out and has resolved with success, so none is in flight; and once
/// an add was handed out, no delete is handed out any more.
pub proof fn lemma_adds_follow_deletes(
    family: Family,
    table: u8,
    desired: Seq<RouteSpec>,
    inputs: Seq<Input>,
)
    ensures
        ({
            let s = ReconcilerView::start(family, table, desired).run(inputs);
            &&& s.poll_result() matches Poll::Perform(Request::AddRoute { .. }) ==> {
                &&& s.deletes.issued == s.existing.len()
                &&& s.deletes.resolved == s.existing.len()
                &&& s.deletes.in_flight() == 0
                &&& !s.deletes.failed
            }
            &&& s.adds.issued > 0 ==> !(s.poll_result() matches Poll::Perform(
                Request::DeleteRoute { .. },
            ))
        }),
{
    lemma_start_wf(family, table, desired);
    lemma_run_wf(ReconcilerView::start(family, table, desired), inputs);
}

/// Fail-fast, first half: a failure reported for a delete or an add in flight
/// ends the pass in the phase it was in.
pub proof fn lemma_failure_ends_pass(s: ReconcilerView)
    requires
        s.wf(),
    ensures
        s.stage == Stage::Listing && s.list_requested ==> s.handled(ReplyView::ListFailed).stage
            == Stage::Failed(Phase::Delete),
        s.stage == Stage::Deleting && s.deletes.in_flight() > 0 ==> s.handled(
            ReplyView::Completed { ok: false },
        ).stage == Stage::Failed(Phase::Delete),
        s.stage == Stage::Adding && s.adds.in_flight() > 0 ==> s.handled(
            ReplyView::Completed { ok: false },
        ).stage == Stage::Failed(Phase::Add),
{
}

/// Fail-fast, second half: once a pass has failed, no input makes it hand
/// out another request, and it keeps reporting the phase that failed.
pub proof fn lemma_failed_pass_stays_failed(s: ReconcilerView, phase: Phase, inputs: Seq<Input>)
    requires
        s.wf(),
        s.stage == Stage::Failed(phase),
    ensures
        s.run(inputs).stage == Stage::Failed(phase),
        s.run(inputs).poll_result() == Poll::Finished(Err::<u64, Phase>(phase)),
        s.run(inputs).mutations() == s.mutations(),
        s.run(inputs).deletes.issued == s.deletes.issued,
        s.run(inputs).adds.issued == s.adds.issued,
    decreases inputs.len(),
{
    if inputs.len() > 0 {
        lemma_failed_pass_stays_failed(s, phase, inputs.drop_last());
        let before = s.run(inputs.drop_last());
        let after = before.step(inputs.last());
        assert(after.existing == before.existing);
        assert(after.positions == before.positions);
        assert(after.listing == before.listing);
        assert(after.desired == before.desired);
        assert(after.mutations() == before.mutations());
    }
}

/// Asking a pass hands out at most one mutation: the one it answers with.
pub proof fn lemma_poll_extends_mutations(s: ReconcilerView)
    requires
        s.wf(),
    ensures
        s.polled().mutations() == match s.poll_result() {
            Poll::Perform(request) => if request.is_mutation() {
                s.mutations().push(request)
            } else {
                s.mutations()
            },
            _ => s.mutations(),
        },
{
    let after = s.polled();
    match s.stage {
        Stage::Deleting => {
            assert(s.adds.issued == 0);
            if s.deletes.can_issue() {
                assert(after.mutations() =~= s.mutations().push(
                    Request::DeleteRoute {
                        index: s.positions[s.deletes.issued as int],
                        route: s.existing[s.deletes.issued as int],
                    },
                ));
            }
        },
        Stage::Adding => {
            if s.adds.can_issue() {
                assert(after.mutations() =~= s.mutations().push(
                    Request::AddRoute { route: s.desired[s.adds.issued as int] },
                ));
            }
        },
        _ => {},
    }
}

/// A reply hands out nothing, unless it is the listing, before which nothing
/// was handed out.
pub proof fn lemma_reply_keeps_mutations(s: ReconcilerView, reply: ReplyView)
    requires
        s.wf(),
    ensures
        s.handled(reply).mutations() == s.mutations(),
{
    assert(s.handled(reply).mutations() =~= s.mutations());
}

/// A pass that has ended with success has handed out one delete for every
/// route that the query returned in the managed table, and then one add for
/// every desired route, each list in its order.
pub proof fn lemma_done_mutations(s: ReconcilerView)
    requires
        s.wf(),
        s.stage == Stage::Done,
    ensures
        s.mutations() == replacement(
            in_table(s.listing, s.table),
            positions_in_table(s.listing, s.table),
            s.desired,
        ),
        s.poll_result() == Poll::Finished(Ok::<u64, Phase>(s.desired.len() as u64)),
{
    assert(s.mutations() =~= replacement(s.existing, s.positions, s.desired));
}

/// One delete for each of `existing`, in order, each named by its position
/// in the answer to the query.
pub open spec fn deletions(existing: Seq<RouteSpec>, positions: Seq<usize>) -> Seq<Request> {
    Seq::new(
        existing.len(),
        |i: int| Request::DeleteRoute { index: positions[i], route: existing[i] },
    )
}

/// One add for each of `desired`, in order.
pub open spec fn additions(desired: Seq<RouteSpec>) -> Seq<Request> {
    Seq::new(desired.len(), |i: int| Request::AddRoute { route: desired[i] })
}

/// The mutations of a successful pass: delete every existing route, then add
/// every desired one.
pub open spec fn replacement(
    existing: Seq<RouteSpec>,
    positions: Seq<usize>,
    desired: Seq<RouteSpec>,
) -> Seq<Request> {
    deletions(existing, positions) + additions(desired)
}

} // verus!
