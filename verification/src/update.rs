//! One pass over both families: for each in turn, fetch its list, decode it
//! and replace the managed table's routes of that family.

use crate::parser::{decode, read_lines};
use crate::fanout::MAX_IN_FLIGHT;
use crate::reconcile::{lemma_start_wf, lemma_step_wf, Input, Reconciler, ReconcilerView, Stage};
use crate::request::{Phase, Poll, Reply, ReplyView, Request};
use crate::route::{Family, Ipv4Cidr, Ipv6Cidr, RouteSpec};
use vstd::prelude::*;

verus! {

/// The failure that ended a pass.
#[derive(Clone, Copy, Debug, PartialEq, Eq, Structural)]
pub struct PassError {
    pub family: Family,
    pub phase: Phase,
}

/// How many routes a pass added.
#[derive(Clone, Copy, Debug, PartialEq, Eq, Structural)]
pub struct Report {
    pub v4: u64,
    /// Absent where IPv6 is left alone.
    pub v6: Option<u64>,
}

/// The routes that the list `text` of `family` asks for, in the order of its
/// lines.
pub open spec fn desired_routes(family: Family, table: u8, oif: u32, text: Seq<char>) -> Seq<
    RouteSpec,
> {
    match family {
        Family::V4 => decode::<Ipv4Cidr>(text).map_values(|net: Ipv4Cidr| net.route(table, oif)),
        Family::V6 => decode::<Ipv6Cidr>(text).map_values(|net: Ipv6Cidr| net.route(table, oif)),
    }
}

/// Where a pass over both families stands, as the contracts see it.
pub enum UpdateStageView {
    /// The list of a family is being fetched.
    Fetching { family: Family, requested: bool },
    /// The routes of a family are being replaced.
    Syncing { family: Family, pass: ReconcilerView },
    Done(Report),
    Failed(PassError),
}

/// A pass over both families, as the contracts see it.
pub struct UpdateView {
    pub table: u8,
    pub oif: u32,
    pub no_v6: bool,
    /// Routes added for IPv4, once its turn has ended.
    pub v4_added: u64,
    pub stage: UpdateStageView,
}

impl UpdateView {
    /// A pass that has asked for nothing yet.
    pub open spec fn start(table: u8, oif: u32, no_v6: bool) -> Self {
        UpdateView {
            table,
            oif,
            no_v6,
            v4_added: 0,
            stage: UpdateStageView::Fetching { family: Family::V4, requested: false },
        }
    }

    /// The family whose turn it is, while the pass has not ended.
    pub open spec fn family(self) -> Option<Family> {
        match self.stage {
            UpdateStageView::Fetching { family, .. } => Some(family),
            UpdateStageView::Syncing { family, .. } => Some(family),
            _ => None,
        }
    }

    pub open spec fn wf(self) -> bool {
        &&& self.no_v6 ==> self.family() != Some(Family::V6)
        &&& match self.stage {
            UpdateStageView::Fetching { .. } => true,
            UpdateStageView::Syncing { family, pass } => {
                &&& pass.wf()
                &&& pass.family == family
                &&& pass.table == self.table
                &&& pass.stage != Stage::Done
                &&& !(pass.stage is Failed)
                &&& forall|i: int|
                    0 <= i < pass.desired.len() ==> {
                        &&& (#[trigger] pass.desired[i]).managed_by(family, self.table)
                        &&& pass.desired[i].oif == self.oif
                    }
            },
            UpdateStageView::Done(report) => report.v6 is None <==> self.no_v6,
            UpdateStageView::Failed(error) => self.no_v6 ==> error.family == Family::V4,
        }
    }

    /// The stage after the turn of `family` has ended with `count` routes
    /// added: the turn of IPv6 after IPv4 unless IPv6 is left alone, and else
    /// the end.
    pub open spec fn after_family(self, family: Family, count: u64) -> Self {
        match family {
            Family::V4 => if self.no_v6 {
                UpdateView {
                    v4_added: count,
                    stage: UpdateStageView::Done(Report { v4: count, v6: None }),
                    ..self
                }
            } else {
                UpdateView {
                    v4_added: count,
                    stage: UpdateStageView::Fetching { family: Family::V6, requested: false },
                    ..self
                }
            },
            Family::V6 => UpdateView {
                stage: UpdateStageView::Done(Report { v4: self.v4_added, v6: Some(count) }),
                ..self
            },
        }
    }

    /// The answer to the query for the routes of the family whose routes are
    /// being replaced, once it has arrived.
    pub open spec fn listing(self) -> Seq<RouteSpec> {
        match self.stage {
            UpdateStageView::Syncing { pass, .. } => pass.listing,
            _ => Seq::empty(),
        }
    }

    /// How the pass has ended, once it has.
    pub open spec fn outcome(self) -> Option<Result<Report, PassError>> {
        match self.stage {
            UpdateStageView::Done(report) => Some(Ok(report)),
            UpdateStageView::Failed(error) => Some(Err(error)),
            _ => None,
        }
    }

    /// What the pass answers when asked now.
    pub open spec fn poll_result(self) -> Poll<Result<Report, PassError>> {
        match self.stage {
            UpdateStageView::Fetching { family, requested } => if requested {
                Poll::Wait
            } else {
                Poll::Perform(Request::Fetch { family })
            },
            UpdateStageView::Syncing { pass, .. } => match pass.next_request() {
                Some(request) => Poll::Perform(request),
                None => Poll::Wait,
            },
            UpdateStageView::Done(report) => Poll::Finished(Ok(report)),
            UpdateStageView::Failed(error) => Poll::Finished(Err(error)),
        }
    }

    /// The pass after it was asked.
    pub open spec fn polled(self) -> Self {
        match self.stage {
            UpdateStageView::Fetching { family, .. } => UpdateView {
                stage: UpdateStageView::Fetching { family, requested: true },
                ..self
            },
            UpdateStageView::Syncing { family, pass } => UpdateView {
                stage: UpdateStageView::Syncing { family, pass: pass.polled() },
                ..self
            },
            _ => self,
        }
    }

    /// The pass after a reply. A reply that answers nothing the pass is
    /// waiting for changes nothing.
    pub open spec fn handled(self, reply: ReplyView) -> Self {
        match self.stage {
            UpdateStageView::Fetching { family, requested } => if !requested {
                self
            } else {
                match reply {
                    ReplyView::Fetched(text) => UpdateView {
                        stage: UpdateStageView::Syncing {
                            family,
                            pass: ReconcilerView::start(
                                family,
                                self.table,
                                desired_routes(family, self.table, self.oif, text),
                            ),
                        },
                        ..self
                    },
                    ReplyView::FetchFailed => UpdateView {
                        stage: UpdateStageView::Failed(PassError { family, phase: Phase::Fetch }),
                        ..self
                    },
                    _ => self,
                }
            },
            UpdateStageView::Syncing { family, pass } => {
                let next = pass.handled(reply);
                match next.stage {
                    Stage::Done => self.after_family(family, next.desired.len() as u64),
                    Stage::Failed(phase) => UpdateView {
                        stage: UpdateStageView::Failed(PassError { family, phase }),
                        ..self
                    },
                    _ => UpdateView {
                        stage: UpdateStageView::Syncing { family, pass: next },
                        ..self
                    },
                }
            },
            _ => self,
        }
    }

    /// The pass after one input.
    pub open spec fn step(self, input: Input) -> Self {
        match input {
            Input::Poll => self.polled(),
            Input::Reply(reply) => self.handled(reply),
        }
    }

    /// The pass after a sequence of inputs, taken in order.
    pub open spec fn run(self, inputs: Seq<Input>) -> Self
        decreases inputs.len(),
    {
        if inputs.len() == 0 {
            self
        } else {
            self.run(inputs.drop_last()).step(inputs.last())
        }
    }
}

enum UpdateStage {
    Fetching { family: Family, requested: bool },
    Syncing { family: Family, pass: Reconciler },
    Done(Report),
    Failed(PassError),
}

impl View for UpdateStage {
    type V = UpdateStageView;

    closed spec fn view(&self) -> UpdateStageView {
        match self {
            UpdateStage::Fetching { family, requested } => UpdateStageView::Fetching {
                family: *family,
                requested: *requested,
            },
            UpdateStage::Syncing { family, pass } => UpdateStageView::Syncing {
                family: *family,
                pass: pass@,
            },
            UpdateStage::Done(report) => UpdateStageView::Done(*report),
            UpdateStage::Failed(error) => UpdateStageView::Failed(*error),
        }
    }
}

/// One pass over both families.
pub struct Update {
    table: u8,
    oif: u32,
    no_v6: bool,
    v4_added: u64,
    stage: UpdateStage,
}

impl View for Update {
    type V = UpdateView;

    closed spec fn view(&self) -> UpdateView {
        UpdateView {
            table: self.table,
            oif: self.oif,
            no_v6: self.no_v6,
            v4_added: self.v4_added,
            stage: self.stage@,
        }
    }
}

/// Decodes the list of a family into the routes it asks for.
pub fn decode_routes(family: Family, table: u8, oif: u32, text: &str) -> (routes: Vec<RouteSpec>)
    ensures
        routes@ == desired_routes(family, table, oif, text@),
        forall|i: int|
            0 <= i < routes@.len() ==> {
                &&& (#[trigger] routes@[i]).managed_by(family, table)
                &&& routes@[i].oif == oif
            },
{
    let mut routes: Vec<RouteSpec> = Vec::new();
    match family {
        Family::V4 => {
            let nets = read_lines::<Ipv4Cidr>(text);
            let mut i: usize = 0;
            while i < nets.len()
                invariant
                    i <= nets.len(),
                    routes@.len() == i,
                    forall|k: int|
                        0 <= k < i ==> #[trigger] routes@[k] == nets@[k].route(table, oif),
                decreases nets.len() - i,
            {
                routes.push(nets[i].to_route(table, oif));
                i += 1;
            }
            assert(routes@ =~= nets@.map_values(|net: Ipv4Cidr| net.route(table, oif)));
        },
        Family::V6 => {
            let nets = read_lines::<Ipv6Cidr>(text);
            let mut i: usize = 0;
            while i < nets.len()
                invariant
                    i <= nets.len(),
                    routes@.len() == i,
                    forall|k: int|
                        0 <= k < i ==> #[trigger] routes@[k] == nets@[k].route(table, oif),
                decreases nets.len() - i,
            {
                routes.push(nets[i].to_route(table, oif));
                i += 1;
            }
            assert(routes@ =~= nets@.map_values(|net: Ipv6Cidr| net.route(table, oif)));
        },
    }
    routes
}

impl Update {
    #[verifier::type_invariant]
    spec fn inv(self) -> bool {
        self@.wf()
    }

    /// A pass that fills table `table` with routes out of interface `oif`.
    pub fn new(table: u8, oif: u32, no_v6: bool) -> (r: Self)
        ensures
            r@ == UpdateView::start(table, oif, no_v6),
            r@.wf(),
    {
        Update {
            table,
            oif,
            no_v6,
            v4_added: 0,
            stage: UpdateStage::Fetching { family: Family::V4, requested: false },
        }
    }

    /// Says what to do next: start a request, wait for a reply, or stop with
    /// the counts of the pass or the failure that ended it. A request that
    /// is handed out counts as started.
    pub fn poll(self) -> (r: (Self, Poll<Result<Report, PassError>>))
        ensures
            self@.wf(),
            r.0@.wf(),
            r.0@ == self@.polled(),
            r.1 == self@.poll_result(),
            r.1 matches Poll::Perform(Request::DeleteRoute { index, route }) ==> index
                < self@.listing().len() && self@.listing()[index as int] == route,
    {
        proof {
            use_type_invariant(&self);
        }
        let Update { table, oif, no_v6, v4_added, stage } = self;
        match stage {
            UpdateStage::Fetching { family, requested } => {
                let poll = if requested {
                    Poll::Wait
                } else {
                    Poll::Perform(Request::Fetch { family })
                };
                let stage = UpdateStage::Fetching { family, requested: true };
                (Update { table, oif, no_v6, v4_added, stage }, poll)
            },
            UpdateStage::Syncing { family, pass } => {
                let (pass, polled) = pass.poll();
                let poll = match polled {
                    Poll::Perform(request) => Poll::Perform(request),
                    _ => Poll::Wait,
                };
                let stage = UpdateStage::Syncing { family, pass };
                (Update { table, oif, no_v6, v4_added, stage }, poll)
            },
            UpdateStage::Done(report) => {
                let stage = UpdateStage::Done(report);
                (Update { table, oif, no_v6, v4_added, stage }, Poll::Finished(Ok(report)))
            },
            UpdateStage::Failed(error) => {
                let stage = UpdateStage::Failed(error);
                (Update { table, oif, no_v6, v4_added, stage }, Poll::Finished(Err(error)))
            },
        }
    }

    /// How the pass has ended, once it has.
    pub fn outcome(&self) -> (r: Option<Result<Report, PassError>>)
        ensures
            self@.wf(),
            r == self@.outcome(),
    {
        proof {
            use_type_invariant(self);
        }
        match &self.stage {
            UpdateStage::Done(report) => Some(Ok(*report)),
            UpdateStage::Failed(error) => Some(Err(*error)),
            _ => None,
        }
    }

    /// Takes in the outcome of a request that was handed out.
    pub fn handle(self, reply: Reply) -> (r: Self)
        ensures
            self@.wf(),
            r@.wf(),
            r@ == self@.handled(reply@),
    {
        proof {
            use_type_invariant(&self);
        }
        let Update { table, oif, no_v6, v4_added, stage } = self;
        match stage {
            UpdateStage::Fetching { family, requested } => {
                if !requested {
                    let stage = UpdateStage::Fetching { family, requested };
                    Update { table, oif, no_v6, v4_added, stage }
                } else {
                    match reply {
                        Reply::Fetched(text) => {
                            let desired = decode_routes(family, table, oif, text.as_str());
                            let pass = Reconciler::new(family, table, desired);
                            let stage = UpdateStage::Syncing { family, pass };
                            Update { table, oif, no_v6, v4_added, stage }
                        },
                        Reply::FetchFailed => {
                            let error = PassError { family, phase: Phase::Fetch };
                            let stage = UpdateStage::Failed(error);
                            Update { table, oif, no_v6, v4_added, stage }
                        },
                        _ => {
                            let stage = UpdateStage::Fetching { family, requested };
                            Update { table, oif, no_v6, v4_added, stage }
                        },
                    }
                }
            },
            UpdateStage::Syncing { family, pass } => {
                let pass = pass.handle(reply);
                match pass.stage() {
                    Stage::Done => {
                        let count = pass.added();
                        match family {
                            Family::V4 => {
                                let stage = if no_v6 {
                                    UpdateStage::Done(Report { v4: count, v6: None })
                                } else {
                                    UpdateStage::Fetching { family: Family::V6, requested: false }
                                };
                                Update { table, oif, no_v6, v4_added: count, stage }
                            },
                            Family::V6 => {
                                let stage = UpdateStage::Done(
                                    Report { v4: v4_added, v6: Some(count) },
                                );
                                Update { table, oif, no_v6, v4_added, stage }
                            },
                        }
                    },
                    Stage::Failed(phase) => {
                        let error = PassError { family, phase };
                        Update { table, oif, no_v6, v4_added, stage: UpdateStage::Failed(error) }
                    },
                    _ => {
                        let stage = UpdateStage::Syncing { family, pass };
                        Update { table, oif, no_v6, v4_added, stage }
                    },
                }
            },
            UpdateStage::Done(report) => {
                Update { table, oif, no_v6, v4_added, stage: UpdateStage::Done(report) }
            },
            UpdateStage::Failed(error) => {
                Update { table, oif, no_v6, v4_added, stage: UpdateStage::Failed(error) }
            },
        }
    }
}

/// Every input keeps a pass well formed.
pub proof fn lemma_update_step_wf(s: UpdateView, input: Input)
    requires
        s.wf(),
    ensures
        s.step(input).wf(),
{
    match s.stage {
        UpdateStageView::Syncing { family, pass } => {
            lemma_step_wf(pass, input);
        },
        UpdateStageView::Fetching { family, requested } => {
            if let Input::Reply(ReplyView::Fetched(text)) = input {
                lemma_desired_routes(family, s.table, s.oif, text);
                lemma_start_wf(family, s.table, desired_routes(family, s.table, s.oif, text));
            }
        },
        _ => {},
    }
}

/// The routes that a list asks for live in the managed table of the list's
/// family and leave through the chosen interface.
pub proof fn lemma_desired_routes(family: Family, table: u8, oif: u32, text: Seq<char>)
    ensures
        forall|i: int|
            0 <= i < desired_routes(family, table, oif, text).len() ==> {
                &&& (#[trigger] desired_routes(family, table, oif, text)[i]).managed_by(
                    family,
                    table,
                )
                &&& desired_routes(family, table, oif, text)[i].oif == oif
            },
{
}

/// Every pass that can be reached from a well-formed one is well formed.
pub proof fn lemma_update_run_wf(s: UpdateView, inputs: Seq<Input>)
    requires
        s.wf(),
    ensures
        s.run(inputs).wf(),
    decreases inputs.len(),
{
    if inputs.len() > 0 {
        lemma_update_run_wf(s, inputs.drop_last());
        lemma_update_step_wf(s.run(inputs.drop_last()), inputs.last());
    }
}

/// What a pass may ask for, whatever inputs it has taken in: a fetch or a
/// query only for the family whose turn it is; the deletion only of a route
/// of the managed table; the addition only of a route in the managed table
/// of that family, out of the chosen interface. And while a family's routes
/// are being replaced, no more deletes and no more adds are in flight than
/// the limit allows.
pub proof fn lemma_update_requests(table: u8, oif: u32, no_v6: bool, inputs: Seq<Input>)
    ensures
        ({
            let s = UpdateView::start(table, oif, no_v6).run(inputs);
            &&& s.poll_result() matches Poll::Perform(request) ==> match request {
                Request::Fetch { family } => s.family() == Some(family),
                Request::ListRoutes { family } => s.family() == Some(family),
                Request::DeleteRoute { route, .. } => route.table == table,
                Request::AddRoute { route } => {
                    &&& s.family() == Some(route.family)
                    &&& route.table == table
                    &&& route.oif == oif
                },
            }
            &&& s.stage matches UpdateStageView::Syncing { pass, .. } ==> {
                &&& pass.deletes.in_flight() <= MAX_IN_FLIGHT
                &&& pass.adds.in_flight() <= MAX_IN_FLIGHT
            }
        }),
{
    let start = UpdateView::start(table, oif, no_v6);
    lemma_update_run_wf(start, inputs);
    lemma_update_run_keeps_config(start, inputs);
}

/// No input changes the table, the interface or the choice of families.
pub proof fn lemma_update_run_keeps_config(s: UpdateView, inputs: Seq<Input>)
    ensures
        s.run(inputs).table == s.table,
        s.run(inputs).oif == s.oif,
        s.run(inputs).no_v6 == s.no_v6,
    decreases inputs.len(),
{
    if inputs.len() > 0 {
        lemma_update_run_keeps_config(s, inputs.drop_last());
    }
}

/// With IPv6 left alone, a pass never takes the turn of IPv6: it asks for no
/// fetch and no query for it, adds no route of it, and reports the count of
/// IPv4 alone.
pub proof fn lemma_no_v6(table: u8, oif: u32, inputs: Seq<Input>)
    ensures
        ({
            let s = UpdateView::start(table, oif, true).run(inputs);
            &&& s.family() != Some(Family::V6)
            &&& s.poll_result() matches Poll::Perform(request) ==> match request {
                Request::Fetch { family } => family == Family::V4,
                Request::ListRoutes { family } => family == Family::V4,
                Request::DeleteRoute { .. } => true,
                Request::AddRoute { route } => route.family == Family::V4,
            }
            &&& s.poll_result() matches Poll::Finished(Ok(report)) ==> report.v6 is None
            &&& s.poll_result() matches Poll::Finished(Err(error)) ==> error.family == Family::V4
        }),
{
    let start = UpdateView::start(table, oif, true);
    lemma_update_run_wf(start, inputs);
    lemma_update_run_keeps_config(start, inputs);
    lemma_update_requests(table, oif, true, inputs);
}

/// Fail-fast: once a pass has failed, no input makes it ask for anything,
/// and it keeps reporting the failure.
pub proof fn lemma_failed_update_stays_failed(s: UpdateView, error: PassError, inputs: Seq<Input>)
    requires
        s.stage == UpdateStageView::Failed(error),
    ensures
        s.run(inputs) == s,
        s.run(inputs).poll_result() == Poll::Finished(Err::<Report, PassError>(error)),
    decreases inputs.len(),
{
    if inputs.len() > 0 {
        lemma_failed_update_stays_failed(s, error, inputs.drop_last());
    }
}

/// A failure of the family's pass ends the pass over both families at once,
/// with the family and the phase of the failure.
pub proof fn lemma_failure_ends_update(s: UpdateView, reply: ReplyView)
    requires
        s.wf(),
    ensures
        s.stage matches UpdateStageView::Syncing { family, pass } ==> (pass.handled(
            reply,
        ).stage matches Stage::Failed(phase) ==> s.handled(reply).stage == UpdateStageView::Failed(
            PassError { family, phase },
        )),
        s.stage matches UpdateStageView::Fetching { family, requested: true } ==> s.handled(
            ReplyView::FetchFailed,
        ).stage == UpdateStageView::Failed(PassError { family, phase: Phase::Fetch }),
{
}

} // verus!
