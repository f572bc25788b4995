//! The run of the tool from start to exit: the checks before anything is
//! touched, the first pass, and in daemon mode the readiness signal and the
//! scheduled passes.

use crate::cli::{Args, ConfigError};
use crate::periodic::{Activity, Command, Event, Scheduler, SchedulerView};
use crate::request::{Poll, Reply, ReplyView, Request};
use crate::route::{Family, RouteSpec};
use crate::reconcile::Input;
use crate::update::{lemma_update_step_wf, PassError, Report, Update, UpdateView};
use crate::url::{parse_url, parse_url_result, Url, UrlError};
use vstd::prelude::*;

verus! {

/// The steps that come before the first pass, in their order.
#[derive(Clone, Copy, Debug, PartialEq, Eq, Structural)]
pub enum Setup {
    /// Find out whether the process may change routing tables.
    Privilege,
    /// Open the connection to the kernel.
    Connect,
    /// Look up the output interface by its name.
    Interface,
    /// Build the HTTP client.
    Client,
}

/// The steps of the readiness signal, in their order.
#[derive(Clone, Copy, Debug, PartialEq, Eq, Structural)]
pub enum Signal {
    /// Find out whether a service manager supervises the process.
    Detect,
    /// Send the signal to the service manager.
    Send,
}

/// Seconds that a fetch may take in all.
pub const FETCH_TIMEOUT: u64 = 10;

/// Seconds that a fetch may take to connect.
pub const CONNECT_TIMEOUT: u64 = 10;

/// How the HTTP client is to be built.
#[derive(Clone, Copy, Debug, PartialEq, Eq, Structural)]
pub struct ClientSettings {
    /// Seconds that a request may take in all.
    pub timeout: u64,
    /// Seconds that a request may take to connect.
    pub connect_timeout: u64,
    /// Whether compressed transport is accepted.
    pub gzip: bool,
}

/// Outside work that the run asks for.
#[derive(Clone, Copy, Debug, PartialEq, Eq, Structural)]
pub enum Task {
    CheckPrivilege,
    Connect,
    ResolveInterface,
    BuildClient(ClientSettings),
    /// Work of the pass in flight.
    Pass(Request),
    /// Tell the user how many routes a pass added.
    Report(Report),
    /// Find out whether a service manager supervises the process.
    DetectServiceManager,
    /// Tell the service manager that the first pass is done.
    NotifyReady,
}

/// What the driver reports back.
#[derive(Debug)]
pub enum Outcome {
    /// Whether the process holds the privilege to change routing tables.
    Privilege { permitted: bool },
    /// The privileges of the process could not be read.
    PrivilegeUnknown,
    Connected,
    ConnectFailed,
    /// The index of the interface, or none where no interface has the name.
    Interface(Option<u32>),
    InterfaceFailed,
    ClientBuilt,
    ClientFailed,
    /// The outcome of work of the pass in flight.
    Pass(Reply),
    /// Whether a service manager supervises the process.
    ServiceManager { present: bool },
    Notified { ok: bool },
    /// A tick of the scheduler has fallen due.
    Tick,
}

/// An outcome as the contracts see it.
pub enum OutcomeView {
    Privilege { permitted: bool },
    PrivilegeUnknown,
    Connected,
    ConnectFailed,
    Interface(Option<u32>),
    InterfaceFailed,
    ClientBuilt,
    ClientFailed,
    Pass(ReplyView),
    ServiceManager { present: bool },
    Notified { ok: bool },
    Tick,
}

impl View for Outcome {
    type V = OutcomeView;

    open spec fn view(&self) -> OutcomeView {
        match self {
            Outcome::Privilege { permitted } => OutcomeView::Privilege { permitted: *permitted },
            Outcome::PrivilegeUnknown => OutcomeView::PrivilegeUnknown,
            Outcome::Connected => OutcomeView::Connected,
            Outcome::ConnectFailed => OutcomeView::ConnectFailed,
            Outcome::Interface(index) => OutcomeView::Interface(*index),
            Outcome::InterfaceFailed => OutcomeView::InterfaceFailed,
            Outcome::ClientBuilt => OutcomeView::ClientBuilt,
            Outcome::ClientFailed => OutcomeView::ClientFailed,
            Outcome::Pass(reply) => OutcomeView::Pass(reply@),
            Outcome::ServiceManager { present } => OutcomeView::ServiceManager {
                present: *present,
            },
            Outcome::Notified { ok } => OutcomeView::Notified { ok: *ok },
            Outcome::Tick => OutcomeView::Tick,
        }
    }
}

/// Why the run ends with a failure.
#[derive(Clone, Copy, Debug, PartialEq, Eq, Structural)]
pub enum Fatal {
    Config(ConfigError),
    /// The privileges of the process could not be read.
    Capabilities,
    NotEnoughPrivilege,
    /// The connection to the kernel could not be opened.
    Netlink,
    /// The lookup of the interface failed.
    InterfaceQuery,
    NoSuchInterface,
    HttpClient,
    /// The URL of this family's list is none.
    Url(Family),
    Pass(PassError),
    /// The readiness signal could not be sent.
    Notify,
}

/// What the run wants next.
#[derive(Clone, Copy, Debug, PartialEq, Eq)]
pub enum Step {
    /// Start this work, then ask again.
    Do(Task),
    /// Nothing can start before an outcome arrives.
    Wait,
    /// The run is over: leave with success or with this failure.
    Exit(Result<(), Fatal>),
}

/// What the run was configured with and has found out, as the contracts see it.
pub struct SettingsView {
    pub table: u8,
    pub no_v6: bool,
    pub daemon: bool,
    /// Seconds between two scheduled passes.
    pub interval: u64,
    pub interface: Seq<char>,
    /// The URLs as they were configured.
    pub v4_text: Seq<char>,
    pub v6_text: Seq<char>,
    /// Whether the privilege to change routing tables was confirmed.
    pub privileged: bool,
    /// The index of the output interface, once it was looked up.
    pub oif: u32,
    /// The URLs as they were read, once they were.
    pub v4_url: Option<Seq<char>>,
    pub v6_url: Option<Seq<char>>,
    /// Why a URL could not be read, once one could not.
    pub url_error: Option<Seq<char>>,
}

/// Where the run stands, as the contracts see it.
#[allow(inconsistent_fields)]
pub enum ProgramStageView {
    /// A step before the first pass.
    Setup { step: Setup, asked: bool },
    /// A pass is in flight: the first one, or one that the scheduler started.
    Pass { update: UpdateView, scheduler: Option<SchedulerView> },
    /// A pass has ended well and its counts are to be reported.
    Reporting { report: Report, scheduler: Option<SchedulerView> },
    /// Daemon mode, after the first pass: the readiness signal.
    Notify { step: Signal, asked: bool },
    /// Daemon mode, between two passes.
    Idle { scheduler: SchedulerView },
    Exited(Result<(), Fatal>),
}

/// The run as the contracts see it.
pub struct ProgramView {
    pub settings: SettingsView,
    pub stage: ProgramStageView,
}

impl ProgramView {
    /// A run with this configuration that has asked for nothing yet. A
    /// malformed interval ends it before it begins.
    pub open spec fn start(args: Args) -> Self {
        let settings = SettingsView {
            table: args.table,
            no_v6: args.no_v6,
            daemon: args.daemon,
            interval: match args.interval_seconds() {
                Ok(seconds) => seconds as u64,
                Err(_) => 0,
            },
            interface: args.interface@,
            v4_text: args.v4_url@,
            v6_text: args.v6_url@,
            privileged: false,
            oif: 0,
            v4_url: None,
            v6_url: None,
            url_error: None,
        };
        ProgramView {
            settings,
            stage: match args.interval_seconds() {
                Ok(_) => ProgramStageView::Setup { step: Setup::Privilege, asked: false },
                Err(e) => ProgramStageView::Exited(Err(Fatal::Config(e))),
            },
        }
    }

    pub open spec fn wf(self) -> bool {
        match self.stage {
            ProgramStageView::Setup { step, .. } => step != Setup::Privilege
                ==> self.settings.privileged,
            ProgramStageView::Pass { update, scheduler } => {
                &&& self.ready()
                &&& update.wf()
                &&& update.table == self.settings.table
                &&& update.oif == self.settings.oif
                &&& update.no_v6 == self.settings.no_v6
                &&& update.outcome() is None
                &&& self.scheduler_fits(scheduler, Activity::Running)
            },
            ProgramStageView::Reporting { scheduler, .. } => {
                &&& self.ready()
                &&& self.scheduler_fits(scheduler, Activity::Running)
            },
            ProgramStageView::Notify { .. } => self.ready() && self.settings.daemon,
            ProgramStageView::Idle { scheduler } => {
                &&& self.ready()
                &&& self.scheduler_fits(Some(scheduler), Activity::Idle)
            },
            ProgramStageView::Exited(_) => true,
        }
    }

    /// Whether every step before the first pass is behind: the privilege was
    /// confirmed and both URLs were read.
    pub open spec fn ready(self) -> bool {
        &&& self.settings.privileged
        &&& self.settings.v4_url is Some
        &&& self.settings.v6_url is Some
    }

    /// Whether the scheduler, where there is one, is the one of this run in
    /// daemon mode and is doing `activity`.
    pub open spec fn scheduler_fits(
        self,
        scheduler: Option<SchedulerView>,
        activity: Activity,
    ) -> bool {
        scheduler matches Some(s) ==> {
            &&& self.settings.daemon
            &&& s.wf()
            &&& s.interval == self.settings.interval
            &&& s.activity == activity
        }
    }

    /// The task of a step before the first pass.
    pub open spec fn setup_task(step: Setup) -> Task {
        match step {
            Setup::Privilege => Task::CheckPrivilege,
            Setup::Connect => Task::Connect,
            Setup::Interface => Task::ResolveInterface,
            Setup::Client => Task::BuildClient(Self::client_settings()),
        }
    }

    /// The HTTP client that the lists are fetched with: ten seconds to
    /// connect, ten seconds in all, compressed transport accepted.
    pub open spec fn client_settings() -> ClientSettings {
        ClientSettings { timeout: FETCH_TIMEOUT, connect_timeout: CONNECT_TIMEOUT, gzip: true }
    }

    /// A fresh pass with the settings of this run.
    pub open spec fn fresh_pass(self) -> UpdateView {
        UpdateView::start(self.settings.table, self.settings.oif, self.settings.no_v6)
    }

    /// The run at the given stage.
    pub open spec fn at(self, stage: ProgramStageView) -> Self {
        ProgramView { stage, ..self }
    }

    /// The run with its scheduler started: the first tick is due one interval
    /// from now.
    pub open spec fn scheduling(self) -> Self {
        self.at(ProgramStageView::Idle { scheduler: SchedulerView::start(self.settings.interval) })
    }

    /// The run ended with the given failure.
    pub open spec fn failed(self, fatal: Fatal) -> Self {
        self.at(ProgramStageView::Exited(Err(fatal)))
    }

    /// The second, counted from the end of the first pass, at which the next
    /// tick of the scheduler falls due, while there is a scheduler.
    pub open spec fn next_tick_due(self) -> Option<u64> {
        match self.stage {
            ProgramStageView::Pass { scheduler: Some(s), .. } => Some(s.next_due()),
            ProgramStageView::Reporting { scheduler: Some(s), .. } => Some(s.next_due()),
            ProgramStageView::Idle { scheduler } => Some(scheduler.next_due()),
            _ => None,
        }
    }

    /// The answer to the last query of the pass in flight, once it has arrived.
    pub open spec fn listing(self) -> Seq<RouteSpec> {
        match self.stage {
            ProgramStageView::Pass { update, .. } => update.listing(),
            _ => Seq::empty(),
        }
    }

    /// What the run answers when asked now.
    pub open spec fn poll_result(self) -> Step {
        match self.stage {
            ProgramStageView::Setup { step, asked } => if asked {
                Step::Wait
            } else {
                Step::Do(Self::setup_task(step))
            },
            ProgramStageView::Pass { update, .. } => match update.poll_result() {
                Poll::Perform(request) => Step::Do(Task::Pass(request)),
                _ => Step::Wait,
            },
            ProgramStageView::Reporting { report, .. } => Step::Do(Task::Report(report)),
            ProgramStageView::Notify { step, asked } => if asked {
                Step::Wait
            } else {
                Step::Do(
                    match step {
                        Signal::Detect => Task::DetectServiceManager,
                        Signal::Send => Task::NotifyReady,
                    },
                )
            },
            ProgramStageView::Idle { .. } => Step::Wait,
            ProgramStageView::Exited(result) => Step::Exit(result),
        }
    }

    /// The stage that follows a pass that ended well, once its counts are
    /// reported: after the first pass the readiness signal in daemon mode and
    /// the end otherwise; after a scheduled pass what the scheduler says.
    pub open spec fn after_report(self, scheduler: Option<SchedulerView>) -> ProgramStageView {
        match scheduler {
            None => if self.settings.daemon {
                ProgramStageView::Notify { step: Signal::Detect, asked: false }
            } else {
                ProgramStageView::Exited(Ok(()))
            },
            Some(s) => {
                let event = Event::PassFinished { ok: true };
                if s.command(event) == Command::StartPass {
                    ProgramStageView::Pass {
                        update: self.fresh_pass(),
                        scheduler: Some(s.next(event)),
                    }
                } else {
                    ProgramStageView::Idle { scheduler: s.next(event) }
                }
            },
        }
    }

    /// The run after it was asked.
    pub open spec fn polled(self) -> Self {
        match self.stage {
            ProgramStageView::Setup { step, .. } => self.at(
                ProgramStageView::Setup { step, asked: true },
            ),
            ProgramStageView::Pass { update, scheduler } => self.at(
                ProgramStageView::Pass { update: update.polled(), scheduler },
            ),
            ProgramStageView::Reporting { scheduler, .. } => self.at(self.after_report(scheduler)),
            ProgramStageView::Notify { step, .. } => self.at(
                ProgramStageView::Notify { step, asked: true },
            ),
            _ => self,
        }
    }

    /// The run after the URLs were read, which is when the HTTP client
    /// stands: the first pass where both are URLs, and else the end.
    pub open spec fn after_client(self) -> Self {
        match parse_url_result(self.settings.v4_text) {
            Err(reason) => ProgramView {
                settings: SettingsView { url_error: Some(reason), ..self.settings },
                stage: ProgramStageView::Exited(Err(Fatal::Url(Family::V4))),
            },
            Ok(v4) => match parse_url_result(self.settings.v6_text) {
                Err(reason) => ProgramView {
                    settings: SettingsView {
                        v4_url: Some(v4),
                        url_error: Some(reason),
                        ..self.settings
                    },
                    stage: ProgramStageView::Exited(Err(Fatal::Url(Family::V6))),
                },
                Ok(v6) => ProgramView {
                    settings: SettingsView {
                        v4_url: Some(v4),
                        v6_url: Some(v6),
                        ..self.settings
                    },
                    stage: ProgramStageView::Pass { update: self.fresh_pass(), scheduler: None },
                },
            },
        }
    }

    /// The run after an outcome of a step before the first pass.
    pub open spec fn after_setup(self, step: Setup, outcome: OutcomeView) -> Self {
        match (step, outcome) {
            (Setup::Privilege, OutcomeView::Privilege { permitted }) => if permitted {
                ProgramView {
                    settings: SettingsView { privileged: true, ..self.settings },
                    stage: ProgramStageView::Setup { step: Setup::Connect, asked: false },
                }
            } else {
                self.failed(Fatal::NotEnoughPrivilege)
            },
            (Setup::Privilege, OutcomeView::PrivilegeUnknown) => self.failed(Fatal::Capabilities),
            (Setup::Connect, OutcomeView::Connected) => self.at(
                ProgramStageView::Setup { step: Setup::Interface, asked: false },
            ),
            (Setup::Connect, OutcomeView::ConnectFailed) => self.failed(Fatal::Netlink),
            (Setup::Interface, OutcomeView::Interface(Some(index))) => ProgramView {
                settings: SettingsView { oif: index, ..self.settings },
                stage: ProgramStageView::Setup { step: Setup::Client, asked: false },
            },
            (Setup::Interface, OutcomeView::Interface(None)) => self.failed(
                Fatal::NoSuchInterface,
            ),
            (Setup::Interface, OutcomeView::InterfaceFailed) => self.failed(Fatal::InterfaceQuery),
            (Setup::Client, OutcomeView::ClientBuilt) => self.after_client(),
            (Setup::Client, OutcomeView::ClientFailed) => self.failed(Fatal::HttpClient),
            _ => self,
        }
    }

    /// The run after an outcome. An outcome that answers nothing the run is
    /// waiting for changes nothing.
    pub open spec fn handled(self, outcome: OutcomeView) -> Self {
        match self.stage {
            ProgramStageView::Setup { step, asked } => if asked {
                self.after_setup(step, outcome)
            } else {
                self
            },
            ProgramStageView::Pass { update, scheduler } => match outcome {
                OutcomeView::Pass(reply) => {
                    let next = update.handled(reply);
                    match next.outcome() {
                        None => self.at(ProgramStageView::Pass { update: next, scheduler }),
                        Some(Ok(report)) => self.at(
                            ProgramStageView::Reporting { report, scheduler },
                        ),
                        Some(Err(error)) => self.failed(Fatal::Pass(error)),
                    }
                },
                OutcomeView::Tick => match scheduler {
                    Some(s) => self.at(
                        ProgramStageView::Pass { update, scheduler: Some(s.next(Event::Tick)) },
                    ),
                    None => self,
                },
                _ => self,
            },
            ProgramStageView::Reporting { report, scheduler } => match (outcome, scheduler) {
                (OutcomeView::Tick, Some(s)) => self.at(
                    ProgramStageView::Reporting { report, scheduler: Some(s.next(Event::Tick)) },
                ),
                _ => self,
            },
            ProgramStageView::Notify { step, asked } => if !asked {
                self
            } else {
                match (step, outcome) {
                    (Signal::Detect, OutcomeView::ServiceManager { present }) => if present {
                        self.at(ProgramStageView::Notify { step: Signal::Send, asked: false })
                    } else {
                        self.scheduling()
                    },
                    (Signal::Send, OutcomeView::Notified { ok }) => if ok {
                        self.scheduling()
                    } else {
                        self.failed(Fatal::Notify)
                    },
                    _ => self,
                }
            },
            ProgramStageView::Idle { scheduler } => match outcome {
                OutcomeView::Tick => self.at(
                    ProgramStageView::Pass {
                        update: self.fresh_pass(),
                        scheduler: Some(scheduler.next(Event::Tick)),
                    },
                ),
                _ => self,
            },
            ProgramStageView::Exited(_) => self,
        }
    }
}

struct Settings {
    table: u8,
    no_v6: bool,
    daemon: bool,
    interval: u64,
    interface: String,
    v4_text: String,
    v6_text: String,
    privileged: bool,
    oif: u32,
    v4_url: Option<Url>,
    v6_url: Option<Url>,
    url_error: Option<UrlError>,
}

spec fn url_view(url: Option<Url>) -> Option<Seq<char>> {
    match url {
        Some(url) => Some(url@),
        None => None,
    }
}

spec fn reason_view(error: Option<UrlError>) -> Option<Seq<char>> {
    match error {
        Some(error) => Some(error.reason@),
        None => None,
    }
}

/// The spelling of a URL, where there is one.
pub open spec fn url_text(url: Option<&Url>) -> Option<Seq<char>> {
    match url {
        Some(url) => Some(url@),
        None => None,
    }
}

/// The reason of an error, where there is one.
pub open spec fn reason_text(error: Option<&UrlError>) -> Option<Seq<char>> {
    match error {
        Some(error) => Some(error.reason@),
        None => None,
    }
}

spec fn scheduler_view(scheduler: Option<Scheduler>) -> Option<SchedulerView> {
    match scheduler {
        Some(scheduler) => Some(scheduler@),
        None => None,
    }
}

impl View for Settings {
    type V = SettingsView;

    closed spec fn view(&self) -> SettingsView {
        SettingsView {
            table: self.table,
            no_v6: self.no_v6,
            daemon: self.daemon,
            interval: self.interval,
            interface: self.interface@,
            v4_text: self.v4_text@,
            v6_text: self.v6_text@,
            privileged: self.privileged,
            oif: self.oif,
            v4_url: url_view(self.v4_url),
            v6_url: url_view(self.v6_url),
            url_error: reason_view(self.url_error),
        }
    }
}

#[allow(inconsistent_fields)]
enum ProgramStage {
    Setup { step: Setup, asked: bool },
    Pass { update: Update, scheduler: Option<Scheduler> },
    Reporting { report: Report, scheduler: Option<Scheduler> },
    Notify { step: Signal, asked: bool },
    Idle { scheduler: Scheduler },
    Exited(Result<(), Fatal>),
}

impl View for ProgramStage {
    type V = ProgramStageView;

    closed spec fn view(&self) -> ProgramStageView {
        match self {
            ProgramStage::Setup { step, asked } => ProgramStageView::Setup {
                step: *step,
                asked: *asked,
            },
            ProgramStage::Pass { update, scheduler } => ProgramStageView::Pass {
                update: update@,
                scheduler: scheduler_view(*scheduler),
            },
            ProgramStage::Reporting { report, scheduler } => ProgramStageView::Reporting {
                report: *report,
                scheduler: scheduler_view(*scheduler),
            },
            ProgramStage::Notify { step, asked } => ProgramStageView::Notify {
                step: *step,
                asked: *asked,
            },
            ProgramStage::Idle { scheduler } => ProgramStageView::Idle { scheduler: scheduler@ },
            ProgramStage::Exited(result) => ProgramStageView::Exited(*result),
        }
    }
}

/// The run of the tool.
pub struct Program {
    settings: Settings,
    stage: ProgramStage,
}

impl View for Program {
    type V = ProgramView;

    closed spec fn view(&self) -> ProgramView {
        ProgramView { settings: self.settings@, stage: self.stage@ }
    }
}

impl Program {
    #[verifier::type_invariant]
    spec fn inv(self) -> bool {
        self@.wf()
    }

    /// A run with the given configuration.
    pub fn new(args: Args) -> (r: Self)
        ensures
            r@ == ProgramView::start(args),
            r@.wf(),
    {
        let checked = args.update_interval();
        let Args { v4_url, v6_url, no_v6, daemon, interval: _, interface, table } = args;
        let settings = Settings {
            table,
            no_v6,
            daemon,
            interval: match checked {
                Ok(seconds) => seconds,
                Err(_) => 0,
            },
            interface,
            v4_text: v4_url,
            v6_text: v6_url,
            privileged: false,
            oif: 0,
            v4_url: None,
            v6_url: None,
            url_error: None,
        };
        let stage = match checked {
            Ok(_) => ProgramStage::Setup { step: Setup::Privilege, asked: false },
            Err(e) => ProgramStage::Exited(Err(Fatal::Config(e))),
        };
        Program { settings, stage }
    }

    /// Says what to do next: start a task, wait for an outcome, or leave. A
    /// task that is handed out counts as started.
    pub fn poll(self) -> (r: (Self, Step))
        ensures
            self@.wf(),
            r.0@.wf(),
            r.0@ == self@.polled(),
            r.1 == self@.poll_result(),
            r.1 matches Step::Do(Task::Pass(Request::DeleteRoute { index, route })) ==> index
                < self@.listing().len() && self@.listing()[index as int] == route,
    {
        proof {
            use_type_invariant(&self);
        }
        let Program { settings, stage } = self;
        match stage {
            ProgramStage::Setup { step, asked } => {
                let step_now = if asked {
                    Step::Wait
                } else {
                    Step::Do(
                        match step {
                            Setup::Privilege => Task::CheckPrivilege,
                            Setup::Connect => Task::Connect,
                            Setup::Interface => Task::ResolveInterface,
                            Setup::Client => Task::BuildClient(
                                ClientSettings {
                                    timeout: FETCH_TIMEOUT,
                                    connect_timeout: CONNECT_TIMEOUT,
                                    gzip: true,
                                },
                            ),
                        },
                    )
                };
                (Program { settings, stage: ProgramStage::Setup { step, asked: true } }, step_now)
            },
            ProgramStage::Pass { update, scheduler } => {
                let (update, polled) = update.poll();
                let step_now = match polled {
                    Poll::Perform(request) => Step::Do(Task::Pass(request)),
                    _ => Step::Wait,
                };
                (Program { settings, stage: ProgramStage::Pass { update, scheduler } }, step_now)
            },
            ProgramStage::Reporting { report, scheduler } => {
                let stage = match scheduler {
                    None => if settings.daemon {
                        ProgramStage::Notify { step: Signal::Detect, asked: false }
                    } else {
                        ProgramStage::Exited(Ok(()))
                    },
                    Some(scheduler) => {
                        let (scheduler, command) = scheduler.on_event(
                            Event::PassFinished { ok: true },
                        );
                        match command {
                            Command::StartPass => {
                                let update = Update::new(
                                    settings.table,
                                    settings.oif,
                                    settings.no_v6,
                                );
                                ProgramStage::Pass { update, scheduler: Some(scheduler) }
                            },
                            _ => ProgramStage::Idle { scheduler },
                        }
                    },
                };
                (Program { settings, stage }, Step::Do(Task::Report(report)))
            },
            ProgramStage::Notify { step, asked } => {
                let step_now = if asked {
                    Step::Wait
                } else {
                    Step::Do(
                        match step {
                            Signal::Detect => Task::DetectServiceManager,
                            Signal::Send => Task::NotifyReady,
                        },
                    )
                };
                (Program { settings, stage: ProgramStage::Notify { step, asked: true } }, step_now)
            },
            ProgramStage::Idle { scheduler } => (
                Program { settings, stage: ProgramStage::Idle { scheduler } },
                Step::Wait,
            ),
            ProgramStage::Exited(result) => (
                Program { settings, stage: ProgramStage::Exited(result) },
                Step::Exit(result),
            ),
        }
    }

    /// Takes in the outcome of a task that was handed out, or a tick.
    pub fn handle(self, outcome: Outcome) -> (r: Self)
        ensures
            self@.wf(),
            r@.wf(),
            r@ == self@.handled(outcome@),
    {
        proof {
            use_type_invariant(&self);
        }
        let Program { settings, stage } = self;
        match stage {
            ProgramStage::Setup { step, asked } => {
                if asked {
                    Self::after_setup(settings, step, outcome)
                } else {
                    Program { settings, stage: ProgramStage::Setup { step, asked } }
                }
            },
            ProgramStage::Pass { update, scheduler } => match outcome {
                Outcome::Pass(reply) => {
                    let update = update.handle(reply);
                    let stage = match update.outcome() {
                        None => ProgramStage::Pass { update, scheduler },
                        Some(Ok(report)) => ProgramStage::Reporting { report, scheduler },
                        Some(Err(error)) => ProgramStage::Exited(Err(Fatal::Pass(error))),
                    };
                    Program { settings, stage }
                },
                Outcome::Tick => {
                    let scheduler = match scheduler {
                        Some(scheduler) => Some(scheduler.on_event(Event::Tick).0),
                        None => None,
                    };
                    Program { settings, stage: ProgramStage::Pass { update, scheduler } }
                },
                _ => Program { settings, stage: ProgramStage::Pass { update, scheduler } },
            },
            ProgramStage::Reporting { report, scheduler } => {
                let scheduler = match (outcome, scheduler) {
                    (Outcome::Tick, Some(scheduler)) => Some(scheduler.on_event(Event::Tick).0),
                    (_, scheduler) => scheduler,
                };
                Program { settings, stage: ProgramStage::Reporting { report, scheduler } }
            },
            ProgramStage::Notify { step, asked } => {
                let stage = if !asked {
                    ProgramStage::Notify { step, asked }
                } else {
                    match (step, outcome) {
                        (Signal::Detect, Outcome::ServiceManager { present }) => if present {
                            ProgramStage::Notify { step: Signal::Send, asked: false }
                        } else {
                            ProgramStage::Idle { scheduler: Scheduler::new(settings.interval) }
                        },
                        (Signal::Send, Outcome::Notified { ok }) => if ok {
                            ProgramStage::Idle { scheduler: Scheduler::new(settings.interval) }
                        } else {
                            ProgramStage::Exited(Err(Fatal::Notify))
                        },
                        (step, _) => ProgramStage::Notify { step, asked },
                    }
                };
                Program { settings, stage }
            },
            ProgramStage::Idle { scheduler } => {
                let stage = match outcome {
                    Outcome::Tick => {
                        let scheduler = scheduler.on_event(Event::Tick).0;
                        let update = Update::new(settings.table, settings.oif, settings.no_v6);
                        ProgramStage::Pass { update, scheduler: Some(scheduler) }
                    },
                    _ => ProgramStage::Idle { scheduler },
                };
                Program { settings, stage }
            },
            ProgramStage::Exited(result) => Program {
                settings,
                stage: ProgramStage::Exited(result),
            },
        }
    }

    fn after_setup(settings: Settings, step: Setup, outcome: Outcome) -> (r: Self)
        requires
            step != Setup::Privilege ==> settings@.privileged,
        ensures
            r@ == (ProgramView {
                settings: settings@,
                stage: ProgramStageView::Setup { step, asked: true },
            }).after_setup(step, outcome@),
            r@.wf(),
    {
        match (step, outcome) {
            (Setup::Privilege, Outcome::Privilege { permitted }) => {
                if permitted {
                    Program {
                        settings: Settings { privileged: true, ..settings },
                        stage: ProgramStage::Setup { step: Setup::Connect, asked: false },
                    }
                } else {
                    Program { settings, stage: Self::failed(Fatal::NotEnoughPrivilege) }
                }
            },
            (Setup::Privilege, Outcome::PrivilegeUnknown) => Program {
                settings,
                stage: Self::failed(Fatal::Capabilities),
            },
            (Setup::Connect, Outcome::Connected) => Program {
                settings,
                stage: ProgramStage::Setup { step: Setup::Interface, asked: false },
            },
            (Setup::Connect, Outcome::ConnectFailed) => Program {
                settings,
                stage: Self::failed(Fatal::Netlink),
            },
            (Setup::Interface, Outcome::Interface(Some(index))) => Program {
                settings: Settings { oif: index, ..settings },
                stage: ProgramStage::Setup { step: Setup::Client, asked: false },
            },
            (Setup::Interface, Outcome::Interface(None)) => Program {
                settings,
                stage: Self::failed(Fatal::NoSuchInterface),
            },
            (Setup::Interface, Outcome::InterfaceFailed) => Program {
                settings,
                stage: Self::failed(Fatal::InterfaceQuery),
            },
            (Setup::Client, Outcome::ClientBuilt) => Self::after_client(settings),
            (Setup::Client, Outcome::ClientFailed) => Program {
                settings,
                stage: Self::failed(Fatal::HttpClient),
            },
            (step, _) => Program { settings, stage: ProgramStage::Setup { step, asked: true } },
        }
    }

    fn failed(fatal: Fatal) -> (stage: ProgramStage)
        ensures
            stage@ == ProgramStageView::Exited(Err(fatal)),
    {
        ProgramStage::Exited(Err(fatal))
    }

    fn after_client(settings: Settings) -> (r: Self)
        requires
            settings@.privileged,
        ensures
            r@ == (ProgramView {
                settings: settings@,
                stage: ProgramStageView::Setup { step: Setup::Client, asked: true },
            }).after_client(),
            r@.wf(),
    {
        match parse_url(settings.v4_text.as_str()) {
            Err(error) => Program {
                settings: Settings { url_error: Some(error), ..settings },
                stage: ProgramStage::Exited(Err(Fatal::Url(Family::V4))),
            },
            Ok(v4) => match parse_url(settings.v6_text.as_str()) {
                Err(error) => Program {
                    settings: Settings { v4_url: Some(v4), url_error: Some(error), ..settings },
                    stage: ProgramStage::Exited(Err(Fatal::Url(Family::V6))),
                },
                Ok(v6) => {
                    let update = Update::new(settings.table, settings.oif, settings.no_v6);
                    Program {
                        settings: Settings { v4_url: Some(v4), v6_url: Some(v6), ..settings },
                        stage: ProgramStage::Pass { update, scheduler: None },
                    }
                },
            },
        }
    }

    /// The name of the output interface.
    pub fn interface(&self) -> (name: &str)
        ensures
            name@ == self@.settings.interface,
    {
        self.settings.interface.as_str()
    }

    /// The URL of the list of `family`, once the URLs were read.
    pub fn url(&self, family: Family) -> (url: Option<&Url>)
        ensures
            family == Family::V4 ==> self@.settings.v4_url == url_text(url),
            family == Family::V6 ==> self@.settings.v6_url == url_text(url),
    {
        match family {
            Family::V4 => self.settings.v4_url.as_ref(),
            Family::V6 => self.settings.v6_url.as_ref(),
        }
    }

    /// Why a URL could not be read, once one could not.
    pub fn url_error(&self) -> (error: Option<&UrlError>)
        ensures
            self@.settings.url_error == reason_text(error),
    {
        self.settings.url_error.as_ref()
    }

    /// Seconds between two scheduled passes.
    pub fn interval(&self) -> (seconds: u64)
        ensures
            seconds == self@.settings.interval,
    {
        self.settings.interval
    }

    /// The second, counted from the end of the first pass, at which the next
    /// tick of the scheduler falls due, while there is a scheduler.
    pub fn next_tick_due(&self) -> (due: Option<u64>)
        ensures
            due == self@.next_tick_due(),
    {
        match &self.stage {
            ProgramStage::Pass { scheduler: Some(scheduler), .. } => Some(scheduler.next_due()),
            ProgramStage::Reporting { scheduler: Some(scheduler), .. } => Some(
                scheduler.next_due(),
            ),
            ProgramStage::Idle { scheduler } => Some(scheduler.next_due()),
            _ => None,
        }
    }
}

/// What can happen to a run: it is asked what to do next, or an outcome
/// arrives.
pub enum ProgramInput {
    Poll,
    Outcome(OutcomeView),
}

impl ProgramView {
    /// The run after one input.
    pub open spec fn step(self, input: ProgramInput) -> Self {
        match input {
            ProgramInput::Poll => self.polled(),
            ProgramInput::Outcome(outcome) => self.handled(outcome),
        }
    }

    /// The run after a sequence of inputs, taken in order.
    pub open spec fn run(self, inputs: Seq<ProgramInput>) -> Self
        decreases inputs.len(),
    {
        if inputs.len() == 0 {
            self
        } else {
            self.run(inputs.drop_last()).step(inputs.last())
        }
    }
}

/// Every input keeps a run well formed.
pub proof fn lemma_program_step_wf(s: ProgramView, input: ProgramInput)
    requires
        s.wf(),
    ensures
        s.step(input).wf(),
{
    match s.stage {
        ProgramStageView::Pass { update, scheduler } => {
            match input {
                ProgramInput::Poll => {
                    lemma_update_step_wf(update, Input::Poll);
                },
                ProgramInput::Outcome(OutcomeView::Pass(reply)) => {
                    lemma_update_step_wf(update, Input::Reply(reply));
                },
                _ => {},
            }
        },
        _ => {},
    }
}

/// Every run that can be reached from a well-formed one is well formed.
pub proof fn lemma_program_run_wf(s: ProgramView, inputs: Seq<ProgramInput>)
    requires
        s.wf(),
    ensures
        s.run(inputs).wf(),
    decreases inputs.len(),
{
    if inputs.len() > 0 {
        lemma_program_run_wf(s, inputs.drop_last());
        lemma_program_step_wf(s.run(inputs.drop_last()), inputs.last());
    }
}

/// Checks come first: as long as no outcome has confirmed the privilege, a
/// run asks for nothing but the check of the privilege. It starts no fetch,
/// opens no connection to the kernel and touches no route.
pub proof fn lemma_nothing_without_privilege(args: Args, inputs: Seq<ProgramInput>)
    requires
        forall|i: int|
            0 <= i < inputs.len() ==> #[trigger] inputs[i] != ProgramInput::Outcome(
                OutcomeView::Privilege { permitted: true },
            ),
    ensures
        ({
            let s = ProgramView::start(args).run(inputs);
            &&& !s.settings.privileged
            &&& s.poll_result() matches Step::Do(task) ==> task == Task::CheckPrivilege
            &&& !(s.poll_result() matches Step::Exit(Ok(_)))
        }),
    decreases inputs.len(),
{
    let start = ProgramView::start(args);
    lemma_program_run_wf(start, inputs);
    if inputs.len() > 0 {
        lemma_nothing_without_privilege(args, inputs.drop_last());
        lemma_program_run_wf(start, inputs.drop_last());
        assert(inputs.last() == inputs[inputs.len() - 1]);
    }
}

/// A run without the privilege ends with that failure: told that the
/// privilege is absent in answer to its check, it leaves at once.
pub proof fn lemma_unprivileged_run_exits(s: ProgramView)
    requires
        s.stage == (ProgramStageView::Setup { step: Setup::Privilege, asked: true }),
    ensures
        s.handled(OutcomeView::Privilege { permitted: false }).poll_result() == Step::Exit(
            Err(Fatal::NotEnoughPrivilege),
        ),
{
}

/// Whatever inputs a run has taken in, it asks for work of a pass only when
/// the privilege was confirmed and both URLs were read; in one-shot mode it
/// never asks for the readiness signal and keeps no scheduler.
pub proof fn lemma_program_order(args: Args, inputs: Seq<ProgramInput>)
    ensures
        ({
            let s = ProgramView::start(args).run(inputs);
            &&& s.poll_result() matches Step::Do(Task::Pass(_)) ==> s.ready()
            &&& !args.daemon ==> s.poll_result() != Step::Do(Task::NotifyReady)
            &&& !args.daemon ==> s.poll_result() != Step::Do(Task::DetectServiceManager)
            &&& !args.daemon ==> s.next_tick_due() is None
        }),
{
    let start = ProgramView::start(args);
    lemma_program_run_wf(start, inputs);
    lemma_program_keeps_mode(start, inputs);
}

/// No input changes the table, the mode or the interval of a run.
pub proof fn lemma_program_keeps_mode(s: ProgramView, inputs: Seq<ProgramInput>)
    ensures
        s.run(inputs).settings.daemon == s.settings.daemon,
        s.run(inputs).settings.no_v6 == s.settings.no_v6,
        s.run(inputs).settings.table == s.settings.table,
        s.run(inputs).settings.interval == s.settings.interval,
    decreases inputs.len(),
{
    if inputs.len() > 0 {
        lemma_program_keeps_mode(s, inputs.drop_last());
    }
}

/// A run that is over stays over: no input makes it ask for anything again.
pub proof fn lemma_exit_is_final(
    s: ProgramView,
    result: Result<(), Fatal>,
    inputs: Seq<ProgramInput>,
)
    requires
        s.stage == ProgramStageView::Exited(result),
    ensures
        s.run(inputs) == s,
        s.run(inputs).poll_result() == Step::Exit(result),
    decreases inputs.len(),
{
    if inputs.len() > 0 {
        lemma_exit_is_final(s, result, inputs.drop_last());
    }
}

/// Fail loud: a pass that fails ends the run with that failure, in daemon
/// mode as in one-shot mode, whether or not a tick is kept.
pub proof fn lemma_failed_pass_ends_run(s: ProgramView, reply: ReplyView)
    requires
        s.wf(),
    ensures
        s.stage matches ProgramStageView::Pass { update, .. } ==> (update.handled(
            reply,
        ).outcome() matches Some(Err(error)) ==> s.handled(
            OutcomeView::Pass(reply),
        ).poll_result() == Step::Exit(Err(Fatal::Pass(error)))),
{
}

} // verus!
