//! The engine: scans, applies a boost and undoes it.
//!
//! The engine decides and its host acts. An operation hands back the first
//! [`Action`] that the host is to perform; the host passes the reply to
//! [`BoosterEngine::step`] and gets the next action, until the operation is
//! done.

use std::collections::VecDeque;
use vstd::prelude::*;

use crate::classify::{Classifier, Profile};
use crate::error::BoosterError;
use crate::model::{
    beaten, boost_begun, boost_processes, boost_services, boost_step, eligible_processes,
    eligible_services, idle, overdue, process_note, restore_begin, restore_next,
    restore_step, service_note, step, to_save, BoostModel, BoostStage,
    EngineModel, EventModel, OutcomeModel, ProgressModel, ReportModel, RestoreModel, RestoreStage,
    TaskModel,
};
use crate::process::ProcessInfo;
use crate::scan::{candidates, Candidate, ScanResult};
use crate::service::{ServiceAction, ServiceInfo, ServiceState};
use crate::session::{
    initial_ttl, is_random_uuid, new_session, ProcessRecord, RestoreSession, ServiceRecord, SessionId,
};
use crate::text::{join, texts};
use crate::time::{Span, Timestamp};

verus! {

/// What the host is to do next.
#[derive(Debug)]
pub enum Action {
    /// Write [`BoosterEngine::session_to_save`] to the store.
    SaveSession,
    /// List the processes.
    EnumerateProcesses,
    /// Suspend a process.
    Suspend { pid: u32 },
    /// List the services.
    EnumerateServices,
    /// Pause a service, or stop it if it cannot be paused.
    PauseOrStop { name: String },
    /// Undo what was done to a service.
    Restore { name: String, original: ServiceState, action: ServiceAction },
    /// Look whether a pid still belongs to the process that was created at
    /// `start_time`.
    Match { pid: u32, start_time: u64 },
    /// Resume a process.
    Resume { pid: u32 },
    /// Remove the session from the store.
    ClearSession,
    /// Read the session from the store.
    LoadSession,
}

/// The reply to an [`Action`].
#[derive(Debug)]
pub enum Event {
    /// To [`Action::SaveSession`].
    Saved(Result<(), BoosterError>),
    /// To [`Action::EnumerateProcesses`].
    Processes(Result<Vec<ProcessInfo>, BoosterError>),
    /// To [`Action::Suspend`].
    Suspended(Result<(), BoosterError>),
    /// To [`Action::EnumerateServices`].
    Services(Result<Vec<ServiceInfo>, BoosterError>),
    /// To [`Action::PauseOrStop`].
    Changed(Result<ServiceAction, BoosterError>),
    /// To [`Action::Restore`].
    Restored(Result<(), BoosterError>),
    /// To [`Action::Match`].
    Matched(bool),
    /// To [`Action::Resume`].
    Resumed(Result<(), BoosterError>),
    /// To [`Action::ClearSession`].
    Cleared(Result<(), BoosterError>),
    /// To [`Action::LoadSession`].
    Loaded(Result<Option<RestoreSession>, BoosterError>),
}

impl View for Event {
    type V = EventModel;

    open spec fn view(&self) -> EventModel {
        match *self {
            Event::Saved(r) => EventModel::Saved(r),
            Event::Processes(r) => EventModel::Processes(
                match r {
                    Ok(procs) => Ok(procs@),
                    Err(e) => Err(e),
                },
            ),
            Event::Suspended(r) => EventModel::Suspended(r),
            Event::Services(r) => EventModel::Services(
                match r {
                    Ok(services) => Ok(services@),
                    Err(e) => Err(e),
                },
            ),
            Event::Changed(r) => EventModel::Changed(r),
            Event::Restored(r) => EventModel::Restored(r),
            Event::Matched(same) => EventModel::Matched(same),
            Event::Resumed(r) => EventModel::Resumed(r),
            Event::Cleared(r) => EventModel::Cleared(r),
            Event::Loaded(r) => EventModel::Loaded(
                match r {
                    Ok(Some(session)) => Ok(Some(session@)),
                    Ok(None) => Ok(None),
                    Err(e) => Err(e),
                },
            ),
        }
    }
}

/// What applying a boost came to.
#[derive(Debug, Clone)]
pub struct BoostReport {
    pub session_id: SessionId,
    pub suspended_processes: usize,
    pub changed_services: usize,
    pub skipped: Vec<String>,
}

impl View for BoostReport {
    type V = ReportModel;

    open spec fn view(&self) -> ReportModel {
        ReportModel {
            session_id: self.session_id,
            suspended_processes: self.suspended_processes as nat,
            changed_services: self.changed_services as nat,
            skipped: texts(self.skipped@),
        }
    }
}

/// What an operation came to.
#[derive(Debug)]
pub enum Outcome {
    /// Of [`BoosterEngine::scan`].
    Scanned(Result<ScanResult, BoosterError>),
    /// Of [`BoosterEngine::start_boost`].
    Boosted(Result<BoostReport, BoosterError>),
    /// Of [`BoosterEngine::end_boost`].
    Ended(Result<(), BoosterError>),
    /// Of [`BoosterEngine::recover`]: whether there was something to restore.
    Recovered(Result<bool, BoosterError>),
}

impl View for Outcome {
    type V = OutcomeModel;

    open spec fn view(&self) -> OutcomeModel {
        match *self {
            Outcome::Scanned(r) => OutcomeModel::Scanned(
                match r {
                    Ok(scan) => Ok(scan@),
                    Err(e) => Err(e),
                },
            ),
            Outcome::Boosted(r) => OutcomeModel::Boosted(
                match r {
                    Ok(report) => Ok(report@),
                    Err(e) => Err(e),
                },
            ),
            Outcome::Ended(r) => OutcomeModel::Ended(r),
            Outcome::Recovered(r) => OutcomeModel::Recovered(r),
        }
    }
}

/// What follows a reply.
#[derive(Debug)]
pub enum Progress {
    /// The host is to perform this action.
    Next(Action),
    /// The operation has ended.
    Done(Outcome),
}

impl View for Progress {
    type V = ProgressModel;

    open spec fn view(&self) -> ProgressModel {
        match *self {
            Progress::Next(action) => ProgressModel::Next(action),
            Progress::Done(outcome) => ProgressModel::Done(outcome@),
        }
    }
}

/// Whether `e` is the refusal to stack a boost on another.
pub open spec fn is_refusal(e: BoosterError) -> bool {
    e matches BoosterError::Os(m) && m@ == "a boost is already active"@
}

/// A boost that is being applied.
struct BoostRun {
    session: RestoreSession,
    profile: Profile,
    skipped: Vec<String>,
    processes: VecDeque<ProcessInfo>,
    services: VecDeque<ServiceInfo>,
    stage: BoostStage,
}

impl BoostRun {
    spec fn model(&self) -> BoostModel {
        BoostModel {
            session: self.session@,
            profile: self.profile@,
            skipped: texts(self.skipped@),
            processes: self.processes@,
            services: self.services@,
            stage: self.stage,
        }
    }
}

/// A session that is being restored.
struct RestoreRun {
    services: Vec<ServiceRecord>,
    processes: Vec<ProcessRecord>,
    stage: RestoreStage,
    recovering: bool,
}

impl RestoreRun {
    spec fn model(&self) -> RestoreModel {
        RestoreModel {
            services: self.services@,
            processes: self.processes@,
            stage: self.stage,
            recovering: self.recovering,
        }
    }
}

/// The operation that is under way.
enum Task {
    Idle,
    ScanProcesses { profile: Profile },
    ScanServices { profile: Profile, processes: Vec<Candidate> },
    Boost(BoostRun),
    Restore(RestoreRun),
    Load,
}

impl Task {
    spec fn model(&self) -> TaskModel {
        match *self {
            Task::Idle => TaskModel::Idle,
            Task::ScanProcesses { profile } => TaskModel::ScanProcesses { profile: profile@ },
            Task::ScanServices { profile, processes } => TaskModel::ScanServices {
                profile: profile@,
                processes: candidates(processes@),
            },
            Task::Boost(run) => TaskModel::Boost(run.model()),
            Task::Restore(run) => TaskModel::Restore(run.model()),
            Task::Load => TaskModel::Load,
        }
    }
}

/// The note of an item that could not be changed.
fn note(kind: &str, name: &String, e: &BoosterError) -> (text: String)
    ensures
        text@ == kind@ + name@ + ": "@ + e.text(),
{
    let mut text = join(kind, name.as_str());
    text.append(": ");
    text.append(e.to_string().as_str());
    text
}

impl Classifier {
    /// The listed processes that may be suspended, in order.
    fn select_processes(&self, procs: &Vec<ProcessInfo>, profile: &Profile) -> (todo: VecDeque<
        ProcessInfo,
    >)
        ensures
            todo@ == eligible_processes(*self, procs@, profile@),
    {
        let ghost f = |p: ProcessInfo| self.allows_process(p, profile@);
        let mut todo: VecDeque<ProcessInfo> = VecDeque::new();
        let mut i: usize = 0;
        assert(procs@.take(0).filter(f) =~= Seq::<ProcessInfo>::empty()) by {
            reveal(Seq::filter);
        }
        while i < procs.len()
            invariant
                i <= procs@.len(),
                f == (|p: ProcessInfo| self.allows_process(p, profile@)),
                todo@ == procs@.take(i as int).filter(f),
            decreases procs@.len() - i,
        {
            proof {
                reveal(Seq::filter);
                assert(procs@.take(i + 1).drop_last() =~= procs@.take(i as int));
            }
            if self.process_eligible(&procs[i], profile) {
                todo.push_back(procs[i].clone());
            }
            i += 1;
        }
        assert(procs@.take(i as int) =~= procs@);
        todo
    }

    /// The listed services that may be paused or stopped, in order.
    fn select_services(&self, services: &Vec<ServiceInfo>, profile: &Profile) -> (todo: VecDeque<
        ServiceInfo,
    >)
        ensures
            todo@ == eligible_services(*self, services@, profile@),
    {
        let ghost f = |s: ServiceInfo| self.allows_service(s, profile@);
        let mut todo: VecDeque<ServiceInfo> = VecDeque::new();
        let mut i: usize = 0;
        assert(services@.take(0).filter(f) =~= Seq::<ServiceInfo>::empty()) by {
            reveal(Seq::filter);
        }
        while i < services.len()
            invariant
                i <= services@.len(),
                f == (|s: ServiceInfo| self.allows_service(s, profile@)),
                todo@ == services@.take(i as int).filter(f),
            decreases services@.len() - i,
        {
            proof {
                reveal(Seq::filter);
                assert(services@.take(i + 1).drop_last() =~= services@.take(i as int));
            }
            if self.service_eligible(&services[i], profile) {
                todo.push_back(services[i].clone());
            }
            i += 1;
        }
        assert(services@.take(i as int) =~= services@);
        todo
    }
}

/// Ties the classifier to the boost that is applied, if any.
pub struct BoosterEngine {
    classifier: Classifier,
    active: Option<RestoreSession>,
    task: Task,
}

impl View for BoosterEngine {
    type V = EngineModel;

    closed spec fn view(&self) -> EngineModel {
        EngineModel {
            active: match self.active {
                Some(session) => Some(session@),
                None => None,
            },
            task: self.task.model(),
        }
    }
}

impl BoosterEngine {
    /// The classifier that decides what may be touched.
    pub closed spec fn classifier(&self) -> Classifier {
        self.classifier
    }

    /// An engine with no boost applied and nothing under way.
    pub fn new(classifier: Classifier) -> (engine: Self)
        ensures
            engine.classifier() == classifier,
            engine@ == idle(None),
    {
        BoosterEngine { classifier, active: None, task: Task::Idle }
    }

    /// Whether a boost is applied.
    pub fn is_boosted(&self) -> (b: bool)
        ensures
            b == self@.active is Some,
    {
        self.active.is_some()
    }

    /// Whether no operation is under way.
    pub fn is_idle(&self) -> (b: bool)
        ensures
            b == self@.task is Idle,
    {
        match self.task {
            Task::Idle => true,
            _ => false,
        }
    }

    /// The session that is to be written to the store, while
    /// [`Action::SaveSession`] is pending.
    pub fn session_to_save(&self) -> (session: Option<&RestoreSession>)
        ensures
            match session {
                Some(session) => to_save(self@) == Some(session@),
                None => to_save(self@) is None,
            },
    {
        match &self.task {
            Task::Boost(run) => match run.stage {
                BoostStage::Reserve | BoostStage::RecordProcess | BoostStage::AmendProcess
                | BoostStage::RecordService | BoostStage::AmendService => Some(&run.session),
                _ => None,
            },
            _ => None,
        }
    }

    /// Starts to list every process and service and to mark which ones the
    /// profile may suspend.
    pub fn scan(&mut self, profile: &Profile) -> (action: Action)
        requires
            old(self)@.task is Idle,
        ensures
            action == Action::EnumerateProcesses,
            final(self).classifier() == old(self).classifier(),
            final(self)@ == (EngineModel {
                active: old(self)@.active,
                task: TaskModel::ScanProcesses { profile: profile@ },
            }),
    {
        self.task = Task::ScanProcesses { profile: profile.clone() };
        Action::EnumerateProcesses
    }

    /// On startup: starts to restore the session of an earlier boost, if the
    /// store still holds one.
    pub fn recover(&mut self) -> (action: Action)
        requires
            old(self)@.task is Idle,
        ensures
            action == Action::LoadSession,
            final(self).classifier() == old(self).classifier(),
            final(self)@ == (EngineModel { active: old(self)@.active, task: TaskModel::Load }),
    {
        self.task = Task::Load;
        Action::LoadSession
    }

    /// Starts to apply a boost for `profile`, with the given identity and
    /// starting time. Each change is recorded on disk before it is made
    /// (write-ahead), so that a crash can be recovered from. Boosts do not stack.
    pub fn start_boost_at(
        &mut self,
        profile: &Profile,
        id: SessionId,
        now: Timestamp,
    ) -> (started: Result<Action, BoosterError>)
        requires
            old(self)@.task is Idle,
            now.can_add(initial_ttl()),
        ensures
            final(self).classifier() == old(self).classifier(),
            match started {
                Ok(action) => {
                    &&& old(self)@.active is None
                    &&& action == Action::SaveSession
                    &&& final(self)@ == boost_begun(
                        old(self)@,
                        new_session(profile.name@, id, now),
                        profile@,
                    )
                },
                Err(e) => {
                    &&& old(self)@.active is Some
                    &&& is_refusal(e)
                    &&& final(self)@ == old(self)@
                },
            },
    {
        if self.active.is_some() {
            return Err(BoosterError::Os("a boost is already active".to_owned()));
        }
        let session = RestoreSession::started(profile.name.clone(), id, now);
        self.begin(profile, session);
        Ok(Action::SaveSession)
    }

    /// Starts to apply a boost for `profile`, as [`BoosterEngine::start_boost_at`]
    /// does, with a heartbeat at `now` that is good for `ttl`.
    pub fn start_boost_within(
        &mut self,
        profile: &Profile,
        id: SessionId,
        now: Timestamp,
        ttl: Span,
    ) -> (started: Result<Action, BoosterError>)
        requires
            old(self)@.task is Idle,
            now.can_add(initial_ttl()),
            now.can_add(ttl),
        ensures
            final(self).classifier() == old(self).classifier(),
            match started {
                Ok(action) => {
                    &&& old(self)@.active is None
                    &&& action == Action::SaveSession
                    &&& final(self)@ == boost_begun(
                        old(self)@,
                        new_session(profile.name@, id, now).bumped(ttl, now),
                        profile@,
                    )
                },
                Err(e) => {
                    &&& old(self)@.active is Some
                    &&& is_refusal(e)
                    &&& final(self)@ == old(self)@
                },
            },
    {
        if self.active.is_some() {
            return Err(BoosterError::Os("a boost is already active".to_owned()));
        }
        let mut session = RestoreSession::started(profile.name.clone(), id, now);
        session.bump_heartbeat_at(ttl, now);
        self.begin(profile, session);
        Ok(Action::SaveSession)
    }

    /// Starts to apply a boost for `profile`. Each change is recorded on disk
    /// before it is made (write-ahead), so that a crash can be recovered from.
    /// Boosts do not stack.
    pub fn start_boost(&mut self, profile: &Profile) -> (started: Result<Action, BoosterError>)
        requires
            old(self)@.task is Idle,
        ensures
            final(self).classifier() == old(self).classifier(),
            match started {
                Ok(action) => {
                    &&& old(self)@.active is None
                    &&& action == Action::SaveSession
                    &&& exists|id: SessionId, now: Timestamp|
                        {
                            &&& is_random_uuid(id.bits)
                            &&& now.can_add(initial_ttl())
                            &&& final(self)@ == boost_begun(
                                old(self)@,
                                #[trigger] new_session(profile.name@, id, now),
                                profile@,
                            )
                        }
                },
                Err(e) => {
                    &&& old(self)@.active is Some
                    &&& is_refusal(e)
                    &&& final(self)@ == old(self)@
                },
            },
    {
        if self.active.is_some() {
            return Err(BoosterError::Os("a boost is already active".to_owned()));
        }
        let session = RestoreSession::new(profile.name.clone());
        proof {
            let s = new_session(profile.name@, session.id, session.started_at);
            assert(session.started_at.can_add(initial_ttl()));
        }
        self.begin(profile, session);
        Ok(Action::SaveSession)
    }

    fn begin(&mut self, profile: &Profile, session: RestoreSession)
        ensures
            final(self).classifier() == old(self).classifier(),
            final(self)@ == boost_begun(old(self)@, session@, profile@),
    {
        self.task = Task::Boost(
            BoostRun {
                session,
                profile: profile.clone(),
                skipped: Vec::new(),
                processes: VecDeque::new(),
                services: VecDeque::new(),
                stage: BoostStage::Reserve,
            },
        );
    }

    /// Starts to restore everything that the boost has changed, the latest
    /// change first, services before processes. No item's failure stops the
    /// rest.
    pub fn end_boost(&mut self) -> (started: Result<Action, BoosterError>)
        requires
            old(self)@.task is Idle,
        ensures
            final(self).classifier() == old(self).classifier(),
            match started {
                Ok(action) => {
                    &&& old(self)@.active is Some
                    &&& (final(self)@, ProgressModel::Next(action)) == restore_begin(
                        old(self)@.active->0,
                        false,
                    )
                },
                Err(e) => {
                    &&& old(self)@.active is None
                    &&& e is NoActiveSession
                    &&& final(self)@ == old(self)@
                },
            },
    {
        match self.active.take() {
            Some(session) => Ok(self.begin_restore(session, false)),
            None => Err(BoosterError::NoActiveSession),
        }
    }

    fn begin_restore(&mut self, session: RestoreSession, recovering: bool) -> (action: Action)
        ensures
            final(self).classifier() == old(self).classifier(),
            (final(self)@, ProgressModel::Next(action)) == restore_begin(session@, recovering),
    {
        self.active = None;
        self.restore_on(
            RestoreRun {
                services: session.changed_services,
                processes: session.suspended_processes,
                stage: RestoreStage::Clear,
                recovering,
            },
        )
    }

    /// Asks for the next thing that the restore needs.
    fn restore_on(&mut self, run: RestoreRun) -> (action: Action)
        ensures
            final(self).classifier() == old(self).classifier(),
            (final(self)@, ProgressModel::Next(action)) == restore_next(
                old(self)@.active,
                run.model(),
            ),
    {
        let mut run = run;
        let n: usize = run.services.len();
        let m: usize = run.processes.len();
        if n > 0 {
            let rec = &run.services[n - 1];
            let action = Action::Restore {
                name: rec.name.clone(),
                original: rec.original_state,
                action: rec.action,
            };
            run.stage = RestoreStage::Service;
            self.task = Task::Restore(run);
            action
        } else if m > 0 {
            let rec = &run.processes[m - 1];
            let action = Action::Match { pid: rec.pid, start_time: rec.start_time };
            run.stage = RestoreStage::Match;
            self.task = Task::Restore(run);
            action
        } else {
            run.stage = RestoreStage::Clear;
            self.task = Task::Restore(run);
            Action::ClearSession
        }
    }

    /// Goes on with the processes that the boost still has to suspend: puts the
    /// next one on record.
    fn processes_on(&mut self, run: BoostRun) -> (progress: Progress)
        ensures
            final(self).classifier() == old(self).classifier(),
            (final(self)@, progress@) == boost_processes(old(self)@.active, run.model()),
    {
        let mut run = run;
        if run.processes.len() > 0 {
            let p = run.processes[0].clone();
            run.session.suspended_processes.push(
                ProcessRecord {
                    pid: p.pid,
                    name: p.name,
                    image_path: p.image_path,
                    start_time: p.start_time,
                },
            );
            run.stage = BoostStage::RecordProcess;
            self.task = Task::Boost(run);
            Progress::Next(Action::SaveSession)
        } else {
            run.stage = BoostStage::ListServices;
            self.task = Task::Boost(run);
            Progress::Next(Action::EnumerateServices)
        }
    }

    /// Goes on with the services that the boost still has to change: puts the next
    /// one on record.
    fn services_on(&mut self, run: BoostRun) -> (progress: Progress)
        ensures
            final(self).classifier() == old(self).classifier(),
            (final(self)@, progress@) == boost_services(old(self)@.active, run.model()),
    {
        let mut run = run;
        if run.services.len() > 0 {
            let x = run.services[0].clone();
            let action = x.expected_action();
            run.session.changed_services.push(
                ServiceRecord { name: x.name, original_state: x.state, action },
            );
            run.stage = BoostStage::RecordService;
            self.task = Task::Boost(run);
            Progress::Next(Action::SaveSession)
        } else {
            let report = BoostReport {
                session_id: run.session.id,
                suspended_processes: run.session.suspended_processes.len(),
                changed_services: run.session.changed_services.len(),
                skipped: run.skipped,
            };
            self.task = Task::Idle;
            self.active = Some(run.session);
            Progress::Done(Outcome::Boosted(Ok(report)))
        }
    }

    /// Whether `event` is a reply to the pending action.
    pub fn awaits(&self, event: &Event) -> (b: bool)
        ensures
            b == step(self.classifier(), self@, event@) is Some,
    {
        match (&self.task, event) {
            (Task::ScanProcesses { .. }, Event::Processes(_)) => true,
            (Task::ScanServices { .. }, Event::Services(_)) => true,
            (Task::Boost(run), _) => match (run.stage, event) {
                (BoostStage::Reserve, Event::Saved(_)) => true,
                (BoostStage::ListProcesses, Event::Processes(_)) => true,
                (BoostStage::RecordProcess, Event::Saved(_)) => run.processes.len() > 0,
                (BoostStage::Suspend, Event::Suspended(_)) => run.processes.len() > 0
                    && run.session.suspended_processes.len() > 0,
                (BoostStage::AmendProcess, Event::Saved(_)) => true,
                (BoostStage::ListServices, Event::Services(_)) => true,
                (BoostStage::RecordService, Event::Saved(_)) => run.services.len() > 0,
                (BoostStage::Change, Event::Changed(_)) => run.services.len() > 0
                    && run.session.changed_services.len() > 0,
                (BoostStage::AmendService, Event::Saved(_)) => true,
                _ => false,
            },
            (Task::Restore(run), _) => match (run.stage, event) {
                (RestoreStage::Service, Event::Restored(_)) => run.services.len() > 0,
                (RestoreStage::Match, Event::Matched(_)) => run.processes.len() > 0,
                (RestoreStage::Resume, Event::Resumed(_)) => run.processes.len() > 0,
                (RestoreStage::Clear, Event::Cleared(_)) => true,
                _ => false,
            },
            (Task::Load, Event::Loaded(_)) => true,
            _ => false,
        }
    }

    /// Takes the reply to the pending action and says what follows. A reply that
    /// is not to the pending action changes nothing.
    pub fn step(&mut self, event: Event) -> (progress: Option<Progress>)
        ensures
            final(self).classifier() == old(self).classifier(),
            match step(old(self).classifier(), old(self)@, event@) {
                Some((next, follows)) => {
                    &&& final(self)@ == next
                    &&& progress is Some
                    &&& progress->0@ == follows
                },
                None => {
                    &&& final(self)@ == old(self)@
                    &&& progress is None
                },
            },
    {
        if !self.awaits(&event) {
            return None;
        }
        let mut task = Task::Idle;
        std::mem::swap(&mut task, &mut self.task);
        match task {
            Task::Idle => None,
            Task::ScanProcesses { profile } => match event {
                Event::Processes(r) => Some(self.scan_processes(profile, r)),
                _ => None,
            },
            Task::ScanServices { profile, processes } => match event {
                Event::Services(r) => Some(self.scan_services(profile, processes, r)),
                _ => None,
            },
            Task::Boost(run) => self.boost(run, event),
            Task::Restore(run) => self.restore(run, event),
            Task::Load => match event {
                Event::Loaded(r) => Some(self.loaded(r)),
                _ => None,
            },
        }
    }

    fn scan_processes(
        &mut self,
        profile: Profile,
        r: Result<Vec<ProcessInfo>, BoosterError>,
    ) -> (progress: Progress)
        requires
            old(self)@.task is Idle,
        ensures
            final(self).classifier() == old(self).classifier(),
            step(
                old(self).classifier(),
                EngineModel {
                    task: TaskModel::ScanProcesses { profile: profile@ },
                    ..old(self)@
                },
                Event::Processes(r)@,
            ) == Some((final(self)@, progress@)),
    {
        match r {
            Ok(procs) => {
                let processes = self.classifier.present_processes(&procs, &profile);
                self.task = Task::ScanServices { profile, processes };
                Progress::Next(Action::EnumerateServices)
            },
            Err(e) => Progress::Done(Outcome::Scanned(Err(e))),
        }
    }

    fn scan_services(
        &mut self,
        profile: Profile,
        processes: Vec<Candidate>,
        r: Result<Vec<ServiceInfo>, BoosterError>,
    ) -> (progress: Progress)
        requires
            old(self)@.task is Idle,
        ensures
            final(self).classifier() == old(self).classifier(),
            step(
                old(self).classifier(),
                EngineModel {
                    task: TaskModel::ScanServices {
                        profile: profile@,
                        processes: candidates(processes@),
                    },
                    ..old(self)@
                },
                Event::Services(r)@,
            ) == Some((final(self)@, progress@)),
    {
        match r {
            Ok(list) => {
                let services = self.classifier.present_services(&list, &profile);
                Progress::Done(Outcome::Scanned(Ok(ScanResult { processes, services })))
            },
            Err(e) => Progress::Done(Outcome::Scanned(Err(e))),
        }
    }

    fn loaded(&mut self, r: Result<Option<RestoreSession>, BoosterError>) -> (progress: Progress)
        requires
            old(self)@.task is Idle,
        ensures
            final(self).classifier() == old(self).classifier(),
            step(
                old(self).classifier(),
                EngineModel { task: TaskModel::Load, ..old(self)@ },
                Event::Loaded(r)@,
            ) == Some((final(self)@, progress@)),
    {
        match r {
            Ok(Some(session)) => Progress::Next(self.begin_restore(session, true)),
            Ok(None) => Progress::Done(Outcome::Recovered(Ok(false))),
            Err(e) => Progress::Done(Outcome::Recovered(Err(e))),
        }
    }

    /// Takes what suspending the first of the processes to do came to.
    fn suspended(&mut self, run: BoostRun, r: Result<(), BoosterError>) -> (progress: Progress)
        requires
            run.stage == BoostStage::Suspend,
            run.processes@.len() > 0,
            run.session@.processes.len() > 0,
        ensures
            final(self).classifier() == old(self).classifier(),
            boost_step(
                old(self).classifier(),
                old(self)@.active,
                run.model(),
                EventModel::Suspended(r),
            ) == Some((final(self)@, progress@)),
    {
        let ghost before = run.model();
        let mut run = run;
        let p = run.processes.pop_front().unwrap();
        assert(run.processes@ =~= before.processes.drop_first());
        match r {
            Ok(_) => self.processes_on(run),
            Err(e) => {
                let _ = run.session.suspended_processes.pop();
                run.skipped.push(note("process ", &p.name, &e));
                assert(texts(run.skipped@) =~= before.skipped.push(process_note(p, e)));
                run.stage = BoostStage::AmendProcess;
                self.task = Task::Boost(run);
                Progress::Next(Action::SaveSession)
            },
        }
    }

    /// Takes what changing the first of the services to do came to.
    fn changed(
        &mut self,
        run: BoostRun,
        r: Result<ServiceAction, BoosterError>,
    ) -> (progress: Progress)
        requires
            run.stage == BoostStage::Change,
            run.services@.len() > 0,
            run.session@.services.len() > 0,
        ensures
            final(self).classifier() == old(self).classifier(),
            boost_step(
                old(self).classifier(),
                old(self)@.active,
                run.model(),
                EventModel::Changed(r),
            ) == Some((final(self)@, progress@)),
    {
        let ghost before = run.model();
        let mut run = run;
        let s = run.services.pop_front().unwrap();
        assert(run.services@ =~= before.services.drop_first());
        match r {
            Ok(action) => {
                if action == s.expected_action() {
                    return self.services_on(run);
                }
                let _ = run.session.changed_services.pop();
                run.session.changed_services.push(
                    ServiceRecord { name: s.name, original_state: s.state, action },
                );
            },
            Err(e) => {
                let _ = run.session.changed_services.pop();
                run.skipped.push(note("service ", &s.name, &e));
                assert(texts(run.skipped@) =~= before.skipped.push(service_note(s, e)));
            },
        }
        run.stage = BoostStage::AmendService;
        self.task = Task::Boost(run);
        Progress::Next(Action::SaveSession)
    }

    fn boost(&mut self, run: BoostRun, event: Event) -> (progress: Option<Progress>)
        requires
            old(self)@.task is Idle,
            boost_step(old(self).classifier(), old(self)@.active, run.model(), event@) is Some,
        ensures
            final(self).classifier() == old(self).classifier(),
            progress is Some,
            boost_step(old(self).classifier(), old(self)@.active, run.model(), event@) == Some(
                (final(self)@, progress->0@),
            ),
    {
        let mut run = run;
        match (run.stage, event) {
            (BoostStage::Reserve, Event::Saved(Ok(_))) => {
                run.stage = BoostStage::ListProcesses;
                self.task = Task::Boost(run);
                Some(Progress::Next(Action::EnumerateProcesses))
            },
            (BoostStage::ListProcesses, Event::Processes(Ok(procs))) => {
                run.processes = self.classifier.select_processes(&procs, &run.profile);
                Some(self.processes_on(run))
            },
            (BoostStage::RecordProcess, Event::Saved(Ok(_))) => {
                let pid: u32 = run.processes[0].pid;
                run.stage = BoostStage::Suspend;
                self.task = Task::Boost(run);
                Some(Progress::Next(Action::Suspend { pid }))
            },
            (BoostStage::Suspend, Event::Suspended(r)) => Some(self.suspended(run, r)),
            (BoostStage::AmendProcess, Event::Saved(Ok(_))) => Some(self.processes_on(run)),
            (BoostStage::ListServices, Event::Services(Ok(services))) => {
                run.services = self.classifier.select_services(&services, &run.profile);
                Some(self.services_on(run))
            },
            (BoostStage::RecordService, Event::Saved(Ok(_))) => {
                let name = run.services[0].name.clone();
                run.stage = BoostStage::Change;
                self.task = Task::Boost(run);
                Some(Progress::Next(Action::PauseOrStop { name }))
            },
            (BoostStage::Change, Event::Changed(r)) => Some(self.changed(run, r)),
            (BoostStage::AmendService, Event::Saved(Ok(_))) => Some(self.services_on(run)),
            (_, Event::Saved(Err(e))) => Some(Progress::Done(Outcome::Boosted(Err(e)))),
            (_, Event::Processes(Err(e))) => Some(Progress::Done(Outcome::Boosted(Err(e)))),
            (_, Event::Services(Err(e))) => Some(Progress::Done(Outcome::Boosted(Err(e)))),
            _ => None,
        }
    }

    fn restore(&mut self, run: RestoreRun, event: Event) -> (progress: Option<Progress>)
        requires
            old(self)@.task is Idle,
            restore_step(old(self)@.active, run.model(), event@) is Some,
        ensures
            final(self).classifier() == old(self).classifier(),
            progress is Some,
            restore_step(old(self)@.active, run.model(), event@) == Some(
                (final(self)@, progress->0@),
            ),
    {
        let mut run = run;
        match (run.stage, event) {
            (RestoreStage::Service, Event::Restored(_)) => {
                let _ = run.services.pop();
                Some(Progress::Next(self.restore_on(run)))
            },
            (RestoreStage::Match, Event::Matched(same)) => {
                if same {
                    let last: usize = run.processes.len() - 1;
                    let pid: u32 = run.processes[last].pid;
                    run.stage = RestoreStage::Resume;
                    self.task = Task::Restore(run);
                    Some(Progress::Next(Action::Resume { pid }))
                } else {
                    let _ = run.processes.pop();
                    Some(Progress::Next(self.restore_on(run)))
                }
            },
            (RestoreStage::Resume, Event::Resumed(_)) => {
                let _ = run.processes.pop();
                Some(Progress::Next(self.restore_on(run)))
            },
            (RestoreStage::Clear, Event::Cleared(r)) => {
                if run.recovering {
                    Some(
                        Progress::Done(
                            Outcome::Recovered(
                                match r {
                                    Ok(_) => Ok(true),
                                    Err(e) => Err(e),
                                },
                            ),
                        ),
                    )
                } else {
                    Some(Progress::Done(Outcome::Ended(r)))
                }
            },
            _ => None,
        }
    }

    /// Moves the deadline of the boost, if one is applied, to `ttl` after `now`.
    pub fn heartbeat_at(&mut self, ttl: Span, now: Timestamp)
        requires
            now.can_add(ttl),
        ensures
            final(self).classifier() == old(self).classifier(),
            final(self)@ == beaten(old(self)@, ttl, now),
    {
        match self.active.take() {
            Some(mut session) => {
                session.bump_heartbeat_at(ttl, now);
                self.active = Some(session);
            },
            None => {},
        }
    }

    /// Moves the deadline of the boost, if one is applied, to `ttl` from the
    /// present. When this is no longer called the watchdog restores everything.
    pub fn heartbeat(&mut self, ttl: Span)
        ensures
            final(self).classifier() == old(self).classifier(),
            exists|now: Timestamp|
                now.can_add(ttl) && final(self)@ == #[trigger] beaten(old(self)@, ttl, now),
    {
        let now = Timestamp::now();
        self.heartbeat_at(ttl, now);
        assert(now.can_add(ttl));
        assert(final(self)@ == beaten(old(self)@, ttl, now));
    }

    /// Whether a boost is applied whose deadline has passed at `now`.
    pub fn heartbeat_expired_at(&self, now: Timestamp) -> (b: bool)
        ensures
            b == overdue(self@, now),
    {
        match &self.active {
            Some(session) => session.heartbeat_expired_at(now),
            None => false,
        }
    }

    /// Whether a boost is applied whose deadline has passed.
    pub fn heartbeat_expired(&self) -> (b: bool)
        ensures
            exists|now: Timestamp| b == #[trigger] overdue(self@, now),
            self@.active is None ==> !b,
    {
        let now = Timestamp::now();
        self.heartbeat_expired_at(now)
    }

    /// Whether the watchdog is to end the boost at `now`.
    pub fn watchdog_due_at(&self, now: Timestamp) -> (b: bool)
        ensures
            b == overdue(self@, now),
            b ==> self@.active is Some,
    {
        self.is_boosted() && self.heartbeat_expired_at(now)
    }

    /// Whether the watchdog is to end the boost.
    pub fn watchdog_due(&self) -> (b: bool)
        ensures
            exists|now: Timestamp| b == #[trigger] overdue(self@, now),
            b ==> self@.active is Some,
    {
        let now = Timestamp::now();
        self.watchdog_due_at(now)
    }
}

/// What a report, a reply and an outcome hold is what they carry.
pub proof fn law_messages_hold_what_they_carry(
    report: BoostReport,
    procs: Vec<ProcessInfo>,
    services: Vec<ServiceInfo>,
    session: RestoreSession,
    scan: ScanResult,
    action: Action,
    outcome: Outcome,
    changed: Result<ServiceAction, BoosterError>,
    done: Result<(), BoosterError>,
    recovered: Result<bool, BoosterError>,
    same: bool,
    e: BoosterError,
)
    ensures
        report@.session_id == report.session_id,
        report@.suspended_processes == report.suspended_processes,
        report@.changed_services == report.changed_services,
        report@.skipped == texts(report.skipped@),
        Event::Saved(done)@ == EventModel::Saved(done),
        Event::Processes(Ok(procs))@ == EventModel::Processes(Ok(procs@)),
        Event::Processes(Err(e))@ == EventModel::Processes(Err(e)),
        Event::Suspended(done)@ == EventModel::Suspended(done),
        Event::Services(Ok(services))@ == EventModel::Services(Ok(services@)),
        Event::Services(Err(e))@ == EventModel::Services(Err(e)),
        Event::Changed(changed)@ == EventModel::Changed(changed),
        Event::Restored(done)@ == EventModel::Restored(done),
        Event::Matched(same)@ == EventModel::Matched(same),
        Event::Resumed(done)@ == EventModel::Resumed(done),
        Event::Cleared(done)@ == EventModel::Cleared(done),
        Event::Loaded(Ok(Some(session)))@ == EventModel::Loaded(Ok(Some(session@))),
        Event::Loaded(Ok(None))@ == EventModel::Loaded(Ok(None)),
        Event::Loaded(Err(e))@ == EventModel::Loaded(Err(e)),
        Outcome::Scanned(Ok(scan))@ == OutcomeModel::Scanned(Ok(scan@)),
        Outcome::Scanned(Err(e))@ == OutcomeModel::Scanned(Err(e)),
        Outcome::Boosted(Ok(report))@ == OutcomeModel::Boosted(Ok(report@)),
        Outcome::Boosted(Err(e))@ == OutcomeModel::Boosted(Err(e)),
        Outcome::Ended(done)@ == OutcomeModel::Ended(done),
        Outcome::Recovered(recovered)@ == OutcomeModel::Recovered(recovered),
        Progress::Next(action)@ == ProgressModel::Next(action),
        Progress::Done(outcome)@ == ProgressModel::Done(outcome@),
{
}

/// There is one refusal to stack a boost on another, and it says that a boost is active.
pub proof fn law_refusal_says_why(e: BoosterError)
    requires
        is_refusal(e),
    ensures
        e.text() == "OS error: "@ + "a boost is already active"@,
{
}

} // verus!
