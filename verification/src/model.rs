//! The engine as a state machine: what its operations, the actions that it asks
//! for and the replies that it gets mean.

use vstd::prelude::*;

use crate::classify::{Classifier, ProfileModel};
use crate::engine::Action;
use crate::error::BoosterError;
use crate::process::ProcessInfo;
use crate::scan::{process_candidates, service_candidates, CandidateModel, ScanModel};
use crate::service::{action_for, ServiceAction, ServiceInfo};
use crate::session::{
    initial_ttl, new_session, ProcessRecord, ServiceRecord, SessionId, SessionModel,
};
use crate::time::{Span, Timestamp};

verus! {

/// What a boost report holds.
#[verifier::ext_equal]
pub struct ReportModel {
    pub session_id: SessionId,
    pub suspended_processes: nat,
    pub changed_services: nat,
    pub skipped: Seq<Seq<char>>,
}

/// A reply to an action.
pub enum EventModel {
    Saved(Result<(), BoosterError>),
    Processes(Result<Seq<ProcessInfo>, BoosterError>),
    Suspended(Result<(), BoosterError>),
    Services(Result<Seq<ServiceInfo>, BoosterError>),
    Changed(Result<ServiceAction, BoosterError>),
    Restored(Result<(), BoosterError>),
    Matched(bool),
    Resumed(Result<(), BoosterError>),
    Cleared(Result<(), BoosterError>),
    Loaded(Result<Option<SessionModel>, BoosterError>),
}

/// What an operation came to.
pub enum OutcomeModel {
    Scanned(Result<ScanModel, BoosterError>),
    Boosted(Result<ReportModel, BoosterError>),
    Ended(Result<(), BoosterError>),
    Recovered(Result<bool, BoosterError>),
}

/// What follows a reply: another action, or the end of the operation.
pub enum ProgressModel {
    Next(Action),
    Done(OutcomeModel),
}

/// The action of a boost that is pending.
#[derive(Clone, Copy, PartialEq, Eq, Structural)]
pub enum BoostStage {
    /// The session, still empty, is being saved.
    Reserve,
    /// The processes are being listed.
    ListProcesses,
    /// The record of the first of the processes to do is being saved.
    RecordProcess,
    /// The first of the processes to do, which is on record, is being suspended.
    Suspend,
    /// A process could not be suspended: the session is being saved without its
    /// record.
    AmendProcess,
    /// The services are being listed.
    ListServices,
    /// The record of the first of the services to do is being saved.
    RecordService,
    /// The first of the services to do, which is on record, is being paused or
    /// stopped.
    Change,
    /// A service could not be changed, or not in the way that was expected: the
    /// session is being saved without its record, or with the record set right.
    AmendService,
}

/// A boost that is being applied.
#[verifier::ext_equal]
pub struct BoostModel {
    pub session: SessionModel,
    pub profile: ProfileModel,
    pub skipped: Seq<Seq<char>>,
    /// The eligible processes that are still to be suspended, in order, the one
    /// at hand first.
    pub processes: Seq<ProcessInfo>,
    /// The eligible services that are still to be changed, in order, the one at
    /// hand first.
    pub services: Seq<ServiceInfo>,
    pub stage: BoostStage,
}

/// The action of a restore that is pending.
#[derive(Clone, Copy, PartialEq, Eq, Structural)]
pub enum RestoreStage {
    /// The last of the services to do is being restored.
    Service,
    /// The last of the processes to do is being looked up.
    Match,
    /// The last of the processes to do is being resumed.
    Resume,
    /// The stored session is being removed.
    Clear,
}

/// A session that is being restored.
#[verifier::ext_equal]
pub struct RestoreModel {
    /// The services that are still to be restored, the next one last.
    pub services: Seq<ServiceRecord>,
    /// The processes that are still to be resumed, the next one last.
    pub processes: Seq<ProcessRecord>,
    pub stage: RestoreStage,
    /// Whether this undoes a session found in the store.
    pub recovering: bool,
}

/// The operation that is under way.
#[verifier::ext_equal]
pub enum TaskModel {
    Idle,
    ScanProcesses { profile: ProfileModel },
    ScanServices { profile: ProfileModel, processes: Seq<CandidateModel> },
    Boost(BoostModel),
    Restore(RestoreModel),
    Load,
}

/// The engine: the boost that is applied, if any, and the operation under way.
#[verifier::ext_equal]
pub struct EngineModel {
    pub active: Option<SessionModel>,
    pub task: TaskModel,
}

/// The engine with nothing under way.
pub open spec fn idle(active: Option<SessionModel>) -> EngineModel {
    EngineModel { active, task: TaskModel::Idle }
}

/// The end of an operation.
pub open spec fn done(active: Option<SessionModel>, outcome: OutcomeModel) -> (
    EngineModel,
    ProgressModel,
) {
    (idle(active), ProgressModel::Done(outcome))
}

/// The processes that a boost suspends, out of those listed.
pub open spec fn eligible_processes(
    c: Classifier,
    procs: Seq<ProcessInfo>,
    profile: ProfileModel,
) -> Seq<ProcessInfo> {
    procs.filter(|p: ProcessInfo| c.allows_process(p, profile))
}

/// The services that a boost pauses or stops, out of those listed.
pub open spec fn eligible_services(
    c: Classifier,
    services: Seq<ServiceInfo>,
    profile: ProfileModel,
) -> Seq<ServiceInfo> {
    services.filter(|s: ServiceInfo| c.allows_service(s, profile))
}

/// What is recorded of a process before it is suspended.
pub open spec fn process_record(p: ProcessInfo) -> ProcessRecord {
    ProcessRecord {
        pid: p.pid,
        name: p.name,
        image_path: p.image_path,
        start_time: p.start_time,
    }
}

/// What is recorded of a service that `action` is done to.
pub open spec fn service_record(s: ServiceInfo, action: ServiceAction) -> ServiceRecord {
    ServiceRecord { name: s.name, original_state: s.state, action }
}

/// The note of a process that could not be suspended.
pub open spec fn process_note(p: ProcessInfo, e: BoosterError) -> Seq<char> {
    "process "@ + p.name@ + ": "@ + e.text()
}

/// The note of a service that could not be changed.
pub open spec fn service_note(s: ServiceInfo, e: BoosterError) -> Seq<char> {
    "service "@ + s.name@ + ": "@ + e.text()
}

/// What a boost reports in the end.
pub open spec fn report(b: BoostModel) -> ReportModel {
    ReportModel {
        session_id: b.session.id,
        suspended_processes: b.session.processes.len(),
        changed_services: b.session.services.len(),
        skipped: b.skipped,
    }
}

/// A boost saves its session.
pub open spec fn boost_saves(active: Option<SessionModel>, b: BoostModel) -> (
    EngineModel,
    ProgressModel,
) {
    (
        EngineModel { active, task: TaskModel::Boost(b) },
        ProgressModel::Next(Action::SaveSession),
    )
}

/// A boost goes on with the processes to do, and with the services after them. A
/// process is put on record, and the record saved, before it is suspended.
pub open spec fn boost_processes(active: Option<SessionModel>, b: BoostModel) -> (
    EngineModel,
    ProgressModel,
) {
    if b.processes.len() > 0 {
        boost_saves(
            active,
            BoostModel {
                session: SessionModel {
                    processes: b.session.processes.push(process_record(b.processes[0])),
                    ..b.session
                },
                stage: BoostStage::RecordProcess,
                ..b
            },
        )
    } else {
        (
            EngineModel {
                active,
                task: TaskModel::Boost(BoostModel { stage: BoostStage::ListServices, ..b }),
            },
            ProgressModel::Next(Action::EnumerateServices),
        )
    }
}

/// A boost goes on with the services to do, and is applied after them. A service
/// is put on record, and the record saved, before it is changed; what will be
/// done to it follows from whether it can be paused.
pub open spec fn boost_services(active: Option<SessionModel>, b: BoostModel) -> (
    EngineModel,
    ProgressModel,
) {
    if b.services.len() > 0 {
        let x = b.services[0];
        boost_saves(
            active,
            BoostModel {
                session: SessionModel {
                    services: b.session.services.push(service_record(x, action_for(x))),
                    ..b.session
                },
                stage: BoostStage::RecordService,
                ..b
            },
        )
    } else {
        done(Some(b.session), OutcomeModel::Boosted(Ok(report(b))))
    }
}

/// How a boost takes a reply; `None` if the reply is not to its pending action.
pub open spec fn boost_step(
    c: Classifier,
    active: Option<SessionModel>,
    b: BoostModel,
    e: EventModel,
) -> Option<(EngineModel, ProgressModel)> {
    match (b.stage, e) {
        (BoostStage::Reserve, EventModel::Saved(r)) => match r {
            Ok(_) => Some(
                (
                    EngineModel {
                        active,
                        task: TaskModel::Boost(
                            BoostModel { stage: BoostStage::ListProcesses, ..b },
                        ),
                    },
                    ProgressModel::Next(Action::EnumerateProcesses),
                ),
            ),
            Err(e) => Some(done(active, OutcomeModel::Boosted(Err(e)))),
        },
        (BoostStage::ListProcesses, EventModel::Processes(r)) => match r {
            Ok(procs) => Some(
                boost_processes(
                    active,
                    BoostModel { processes: eligible_processes(c, procs, b.profile), ..b },
                ),
            ),
            Err(e) => Some(done(active, OutcomeModel::Boosted(Err(e)))),
        },
        (BoostStage::RecordProcess, EventModel::Saved(r)) => if b.processes.len() == 0 {
            None
        } else {
            match r {
                Ok(_) => Some(
                    (
                        EngineModel {
                            active,
                            task: TaskModel::Boost(BoostModel { stage: BoostStage::Suspend, ..b }),
                        },
                        ProgressModel::Next(Action::Suspend { pid: b.processes[0].pid }),
                    ),
                ),
                Err(e) => Some(done(active, OutcomeModel::Boosted(Err(e)))),
            }
        },
        (BoostStage::Suspend, EventModel::Suspended(r)) => if b.processes.len() == 0
            || b.session.processes.len() == 0 {
            None
        } else {
            let p = b.processes[0];
            let rest = b.processes.drop_first();
            match r {
                Ok(_) => Some(boost_processes(active, BoostModel { processes: rest, ..b })),
                Err(e) => Some(
                    boost_saves(
                        active,
                        BoostModel {
                            session: SessionModel {
                                processes: b.session.processes.drop_last(),
                                ..b.session
                            },
                            skipped: b.skipped.push(process_note(p, e)),
                            processes: rest,
                            stage: BoostStage::AmendProcess,
                            ..b
                        },
                    ),
                ),
            }
        },
        (BoostStage::AmendProcess, EventModel::Saved(r)) => match r {
            Ok(_) => Some(boost_processes(active, b)),
            Err(e) => Some(done(active, OutcomeModel::Boosted(Err(e)))),
        },
        (BoostStage::ListServices, EventModel::Services(r)) => match r {
            Ok(services) => Some(
                boost_services(
                    active,
                    BoostModel { services: eligible_services(c, services, b.profile), ..b },
                ),
            ),
            Err(e) => Some(done(active, OutcomeModel::Boosted(Err(e)))),
        },
        (BoostStage::RecordService, EventModel::Saved(r)) => if b.services.len() == 0 {
            None
        } else {
            match r {
                Ok(_) => Some(
                    (
                        EngineModel {
                            active,
                            task: TaskModel::Boost(BoostModel { stage: BoostStage::Change, ..b }),
                        },
                        ProgressModel::Next(Action::PauseOrStop { name: b.services[0].name }),
                    ),
                ),
                Err(e) => Some(done(active, OutcomeModel::Boosted(Err(e)))),
            }
        },
        (BoostStage::Change, EventModel::Changed(r)) => if b.services.len() == 0
            || b.session.services.len() == 0 {
            None
        } else {
            let x = b.services[0];
            let rest = b.services.drop_first();
            let before = b.session.services.drop_last();
            match r {
                Ok(action) => if action == action_for(x) {
                    Some(boost_services(active, BoostModel { services: rest, ..b }))
                } else {
                    Some(
                        boost_saves(
                            active,
                            BoostModel {
                                session: SessionModel {
                                    services: before.push(service_record(x, action)),
                                    ..b.session
                                },
                                services: rest,
                                stage: BoostStage::AmendService,
                                ..b
                            },
                        ),
                    )
                },
                Err(e) => Some(
                    boost_saves(
                        active,
                        BoostModel {
                            session: SessionModel { services: before, ..b.session },
                            skipped: b.skipped.push(service_note(x, e)),
                            services: rest,
                            stage: BoostStage::AmendService,
                            ..b
                        },
                    ),
                ),
            }
        },
        (BoostStage::AmendService, EventModel::Saved(r)) => match r {
            Ok(_) => Some(boost_services(active, b)),
            Err(e) => Some(done(active, OutcomeModel::Boosted(Err(e)))),
        },
        _ => None,
    }
}

/// A restore goes on with the services to do, with the processes after them,
/// and removes the stored session in the end.
pub open spec fn restore_next(active: Option<SessionModel>, r: RestoreModel) -> (
    EngineModel,
    ProgressModel,
) {
    if r.services.len() > 0 {
        let rec = r.services.last();
        (
            EngineModel {
                active,
                task: TaskModel::Restore(RestoreModel { stage: RestoreStage::Service, ..r }),
            },
            ProgressModel::Next(
                Action::Restore {
                    name: rec.name,
                    original: rec.original_state,
                    action: rec.action,
                },
            ),
        )
    } else if r.processes.len() > 0 {
        let rec = r.processes.last();
        (
            EngineModel {
                active,
                task: TaskModel::Restore(RestoreModel { stage: RestoreStage::Match, ..r }),
            },
            ProgressModel::Next(Action::Match { pid: rec.pid, start_time: rec.start_time }),
        )
    } else {
        (
            EngineModel {
                active,
                task: TaskModel::Restore(RestoreModel { stage: RestoreStage::Clear, ..r }),
            },
            ProgressModel::Next(Action::ClearSession),
        )
    }
}

/// The start of the restore of `session`. No boost is active from here on.
pub open spec fn restore_begin(session: SessionModel, recovering: bool) -> (
    EngineModel,
    ProgressModel,
) {
    restore_next(
        None,
        RestoreModel {
            services: session.services,
            processes: session.processes,
            stage: RestoreStage::Clear,
            recovering,
        },
    )
}

/// What a restore came to, by what removing the stored session came to.
pub open spec fn restore_outcome(recovering: bool, r: Result<(), BoosterError>) -> OutcomeModel {
    if recovering {
        OutcomeModel::Recovered(
            match r {
                Ok(_) => Ok(true),
                Err(e) => Err(e),
            },
        )
    } else {
        OutcomeModel::Ended(r)
    }
}

/// How a restore takes a reply; `None` if the reply is not to its pending
/// action.
pub open spec fn restore_step(
    active: Option<SessionModel>,
    r: RestoreModel,
    e: EventModel,
) -> Option<(EngineModel, ProgressModel)> {
    match (r.stage, e) {
        (RestoreStage::Service, EventModel::Restored(_)) => if r.services.len() == 0 {
            None
        } else {
            Some(restore_next(active, RestoreModel { services: r.services.drop_last(), ..r }))
        },
        (RestoreStage::Match, EventModel::Matched(same)) => if r.processes.len() == 0 {
            None
        } else if same {
            Some(
                (
                    EngineModel {
                        active,
                        task: TaskModel::Restore(
                            RestoreModel { stage: RestoreStage::Resume, ..r },
                        ),
                    },
                    ProgressModel::Next(Action::Resume { pid: r.processes.last().pid }),
                ),
            )
        } else {
            Some(restore_next(active, RestoreModel { processes: r.processes.drop_last(), ..r }))
        },
        (RestoreStage::Resume, EventModel::Resumed(_)) => if r.processes.len() == 0 {
            None
        } else {
            Some(restore_next(active, RestoreModel { processes: r.processes.drop_last(), ..r }))
        },
        (RestoreStage::Clear, EventModel::Cleared(cleared)) => Some(
            done(active, restore_outcome(r.recovering, cleared)),
        ),
        _ => None,
    }
}

/// How the engine takes a reply; `None` if the reply is not to its pending
/// action.
pub open spec fn step(c: Classifier, s: EngineModel, e: EventModel) -> Option<
    (EngineModel, ProgressModel),
> {
    match s.task {
        TaskModel::Idle => None,
        TaskModel::ScanProcesses { profile } => match e {
            EventModel::Processes(r) => match r {
                Ok(procs) => Some(
                    (
                        EngineModel {
                            active: s.active,
                            task: TaskModel::ScanServices {
                                profile,
                                processes: process_candidates(c, procs, profile),
                            },
                        },
                        ProgressModel::Next(Action::EnumerateServices),
                    ),
                ),
                Err(e) => Some(done(s.active, OutcomeModel::Scanned(Err(e)))),
            },
            _ => None,
        },
        TaskModel::ScanServices { profile, processes } => match e {
            EventModel::Services(r) => match r {
                Ok(services) => Some(
                    done(
                        s.active,
                        OutcomeModel::Scanned(
                            Ok(
                                ScanModel {
                                    processes,
                                    services: service_candidates(c, services, profile),
                                },
                            ),
                        ),
                    ),
                ),
                Err(e) => Some(done(s.active, OutcomeModel::Scanned(Err(e)))),
            },
            _ => None,
        },
        TaskModel::Boost(b) => boost_step(c, s.active, b, e),
        TaskModel::Restore(r) => restore_step(s.active, r, e),
        TaskModel::Load => match e {
            EventModel::Loaded(r) => match r {
                Ok(Some(session)) => Some(restore_begin(session, true)),
                Ok(None) => Some(done(s.active, OutcomeModel::Recovered(Ok(false)))),
                Err(e) => Some(done(s.active, OutcomeModel::Recovered(Err(e)))),
            },
            _ => None,
        },
    }
}

/// The session that the engine wants saved, while a save is pending.
pub open spec fn to_save(s: EngineModel) -> Option<SessionModel> {
    match s.task {
        TaskModel::Boost(b) => match b.stage {
            BoostStage::Reserve | BoostStage::RecordProcess | BoostStage::AmendProcess
            | BoostStage::RecordService | BoostStage::AmendService => Some(b.session),
            _ => None,
        },
        _ => None,
    }
}

/// The engine once a boost has begun.
pub open spec fn boost_begun(s: EngineModel, session: SessionModel, profile: ProfileModel) -> (
    EngineModel
) {
    EngineModel {
        active: s.active,
        task: TaskModel::Boost(
            BoostModel {
                session,
                profile,
                skipped: Seq::empty(),
                processes: Seq::empty(),
                services: Seq::empty(),
                stage: BoostStage::Reserve,
            },
        ),
    }
}

/// The engine after a heartbeat at `now` that is good for `ttl`.
pub open spec fn beaten(s: EngineModel, ttl: Span, now: Timestamp) -> EngineModel {
    EngineModel {
        active: match s.active {
            Some(session) => Some(session.bumped(ttl, now)),
            None => None,
        },
        ..s
    }
}

/// Whether a boost is applied whose deadline has passed at `now`.
pub open spec fn overdue(s: EngineModel, now: Timestamp) -> bool {
    match s.active {
        Some(session) => session.expired(now),
        None => false,
    }
}

/// How far an operation is from its end: its phase, and the steps left in the
/// phase. A phase that lists processes or services settles how many steps the
/// next one has.
pub open spec fn distance(task: TaskModel) -> (nat, nat) {
    match task {
        TaskModel::Idle => (0, 0),
        TaskModel::ScanProcesses { .. } => (2, 0),
        TaskModel::ScanServices { .. } => (1, 0),
        TaskModel::Boost(b) => match b.stage {
            BoostStage::Reserve => (5, 0),
            BoostStage::ListProcesses => (4, 0),
            BoostStage::RecordProcess => (3, 3 * b.processes.len() + 2),
            BoostStage::Suspend => (3, 3 * b.processes.len() + 1),
            BoostStage::AmendProcess => (3, 3 * b.processes.len() + 3),
            BoostStage::ListServices => (2, 0),
            BoostStage::RecordService => (1, 3 * b.services.len() + 2),
            BoostStage::Change => (1, 3 * b.services.len() + 1),
            BoostStage::AmendService => (1, 3 * b.services.len() + 3),
        },
        TaskModel::Restore(r) => (
            1,
            r.services.len() + 2 * r.processes.len() + if r.stage == RestoreStage::Resume {
                0nat
            } else {
                1nat
            },
        ),
        TaskModel::Load => (2, 0),
    }
}

/// Whether `task` is nearer to its end than `before`.
pub open spec fn nearer(task: TaskModel, before: TaskModel) -> bool {
    let (phase, left) = distance(task);
    let (phase_before, left_before) = distance(before);
    phase < phase_before || (phase == phase_before && left < left_before)
}

/// Every operation ends: each reply brings it nearer to its end, and then the
/// engine is idle.
pub proof fn law_operations_end(c: Classifier, s: EngineModel, e: EventModel)
    requires
        step(c, s, e) is Some,
    ensures
        match step(c, s, e)->0 {
            (s2, ProgressModel::Next(_)) => nearer(s2.task, s.task),
            (s2, ProgressModel::Done(_)) => s2.task is Idle,
        },
{
}

/// A heartbeat keeps the boost alive for its time and no longer: from then on
/// the boost is overdue exactly after `ttl` has passed.
pub proof fn law_heartbeat_sets_the_deadline(
    s: EngineModel,
    ttl: Span,
    now: Timestamp,
    later: Timestamp,
)
    requires
        s.active is Some,
        now.can_add(ttl),
    ensures
        overdue(beaten(s, ttl, now), later) <==> later.nanos > now.nanos + ttl.total(),
{
}

/// A boost that is being applied keeps its identity, its start and its deadline,
/// to the applied boost.
pub proof fn law_boost_keeps_its_deadline(
    c: Classifier,
    active: Option<SessionModel>,
    b: BoostModel,
    e: EventModel,
)
    requires
        boost_step(c, active, b, e) is Some,
    ensures
        match boost_step(c, active, b, e)->0 {
            (s2, ProgressModel::Next(_)) => s2.task is Boost && same_boost(
                s2.task->Boost_0.session,
                b.session,
            ),
            (s2, ProgressModel::Done(OutcomeModel::Boosted(Ok(_)))) => s2.active is Some
                && same_boost(s2.active->0, b.session),
            _ => true,
        },
{
}

/// Whether two sessions are of the same boost and have the same deadline.
pub open spec fn same_boost(a: SessionModel, b: SessionModel) -> bool {
    &&& a.id == b.id
    &&& a.started_at == b.started_at
    &&& a.profile == b.profile
    &&& a.deadline == b.deadline
}

/// Without a boost nothing is ever overdue, and a heartbeat does nothing.
pub proof fn law_heartbeat_needs_a_boost(s: EngineModel, ttl: Span, now: Timestamp)
    requires
        s.active is None,
    ensures
        beaten(s, ttl, now) == s,
        !overdue(s, now),
{
}

/// A new session is overdue exactly after its initial time, thirty seconds, has passed.
pub proof fn law_new_session_has_a_deadline(
    profile: Seq<char>,
    id: SessionId,
    now: Timestamp,
    later: Timestamp,
)
    requires
        now.can_add(initial_ttl()),
    ensures
        new_session(profile, id, now).expired(later) <==> later.nanos > now.nanos
            + initial_ttl().total(),
        new_session(profile, id, now).expired(later) <==> later.nanos > now.nanos
            + 30_000_000_000,
{
}

/// What is recorded of an item is what was listed of it, and what is done to it.
pub proof fn law_records_are_of_the_item(p: ProcessInfo, s: ServiceInfo, action: ServiceAction)
    ensures
        process_record(p).pid == p.pid,
        process_record(p).name == p.name,
        process_record(p).image_path == p.image_path,
        process_record(p).start_time == p.start_time,
        service_record(s, action).name == s.name,
        service_record(s, action).original_state == s.state,
        service_record(s, action).action == action,
{
}

/// A new session has the identity, the start and the profile that it was given, and
/// records nothing yet.
pub proof fn law_new_session_is_empty(profile: Seq<char>, id: SessionId, now: Timestamp)
    ensures
        new_session(profile, id, now).id == id,
        new_session(profile, id, now).started_at == now,
        new_session(profile, id, now).profile == profile,
        new_session(profile, id, now).processes.len() == 0,
        new_session(profile, id, now).services.len() == 0,
{
}

/// A heartbeat changes nothing but the deadline.
pub proof fn law_heartbeat_moves_only_the_deadline(s: EngineModel, ttl: Span, now: Timestamp)
    requires
        s.active is Some,
    ensures
        ({
            let after = beaten(s, ttl, now);
            &&& after.task == s.task
            &&& after.active is Some
            &&& after.active->0.id == s.active->0.id
            &&& after.active->0.started_at == s.active->0.started_at
            &&& after.active->0.profile == s.active->0.profile
            &&& after.active->0.processes == s.active->0.processes
            &&& after.active->0.services == s.active->0.services
        }),
{
}

/// A boost is overdue from its deadline on, and stays so until a heartbeat: exactly the
/// times past the deadline are overdue.
pub proof fn law_overdue_is_past_the_deadline(s: EngineModel, now: Timestamp, later: Timestamp)
    requires
        s.active is Some,
    ensures
        overdue(s, now) <==> s.active->0.deadline.nanos < now.nanos,
        overdue(s, now) && now.nanos <= later.nanos ==> overdue(s, later),
        !overdue(s, s.active->0.deadline),
{
}

/// What a boost reports is what it did: it gives its own identity, and exactly the notes
/// that were taken.
pub proof fn law_report_is_of_the_boost(
    c: Classifier,
    active: Option<SessionModel>,
    b: BoostModel,
    e: EventModel,
)
    requires
        boost_step(c, active, b, e) is Some,
        (boost_step(c, active, b, e)->0).1 matches ProgressModel::Done(
            OutcomeModel::Boosted(Ok(_)),
        ),
    ensures
        ({
            let (s2, p2) = boost_step(c, active, b, e)->0;
            let r = p2->Done_0->Boosted_0->Ok_0;
            &&& s2.active is Some
            &&& r.session_id == b.session.id
            &&& r.session_id == s2.active->0.id
            &&& r.suspended_processes == s2.active->0.processes.len()
            &&& r.changed_services == s2.active->0.services.len()
            &&& r.skipped == b.skipped
            &&& s2.active->0 == b.session
        }),
{
}

/// With nothing under way no reply is taken.
pub proof fn law_idle_takes_no_reply(c: Classifier, active: Option<SessionModel>, e: EventModel)
    ensures
        step(c, idle(active), e) is None,
        idle(active).active == active,
        to_save(idle(active)) is None,
{
}

} // verus!
