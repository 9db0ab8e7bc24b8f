//! What the engine guarantees of the system that it works on: only eligible
//! items are touched, every change is on disk before it is made, and what was
//! changed can be brought back.

use vstd::prelude::*;

use crate::classify::{Classifier, ProfileModel};
use crate::engine::Action;
use crate::error::BoosterError;
use crate::model::{
    boost_begun, boost_processes, boost_services, eligible_processes, eligible_services, idle,
    process_record, restore_begin, restore_step, service_record, step, to_save, BoostModel,
    BoostStage, EngineModel, EventModel, OutcomeModel, ProgressModel, RestoreModel, RestoreStage,
    TaskModel,
};
use crate::process::{lists_process, ProcessInfo};
use crate::service::{
    action_for, find_named, is_first_named, state_after, with_state, ServiceAction, ServiceInfo,
    ServiceState,
};
use crate::session::{ProcessRecord, ServiceRecord, SessionModel};

verus! {

/// The system that the engine works on, and the store.
#[verifier::ext_equal]
pub struct World {
    /// The processes that run.
    pub procs: Seq<ProcessInfo>,
    /// The pids that are suspended.
    pub suspended: Set<u32>,
    /// The services.
    pub services: Seq<ServiceInfo>,
    /// The session in the store.
    pub disk: Option<SessionModel>,
}

/// Whether performing `a` in the world `w` may give the reply `e` and lead to
/// the world `w2`. An operation that fails changes nothing; the store, when it
/// is told to save, is given `saving`.
///
/// Restoring a service, if it succeeds, brings back its original state, whatever
/// `action` says of how it was left, as
/// [`ServiceController::restore`](crate::service::ServiceController::restore) asks
/// of a backend. A backend that goes by `action` alone, as the Windows one does,
/// does less for a service whose record names another action than was done.
pub open spec fn answers(
    w: World,
    saving: Option<SessionModel>,
    a: Action,
    e: EventModel,
    w2: World,
) -> bool {
    match (a, e) {
        (Action::SaveSession, EventModel::Saved(r)) => match r {
            Ok(_) => saving is Some && w2 == (World { disk: saving, ..w }),
            Err(_) => w2 == w,
        },
        (Action::EnumerateProcesses, EventModel::Processes(r)) => {
            &&& w2 == w
            &&& r is Ok ==> r->Ok_0 == w.procs
        },
        (Action::Suspend { pid }, EventModel::Suspended(r)) => match r {
            Ok(_) => w2 == (World { suspended: w.suspended.insert(pid), ..w }),
            Err(_) => w2 == w,
        },
        (Action::EnumerateServices, EventModel::Services(r)) => {
            &&& w2 == w
            &&& r is Ok ==> r->Ok_0 == w.services
        },
        (Action::PauseOrStop { name }, EventModel::Changed(r)) => match r {
            Ok(action) => w2 == (World {
                services: with_state(w.services, name@, state_after(action)),
                ..w
            }),
            Err(_) => w2 == w,
        },
        (Action::Restore { name, original, action }, EventModel::Restored(r)) => match r {
            Ok(_) => w2 == (World { services: with_state(w.services, name@, original), ..w }),
            Err(_) => w2 == w,
        },
        (Action::Match { pid, start_time }, EventModel::Matched(same)) => {
            &&& w2 == w
            &&& same == lists_process(w.procs, pid, start_time)
        },
        (Action::Resume { pid }, EventModel::Resumed(r)) => match r {
            Ok(_) => w2 == (World { suspended: w.suspended.remove(pid), ..w }),
            Err(_) => w2 == w,
        },
        (Action::ClearSession, EventModel::Cleared(r)) => match r {
            Ok(_) => w2 == (World { disk: None, ..w }),
            Err(_) => w2 == w,
        },
        (Action::LoadSession, EventModel::Loaded(r)) => {
            &&& w2 == w
            &&& r is Ok ==> r->Ok_0 == w.disk
        },
        _ => false,
    }
}

/// Whether the reply reports a success.
pub open spec fn succeeds(e: EventModel) -> bool {
    match e {
        EventModel::Saved(r) => r is Ok,
        EventModel::Processes(r) => r is Ok,
        EventModel::Suspended(r) => r is Ok,
        EventModel::Services(r) => r is Ok,
        EventModel::Changed(r) => r is Ok,
        EventModel::Restored(r) => r is Ok,
        EventModel::Matched(_) => true,
        EventModel::Resumed(r) => r is Ok,
        EventModel::Cleared(r) => r is Ok,
        EventModel::Loaded(r) => r is Ok,
    }
}

/// Whether a process with this pid is among the records.
pub open spec fn has_pid(recs: Seq<ProcessRecord>, pid: u32) -> bool {
    exists|i: int| 0 <= i < recs.len() && (#[trigger] recs[i]).pid == pid
}

/// Whether a service of this name is among the records.
pub open spec fn has_name(recs: Seq<ServiceRecord>, name: Seq<char>) -> bool {
    exists|i: int| 0 <= i < recs.len() && (#[trigger] recs[i]).name@ == name
}

/// The services after the recorded changes, made in order.
pub open spec fn changed_by(services: Seq<ServiceInfo>, recs: Seq<ServiceRecord>) -> Seq<
    ServiceInfo,
>
    decreases recs.len(),
{
    if recs.len() == 0 {
        services
    } else {
        with_state(
            changed_by(services, recs.drop_last()),
            recs.last().name@,
            state_after(recs.last().action),
        )
    }
}

/// The services after the recorded changes have been undone, the latest first.
pub open spec fn undone(services: Seq<ServiceInfo>, recs: Seq<ServiceRecord>) -> Seq<ServiceInfo>
    decreases recs.len(),
{
    if recs.len() == 0 {
        services
    } else {
        undone(
            with_state(services, recs.last().name@, recs.last().original_state),
            recs.drop_last(),
        )
    }
}

/// Whether no two services have the same name.
pub open spec fn distinct_names(services: Seq<ServiceInfo>) -> bool {
    forall|i: int, j: int|
        0 <= i < j < services.len() ==> (#[trigger] services[i]).name@ != (
        #[trigger] services[j]).name@
}

/// Whether each record is of one of `services` in its original state, and, if no
/// two services have the same name, the records are of different services.
pub open spec fn service_records_fit(
    services: Seq<ServiceInfo>,
    recs: Seq<ServiceRecord>,
) -> bool {
    &&& forall|k: int|
        0 <= k < recs.len() ==> exists|i: int|
            {
                &&& 0 <= i < services.len()
                &&& (#[trigger] services[i]).name@ == (#[trigger] recs[k]).name@
                &&& services[i].state == recs[k].original_state
            }
    &&& distinct_names(services) ==> distinct_records(recs)
}

/// Whether no two records are of services of the same name.
pub open spec fn distinct_records(recs: Seq<ServiceRecord>) -> bool {
    forall|k: int, l: int|
        0 <= k < l < recs.len() ==> (#[trigger] recs[k]).name@ != (#[trigger] recs[l]).name@
}

proof fn lemma_find(services: Seq<ServiceInfo>, i: int)
    requires
        distinct_names(services),
        0 <= i < services.len(),
    ensures
        find_named(services, services[i].name@) == Some(i),
{
    assert(is_first_named(services, services[i].name@, i));
    let k = choose|k: int| is_first_named(services, services[i].name@, k);
    assert(is_first_named(services, services[i].name@, k));
    if k != i {
        if k < i {
            assert(services[k].name@ != services[i].name@);
        } else {
            assert(services[i].name@ != services[k].name@);
        }
    }
}

/// Setting a state keeps everything but states, and the services of other names.
proof fn lemma_with_state_keeps(services: Seq<ServiceInfo>, name: Seq<char>, state: ServiceState)
    ensures
        with_state(services, name, state).len() == services.len(),
        forall|i: int|
            0 <= i < services.len() ==> {
                let t = #[trigger] with_state(services, name, state)[i];
                &&& t == (ServiceInfo { state: t.state, ..services[i] })
                &&& services[i].name@ != name ==> t == services[i]
            },
{
    match find_named(services, name) {
        Some(k) => {
            assert(is_first_named(services, name, k));
        },
        None => {},
    }
}

/// Setting a state sets it in the service of that name, and in no other.
proof fn lemma_with_state(services: Seq<ServiceInfo>, name: Seq<char>, state: ServiceState)
    requires
        distinct_names(services),
    ensures
        with_state(services, name, state).len() == services.len(),
        distinct_names(with_state(services, name, state)),
        forall|i: int|
            0 <= i < services.len() ==> {
                &&& (#[trigger] with_state(services, name, state)[i]).name == services[i].name
                &&& services[i].name@ != name ==> with_state(services, name, state)[i]
                    == services[i]
                &&& services[i].name@ == name ==> with_state(services, name, state)[i] == (
                ServiceInfo { state, ..services[i] })
            },
{
    let t = with_state(services, name, state);
    lemma_with_state_keeps(services, name, state);
    assert forall|i: int| 0 <= i < services.len() implies {
        &&& (#[trigger] t[i]).name == services[i].name
        &&& services[i].name@ != name ==> t[i] == services[i]
        &&& services[i].name@ == name ==> t[i] == (ServiceInfo { state, ..services[i] })
    } by {
        if services[i].name@ == name {
            lemma_find(services, i);
        }
    }
    assert forall|i: int, j: int| 0 <= i < j < t.len() implies (#[trigger] t[i]).name@ != (
    #[trigger] t[j]).name@ by {
        assert(t[i].name == services[i].name);
        assert(t[j].name == services[j].name);
        assert(services[i].name@ != services[j].name@);
    }
}

/// The recorded changes keep everything but states, and the services that are
/// not recorded.
pub proof fn lemma_changed_by(services: Seq<ServiceInfo>, recs: Seq<ServiceRecord>)
    ensures
        changed_by(services, recs).len() == services.len(),
        forall|i: int|
            0 <= i < services.len() ==> {
                let t = #[trigger] changed_by(services, recs)[i];
                &&& t == (ServiceInfo { state: t.state, ..services[i] })
                &&& !has_name(recs, services[i].name@) ==> t == services[i]
            },
        distinct_names(services) ==> distinct_names(changed_by(services, recs)),
    decreases recs.len(),
{
    let t = changed_by(services, recs);
    if recs.len() > 0 {
        let rest = recs.drop_last();
        let before = changed_by(services, rest);
        lemma_changed_by(services, rest);
        lemma_with_state_keeps(before, recs.last().name@, state_after(recs.last().action));
        assert forall|i: int| 0 <= i < services.len() implies {
            &&& #[trigger] t[i] == (ServiceInfo { state: t[i].state, ..services[i] })
            &&& !has_name(recs, services[i].name@) ==> t[i] == services[i]
        } by {
            assert(before[i] == (ServiceInfo { state: before[i].state, ..services[i] }));
            lemma_has_name_last(recs, services[i].name@);
        }
    }
    if distinct_names(services) {
        assert forall|i: int, j: int| 0 <= i < j < t.len() implies (#[trigger] t[i]).name@ != (
        #[trigger] t[j]).name@ by {
            assert(services[i].name@ != services[j].name@);
        }
    }
}

proof fn lemma_has_name_last(recs: Seq<ServiceRecord>, name: Seq<char>)
    requires
        recs.len() > 0,
    ensures
        has_name(recs, name) <==> has_name(recs.drop_last(), name) || recs.last().name@ == name,
{
    let rest = recs.drop_last();
    if has_name(rest, name) {
        let i = choose|i: int| 0 <= i < rest.len() && (#[trigger] rest[i]).name@ == name;
        assert(recs[i].name@ == name);
    }
    if recs.last().name@ == name {
        assert(recs[recs.len() - 1].name@ == name);
    }
    if has_name(recs, name) {
        let i = choose|i: int| 0 <= i < recs.len() && (#[trigger] recs[i]).name@ == name;
        if i < rest.len() {
            assert(rest[i].name@ == name);
        }
    }
}

/// Without the latest record the others still fit, and, if no two services have
/// the same name, they do not name its service.
proof fn lemma_service_records_prefix(services: Seq<ServiceInfo>, recs: Seq<ServiceRecord>)
    requires
        recs.len() > 0,
        service_records_fit(services, recs),
    ensures
        service_records_fit(services, recs.drop_last()),
        distinct_names(services) ==> !has_name(recs.drop_last(), recs.last().name@),
{
    let rest = recs.drop_last();
    let last = recs.last();
    assert forall|k: int| 0 <= k < rest.len() implies exists|i: int|
        {
            &&& 0 <= i < services.len()
            &&& (#[trigger] services[i]).name@ == (#[trigger] rest[k]).name@
            &&& services[i].state == rest[k].original_state
        } by {
        assert(rest[k] == recs[k]);
    }
    if distinct_names(services) {
        assert forall|k: int, l: int| 0 <= k < l < rest.len() implies (
        #[trigger] rest[k]).name@ != (#[trigger] rest[l]).name@ by {
            assert(recs[k].name@ != recs[l].name@);
        }
        if has_name(rest, last.name@) {
            let k = choose|k: int| 0 <= k < rest.len() && (#[trigger] rest[k]).name@ == last.name@;
            assert(recs[k].name@ != recs[recs.len() - 1].name@);
        }
    }
}

/// Undoing the recorded changes, the latest first, gives `original` back, if the
/// services differ from it in states alone, and only in those of services on
/// record.
proof fn lemma_undo(
    original: Seq<ServiceInfo>,
    services: Seq<ServiceInfo>,
    recs: Seq<ServiceRecord>,
)
    requires
        distinct_names(original),
        service_records_fit(original, recs),
        services.len() == original.len(),
        forall|i: int|
            0 <= i < original.len() ==> {
                &&& #[trigger] services[i] == (ServiceInfo {
                    state: services[i].state,
                    ..original[i]
                })
                &&& !has_name(recs, original[i].name@) ==> services[i] == original[i]
            },
    ensures
        undone(services, recs) == original,
    decreases recs.len(),
{
    if recs.len() == 0 {
        assert(services =~= original);
    } else {
        let rest = recs.drop_last();
        let last = recs.last();
        let next = with_state(services, last.name@, last.original_state);
        assert forall|i: int, j: int| 0 <= i < j < services.len() implies (
        #[trigger] services[i]).name@ != (#[trigger] services[j]).name@ by {
            assert(original[i].name@ != original[j].name@);
        }
        lemma_with_state(services, last.name@, last.original_state);
        lemma_service_records_prefix(original, recs);
        let k = choose|k: int|
            {
                &&& 0 <= k < original.len()
                &&& (#[trigger] original[k]).name@ == recs[recs.len() - 1].name@
                &&& original[k].state == recs[recs.len() - 1].original_state
            };
        assert forall|i: int| 0 <= i < original.len() implies {
            &&& #[trigger] next[i] == (ServiceInfo { state: next[i].state, ..original[i] })
            &&& !has_name(rest, original[i].name@) ==> next[i] == original[i]
        } by {
            assert(services[i] == (ServiceInfo { state: services[i].state, ..original[i] }));
            lemma_has_name_last(recs, original[i].name@);
            if original[i].name@ == last.name@ {
                if i < k {
                    assert(original[i].name@ != original[k].name@);
                } else if k < i {
                    assert(original[k].name@ != original[i].name@);
                }
            }
        }
        lemma_undo(original, next, rest);
    }
}

/// States of different services can be set in either order.
proof fn lemma_with_state_commutes(
    services: Seq<ServiceInfo>,
    name: Seq<char>,
    state: ServiceState,
    other: Seq<char>,
    other_state: ServiceState,
)
    requires
        distinct_names(services),
        name != other,
    ensures
        with_state(with_state(services, name, state), other, other_state) == with_state(
            with_state(services, other, other_state),
            name,
            state,
        ),
{
    let a = with_state(services, name, state);
    let b = with_state(services, other, other_state);
    lemma_with_state(services, name, state);
    lemma_with_state(services, other, other_state);
    lemma_with_state(a, other, other_state);
    lemma_with_state(b, name, state);
    let ab = with_state(a, other, other_state);
    let ba = with_state(b, name, state);
    assert forall|i: int| 0 <= i < services.len() implies ab[i] == ba[i] by {
        assert(a[i].name == services[i].name);
        assert(b[i].name == services[i].name);
    }
    assert(ab =~= ba);
}

/// A recorded change that is undone once more beforehand makes no difference.
proof fn lemma_undo_again(
    original: Seq<ServiceInfo>,
    services: Seq<ServiceInfo>,
    recs: Seq<ServiceRecord>,
    k: int,
)
    requires
        distinct_names(original),
        distinct_names(services),
        service_records_fit(original, recs),
        0 <= k < recs.len(),
    ensures
        undone(with_state(services, recs[k].name@, recs[k].original_state), recs) == undone(
            services,
            recs,
        ),
    decreases recs.len(),
{
    let rest = recs.drop_last();
    let last = recs.last();
    let once = with_state(services, last.name@, last.original_state);
    lemma_with_state(services, last.name@, last.original_state);
    if k == recs.len() - 1 {
        let twice = with_state(once, last.name@, last.original_state);
        lemma_with_state(once, last.name@, last.original_state);
        assert forall|i: int| 0 <= i < services.len() implies twice[i] == once[i] by {
            assert(once[i].name == services[i].name);
        }
        assert(twice =~= once);
    } else {
        assert(recs[k].name@ != recs[recs.len() - 1].name@);
        lemma_with_state_commutes(
            services,
            recs[k].name@,
            recs[k].original_state,
            last.name@,
            last.original_state,
        );
        lemma_service_records_prefix(original, recs);
        assert(rest[k] == recs[k]);
        lemma_undo_again(original, once, rest, k);
    }
}

/// Whether `recs` records processes of `procs` that `profile` allows to suspend.
pub open spec fn process_records_fit(
    c: Classifier,
    profile: ProfileModel,
    procs: Seq<ProcessInfo>,
    recs: Seq<ProcessRecord>,
) -> bool {
    forall|k: int|
        0 <= k < recs.len() ==> exists|i: int|
            {
                &&& 0 <= i < procs.len()
                &&& c.allows_process(#[trigger] procs[i], profile)
                &&& process_record(procs[i]) == #[trigger] recs[k]
            }
}

/// Whether every one of `todo` is a process of `procs` that `profile` allows to
/// suspend.
pub open spec fn processes_fit(
    c: Classifier,
    profile: ProfileModel,
    procs: Seq<ProcessInfo>,
    todo: Seq<ProcessInfo>,
) -> bool {
    forall|k: int|
        0 <= k < todo.len() ==> procs.contains(#[trigger] todo[k]) && c.allows_process(
            todo[k],
            profile,
        )
}

/// Whether every one of `todo` is a service of `services` that `profile` allows to
/// pause or stop; and, if no two services have the same name, they are different
/// ones, none of which is recorded yet.
pub open spec fn services_fit(
    c: Classifier,
    profile: ProfileModel,
    services: Seq<ServiceInfo>,
    todo: Seq<ServiceInfo>,
    recs: Seq<ServiceRecord>,
) -> bool {
    &&& forall|k: int|
        0 <= k < todo.len() ==> {
            &&& services.contains(#[trigger] todo[k])
            &&& c.allows_service(todo[k], profile)
            &&& distinct_names(services) ==> !has_name(recs, todo[k].name@)
        }
    &&& distinct_names(services) ==> distinct_names(todo)
}

/// Whether `rec` records one of `services` that `profile` allows to pause or stop.
pub open spec fn allowed_service(
    c: Classifier,
    profile: ProfileModel,
    services: Seq<ServiceInfo>,
    rec: ServiceRecord,
) -> bool {
    exists|x: ServiceInfo|
        {
            &&& services.contains(x)
            &&& #[trigger] c.allows_service(x, profile)
            &&& rec == service_record(x, rec.action)
        }
}

/// Whether `recs` records services of `services` that `profile` allows to pause or
/// stop.
pub open spec fn allowed_services(
    c: Classifier,
    profile: ProfileModel,
    services: Seq<ServiceInfo>,
    recs: Seq<ServiceRecord>,
) -> bool {
    forall|k: int|
        0 <= k < recs.len() ==> allowed_service(c, profile, services, #[trigger] recs[k])
}

/// The action that is pending at a stage of a boost.
pub open spec fn boost_action(b: BoostModel) -> Action {
    match b.stage {
        BoostStage::Reserve | BoostStage::RecordProcess | BoostStage::AmendProcess
        | BoostStage::RecordService | BoostStage::AmendService => Action::SaveSession,
        BoostStage::ListProcesses => Action::EnumerateProcesses,
        BoostStage::Suspend => Action::Suspend { pid: b.processes[0].pid },
        BoostStage::ListServices => Action::EnumerateServices,
        BoostStage::Change => Action::PauseOrStop { name: b.services[0].name },
    }
}

/// The part of a boost's session that records changes that were made: all of it,
/// but for the record of the item at hand.
pub open spec fn made(b: BoostModel) -> SessionModel {
    match b.stage {
        BoostStage::RecordProcess | BoostStage::Suspend => SessionModel {
            processes: b.session.processes.drop_last(),
            ..b.session
        },
        BoostStage::RecordService | BoostStage::Change => SessionModel {
            services: b.session.services.drop_last(),
            ..b.session
        },
        _ => b.session,
    }
}

/// Whether the store, once the first save has succeeded, may hold `disk`: the
/// session of the boost; or, while a record is being saved, the session without
/// it; or, while the session is being set right after an item failed or was
/// changed in another way, the session with that item's record as it was.
pub open spec fn stored(b: BoostModel, disk: SessionModel) -> bool {
    match b.stage {
        BoostStage::RecordProcess | BoostStage::RecordService => disk == made(b),
        BoostStage::AmendProcess => {
            &&& disk == (SessionModel { processes: disk.processes, ..b.session })
            &&& disk.processes.len() > 0
            &&& disk.processes.drop_last() == b.session.processes
        },
        BoostStage::AmendService => {
            &&& disk == (SessionModel { services: disk.services, ..b.session })
            &&& disk.services.len() > 0
            &&& disk.services.drop_last() == b.session.services || {
                &&& b.session.services.len() > 0
                &&& disk.services.drop_last() == b.session.services.drop_last()
                &&& disk.services.last().name == b.session.services.last().name
            }
        },
        _ => disk == b.session,
    }
}

/// Whether `w` is `w0` with the changes that `session` records, and nothing
/// else, done to its processes and services.
pub open spec fn changed_as_recorded(w0: World, w: World, session: SessionModel) -> bool {
    &&& w.procs == w0.procs
    &&& forall|pid: u32| #[trigger]
        w.suspended.contains(pid) <==> w0.suspended.contains(pid) || has_pid(
            session.processes,
            pid,
        )
    &&& w.services == changed_by(w0.services, session.services)
}

/// Whether the session records only eligible items of `w0`.
pub open spec fn session_fits(
    c: Classifier,
    profile: ProfileModel,
    w0: World,
    session: SessionModel,
) -> bool {
    &&& process_records_fit(c, profile, w0.procs, session.processes)
    &&& service_records_fit(w0.services, session.services)
    &&& allowed_services(c, profile, w0.services, session.services)
}

/// What a boost needs to be undone without a trace: no eligible process is
/// suspended beforehand, and no two services have the same name.
pub open spec fn undoable(c: Classifier, profile: ProfileModel, w: World) -> bool {
    &&& forall|i: int|
        0 <= i < w.procs.len() && c.allows_process(#[trigger] w.procs[i], profile)
            ==> !w.suspended.contains(w.procs[i].pid)
    &&& distinct_names(w.services)
}

/// The state of a boost under way that began in the world `w0`, in the world `w`
/// with the action `a` pending.
pub open spec fn boosting(
    c: Classifier,
    w0: World,
    w: World,
    s: EngineModel,
    b: BoostModel,
    a: Action,
) -> bool {
    &&& s == (EngineModel { active: None, task: TaskModel::Boost(b) })
    &&& a == boost_action(b)
    &&& changed_as_recorded(w0, w, made(b))
    &&& session_fits(c, b.profile, w0, b.session)
    &&& if b.stage == BoostStage::Reserve {
        w.disk == w0.disk
    } else {
        &&& w.disk is Some
        &&& stored(b, w.disk->0)
        &&& session_fits(c, b.profile, w0, w.disk->0)
    }
    &&& processes_fit(c, b.profile, w0.procs, b.processes)
    &&& services_fit(c, b.profile, w0.services, b.services, made(b).services)
    &&& match b.stage {
        BoostStage::Reserve | BoostStage::ListProcesses => {
            &&& b.session.processes.len() == 0
            &&& b.session.services.len() == 0
            &&& b.processes.len() == 0
            &&& b.services.len() == 0
        },
        BoostStage::RecordProcess | BoostStage::Suspend => {
            &&& b.processes.len() > 0
            &&& b.session.processes.len() > 0
            &&& b.session.processes.last() == process_record(b.processes[0])
            &&& b.session.services.len() == 0
            &&& b.services.len() == 0
        },
        BoostStage::AmendProcess | BoostStage::ListServices => {
            &&& b.session.services.len() == 0
            &&& b.services.len() == 0
        },
        BoostStage::RecordService | BoostStage::Change => {
            &&& b.services.len() > 0
            &&& b.session.services.len() > 0
            &&& b.session.services.last() == service_record(
                b.services[0],
                action_for(b.services[0]),
            )
        },
        BoostStage::AmendService => true,
    }
}

/// The state of an applied boost that began in the world `w0`.
pub open spec fn boosted(
    c: Classifier,
    profile: ProfileModel,
    w0: World,
    w: World,
    s: EngineModel,
) -> bool {
    &&& s.task is Idle
    &&& s.active is Some
    &&& w.disk == s.active
    &&& changed_as_recorded(w0, w, s.active->0)
    &&& session_fits(c, profile, w0, s.active->0)
}

/// A filtered sequence holds only items of the whole that pass.
pub proof fn lemma_kept<A>(items: Seq<A>, f: spec_fn(A) -> bool)
    ensures
        forall|k: int|
            0 <= k < items.filter(f).len() ==> f(#[trigger] items.filter(f)[k]) && items.contains(
                items.filter(f)[k],
            ),
    decreases items.len(),
{
    reveal(Seq::filter);
    if items.len() > 0 {
        let rest = items.drop_last();
        lemma_kept(rest, f);
        assert forall|k: int| 0 <= k < items.filter(f).len() implies f(
            #[trigger] items.filter(f)[k],
        ) && items.contains(items.filter(f)[k]) by {
            if k < rest.filter(f).len() {
                assert(items.filter(f)[k] == rest.filter(f)[k]);
                let j = choose|j: int| 0 <= j < rest.len() && rest[j] == rest.filter(f)[k];
                assert(items[j] == items.filter(f)[k]);
            } else {
                assert(items[items.len() - 1] == items.filter(f)[k]);
            }
        }
    }
}

/// Filtering keeps the names apart.
proof fn lemma_kept_distinct(services: Seq<ServiceInfo>, f: spec_fn(ServiceInfo) -> bool)
    requires
        distinct_names(services),
    ensures
        distinct_names(services.filter(f)),
    decreases services.len(),
{
    reveal(Seq::filter);
    if services.len() > 0 {
        let rest = services.drop_last();
        assert forall|i: int, j: int| 0 <= i < j < rest.len() implies (#[trigger] rest[i]).name@ != (
        #[trigger] rest[j]).name@ by {
            assert(services[i].name@ != services[j].name@);
        }
        lemma_kept_distinct(rest, f);
        lemma_kept(rest, f);
        let kept = services.filter(f);
        let rest_kept = rest.filter(f);
        assert forall|i: int, j: int| 0 <= i < j < kept.len() implies (#[trigger] kept[i]).name@ != (
        #[trigger] kept[j]).name@ by {
            assert(kept[i] == rest_kept[i]);
            if j < rest_kept.len() {
                assert(kept[j] == rest_kept[j]);
            } else {
                let k = choose|k: int| 0 <= k < rest.len() && rest[k] == rest_kept[i];
                assert(services[k].name@ != services[services.len() - 1].name@);
            }
        }
    }
}

/// One more process on record.
proof fn lemma_process_recorded(
    c: Classifier,
    profile: ProfileModel,
    procs: Seq<ProcessInfo>,
    recs: Seq<ProcessRecord>,
    p: ProcessInfo,
)
    requires
        process_records_fit(c, profile, procs, recs),
        procs.contains(p),
        c.allows_process(p, profile),
    ensures
        process_records_fit(c, profile, procs, recs.push(process_record(p))),
{
    let more = recs.push(process_record(p));
    assert forall|k: int| 0 <= k < more.len() implies exists|i: int|
        {
            &&& 0 <= i < procs.len()
            &&& c.allows_process(#[trigger] procs[i], profile)
            &&& process_record(procs[i]) == #[trigger] more[k]
        } by {
        if k < recs.len() {
            assert(more[k] == recs[k]);
        } else {
            let i = choose|i: int| 0 <= i < procs.len() && procs[i] == p;
            assert(process_record(procs[i]) == more[k]);
        }
    }
}

/// Without the latest record the others still fit.
proof fn lemma_process_records_prefix(
    c: Classifier,
    profile: ProfileModel,
    procs: Seq<ProcessInfo>,
    recs: Seq<ProcessRecord>,
)
    requires
        recs.len() > 0,
        process_records_fit(c, profile, procs, recs),
    ensures
        process_records_fit(c, profile, procs, recs.drop_last()),
{
    let rest = recs.drop_last();
    assert forall|k: int| 0 <= k < rest.len() implies exists|i: int|
        {
            &&& 0 <= i < procs.len()
            &&& c.allows_process(#[trigger] procs[i], profile)
            &&& process_record(procs[i]) == #[trigger] rest[k]
        } by {
        let i = choose|i: int|
            {
                &&& 0 <= i < procs.len()
                &&& c.allows_process(#[trigger] procs[i], profile)
                &&& process_record(procs[i]) == recs[k]
            };
        assert(process_record(procs[i]) == rest[k]);
    }
    assert(process_records_fit(c, profile, procs, rest));
}

/// One more service on record, and one less to do.
proof fn lemma_service_recorded(
    c: Classifier,
    profile: ProfileModel,
    services: Seq<ServiceInfo>,
    todo: Seq<ServiceInfo>,
    recs: Seq<ServiceRecord>,
    action: ServiceAction,
)
    requires
        todo.len() > 0,
        service_records_fit(services, recs),
        allowed_services(c, profile, services, recs),
        services_fit(c, profile, services, todo, recs),
    ensures
        ({
            let more = recs.push(service_record(todo[0], action));
            &&& service_records_fit(services, more)
            &&& allowed_services(c, profile, services, more)
            &&& services_fit(c, profile, services, todo.drop_first(), more)
        }),
{
    let s = todo[0];
    let rest = todo.drop_first();
    let more = recs.push(service_record(s, action));
    assert(services.contains(todo[0]));
    assert forall|k: int| 0 <= k < more.len() implies exists|i: int|
        {
            &&& 0 <= i < services.len()
            &&& (#[trigger] services[i]).name@ == (#[trigger] more[k]).name@
            &&& services[i].state == more[k].original_state
        } by {
        if k < recs.len() {
            assert(more[k] == recs[k]);
        } else {
            let i = choose|i: int| 0 <= i < services.len() && services[i] == s;
            assert(services[i].name@ == more[k].name@);
        }
    }
    assert forall|k: int| 0 <= k < more.len() implies allowed_service(
        c,
        profile,
        services,
        #[trigger] more[k],
    ) by {
        if k < recs.len() {
            assert(more[k] == recs[k]);
        } else {
            assert(c.allows_service(s, profile));
        }
    }
    if distinct_names(services) {
        assert forall|k: int, l: int| 0 <= k < l < more.len() implies (
        #[trigger] more[k]).name@ != (#[trigger] more[l]).name@ by {
            assert(more[k] == recs[k]);
            if l < recs.len() {
                assert(more[l] == recs[l]);
            } else {
                assert(!has_name(recs, todo[0].name@));
                assert(recs[k].name@ != s.name@);
            }
        }
    }
    assert forall|k: int| 0 <= k < rest.len() implies {
        &&& services.contains(#[trigger] rest[k])
        &&& c.allows_service(rest[k], profile)
        &&& distinct_names(services) ==> !has_name(more, rest[k].name@)
    } by {
        assert(rest[k] == todo[k + 1]);
        if distinct_names(services) && has_name(more, rest[k].name@) {
            assert(todo[0].name@ != todo[k + 1].name@);
            let i = choose|i: int|
                0 <= i < more.len() && (#[trigger] more[i]).name@ == rest[k].name@;
            if i < recs.len() {
                assert(recs[i].name@ == todo[k + 1].name@);
            }
        }
    }
    if distinct_names(services) {
        assert forall|i: int, j: int| 0 <= i < j < rest.len() implies (
        #[trigger] rest[i]).name@ != (#[trigger] rest[j]).name@ by {
            assert(todo[i + 1].name@ != todo[j + 1].name@);
        }
    }
}

/// One service less to do.
proof fn lemma_service_skipped(
    c: Classifier,
    profile: ProfileModel,
    services: Seq<ServiceInfo>,
    todo: Seq<ServiceInfo>,
    recs: Seq<ServiceRecord>,
)
    requires
        todo.len() > 0,
        services_fit(c, profile, services, todo, recs),
    ensures
        services_fit(c, profile, services, todo.drop_first(), recs),
{
    let rest = todo.drop_first();
    assert forall|k: int| 0 <= k < rest.len() implies {
        &&& services.contains(#[trigger] rest[k])
        &&& c.allows_service(rest[k], profile)
        &&& distinct_names(services) ==> !has_name(recs, rest[k].name@)
    } by {
        assert(rest[k] == todo[k + 1]);
    }
    if distinct_names(services) {
        assert forall|i: int, j: int| 0 <= i < j < rest.len() implies (
        #[trigger] rest[i]).name@ != (#[trigger] rest[j]).name@ by {
            assert(todo[i + 1].name@ != todo[j + 1].name@);
        }
    }
}

/// A boost between two items: the session on disk records the changes that were
/// made, and these alone.
spec fn settled(c: Classifier, w0: World, w: World, b: BoostModel) -> bool {
    &&& changed_as_recorded(w0, w, b.session)
    &&& session_fits(c, b.profile, w0, b.session)
    &&& w.disk == Some(b.session)
    &&& processes_fit(c, b.profile, w0.procs, b.processes)
    &&& services_fit(c, b.profile, w0.services, b.services, b.session.services)
}

/// The next process is put on record in good order.
proof fn lemma_processes_on(c: Classifier, w0: World, w: World, b: BoostModel)
    requires
        settled(c, w0, w, b),
        b.session.services.len() == 0,
        b.services.len() == 0,
    ensures
        ({
            let (s2, progress) = boost_processes(None, b);
            &&& s2.task is Boost
            &&& s2.task->Boost_0.profile == b.profile
            &&& progress is Next
            &&& boosting(c, w0, w, s2, s2.task->Boost_0, progress->Next_0)
        }),
{
    let b2 = boost_processes(None, b).0.task->Boost_0;
    if b.processes.len() > 0 {
        assert(w0.procs.contains(b.processes[0]) && c.allows_process(b.processes[0], b.profile));
        lemma_process_recorded(c, b.profile, w0.procs, b.session.processes, b.processes[0]);
        assert(b2.session.processes.drop_last() =~= b.session.processes);
        assert(made(b2) =~= b.session);
    }
}

/// The next service is put on record in good order, or the boost is applied.
proof fn lemma_services_on(c: Classifier, w0: World, w: World, b: BoostModel)
    requires
        settled(c, w0, w, b),
    ensures
        match boost_services(None, b) {
            (s2, ProgressModel::Next(a2)) => {
                &&& s2.task is Boost
                &&& s2.task->Boost_0.profile == b.profile
                &&& boosting(c, w0, w, s2, s2.task->Boost_0, a2)
            },
            (s2, ProgressModel::Done(OutcomeModel::Boosted(Ok(_)))) => boosted(
                c,
                b.profile,
                w0,
                w,
                s2,
            ),
            _ => false,
        },
{
    if b.services.len() > 0 {
        let b2 = boost_services(None, b).0.task->Boost_0;
        lemma_service_recorded(
            c,
            b.profile,
            w0.services,
            b.services,
            b.session.services,
            action_for(b.services[0]),
        );
        assert(b2.session.services.drop_last() =~= b.session.services);
        assert(made(b2) =~= b.session);
    }
}

/// A boost that has just begun, with the first save pending, has changed
/// nothing.
pub proof fn law_boost_begins(
    c: Classifier,
    w0: World,
    session: SessionModel,
    profile: ProfileModel,
)
    requires
        session.processes.len() == 0,
        session.services.len() == 0,
    ensures
        ({
            let s = boost_begun(idle(None), session, profile);
            boosting(c, w0, w0, s, s.task->Boost_0, Action::SaveSession)
        }),
{
    let s = boost_begun(idle(None), session, profile);
    let b = s.task->Boost_0;
    assert(w0.services =~= changed_by(w0.services, session.services));
}

/// What the system may answer to the pending action of a boost, whether it is a
/// success or a failure, leads to a boost that goes on in good order, to an
/// applied boost, or, without a further change to anything, to an error.
pub proof fn law_boost_goes_on(
    c: Classifier,
    w0: World,
    w: World,
    s: EngineModel,
    b: BoostModel,
    a: Action,
    e: EventModel,
    w2: World,
)
    requires
        boosting(c, w0, w, s, b, a),
        answers(w, to_save(s), a, e, w2),
    ensures
        step(c, s, e) is Some,
        match step(c, s, e)->0 {
            (s2, ProgressModel::Next(a2)) => {
                &&& s2.task is Boost
                &&& s2.task->Boost_0.profile == b.profile
                &&& boosting(c, w0, w2, s2, s2.task->Boost_0, a2)
            },
            (s2, ProgressModel::Done(OutcomeModel::Boosted(Ok(_)))) => boosted(
                c,
                b.profile,
                w0,
                w2,
                s2,
            ),
            (s2, ProgressModel::Done(OutcomeModel::Boosted(Err(_)))) => s2 == idle(None) && w2 == w
                && !succeeds(e),
            _ => false,
        },
{
    let recs = b.session.processes;
    match (b.stage, e) {
        (BoostStage::ListProcesses, EventModel::Processes(Ok(procs))) => {
            lemma_kept(procs, |p: ProcessInfo| c.allows_process(p, b.profile));
            lemma_processes_on(
                c,
                w0,
                w2,
                BoostModel { processes: eligible_processes(c, procs, b.profile), ..b },
            );
        },
        (BoostStage::Suspend, EventModel::Suspended(r)) => {
            let rest = b.processes.drop_first();
            assert(processes_fit(c, b.profile, w0.procs, rest)) by {
                assert forall|k: int| 0 <= k < rest.len() implies w0.procs.contains(
                    #[trigger] rest[k],
                ) && c.allows_process(rest[k], b.profile) by {
                    assert(rest[k] == b.processes[k + 1]);
                }
            }
            match r {
                Ok(_) => {
                    assert forall|pid: u32| #[trigger]
                        w2.suspended.contains(pid) <==> w0.suspended.contains(pid) || has_pid(
                            recs,
                            pid,
                        ) by {
                        lemma_has_pid_last(recs, pid);
                    }
                    lemma_processes_on(c, w0, w2, BoostModel { processes: rest, ..b });
                },
                Err(_) => {
                    lemma_process_records_prefix(c, b.profile, w0.procs, recs);
                },
            }
        },
        (BoostStage::AmendProcess, EventModel::Saved(Ok(_))) => {
            lemma_processes_on(c, w0, w2, b);
        },
        (BoostStage::ListServices, EventModel::Services(Ok(services))) => {
            let f = |x: ServiceInfo| c.allows_service(x, b.profile);
            lemma_kept(services, f);
            if distinct_names(services) {
                lemma_kept_distinct(services, f);
            }
            lemma_services_on(
                c,
                w0,
                w2,
                BoostModel { services: eligible_services(c, services, b.profile), ..b },
            );
        },
        (BoostStage::Change, EventModel::Changed(r)) => {
            let x = b.services[0];
            let rest = b.services.drop_first();
            let before = b.session.services.drop_last();
            lemma_service_records_prefix(w0.services, b.session.services);
            assert(allowed_services(c, b.profile, w0.services, before)) by {
                assert forall|k: int| 0 <= k < before.len() implies allowed_service(
                    c,
                    b.profile,
                    w0.services,
                    #[trigger] before[k],
                ) by {
                    assert(before[k] == b.session.services[k]);
                }
            }
            match r {
                Ok(action) => {
                    let now = before.push(service_record(x, action));
                    lemma_service_recorded(
                        c,
                        b.profile,
                        w0.services,
                        b.services,
                        before,
                        action,
                    );
                    assert(now.drop_last() =~= before);
                    assert(w2.services == changed_by(w0.services, now));
                    if action == action_for(x) {
                        assert(now =~= b.session.services);
                        lemma_services_on(c, w0, w2, BoostModel { services: rest, ..b });
                    }
                },
                Err(_) => {
                    lemma_service_skipped(c, b.profile, w0.services, b.services, before);
                },
            }
        },
        (BoostStage::AmendService, EventModel::Saved(Ok(_))) => {
            lemma_services_on(c, w0, w2, b);
        },
        _ => {},
    }
}

/// Whether the latest record of a process is the full record of an eligible
/// process of `w0` with this pid.
pub open spec fn process_on_record(
    c: Classifier,
    profile: ProfileModel,
    w0: World,
    session: SessionModel,
    pid: u32,
) -> bool {
    exists|x: ProcessInfo|
        {
            &&& w0.procs.contains(x)
            &&& #[trigger] c.allows_process(x, profile)
            &&& x.pid == pid
            &&& session.processes.len() > 0
            &&& session.processes.last() == process_record(x)
        }
}

/// Whether the latest record of a service is the full record of an eligible
/// service of `w0` with this name, with what is expected to be done to it.
pub open spec fn service_on_record(
    c: Classifier,
    profile: ProfileModel,
    w0: World,
    session: SessionModel,
    name: String,
) -> bool {
    exists|x: ServiceInfo|
        {
            &&& w0.services.contains(x)
            &&& #[trigger] c.allows_service(x, profile)
            &&& x.name == name
            &&& session.services.len() > 0
            &&& session.services.last() == service_record(x, action_for(x))
        }
}

/// Write-ahead. Before the first save has succeeded nothing is changed. From then
/// on the store holds a record of every process that is suspended and every
/// service whose state is changed; and when a change is asked for, the store
/// already holds, as its latest, the full record of the item itself.
pub proof fn law_write_ahead(
    c: Classifier,
    w0: World,
    w: World,
    s: EngineModel,
    b: BoostModel,
    a: Action,
)
    requires
        boosting(c, w0, w, s, b, a),
    ensures
        b.stage == BoostStage::Reserve ==> w == w0,
        b.stage != BoostStage::Reserve ==> {
            &&& w.disk is Some
            &&& forall|pid: u32| #[trigger]
                w.suspended.contains(pid) && !w0.suspended.contains(pid) ==> has_pid(
                    w.disk->0.processes,
                    pid,
                )
            &&& w.services.len() == w0.services.len()
            &&& forall|i: int|
                0 <= i < w0.services.len() && #[trigger] w.services[i] != w0.services[i]
                    ==> has_name(w.disk->0.services, w0.services[i].name@)
        },
        a matches Action::Suspend { pid } ==> {
            &&& w.disk is Some
            &&& has_pid(w.disk->0.processes, pid)
            &&& process_on_record(c, b.profile, w0, w.disk->0, pid)
        },
        a matches Action::PauseOrStop { name } ==> {
            &&& w.disk is Some
            &&& has_name(w.disk->0.services, name@)
            &&& service_on_record(c, b.profile, w0, w.disk->0, name)
        },
{
    if b.stage == BoostStage::Reserve {
        assert(w.suspended =~= w0.suspended);
        assert(w =~= w0);
    } else {
        lemma_made_is_stored(b, w.disk->0);
        lemma_changed_by(w0.services, made(b).services);
        if a is Suspend {
            lemma_has_pid_last(b.session.processes, b.processes[0].pid);
            assert(c.allows_process(b.processes[0], b.profile));
        }
        if a is PauseOrStop {
            lemma_has_name_last(b.session.services, b.services[0].name@);
            assert(c.allows_service(b.services[0], b.profile));
        }
    }
}

/// Every change that was made is on record in the store.
proof fn lemma_made_is_stored(b: BoostModel, disk: SessionModel)
    requires
        stored(b, disk),
        b.stage == BoostStage::Suspend ==> b.session.processes.len() > 0,
        b.stage == BoostStage::Change ==> b.session.services.len() > 0,
    ensures
        forall|pid: u32| #[trigger]
            has_pid(made(b).processes, pid) ==> has_pid(disk.processes, pid),
        forall|name: Seq<char>| #[trigger]
            has_name(made(b).services, name) ==> has_name(disk.services, name),
{
    assert forall|pid: u32| #[trigger] has_pid(made(b).processes, pid) implies has_pid(
        disk.processes,
        pid,
    ) by {
        if b.stage == BoostStage::Suspend || b.stage == BoostStage::AmendProcess {
            lemma_has_pid_last(disk.processes, pid);
        }
    }
    assert forall|name: Seq<char>| #[trigger] has_name(made(b).services, name) implies has_name(
        disk.services,
        name,
    ) by {
        if b.stage == BoostStage::Change || b.stage == BoostStage::AmendService {
            lemma_has_name_last(disk.services, name);
            if b.session.services.len() > 0 {
                lemma_has_name_last(b.session.services, name);
            }
        }
    }
}

/// Only an eligible process is ever suspended, and only an eligible service ever
/// paused or stopped.
pub proof fn law_only_eligible_items_are_touched(
    c: Classifier,
    w0: World,
    w: World,
    s: EngineModel,
    b: BoostModel,
    a: Action,
)
    requires
        boosting(c, w0, w, s, b, a),
    ensures
        a matches Action::Suspend { pid } ==> exists|p: ProcessInfo|
            w0.procs.contains(p) && #[trigger] c.allows_process(p, b.profile) && p.pid == pid,
        a matches Action::PauseOrStop { name } ==> exists|x: ServiceInfo|
            w0.services.contains(x) && #[trigger] c.allows_service(x, b.profile) && x.name == name,
{
    if a is Suspend {
        assert(c.allows_process(b.processes[0], b.profile));
    }
    if a is PauseOrStop {
        assert(c.allows_service(b.services[0], b.profile));
    }
}

/// The action that is pending at a stage of a restore.
pub open spec fn restore_action(r: RestoreModel) -> Action {
    match r.stage {
        RestoreStage::Service => Action::Restore {
            name: r.services.last().name,
            original: r.services.last().original_state,
            action: r.services.last().action,
        },
        RestoreStage::Match => Action::Match {
            pid: r.processes.last().pid,
            start_time: r.processes.last().start_time,
        },
        RestoreStage::Resume => Action::Resume { pid: r.processes.last().pid },
        RestoreStage::Clear => Action::ClearSession,
    }
}

/// Whether a restore has its records in turn: the services first, the processes
/// after them, and the stored session in the end; and resumes only a process that
/// is still there.
pub open spec fn takes_turns(w: World, r: RestoreModel) -> bool {
    match r.stage {
        RestoreStage::Service => r.services.len() > 0,
        RestoreStage::Match => r.services.len() == 0 && r.processes.len() > 0,
        RestoreStage::Resume => {
            &&& r.services.len() == 0
            &&& r.processes.len() > 0
            &&& lists_process(w.procs, r.processes.last().pid, r.processes.last().start_time)
        },
        RestoreStage::Clear => r.services.len() == 0 && r.processes.len() == 0,
    }
}

/// Whether one of the records is of a process that is still there, under this pid.
pub open spec fn still_listed(
    procs: Seq<ProcessInfo>,
    recs: Seq<ProcessRecord>,
    pid: u32,
) -> bool {
    exists|k: int|
        {
            &&& 0 <= k < recs.len()
            &&& (#[trigger] recs[k]).pid == pid
            &&& lists_process(procs, recs[k].pid, recs[k].start_time)
        }
}

proof fn lemma_still_listed_last(procs: Seq<ProcessInfo>, recs: Seq<ProcessRecord>, pid: u32)
    requires
        recs.len() > 0,
    ensures
        still_listed(procs, recs, pid) <==> still_listed(procs, recs.drop_last(), pid) || (
        recs.last().pid == pid && lists_process(procs, recs.last().pid, recs.last().start_time)),
{
    let rest = recs.drop_last();
    if still_listed(procs, rest, pid) {
        let k = choose|k: int|
            {
                &&& 0 <= k < rest.len()
                &&& (#[trigger] rest[k]).pid == pid
                &&& lists_process(procs, rest[k].pid, rest[k].start_time)
            };
        assert(recs[k] == rest[k]);
    }
    if recs.last().pid == pid && lists_process(procs, recs.last().pid, recs.last().start_time) {
        assert(recs[recs.len() - 1].pid == pid);
    }
    if still_listed(procs, recs, pid) {
        let k = choose|k: int|
            {
                &&& 0 <= k < recs.len()
                &&& (#[trigger] recs[k]).pid == pid
                &&& lists_process(procs, recs[k].pid, recs[k].start_time)
            };
        if k < rest.len() {
            assert(rest[k] == recs[k]);
        }
    }
}

/// Whether undoing what `services` and `processes` record, in the world `w`,
/// gives the processes and services of `target`: the services are as undoing the
/// records leaves them, and of the suspended processes those on record are resumed
/// that are still there.
pub open spec fn undoes_to(
    w: World,
    services: Seq<ServiceRecord>,
    processes: Seq<ProcessRecord>,
    target: World,
) -> bool {
    &&& w.procs == target.procs
    &&& forall|pid: u32| #[trigger]
        target.suspended.contains(pid) <==> w.suspended.contains(pid) && !still_listed(
            w.procs,
            processes,
            pid,
        )
    &&& undone(w.services, services) == target.services
}

/// The state of a restore under way, in the world `w` with the action `a`
/// pending, that is to lead to the world `target`.
pub open spec fn restoring(
    target: World,
    w: World,
    s: EngineModel,
    r: RestoreModel,
    a: Action,
) -> bool {
    &&& s == (EngineModel { active: None, task: TaskModel::Restore(r) })
    &&& a == restore_action(r)
    &&& undoes_to(w, r.services, r.processes, target)
    &&& takes_turns(w, r)
}

/// The restore of a session begins in good order.
pub proof fn law_restore_begins(
    target: World,
    w: World,
    session: SessionModel,
    recovering: bool,
)
    requires
        undoes_to(w, session.services, session.processes, target),
    ensures
        restores_to(
            target,
            recovering,
            w,
            restore_begin(session, recovering).0,
            restore_begin(session, recovering).1,
        ),
        restore_begin(session, recovering).1 is Next,
{
}

/// A restore that goes on in good order, or that has ended in the world
/// `target` with an empty store.
pub open spec fn restores_to(
    target: World,
    recovering: bool,
    w: World,
    s: EngineModel,
    p: ProgressModel,
) -> bool {
    match p {
        ProgressModel::Next(a) => {
            &&& s.task is Restore
            &&& s.task->Restore_0.recovering == recovering
            &&& restoring(target, w, s, s.task->Restore_0, a)
        },
        ProgressModel::Done(outcome) => {
            &&& s == idle(None)
            &&& if recovering {
                outcome == OutcomeModel::Recovered(Ok(true))
            } else {
                outcome is Ended && outcome->Ended_0 is Ok
            }
            &&& w == (World { disk: None, ..target })
        },
    }
}

/// Each success of the system brings a restore on, and the last one ends it with
/// the processes and services as they are to be and an empty store.
pub proof fn law_restore_goes_on(
    c: Classifier,
    target: World,
    w: World,
    s: EngineModel,
    r: RestoreModel,
    a: Action,
    e: EventModel,
    w2: World,
)
    requires
        restoring(target, w, s, r, a),
        answers(w, to_save(s), a, e, w2),
        succeeds(e),
    ensures
        step(c, s, e) is Some,
        restores_to(target, r.recovering, w2, (step(c, s, e)->0).0, (step(c, s, e)->0).1),
{
    let rest = r.processes.drop_last();
    match r.stage {
        RestoreStage::Service => {
            assert(undone(w.services, r.services) == undone(w2.services, r.services.drop_last()));
            assert(undoes_to(w2, r.services.drop_last(), r.processes, target));
        },
        RestoreStage::Match => {
            if !lists_process(w.procs, r.processes.last().pid, r.processes.last().start_time) {
                assert forall|pid: u32| #[trigger]
                    target.suspended.contains(pid) <==> w2.suspended.contains(pid)
                        && !still_listed(w2.procs, rest, pid) by {
                    lemma_still_listed_last(w.procs, r.processes, pid);
                }
                assert(undoes_to(w2, r.services, rest, target));
            }
        },
        RestoreStage::Resume => {
            assert forall|pid: u32| #[trigger]
                target.suspended.contains(pid) <==> w2.suspended.contains(pid) && !still_listed(
                    w2.procs,
                    rest,
                    pid,
                ) by {
                lemma_still_listed_last(w.procs, r.processes, pid);
            }
            assert(undoes_to(w2, r.services, rest, target));
        },
        RestoreStage::Clear => {
            assert(w.suspended =~= target.suspended);
            assert(w2 =~= World { disk: None, ..target });
        },
    }
}

proof fn lemma_has_pid_last(recs: Seq<ProcessRecord>, pid: u32)
    requires
        recs.len() > 0,
    ensures
        has_pid(recs, pid) <==> has_pid(recs.drop_last(), pid) || recs.last().pid == pid,
{
    let rest = recs.drop_last();
    if has_pid(rest, pid) {
        let i = choose|i: int| 0 <= i < rest.len() && (#[trigger] rest[i]).pid == pid;
        assert(recs[i].pid == pid);
    }
    if recs.last().pid == pid {
        assert(recs[recs.len() - 1].pid == pid);
    }
    if has_pid(recs, pid) {
        let i = choose|i: int| 0 <= i < recs.len() && (#[trigger] recs[i]).pid == pid;
        if i < rest.len() {
            assert(rest[i].pid == pid);
        }
    }
}

/// The stored session is removed last, when every record has had its turn; only
/// then is the restore over.
pub proof fn law_session_is_cleared_last(
    active: Option<SessionModel>,
    r: RestoreModel,
    e: EventModel,
)
    requires
        restore_step(active, r, e) is Some,
    ensures
        match restore_step(active, r, e)->0 {
            (s2, ProgressModel::Next(a)) => {
                &&& s2.task is Restore
                &&& a is ClearSession ==> s2.task->Restore_0.services.len() == 0
                    && s2.task->Restore_0.processes.len() == 0
            },
            (_, ProgressModel::Done(_)) => r.stage == RestoreStage::Clear,
        },
{
}

/// No item's failure stops a restore: what follows does not depend on whether
/// restoring a service or resuming a process succeeded.
pub proof fn law_restore_is_best_effort(
    active: Option<SessionModel>,
    r: RestoreModel,
    x: Result<(), BoosterError>,
    y: Result<(), BoosterError>,
)
    ensures
        restore_step(active, r, EventModel::Restored(x)) == restore_step(
            active,
            r,
            EventModel::Restored(y),
        ),
        restore_step(active, r, EventModel::Resumed(x)) == restore_step(
            active,
            r,
            EventModel::Resumed(y),
        ),
{
}

/// The state of a restore of `session` under way, in the world `w` with the
/// action `a` pending, in which some items may have failed. The store still holds
/// the session, and undoing all of it leads to the world `target`.
pub open spec fn repeatable(
    target: World,
    session: SessionModel,
    w: World,
    s: EngineModel,
    r: RestoreModel,
    a: Action,
) -> bool {
    &&& s == (EngineModel { active: None, task: TaskModel::Restore(r) })
    &&& a == restore_action(r)
    &&& takes_turns(w, r)
    &&& r.services.is_prefix_of(session.services)
    &&& r.processes.is_prefix_of(session.processes)
    &&& w.disk == Some(session)
    &&& distinct_names(w.services)
    &&& undoes_to(w, session.services, session.processes, target)
}

/// A restore can be repeated from the start at any time until the store is
/// cleared: whatever the system answers, the store keeps the session, and undoing
/// all of it still leads to the same world.
pub proof fn law_restore_can_be_repeated(
    c: Classifier,
    target: World,
    session: SessionModel,
    w: World,
    s: EngineModel,
    r: RestoreModel,
    a: Action,
    e: EventModel,
    w2: World,
)
    requires
        distinct_names(target.services),
        service_records_fit(target.services, session.services),
        repeatable(target, session, w, s, r, a),
        answers(w, to_save(s), a, e, w2),
    ensures
        step(c, s, e) is Some,
        match step(c, s, e)->0 {
            (s2, ProgressModel::Next(a2)) => {
                &&& s2.task is Restore
                &&& repeatable(target, session, w2, s2, s2.task->Restore_0, a2)
            },
            (s2, ProgressModel::Done(_)) => {
                &&& s2 == idle(None)
                &&& if succeeds(e) {
                    w2.disk is None
                } else {
                    w2 == w
                }
            },
        },
{
    match r.stage {
        RestoreStage::Service => {
            let k = r.services.len() - 1;
            let rec = session.services[k];
            assert(r.services.last() == rec);
            lemma_with_state(w.services, rec.name@, rec.original_state);
            lemma_undo_again(target.services, w.services, session.services, k);
            assert(r.services.drop_last().is_prefix_of(session.services));
        },
        RestoreStage::Match => {
            assert(r.processes.drop_last().is_prefix_of(session.processes));
        },
        RestoreStage::Resume => {
            let k = r.processes.len() - 1;
            assert(r.processes.last() == session.processes[k]);
            assert(still_listed(w.procs, session.processes, session.processes[k].pid));
            assert(r.processes.drop_last().is_prefix_of(session.processes));
            assert(undoes_to(w2, session.services, session.processes, target));
        },
        RestoreStage::Clear => {},
    }
}

/// A pid is resumed only right after the system has confirmed that it still
/// belongs to the process that was suspended.
pub proof fn law_recycled_pid_is_not_resumed(
    active: Option<SessionModel>,
    r: RestoreModel,
    e: EventModel,
)
    requires
        restore_step(active, r, e) is Some,
        (restore_step(active, r, e)->0).1 is Next,
        (restore_step(active, r, e)->0).1->Next_0 is Resume,
    ensures
        r.stage == RestoreStage::Match,
        e == EventModel::Matched(true),
        r.processes.len() > 0,
        restore_action(r) == (Action::Match {
            pid: r.processes.last().pid,
            start_time: r.processes.last().start_time,
        }),
        (restore_step(active, r, e)->0).1->Next_0 == (Action::Resume {
            pid: r.processes.last().pid,
        }),
{
}

/// Records of all the changes that were made, and maybe of more eligible items,
/// can be undone, to the world that the boost began in.
proof fn lemma_records_undo(
    c: Classifier,
    profile: ProfileModel,
    w0: World,
    w: World,
    changes: SessionModel,
    session: SessionModel,
)
    requires
        undoable(c, profile, w0),
        changed_as_recorded(w0, w, changes),
        session_fits(c, profile, w0, session),
        forall|pid: u32| #[trigger]
            has_pid(changes.processes, pid) ==> has_pid(session.processes, pid),
        forall|name: Seq<char>| #[trigger]
            has_name(changes.services, name) ==> has_name(session.services, name),
    ensures
        undoes_to(w, session.services, session.processes, w0),
{
    lemma_changed_by(w0.services, changes.services);
    lemma_undo(w0.services, w.services, session.services);
    let recs = session.processes;
    assert forall|k: int| 0 <= k < recs.len() implies lists_process(
        w.procs,
        (#[trigger] recs[k]).pid,
        recs[k].start_time,
    ) && !w0.suspended.contains(recs[k].pid) by {
        let i = choose|i: int|
            {
                &&& 0 <= i < w0.procs.len()
                &&& c.allows_process(#[trigger] w0.procs[i], profile)
                &&& process_record(w0.procs[i]) == recs[k]
            };
        assert(w.procs[i].pid == recs[k].pid);
    }
    assert forall|pid: u32| #[trigger]
        w0.suspended.contains(pid) <==> w.suspended.contains(pid) && !still_listed(
            w.procs,
            recs,
            pid,
        ) by {
        if has_pid(recs, pid) {
            let k = choose|k: int| 0 <= k < recs.len() && (#[trigger] recs[k]).pid == pid;
            assert(!w0.suspended.contains(recs[k].pid));
            assert(still_listed(w.procs, recs, pid));
        }
        if still_listed(w.procs, recs, pid) {
            assert(has_pid(recs, pid));
        }
    }
}

/// What the store holds in the middle of a boost restores the services, whatever
/// has become of the processes.
pub proof fn lemma_stored_services_undo(
    c: Classifier,
    w0: World,
    w: World,
    s: EngineModel,
    b: BoostModel,
    a: Action,
)
    requires
        distinct_names(w0.services),
        boosting(c, w0, w, s, b, a),
        b.stage != BoostStage::Reserve,
    ensures
        undone(w.services, w.disk->0.services) == w0.services,
{
    lemma_made_is_stored(b, w.disk->0);
    lemma_changed_by(w0.services, made(b).services);
    lemma_undo(w0.services, w.services, w.disk->0.services);
}

/// What an applied boost records restores the services, whatever has become of the
/// processes.
pub proof fn lemma_applied_services_undo(
    c: Classifier,
    profile: ProfileModel,
    w0: World,
    w: World,
    s: EngineModel,
)
    requires
        distinct_names(w0.services),
        boosted(c, profile, w0, w, s),
    ensures
        undone(w.services, s.active->0.services) == w0.services,
{
    lemma_changed_by(w0.services, s.active->0.services);
    lemma_undo(w0.services, w.services, s.active->0.services);
}

/// Ending a boost brings back the world that it began in: the restore of an
/// applied boost begins in good order towards that world, and
/// [`law_restore_goes_on`] takes it there.
pub proof fn law_boost_is_undone(
    c: Classifier,
    profile: ProfileModel,
    w0: World,
    w: World,
    s: EngineModel,
)
    requires
        undoable(c, profile, w0),
        boosted(c, profile, w0, w, s),
    ensures
        ({
            let begun = restore_begin(s.active->0, false);
            restores_to(w0, false, w, begun.0, begun.1)
        }),
{
    lemma_records_undo(c, profile, w0, w, s.active->0, s.active->0);
    law_restore_begins(w0, w, s.active->0, false);
}

/// A crash in the middle of a boost is fully recovered from: a fresh engine that
/// loads what the store holds undoes every change, and restores the world that
/// the boost began in. This rests, between a change that was made otherwise than
/// expected and the save that sets its record right, on what [`answers`] says of
/// restoring a service.
pub proof fn law_crash_is_recovered(
    c: Classifier,
    w0: World,
    w: World,
    s: EngineModel,
    b: BoostModel,
    a: Action,
)
    requires
        undoable(c, b.profile, w0),
        boosting(c, w0, w, s, b, a),
        b.stage != BoostStage::Reserve,
    ensures
        ({
            let fresh = EngineModel { active: None, task: TaskModel::Load };
            let loaded = step(c, fresh, EventModel::Loaded(Ok(w.disk)));
            &&& loaded is Some
            &&& restores_to(w0, true, w, (loaded->0).0, (loaded->0).1)
        }),
{
    lemma_made_is_stored(b, w.disk->0);
    lemma_records_undo(c, b.profile, w0, w, made(b), w.disk->0);
    law_restore_begins(w0, w, w.disk->0, true);
}

} // verus!
