//! What the operations ask for, reply by reply: which action comes when, and what
//! it carries, told from what went in and what was answered.

use vstd::prelude::*;

use crate::classify::{Classifier, ProfileModel};
use crate::engine::Action;
use crate::error::BoosterError;
use crate::model::{
    boost_begun, idle, restore_begin, step, to_save, BoostModel, BoostStage, EngineModel,
    EventModel, OutcomeModel, ProgressModel, RestoreModel, RestoreStage, TaskModel,
};
use crate::process::ProcessInfo;
use crate::scan::{
    law_scan_lists_every_process, law_scan_lists_every_service, lists_processes, lists_services,
};
use crate::service::{action_for, ServiceAction, ServiceInfo};
use crate::session::{ProcessRecord, ServiceRecord, SessionId, SessionModel};

verus! {

/// Where the replies lead from `start`; `None` if one of them is not to the pending
/// action, or comes when the operation is over.
pub open spec fn replay(
    c: Classifier,
    start: (EngineModel, ProgressModel),
    replies: Seq<EventModel>,
) -> Option<(EngineModel, ProgressModel)>
    decreases replies.len(),
{
    if replies.len() == 0 {
        Some(start)
    } else {
        match replay(c, start, replies.drop_last()) {
            Some((s, ProgressModel::Next(_))) => step(c, s, replies.last()),
            _ => None,
        }
    }
}

/// Whether `e` is a reply to `a`, be it a success or a failure.
pub open spec fn is_reply(a: Action, e: EventModel) -> bool {
    match a {
        Action::SaveSession => e is Saved,
        Action::EnumerateProcesses => e is Processes,
        Action::Suspend { .. } => e is Suspended,
        Action::EnumerateServices => e is Services,
        Action::PauseOrStop { .. } => e is Changed,
        Action::Restore { .. } => e is Restored,
        Action::Match { .. } => e is Matched,
        Action::Resume { .. } => e is Resumed,
        Action::ClearSession => e is Cleared,
        Action::LoadSession => e is Loaded,
    }
}

/// How many of the replies tell whether a process is still there.
pub open spec fn looks(replies: Seq<EventModel>) -> nat
    decreases replies.len(),
{
    if replies.len() == 0 {
        0
    } else {
        looks(replies.drop_last()) + if replies.last() is Matched {
            1nat
        } else {
            0nat
        }
    }
}

/// Whether the latest reply was that a process is still there.
pub open spec fn just_matched(replies: Seq<EventModel>) -> bool {
    replies.len() > 0 && replies.last() == EventModel::Matched(true)
}

/// Whether the latest reply was to the removal of the stored session.
pub open spec fn just_cleared(replies: Seq<EventModel>) -> bool {
    replies.len() > 0 && replies.last() is Cleared
}

/// Whether `a` asks for the service of `rec` to be put back the way the record says.
pub open spec fn puts_back(a: Action, rec: ServiceRecord) -> bool {
    a matches Action::Restore { name, original, action } && name == rec.name && original
        == rec.original_state && action == rec.action
}

/// Whether `a` asks if the process of `rec` is still there.
pub open spec fn looks_up(a: Action, rec: ProcessRecord) -> bool {
    a matches Action::Match { pid, start_time } && pid == rec.pid && start_time == rec.start_time
}

/// What the restore of `session` asks for after the replies, or has come to. First
/// every service on record is put back, the latest first, each the way its own
/// record says. Then every process on record is looked up, the latest first, and
/// the one that was just found is resumed. When all have had their turn the stored
/// session is removed, and what that came to is what the restore has come to.
pub open spec fn restore_asks(
    session: SessionModel,
    recovering: bool,
    replies: Seq<EventModel>,
    progress: ProgressModel,
) -> bool {
    let n = session.services.len();
    let m = session.processes.len();
    let k = looks(replies);
    if replies.len() < n {
        &&& progress is Next
        &&& puts_back(progress->Next_0, session.services[n - 1 - replies.len()])
    } else if just_matched(replies) {
        &&& 0 < k <= m
        &&& progress is Next
        &&& progress->Next_0 matches Action::Resume { pid } && pid == session.processes[m - k].pid
    } else if just_cleared(replies) {
        &&& k == m
        &&& match replies.last()->Cleared_0 {
            Ok(_) => if recovering {
                progress == ProgressModel::Done(OutcomeModel::Recovered(Ok(true)))
            } else {
                progress matches ProgressModel::Done(OutcomeModel::Ended(Ok(_)))
            },
            Err(e) => if recovering {
                progress == ProgressModel::Done(OutcomeModel::Recovered(Err(e)))
            } else {
                progress == ProgressModel::Done(OutcomeModel::Ended(Err(e)))
            },
        }
    } else if k < m {
        &&& progress is Next
        &&& looks_up(progress->Next_0, session.processes[m - 1 - k])
    } else {
        progress == ProgressModel::Next(Action::ClearSession)
    }
}

/// The restore of `session` after the replies.
spec fn restore_state(
    session: SessionModel,
    recovering: bool,
    replies: Seq<EventModel>,
    s: EngineModel,
) -> bool {
    let n = session.services.len();
    let m = session.processes.len();
    let k = looks(replies);
    &&& s.active is None
    &&& replies.len() <= n ==> k == 0
    &&& k <= m
    &&& if replies.len() < n {
        s.task == TaskModel::Restore(
            RestoreModel {
                services: session.services.take(n - replies.len()),
                processes: session.processes,
                stage: RestoreStage::Service,
                recovering,
            },
        )
    } else if just_matched(replies) {
        &&& 0 < k
        &&& s.task == TaskModel::Restore(
            RestoreModel {
                services: Seq::empty(),
                processes: session.processes.take(m - k + 1),
                stage: RestoreStage::Resume,
                recovering,
            },
        )
    } else if just_cleared(replies) {
        s.task is Idle && k == m
    } else {
        s.task == TaskModel::Restore(
            RestoreModel {
                services: Seq::empty(),
                processes: session.processes.take(m - k),
                stage: if k < m {
                    RestoreStage::Match
                } else {
                    RestoreStage::Clear
                },
                recovering,
            },
        )
    }
}

#[verifier::spinoff_prover]
#[verifier::rlimit(60)]
proof fn lemma_restore_replay(
    c: Classifier,
    session: SessionModel,
    recovering: bool,
    replies: Seq<EventModel>,
)
    requires
        replay(c, restore_begin(session, recovering), replies) is Some,
    ensures
        ({
            let (s, p) = replay(c, restore_begin(session, recovering), replies)->0;
            &&& restore_state(session, recovering, replies, s)
            &&& restore_asks(session, recovering, replies, p)
        }),
    decreases replies.len(),
{
    let n = session.services.len();
    let m = session.processes.len();
    assert(session.services.take(n as int) =~= session.services);
    assert(session.processes.take(m as int) =~= session.processes);
    assert(session.services.take(0) =~= Seq::empty());
    if n == 0 {
        assert(session.services =~= Seq::empty());
    }
    if replies.len() > 0 {
        let before = replies.drop_last();
        lemma_restore_replay(c, session, recovering, before);
        let k = looks(before);
        if before.len() < n {
            let left = n - before.len();
            assert(session.services.take(left).drop_last() =~= session.services.take(left - 1));
        } else if just_matched(before) {
            let left = m - k + 1;
            assert(session.processes.take(left).drop_last() =~= session.processes.take(left - 1));
        } else if k < m {
            let left = m - k;
            assert(session.processes.take(left).drop_last() =~= session.processes.take(left - 1));
        }
    }
}

/// Ending a boost puts everything back that is on record. After any replies to what
/// the restore of `session` has asked for, be they successes or failures, it asks
/// for what [`restore_asks`] says; no boost is active from the start; and it takes
/// every reply to what it asks for.
pub proof fn law_restore_asks_for_every_record(
    c: Classifier,
    session: SessionModel,
    recovering: bool,
    replies: Seq<EventModel>,
    e: EventModel,
)
    requires
        replay(c, restore_begin(session, recovering), replies) is Some,
    ensures
        ({
            let (s, p) = replay(c, restore_begin(session, recovering), replies)->0;
            &&& restore_asks(session, recovering, replies, p)
            &&& s.active is None
            &&& p is Next && is_reply(p->Next_0, e) ==> step(c, s, e) is Some
            &&& p is Done ==> s == idle(None)
        }),
{
    lemma_restore_replay(c, session, recovering, replies);
}

/// Whatever service a restore asks to be put back, the action names one record of
/// the session, and carries that record's name, original state and action.
pub proof fn law_restore_goes_by_one_record(
    c: Classifier,
    session: SessionModel,
    recovering: bool,
    replies: Seq<EventModel>,
)
    requires
        replay(c, restore_begin(session, recovering), replies) is Some,
        (replay(c, restore_begin(session, recovering), replies)->0).1 is Next,
        (replay(c, restore_begin(session, recovering), replies)->0).1->Next_0 is Restore,
    ensures
        exists|k: int|
            0 <= k < session.services.len() && puts_back(
                (replay(c, restore_begin(session, recovering), replies)->0).1->Next_0,
                #[trigger] session.services[k],
            ),
{
    lemma_restore_replay(c, session, recovering, replies);
    assert(puts_back(
        (replay(c, restore_begin(session, recovering), replies)->0).1->Next_0,
        session.services[session.services.len() - 1 - replies.len()],
    ));
}

/// The first reply of a replay can be taken off.
proof fn lemma_replay_first(
    c: Classifier,
    start: (EngineModel, ProgressModel),
    replies: Seq<EventModel>,
)
    requires
        replies.len() > 0,
        start.1 is Next,
        replay(c, start, replies) is Some,
    ensures
        step(c, start.0, replies[0]) is Some,
        replay(c, start, replies) == replay(
            c,
            step(c, start.0, replies[0])->0,
            replies.drop_first(),
        ),
    decreases replies.len(),
{
    let before = replies.drop_last();
    assert(before.len() == 0 ==> replay(c, start, before) == Some(start));
    if before.len() > 0 {
        lemma_replay_first(c, start, before);
        assert(replies.drop_first().drop_last() =~= before.drop_first());
        assert(replies.drop_first().last() == replies.last());
        assert(before[0] == replies[0]);
    } else {
        assert(replies.drop_first().len() == 0);
        assert(replies.last() == replies[0]);
    }
}

/// A recovery restores the session that the store holds, and nothing else: a load
/// that gives a session leads to the restore of that session, record by record; one
/// that gives none ends the recovery with nothing done; and one that fails ends it
/// with that failure.
pub proof fn law_recovery_goes_by_the_store(
    c: Classifier,
    active: Option<SessionModel>,
    replies: Seq<EventModel>,
)
    requires
        replies.len() > 0,
        replay(
            c,
            (
                EngineModel { active, task: TaskModel::Load },
                ProgressModel::Next(Action::LoadSession),
            ),
            replies,
        ) is Some,
    ensures
        ({
            let (s, p) = replay(
                c,
                (
                    EngineModel { active, task: TaskModel::Load },
                    ProgressModel::Next(Action::LoadSession),
                ),
                replies,
            )->0;
            &&& replies[0] is Loaded
            &&& match replies[0]->Loaded_0 {
                Ok(Some(session)) => {
                    &&& restore_asks(session, true, replies.drop_first(), p)
                    &&& s.active is None
                },
                Ok(None) => {
                    &&& replies.len() == 1
                    &&& s == idle(active)
                    &&& p == ProgressModel::Done(OutcomeModel::Recovered(Ok(false)))
                },
                Err(e) => {
                    &&& replies.len() == 1
                    &&& s == idle(active)
                    &&& p == ProgressModel::Done(OutcomeModel::Recovered(Err(e)))
                },
            }
        }),
{
    let start = (
        EngineModel { active, task: TaskModel::Load },
        ProgressModel::Next(Action::LoadSession),
    );
    lemma_replay_first(c, start, replies);
    match replies[0]->Loaded_0 {
        Ok(Some(session)) => {
            lemma_restore_replay(c, session, true, replies.drop_first());
        },
        _ => {
            if replies.len() > 1 {
                lemma_replay_over(c, step(c, start.0, replies[0])->0, replies.drop_first());
            }
        },
    }
}

/// When an operation is over no reply is taken.
proof fn lemma_replay_over(
    c: Classifier,
    start: (EngineModel, ProgressModel),
    replies: Seq<EventModel>,
)
    requires
        start.1 is Done,
        replies.len() > 0,
    ensures
        replay(c, start, replies) is None,
    decreases replies.len(),
{
    if replies.len() > 1 {
        lemma_replay_over(c, start, replies.drop_last());
    } else {
        assert(replay(c, start, replies.drop_last()) == Some(start));
    }
}

/// A scan shows the system as it was listed. The processes are listed, then the
/// services, and then the scan gives every process with its pid, its name and
/// whether it may be suspended, every service likewise, in the order of the
/// listings; a listing that fails ends the scan with that failure. Nothing else
/// changes.
pub proof fn law_scan_shows_what_was_listed(
    c: Classifier,
    active: Option<SessionModel>,
    profile: ProfileModel,
    procs: Seq<ProcessInfo>,
    services: Seq<ServiceInfo>,
    failure: BoosterError,
)
    ensures
        ({
            let s = EngineModel { active, task: TaskModel::ScanProcesses { profile } };
            let first = step(c, s, EventModel::Processes(Ok(procs)));
            let second = step(c, (first->0).0, EventModel::Services(Ok(services)));
            let scan = (second->0).1->Done_0->Scanned_0->Ok_0;
            &&& step(c, s, EventModel::Processes(Err(failure))) == Some(
                (
                    idle(active),
                    ProgressModel::Done(OutcomeModel::Scanned(Err(failure))),
                ),
            )
            &&& first is Some
            &&& (first->0).0.active == active
            &&& (first->0).1 == ProgressModel::Next(Action::EnumerateServices)
            &&& step(c, (first->0).0, EventModel::Services(Err(failure))) == Some(
                (
                    idle(active),
                    ProgressModel::Done(OutcomeModel::Scanned(Err(failure))),
                ),
            )
            &&& second is Some
            &&& (second->0).0 == idle(active)
            &&& (second->0).1 matches ProgressModel::Done(OutcomeModel::Scanned(Ok(_)))
            &&& lists_processes(c, profile, procs, scan.processes)
            &&& lists_services(c, profile, services, scan.services)
        }),
{
    law_scan_lists_every_process(c, profile, procs);
    law_scan_lists_every_service(c, profile, services);
}

/// The replies to a boost in which all goes well, on a system with these processes
/// and services: the one with the number `t`.
pub open spec fn smooth_reply(
    procs: Seq<ProcessInfo>,
    services: Seq<ServiceInfo>,
    todo: Seq<ProcessInfo>,
    changes: Seq<ServiceInfo>,
    t: int,
) -> EventModel {
    let turn = 2 + 2 * todo.len();
    if t == 0 {
        EventModel::Saved(Ok(()))
    } else if t == 1 {
        EventModel::Processes(Ok(procs))
    } else if t < turn {
        if t % 2 == 0 {
            EventModel::Saved(Ok(()))
        } else {
            EventModel::Suspended(Ok(()))
        }
    } else if t == turn {
        EventModel::Services(Ok(services))
    } else if t % 2 == 1 {
        EventModel::Saved(Ok(()))
    } else {
        EventModel::Changed(Ok(action_for(changes[(t - turn - 2) / 2])))
    }
}

/// What a boost in which all goes well asks for after `t` replies: the reservation of
/// its session, the processes, for each eligible one in the order of the listing a
/// save and then its suspension, the services, and for each eligible one a save and
/// then its change.
pub open spec fn smooth_asks(
    todo: Seq<ProcessInfo>,
    changes: Seq<ServiceInfo>,
    t: int,
    progress: ProgressModel,
) -> bool {
    let turn = 2 + 2 * todo.len();
    let end = turn + 1 + 2 * changes.len();
    if t == 0 {
        progress == ProgressModel::Next(Action::SaveSession)
    } else if t == 1 {
        progress == ProgressModel::Next(Action::EnumerateProcesses)
    } else if t < turn {
        if t % 2 == 0 {
            progress == ProgressModel::Next(Action::SaveSession)
        } else {
            progress == ProgressModel::Next(Action::Suspend { pid: todo[(t - 3) / 2].pid })
        }
    } else if t == turn {
        progress == ProgressModel::Next(Action::EnumerateServices)
    } else if t < end {
        if t % 2 == 1 {
            progress == ProgressModel::Next(Action::SaveSession)
        } else {
            progress == ProgressModel::Next(
                Action::PauseOrStop { name: changes[(t - turn - 2) / 2].name },
            )
        }
    } else {
        &&& progress matches ProgressModel::Done(OutcomeModel::Boosted(Ok(_)))
        &&& {
            let r = progress->Done_0->Boosted_0->Ok_0;
            &&& r.suspended_processes == todo.len()
            &&& r.changed_services == changes.len()
            &&& r.skipped.len() == 0
        }
    }
}

/// Whether `recs` records the first `n` of `todo`, in order.
pub open spec fn records_processes(
    recs: Seq<ProcessRecord>,
    todo: Seq<ProcessInfo>,
    n: int,
) -> bool {
    &&& recs.len() == n
    &&& forall|i: int|
        0 <= i < n ==> {
            &&& (#[trigger] recs[i]).pid == todo[i].pid
            &&& recs[i].name == todo[i].name
            &&& recs[i].image_path == todo[i].image_path
            &&& recs[i].start_time == todo[i].start_time
        }
}

/// Whether `recs` records the first `n` of `changes`, in order, each in the state that
/// it was listed in, with the action that follows from whether it can be paused.
pub open spec fn records_services(
    recs: Seq<ServiceRecord>,
    changes: Seq<ServiceInfo>,
    n: int,
) -> bool {
    &&& recs.len() == n
    &&& forall|i: int|
        0 <= i < n ==> {
            &&& (#[trigger] recs[i]).name == changes[i].name
            &&& recs[i].original_state == changes[i].state
            &&& recs[i].action == action_for(changes[i])
        }
}

/// The boost in which all goes well, after `t` replies.
spec fn smooth_state(
    profile: ProfileModel,
    id: SessionId,
    todo: Seq<ProcessInfo>,
    changes: Seq<ServiceInfo>,
    t: int,
    s: EngineModel,
) -> bool {
    let turn = 2 + 2 * todo.len();
    let end = turn + 1 + 2 * changes.len();
    let b = s.task->Boost_0;
    if t < end {
        &&& s.task is Boost
        &&& b.profile == profile
        &&& b.skipped.len() == 0
        &&& b.session.id == id
        &&& if t < 2 {
            &&& b.stage == if t == 0 {
                BoostStage::Reserve
            } else {
                BoostStage::ListProcesses
            }
            &&& records_processes(b.session.processes, todo, 0)
            &&& records_services(b.session.services, changes, 0)
        } else if t < turn {
            &&& b.stage == if t % 2 == 0 {
                BoostStage::RecordProcess
            } else {
                BoostStage::Suspend
            }
            &&& b.processes == todo.skip((t - 2) / 2)
            &&& records_processes(b.session.processes, todo, (t - 2) / 2 + 1)
            &&& records_services(b.session.services, changes, 0)
        } else if t == turn {
            &&& b.stage == BoostStage::ListServices
            &&& records_processes(b.session.processes, todo, todo.len() as int)
            &&& records_services(b.session.services, changes, 0)
        } else {
            &&& b.stage == if t % 2 == 1 {
                BoostStage::RecordService
            } else {
                BoostStage::Change
            }
            &&& b.services == changes.skip((t - turn - 1) / 2)
            &&& records_processes(b.session.processes, todo, todo.len() as int)
            &&& records_services(b.session.services, changes, (t - turn - 1) / 2 + 1)
        }
    } else {
        &&& s.task is Idle
        &&& s.active is Some
        &&& s.active->0.id == id
        &&& records_processes(s.active->0.processes, todo, todo.len() as int)
        &&& records_services(s.active->0.services, changes, changes.len() as int)
    }
}

#[verifier::rlimit(60)]
proof fn lemma_smooth_step(
    c: Classifier,
    profile: ProfileModel,
    id: SessionId,
    procs: Seq<ProcessInfo>,
    services: Seq<ServiceInfo>,
    t: int,
    s: EngineModel,
)
    requires
        ({
            let todo = procs.filter(|p: ProcessInfo| c.allows_process(p, profile));
            let changes = services.filter(|x: ServiceInfo| c.allows_service(x, profile));
            &&& 0 <= t < 3 + 2 * todo.len() + 2 * changes.len()
            &&& smooth_state(profile, id, todo, changes, t, s)
        }),
    ensures
        ({
            let todo = procs.filter(|p: ProcessInfo| c.allows_process(p, profile));
            let changes = services.filter(|x: ServiceInfo| c.allows_service(x, profile));
            let next = step(c, s, smooth_reply(procs, services, todo, changes, t));
            &&& next is Some
            &&& smooth_state(profile, id, todo, changes, t + 1, (next->0).0)
            &&& smooth_asks(todo, changes, t + 1, (next->0).1)
            &&& (next->0).1 is Next <==> t + 1 < 3 + 2 * todo.len() + 2 * changes.len()
            &&& (next->0).1 matches ProgressModel::Done(OutcomeModel::Boosted(Ok(r)))
                ==> r.session_id == id
        }),
{
    let todo = procs.filter(|p: ProcessInfo| c.allows_process(p, profile));
    let changes = services.filter(|x: ServiceInfo| c.allows_service(x, profile));
    let turn = 2 + 2 * todo.len();
    assert(todo.skip(0) =~= todo);
    assert(changes.skip(0) =~= changes);
    if 2 <= t < turn {
        let i = (t - 2) / 2;
        assert(todo.skip(i).drop_first() =~= todo.skip(i + 1));
        assert(i < todo.len() ==> todo.skip(i)[0] == todo[i]);
        assert(i + 1 < todo.len() ==> todo.skip(i + 1)[0] == todo[i + 1]);
    } else if turn < t {
        let j = (t - turn - 1) / 2;
        assert(changes.skip(j).drop_first() =~= changes.skip(j + 1));
        assert(j < changes.len() ==> changes.skip(j)[0] == changes[j]);
        assert(j + 1 < changes.len() ==> changes.skip(j + 1)[0] == changes[j + 1]);
    }
}

/// A boost in which all goes well, reply by reply: it asks for what [`smooth_asks`]
/// says of the eligible processes and services, in the order of the listings; and in
/// the end it is applied, under its own identity, and its session records each of
/// them, in that order.
pub proof fn law_smooth_boost(
    c: Classifier,
    session: SessionModel,
    profile: ProfileModel,
    procs: Seq<ProcessInfo>,
    services: Seq<ServiceInfo>,
    t: int,
)
    requires
        session.processes.len() == 0,
        session.services.len() == 0,
        ({
            let todo = procs.filter(|p: ProcessInfo| c.allows_process(p, profile));
            let changes = services.filter(|x: ServiceInfo| c.allows_service(x, profile));
            0 <= t <= 3 + 2 * todo.len() + 2 * changes.len()
        }),
    ensures
        ({
            let todo = procs.filter(|p: ProcessInfo| c.allows_process(p, profile));
            let changes = services.filter(|x: ServiceInfo| c.allows_service(x, profile));
            let end = 3 + 2 * todo.len() + 2 * changes.len();
            let start = (
                boost_begun(idle(None), session, profile),
                ProgressModel::Next(Action::SaveSession),
            );
            let replies = Seq::new(
                t as nat,
                |i: int| smooth_reply(procs, services, todo, changes, i),
            );
            let now = replay(c, start, replies);
            &&& now is Some
            &&& smooth_asks(todo, changes, t, (now->0).1)
            &&& t == end ==> {
                let s = (now->0).0;
                &&& s.task is Idle
                &&& s.active is Some
                &&& s.active->0.id == session.id
                &&& (now->0).1->Done_0->Boosted_0->Ok_0.session_id == session.id
                &&& records_processes(s.active->0.processes, todo, todo.len() as int)
                &&& records_services(s.active->0.services, changes, changes.len() as int)
            }
        }),
{
    lemma_smooth_replay(c, session, profile, procs, services, t);
}

proof fn lemma_smooth_replay(
    c: Classifier,
    session: SessionModel,
    profile: ProfileModel,
    procs: Seq<ProcessInfo>,
    services: Seq<ServiceInfo>,
    t: int,
)
    requires
        session.processes.len() == 0,
        session.services.len() == 0,
        ({
            let todo = procs.filter(|p: ProcessInfo| c.allows_process(p, profile));
            let changes = services.filter(|x: ServiceInfo| c.allows_service(x, profile));
            0 <= t <= 3 + 2 * todo.len() + 2 * changes.len()
        }),
    ensures
        ({
            let todo = procs.filter(|p: ProcessInfo| c.allows_process(p, profile));
            let changes = services.filter(|x: ServiceInfo| c.allows_service(x, profile));
            let end = 3 + 2 * todo.len() + 2 * changes.len();
            let start = (
                boost_begun(idle(None), session, profile),
                ProgressModel::Next(Action::SaveSession),
            );
            let replies = Seq::new(
                t as nat,
                |i: int| smooth_reply(procs, services, todo, changes, i),
            );
            let now = replay(c, start, replies);
            &&& now is Some
            &&& smooth_state(profile, session.id, todo, changes, t, (now->0).0)
            &&& smooth_asks(todo, changes, t, (now->0).1)
            &&& (now->0).1 is Next <==> t < end
            &&& (now->0).1 matches ProgressModel::Done(OutcomeModel::Boosted(Ok(r)))
                ==> r.session_id == session.id
        }),
    decreases t,
{
    let todo = procs.filter(|p: ProcessInfo| c.allows_process(p, profile));
    let changes = services.filter(|x: ServiceInfo| c.allows_service(x, profile));
    let start = (
        boost_begun(idle(None), session, profile),
        ProgressModel::Next(Action::SaveSession),
    );
    let f = |i: int| smooth_reply(procs, services, todo, changes, i);
    if t > 0 {
        lemma_smooth_replay(c, session, profile, procs, services, t - 1);
        let before = Seq::new((t - 1) as nat, f);
        let replies = Seq::new(t as nat, f);
        assert(replies.drop_last() =~= before);
        assert(replies.last() == smooth_reply(procs, services, todo, changes, t - 1));
        lemma_smooth_step(
            c,
            profile,
            session.id,
            procs,
            services,
            t - 1,
            (replay(c, start, before)->0).0,
        );
    }
}

/// A boost ends in an error only when a save or a listing failed, and with that very
/// failure; and every such failure ends it so.
pub proof fn law_boost_reports_the_failure(
    c: Classifier,
    active: Option<SessionModel>,
    b: BoostModel,
    e: EventModel,
    failure: BoosterError,
)
    requires
        step(c, EngineModel { active, task: TaskModel::Boost(b) }, e) is Some,
    ensures
        ({
            let (s2, p2) = step(c, EngineModel { active, task: TaskModel::Boost(b) }, e)->0;
            &&& p2 == ProgressModel::Done(OutcomeModel::Boosted(Err(failure))) <==> (e
                == EventModel::Saved(Err(failure)) || e == EventModel::Processes(Err(failure))
                || e == EventModel::Services(Err(failure)))
            &&& p2 matches ProgressModel::Done(OutcomeModel::Boosted(Err(_))) ==> s2 == idle(active)
        }),
{
}

/// Whether `note` tells what went wrong with an item: what it is, its name, and then,
/// behind a colon, the reason.
pub open spec fn tells(
    note: Seq<char>,
    kind: Seq<char>,
    name: Seq<char>,
    reason: Seq<char>,
) -> bool {
    let k = kind.len() as int;
    let n = name.len() as int;
    &&& note.len() == k + 1 + n + 2 + reason.len()
    &&& note.take(k) == kind
    &&& note[k] == ' '
    &&& note.subrange(k + 1, k + 1 + n) == name
    &&& note[k + 1 + n] == ':'
    &&& note[k + n + 2] == ' '
    &&& note.skip(k + n + 3) == reason
}

/// A process that cannot be suspended is skipped, and nothing else: its record is
/// taken back, a note tells its name and the reason, and once that is saved the boost
/// goes on with the very action that it would have gone on with otherwise.
pub proof fn law_failed_process_is_only_skipped(
    c: Classifier,
    active: Option<SessionModel>,
    b: BoostModel,
    failure: BoosterError,
)
    requires
        b.stage == BoostStage::Suspend,
        b.processes.len() > 0,
        b.session.processes.len() > 0,
    ensures
        ({
            let s = EngineModel { active, task: TaskModel::Boost(b) };
            let (sf, pf) = step(c, s, EventModel::Suspended(Err(failure)))->0;
            let (sa, pa) = step(c, sf, EventModel::Saved(Ok(())))->0;
            let (so, po) = step(c, s, EventModel::Suspended(Ok(())))->0;
            let f = sf.task->Boost_0;
            let a = sa.task->Boost_0;
            let o = so.task->Boost_0;
            &&& pf == ProgressModel::Next(Action::SaveSession)
            &&& sf.task is Boost
            &&& f.session.processes == b.session.processes.drop_last()
            &&& f.session.services == b.session.services
            &&& f.skipped.len() == b.skipped.len() + 1
            &&& f.skipped.drop_last() == b.skipped
            &&& tells(f.skipped.last(), "process"@, b.processes[0].name@, failure.text())
            &&& pa == po
            &&& sa.task is Boost && so.task is Boost
            &&& a.processes == o.processes
            &&& a.stage == o.stage
            &&& a.skipped == f.skipped
            &&& o.skipped == b.skipped
        }),
{
    lemma_note("process "@, "process"@, b.processes[0].name@, failure.text());
    let s = EngineModel { active, task: TaskModel::Boost(b) };
    let f = (step(c, s, EventModel::Suspended(Err(failure)))->0).0.task->Boost_0;
    assert(f.skipped.drop_last() =~= b.skipped);
}

proof fn lemma_note(head: Seq<char>, kind: Seq<char>, name: Seq<char>, reason: Seq<char>)
    requires
        (head == "process "@ && kind == "process"@) || (head == "service "@ && kind == "service"@),
    ensures
        tells(head + name + ": "@ + reason, kind, name, reason),
{
    reveal_strlit("process ");
    reveal_strlit("process");
    reveal_strlit("service ");
    reveal_strlit("service");
    reveal_strlit(": ");
    let note = head + name + ": "@ + reason;
    let k = kind.len() as int;
    let n = name.len() as int;
    assert(note.take(k) =~= kind);
    assert(note.subrange(k + 1, k + 1 + n) =~= name);
    assert(note.skip(k + n + 3) =~= reason);
}

/// A service that cannot be changed is skipped, and nothing else: its record is taken
/// back, a note tells its name and the reason, and once that is saved the boost goes on
/// with the services that are left, as it would have otherwise.
pub proof fn law_failed_service_is_only_skipped(
    c: Classifier,
    active: Option<SessionModel>,
    b: BoostModel,
    failure: BoosterError,
)
    requires
        b.stage == BoostStage::Change,
        b.services.len() > 0,
        b.session.services.len() > 0,
    ensures
        ({
            let s = EngineModel { active, task: TaskModel::Boost(b) };
            let (sf, pf) = step(c, s, EventModel::Changed(Err(failure)))->0;
            let (sa, pa) = step(c, sf, EventModel::Saved(Ok(())))->0;
            let (so, po) = step(c, s, EventModel::Changed(Ok(action_for(b.services[0]))))->0;
            let f = sf.task->Boost_0;
            &&& pf == ProgressModel::Next(Action::SaveSession)
            &&& sf.task is Boost
            &&& f.session.services == b.session.services.drop_last()
            &&& f.session.processes == b.session.processes
            &&& f.skipped.len() == b.skipped.len() + 1
            &&& f.skipped.drop_last() == b.skipped
            &&& tells(f.skipped.last(), "service"@, b.services[0].name@, failure.text())
            &&& pa is Next <==> po is Next
            &&& pa is Next ==> {
                &&& pa == po
                &&& sa.task is Boost && so.task is Boost
                &&& sa.task->Boost_0.services == so.task->Boost_0.services
                &&& sa.task->Boost_0.stage == so.task->Boost_0.stage
                &&& sa.task->Boost_0.skipped == f.skipped
                &&& so.task->Boost_0.skipped == b.skipped
            }
            &&& pa is Done ==> {
                &&& pa matches ProgressModel::Done(OutcomeModel::Boosted(Ok(r))) && r.skipped
                    == f.skipped
                &&& po matches ProgressModel::Done(OutcomeModel::Boosted(Ok(r))) && r.skipped
                    == b.skipped
            }
        }),
{
    lemma_note("service "@, "service"@, b.services[0].name@, failure.text());
    let s = EngineModel { active, task: TaskModel::Boost(b) };
    let f = (step(c, s, EventModel::Changed(Err(failure)))->0).0.task->Boost_0;
    assert(f.skipped.drop_last() =~= b.skipped);
}

/// A service that was changed otherwise than expected is on record as it was changed:
/// the record is set right, and once that is saved the boost goes on as it would have
/// otherwise.
pub proof fn law_record_follows_the_change(
    c: Classifier,
    active: Option<SessionModel>,
    b: BoostModel,
    action: ServiceAction,
)
    requires
        b.stage == BoostStage::Change,
        b.services.len() > 0,
        b.session.services.len() > 0,
        action != action_for(b.services[0]),
    ensures
        ({
            let s = EngineModel { active, task: TaskModel::Boost(b) };
            let (s2, p2) = step(c, s, EventModel::Changed(Ok(action)))->0;
            let (sa, pa) = step(c, s2, EventModel::Saved(Ok(())))->0;
            let (so, po) = step(c, s, EventModel::Changed(Ok(action_for(b.services[0]))))->0;
            let recs = s2.task->Boost_0.session.services;
            &&& p2 == ProgressModel::Next(Action::SaveSession)
            &&& recs.len() == b.session.services.len()
            &&& recs.drop_last() == b.session.services.drop_last()
            &&& recs.last().name == b.services[0].name
            &&& recs.last().original_state == b.services[0].state
            &&& recs.last().action == action
            &&& s2.task->Boost_0.skipped == b.skipped
            &&& pa is Next <==> po is Next
            &&& pa is Next ==> pa == po
        }),
{
    let s = EngineModel { active, task: TaskModel::Boost(b) };
    let recs = (step(c, s, EventModel::Changed(Ok(action)))->0).0.task->Boost_0.session.services;
    assert(recs.drop_last() =~= b.session.services.drop_last());
}

/// A boost takes every reply to what it has asked for, be it a success or a failure, and
/// no other reply.
pub proof fn law_boost_takes_every_reply(
    c: Classifier,
    active: Option<SessionModel>,
    b: BoostModel,
    e: EventModel,
)
    requires
        b.stage == BoostStage::RecordProcess || b.stage == BoostStage::Suspend
            ==> b.processes.len() > 0 && b.session.processes.len() > 0,
        b.stage == BoostStage::RecordService || b.stage == BoostStage::Change
            ==> b.services.len() > 0 && b.session.services.len() > 0,
    ensures
        step(c, EngineModel { active, task: TaskModel::Boost(b) }, e) is Some <==> match b.stage {
            BoostStage::Reserve | BoostStage::RecordProcess | BoostStage::AmendProcess
            | BoostStage::RecordService | BoostStage::AmendService => e is Saved,
            BoostStage::ListProcesses => e is Processes,
            BoostStage::Suspend => e is Suspended,
            BoostStage::ListServices => e is Services,
            BoostStage::Change => e is Changed,
        },
{
}

/// Whenever a save is asked for, and only then, there is a session to be saved: that of
/// the boost under way.
pub proof fn law_save_has_a_session(
    c: Classifier,
    s: EngineModel,
    e: EventModel,
    session: SessionModel,
    profile: ProfileModel,
)
    ensures
        to_save(boost_begun(s, session, profile)) == Some(session),
        step(c, s, e) matches Some((s2, p2)) ==> {
            &&& to_save(s2) is Some <==> p2 == ProgressModel::Next(Action::SaveSession)
            &&& to_save(s2) is Some ==> s2.task is Boost && to_save(s2) == Some(
                s2.task->Boost_0.session,
            )
        },
{
}

} // verus!
