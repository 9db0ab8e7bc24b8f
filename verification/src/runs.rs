//! Whole runs of the engine: a boost that is applied and ended leaves no trace,
//! and neither does one that is cut short and recovered from, also after a reboot;
//! and a boost that nobody keeps alive expires.

use vstd::prelude::*;

use crate::classify::{Classifier, Profile, ProfileModel};
use crate::engine::Action;
use crate::host::{dispatched, heartbeat_ttl, DispatchModel};
use crate::ipc::Request;
use crate::model::{
    boost_begun, idle, law_boost_keeps_its_deadline, overdue, restore_begin, same_boost, step,
    to_save, BoostModel, BoostStage, EngineModel, EventModel, OutcomeModel, ProgressModel,
    TaskModel,
};
use crate::recovery::{
    answers, boosted, boosting, distinct_names, has_name, has_pid, law_boost_begins,
    law_boost_goes_on, law_boost_is_undone, law_crash_is_recovered, law_restore_begins,
    law_restore_can_be_repeated, law_restore_goes_on, law_write_ahead,
    lemma_applied_services_undo, lemma_changed_by, lemma_stored_services_undo, process_on_record,
    repeatable, restores_to, service_on_record, service_records_fit, still_listed, succeeds,
    undoable, undoes_to, undone, World,
};
use crate::session::{SessionId, SessionModel};
use crate::snapshot::Metrics;
use crate::time::Timestamp;

verus! {

/// One turn of a run: the reply to the pending action, and the world after it.
pub struct Turn {
    pub reply: EventModel,
    pub world: World,
}

/// Where a run is: the engine, the world, and what the engine asks for.
pub struct Place {
    pub engine: EngineModel,
    pub world: World,
    pub progress: ProgressModel,
}

/// Where the turns lead from `p`; `None` if they are not a run, that is, if a
/// reply is not one that the world may give to the pending action, or comes when
/// the operation is over.
pub open spec fn run(c: Classifier, p: Place, turns: Seq<Turn>) -> Option<Place>
    decreases turns.len(),
{
    if turns.len() == 0 {
        Some(p)
    } else {
        let t = turns[0];
        match p.progress {
            ProgressModel::Next(a) => if answers(
                p.world,
                to_save(p.engine),
                a,
                t.reply,
                t.world,
            ) {
                match step(c, p.engine, t.reply) {
                    Some((engine, progress)) => run(
                        c,
                        Place { engine, world: t.world, progress },
                        turns.drop_first(),
                    ),
                    None => None,
                }
            } else {
                None
            },
            ProgressModel::Done(_) => None,
        }
    }
}

/// Whether every reply of a run is a success.
pub open spec fn all_succeed(turns: Seq<Turn>) -> bool {
    forall|i: int| 0 <= i < turns.len() ==> succeeds((#[trigger] turns[i]).reply)
}

/// The start of a boost in the world `w`.
pub open spec fn boost_start(w: World, session: SessionModel, profile: ProfileModel) -> Place {
    Place {
        engine: boost_begun(idle(None), session, profile),
        world: w,
        progress: ProgressModel::Next(Action::SaveSession),
    }
}

/// The start of ending the boost that records `session`.
pub open spec fn end_start(w: World, session: SessionModel) -> Place {
    Place {
        engine: restore_begin(session, false).0,
        world: w,
        progress: restore_begin(session, false).1,
    }
}

/// The start of a fresh engine's recovery in the world `w`.
pub open spec fn recover_start(w: World) -> Place {
    Place {
        engine: EngineModel { active: None, task: TaskModel::Load },
        world: w,
        progress: ProgressModel::Next(Action::LoadSession),
    }
}

/// Where a boost's run may lead: it is in good order, it is applied, or it has
/// failed in a world in which it was in good order.
pub open spec fn boost_place(c: Classifier, profile: ProfileModel, w0: World, p: Place) -> bool {
    match p.progress {
        ProgressModel::Next(a) => {
            &&& p.engine.task is Boost
            &&& p.engine.task->Boost_0.profile == profile
            &&& boosting(c, w0, p.world, p.engine, p.engine.task->Boost_0, a)
        },
        ProgressModel::Done(OutcomeModel::Boosted(Ok(_))) => boosted(
            c,
            profile,
            w0,
            p.world,
            p.engine,
        ),
        ProgressModel::Done(OutcomeModel::Boosted(Err(_))) => {
            &&& p.engine == idle(None)
            &&& exists|s: EngineModel, b: BoostModel, a: Action|
                #[trigger] boosting(c, w0, p.world, s, b, a) && b.profile == profile
        },
        _ => false,
    }
}

proof fn lemma_boost_run(
    c: Classifier,
    profile: ProfileModel,
    w0: World,
    p: Place,
    turns: Seq<Turn>,
)
    requires
        boost_place(c, profile, w0, p),
        run(c, p, turns) is Some,
    ensures
        boost_place(c, profile, w0, run(c, p, turns)->0),
    decreases turns.len(),
{
    if turns.len() > 0 {
        let t = turns[0];
        let a = p.progress->Next_0;
        let b = p.engine.task->Boost_0;
        law_boost_goes_on(c, w0, p.world, p.engine, b, a, t.reply, t.world);
        let (engine, progress) = step(c, p.engine, t.reply)->0;
        let q = Place { engine, world: t.world, progress };
        match progress {
            ProgressModel::Done(OutcomeModel::Boosted(Err(_))) => {
                assert(boosting(c, w0, q.world, p.engine, b, a));
            },
            _ => {},
        }
        lemma_boost_run(c, profile, w0, q, turns.drop_first());
    }
}

proof fn lemma_restore_run(
    c: Classifier,
    target: World,
    recovering: bool,
    p: Place,
    turns: Seq<Turn>,
)
    requires
        restores_to(target, recovering, p.world, p.engine, p.progress),
        run(c, p, turns) is Some,
        all_succeed(turns),
    ensures
        ({
            let q = run(c, p, turns)->0;
            restores_to(target, recovering, q.world, q.engine, q.progress)
        }),
    decreases turns.len(),
{
    if turns.len() > 0 {
        let t = turns[0];
        let a = p.progress->Next_0;
        let r = p.engine.task->Restore_0;
        assert(succeeds(turns[0].reply));
        law_restore_goes_on(c, target, p.world, p.engine, r, a, t.reply, t.world);
        let (engine, progress) = step(c, p.engine, t.reply)->0;
        let rest = turns.drop_first();
        assert forall|i: int| 0 <= i < rest.len() implies succeeds((#[trigger] rest[i]).reply) by {
            assert(rest[i] == turns[i + 1]);
        }
        lemma_restore_run(
            c,
            target,
            recovering,
            Place { engine, world: t.world, progress },
            rest,
        );
    }
}

/// Throughout a boost every change is written ahead, and only eligible items are
/// touched. Take any run of a boost, on any system, up to any action that it asks
/// for: if that is to suspend a process, the process is an eligible one and the
/// latest record in the store is its full record; if it is to pause or stop a
/// service, likewise; and whatever the boost has changed by then is on record in
/// the store.
pub proof fn law_boost_writes_ahead(
    c: Classifier,
    profile: ProfileModel,
    w0: World,
    session: SessionModel,
    turns: Seq<Turn>,
)
    requires
        session.processes.len() == 0,
        session.services.len() == 0,
        run(c, boost_start(w0, session, profile), turns) is Some,
        run(c, boost_start(w0, session, profile), turns)->0.progress is Next,
    ensures
        ({
            let p = run(c, boost_start(w0, session, profile), turns)->0;
            let w = p.world;
            let a = p.progress->Next_0;
            &&& p.engine.task is Boost
            &&& p.engine.task->Boost_0.stage == BoostStage::Reserve ==> w == w0
            &&& p.engine.task->Boost_0.stage != BoostStage::Reserve ==> {
                &&& w.disk is Some
                &&& forall|pid: u32| #[trigger]
                    w.suspended.contains(pid) && !w0.suspended.contains(pid) ==> has_pid(
                        w.disk->0.processes,
                        pid,
                    )
                &&& w.services.len() == w0.services.len()
                &&& forall|i: int|
                    0 <= i < w0.services.len() && #[trigger] w.services[i] != w0.services[i]
                        ==> has_name(w.disk->0.services, w0.services[i].name@)
            }
            &&& a matches Action::Suspend { pid } ==> {
                &&& w.disk is Some
                &&& has_pid(w.disk->0.processes, pid)
                &&& process_on_record(c, profile, w0, w.disk->0, pid)
            }
            &&& a matches Action::PauseOrStop { name } ==> {
                &&& w.disk is Some
                &&& has_name(w.disk->0.services, name@)
                &&& service_on_record(c, profile, w0, w.disk->0, name)
            }
        }),
{
    law_boost_begins(c, w0, session, profile);
    lemma_boost_run(c, profile, w0, boost_start(w0, session, profile), turns);
    let p = run(c, boost_start(w0, session, profile), turns)->0;
    let b = p.engine.task->Boost_0;
    law_write_ahead(c, w0, p.world, p.engine, b, p.progress->Next_0);
}

/// Boost and restore round-trip. Take any run of a boost to its success, in which
/// single items may have failed, and then, on the system as the boost left it, any
/// run of ending it in which nothing fails: all processes and services are again as
/// they were before the boost, the store is empty and no boost is active. For a
/// system that has changed since see [`law_boost_ends_on_a_changed_system`].
pub proof fn law_boost_round_trips(
    c: Classifier,
    profile: ProfileModel,
    w0: World,
    session: SessionModel,
    boost_turns: Seq<Turn>,
    end_turns: Seq<Turn>,
)
    requires
        undoable(c, profile, w0),
        session.processes.len() == 0,
        session.services.len() == 0,
        run(c, boost_start(w0, session, profile), boost_turns) is Some,
        ({
            let applied = run(c, boost_start(w0, session, profile), boost_turns)->0;
            &&& applied.progress matches ProgressModel::Done(OutcomeModel::Boosted(Ok(_)))
            &&& run(c, end_start(applied.world, applied.engine.active->0), end_turns) is Some
            &&& run(
                c,
                end_start(applied.world, applied.engine.active->0),
                end_turns,
            )->0.progress is Done
        }),
        all_succeed(end_turns),
    ensures
        ({
            let applied = run(c, boost_start(w0, session, profile), boost_turns)->0;
            let ended = run(
                c,
                end_start(applied.world, applied.engine.active->0),
                end_turns,
            )->0;
            &&& ended.engine == idle(None)
            &&& ended.world == (World { disk: None, ..w0 })
        }),
{
    let start = boost_start(w0, session, profile);
    law_boost_begins(c, w0, session, profile);
    lemma_boost_run(c, profile, w0, start, boost_turns);
    let applied = run(c, start, boost_turns)->0;
    law_boost_is_undone(c, profile, w0, applied.world, applied.engine);
    lemma_restore_run(
        c,
        w0,
        false,
        end_start(applied.world, applied.engine.active->0),
        end_turns,
    );
}

/// A boost that is cut short is fully recovered from. Take any run of a boost up
/// to any point past its first save, and then, with a fresh engine and on the system
/// as it was left, any run of a recovery in which nothing fails: all processes and
/// services are again as they were before the boost, and the store is empty. For a
/// system that has changed since see [`law_reboot_is_recovered`]. Between a change
/// that was made otherwise than expected and the save that sets its record right,
/// this rests on what [`answers`] says of restoring a service.
pub proof fn law_crash_round_trips(
    c: Classifier,
    profile: ProfileModel,
    w0: World,
    session: SessionModel,
    boost_turns: Seq<Turn>,
    recover_turns: Seq<Turn>,
)
    requires
        undoable(c, profile, w0),
        session.processes.len() == 0,
        session.services.len() == 0,
        run(c, boost_start(w0, session, profile), boost_turns) is Some,
        ({
            let cut = run(c, boost_start(w0, session, profile), boost_turns)->0;
            &&& cut.progress is Next
            &&& cut.engine.task->Boost_0.stage != BoostStage::Reserve
            &&& run(c, recover_start(cut.world), recover_turns) is Some
            &&& run(c, recover_start(cut.world), recover_turns)->0.progress is Done
        }),
        all_succeed(recover_turns),
    ensures
        ({
            let cut = run(c, boost_start(w0, session, profile), boost_turns)->0;
            let recovered = run(c, recover_start(cut.world), recover_turns)->0;
            &&& recovered.engine == idle(None)
            &&& recovered.progress == ProgressModel::Done(OutcomeModel::Recovered(Ok(true)))
            &&& recovered.world == (World { disk: None, ..w0 })
        }),
{
    let start = boost_start(w0, session, profile);
    law_boost_begins(c, w0, session, profile);
    lemma_boost_run(c, profile, w0, start, boost_turns);
    let cut = run(c, start, boost_turns)->0;
    let b = cut.engine.task->Boost_0;
    law_crash_is_recovered(c, w0, cut.world, cut.engine, b, cut.progress->Next_0);
    lemma_recovery_run(c, w0, cut.world, cut.world.disk->0, recover_turns);
}

proof fn lemma_recovery_run(
    c: Classifier,
    target: World,
    w: World,
    session: SessionModel,
    turns: Seq<Turn>,
)
    requires
        w.disk == Some(session),
        restores_to(
            target,
            true,
            w,
            restore_begin(session, true).0,
            restore_begin(session, true).1,
        ),
        run(c, recover_start(w), turns) is Some,
        run(c, recover_start(w), turns)->0.progress is Done,
        all_succeed(turns),
    ensures
        ({
            let recovered = run(c, recover_start(w), turns)->0;
            &&& recovered.engine == idle(None)
            &&& recovered.progress == ProgressModel::Done(OutcomeModel::Recovered(Ok(true)))
            &&& recovered.world == (World { disk: None, ..target })
        }),
{
    let start = recover_start(w);
    assert(turns.len() > 0);
    let t = turns[0];
    assert(succeeds(turns[0].reply));
    assert(t.reply == EventModel::Loaded(Ok(w.disk)));
    let (engine, progress) = step(c, start.engine, t.reply)->0;
    let rest = turns.drop_first();
    assert forall|i: int| 0 <= i < rest.len() implies succeeds((#[trigger] rest[i]).reply) by {
        assert(rest[i] == turns[i + 1]);
    }
    lemma_restore_run(c, target, true, Place { engine, world: t.world, progress }, rest);
}

/// A boost that fails after its first save is fully recovered from in the same
/// way, also if the store held an older session before. The save shows in that the
/// store has changed. For a system that has changed since see
/// [`law_reboot_is_recovered`].
pub proof fn law_failed_boost_is_recovered(
    c: Classifier,
    profile: ProfileModel,
    w0: World,
    session: SessionModel,
    boost_turns: Seq<Turn>,
    recover_turns: Seq<Turn>,
)
    requires
        undoable(c, profile, w0),
        session.processes.len() == 0,
        session.services.len() == 0,
        run(c, boost_start(w0, session, profile), boost_turns) is Some,
        ({
            let failed = run(c, boost_start(w0, session, profile), boost_turns)->0;
            &&& failed.progress matches ProgressModel::Done(OutcomeModel::Boosted(Err(_)))
            &&& failed.world.disk != w0.disk
            &&& run(c, recover_start(failed.world), recover_turns) is Some
            &&& run(c, recover_start(failed.world), recover_turns)->0.progress is Done
        }),
        all_succeed(recover_turns),
    ensures
        ({
            let failed = run(c, boost_start(w0, session, profile), boost_turns)->0;
            let recovered = run(c, recover_start(failed.world), recover_turns)->0;
            &&& recovered.engine == idle(None)
            &&& recovered.progress == ProgressModel::Done(OutcomeModel::Recovered(Ok(true)))
            &&& recovered.world == (World { disk: None, ..w0 })
        }),
{
    let start = boost_start(w0, session, profile);
    law_boost_begins(c, w0, session, profile);
    lemma_boost_run(c, profile, w0, start, boost_turns);
    let failed = run(c, start, boost_turns)->0;
    let (s, b, a) = choose|s: EngineModel, b: BoostModel, a: Action|
        #[trigger] boosting(c, w0, failed.world, s, b, a) && b.profile == profile;
    assert(boosting(c, w0, failed.world, s, b, a) && b.profile == profile);
    law_crash_is_recovered(c, w0, failed.world, s, b, a);
    lemma_recovery_run(c, w0, failed.world, failed.world.disk->0, recover_turns);
}

/// Where a restore's run may lead: it can be repeated, or it is over, with the
/// store cleared or in a world in which it could be repeated.
pub open spec fn restore_place(target: World, session: SessionModel, p: Place) -> bool {
    match p.progress {
        ProgressModel::Next(a) => {
            &&& p.engine.task is Restore
            &&& repeatable(target, session, p.world, p.engine, p.engine.task->Restore_0, a)
        },
        ProgressModel::Done(_) => {
            p.world.disk is Some ==> {
                &&& p.world.disk == Some(session)
                &&& undoes_to(p.world, session.services, session.processes, target)
            }
        },
    }
}

proof fn lemma_repeatable_run(
    c: Classifier,
    target: World,
    session: SessionModel,
    p: Place,
    turns: Seq<Turn>,
)
    requires
        distinct_names(target.services),
        service_records_fit(target.services, session.services),
        restore_place(target, session, p),
        run(c, p, turns) is Some,
    ensures
        restore_place(target, session, run(c, p, turns)->0),
    decreases turns.len(),
{
    if turns.len() > 0 {
        let t = turns[0];
        let a = p.progress->Next_0;
        let r = p.engine.task->Restore_0;
        law_restore_can_be_repeated(
            c,
            target,
            session,
            p.world,
            p.engine,
            r,
            a,
            t.reply,
            t.world,
        );
        let (engine, progress) = step(c, p.engine, t.reply)->0;
        let q = Place { engine, world: t.world, progress };
        lemma_repeatable_run(c, target, session, q, turns.drop_first());
    }
}

/// The world that undoing `session` in the world `w` leads to.
spec fn undoing(w: World, session: SessionModel) -> World {
    World {
        suspended: w.suspended.filter(
            |pid: u32| !still_listed(w.procs, session.processes, pid),
        ),
        services: undone(w.services, session.services),
        ..w
    }
}

/// As long as the store holds the session, undoing all of it leads to the world
/// that undoing it led to at first, with the services that the boost found.
proof fn lemma_cut_restore(
    c: Classifier,
    profile: ProfileModel,
    w0: World,
    session: SessionModel,
    boost_turns: Seq<Turn>,
    end_turns: Seq<Turn>,
)
    requires
        distinct_names(w0.services),
        session.processes.len() == 0,
        session.services.len() == 0,
        run(c, boost_start(w0, session, profile), boost_turns) is Some,
        ({
            let applied = run(c, boost_start(w0, session, profile), boost_turns)->0;
            let cut = run(c, end_start(applied.world, applied.engine.active->0), end_turns);
            &&& applied.progress matches ProgressModel::Done(OutcomeModel::Boosted(Ok(_)))
            &&& cut is Some
            &&& cut->0.world.disk is Some
        }),
    ensures
        ({
            let applied = run(c, boost_start(w0, session, profile), boost_turns)->0;
            let full = applied.engine.active->0;
            let cut = run(c, end_start(applied.world, full), end_turns)->0;
            &&& boosted(c, profile, w0, applied.world, applied.engine)
            &&& cut.world.disk == Some(full)
            &&& undoes_to(
                cut.world,
                full.services,
                full.processes,
                undoing(applied.world, full),
            )
            &&& undoing(applied.world, full).services == w0.services
        }),
{
    let start = boost_start(w0, session, profile);
    law_boost_begins(c, w0, session, profile);
    lemma_boost_run(c, profile, w0, start, boost_turns);
    let applied = run(c, start, boost_turns)->0;
    let full = applied.engine.active->0;
    let target = undoing(applied.world, full);
    lemma_applied_services_undo(c, profile, w0, applied.world, applied.engine);
    law_restore_begins(target, applied.world, full, false);
    let ending = end_start(applied.world, full);
    lemma_changed_by(w0.services, full.services);
    assert(restore_place(target, full, ending));
    lemma_repeatable_run(c, target, full, ending, end_turns);
}

/// A restore that is cut short is recovered from. Take any run of a boost to its
/// success, then any run of ending it, in which anything may fail and which may
/// stop anywhere, as long as the session is still in the store, and then, with a
/// fresh engine and on the system as it was left, any run of a recovery in which
/// nothing fails: all processes and services are again as they were before the
/// boost, and the store is empty. For a system that has changed since see
/// [`law_cut_restore_survives_a_reboot`].
pub proof fn law_cut_restore_is_recovered(
    c: Classifier,
    profile: ProfileModel,
    w0: World,
    session: SessionModel,
    boost_turns: Seq<Turn>,
    end_turns: Seq<Turn>,
    recover_turns: Seq<Turn>,
)
    requires
        undoable(c, profile, w0),
        session.processes.len() == 0,
        session.services.len() == 0,
        run(c, boost_start(w0, session, profile), boost_turns) is Some,
        ({
            let applied = run(c, boost_start(w0, session, profile), boost_turns)->0;
            let cut = run(c, end_start(applied.world, applied.engine.active->0), end_turns);
            &&& applied.progress matches ProgressModel::Done(OutcomeModel::Boosted(Ok(_)))
            &&& cut is Some
            &&& cut->0.world.disk is Some
            &&& run(c, recover_start(cut->0.world), recover_turns) is Some
            &&& run(c, recover_start(cut->0.world), recover_turns)->0.progress is Done
        }),
        all_succeed(recover_turns),
    ensures
        ({
            let applied = run(c, boost_start(w0, session, profile), boost_turns)->0;
            let cut = run(c, end_start(applied.world, applied.engine.active->0), end_turns)->0;
            let recovered = run(c, recover_start(cut.world), recover_turns)->0;
            &&& recovered.engine == idle(None)
            &&& recovered.progress == ProgressModel::Done(OutcomeModel::Recovered(Ok(true)))
            &&& recovered.world == (World { disk: None, ..w0 })
        }),
{
    lemma_cut_restore(c, profile, w0, session, boost_turns, end_turns);
    let applied = run(c, boost_start(w0, session, profile), boost_turns)->0;
    let full = applied.engine.active->0;
    let cut = run(c, end_start(applied.world, full), end_turns)->0;
    law_boost_is_undone(c, profile, w0, applied.world, applied.engine);
    assert(undoing(applied.world, full).suspended =~= w0.suspended);
    law_restore_begins(w0, cut.world, full, true);
    lemma_recovery_run(c, w0, cut.world, full, recover_turns);
}

/// A recovery restores what is left. Take any system with a session in its store,
/// whatever has become of it since (some of the recorded processes may be gone, as
/// all are after a reboot, their pids may have been recycled, others may have
/// started), and any run of a recovery in which nothing fails: every record of a
/// service is undone, exactly those of the recorded processes are resumed that are
/// still there, and the store is empty.
pub proof fn law_recovery_restores_what_is_left(
    c: Classifier,
    w: World,
    session: SessionModel,
    turns: Seq<Turn>,
)
    requires
        w.disk == Some(session),
        run(c, recover_start(w), turns) is Some,
        run(c, recover_start(w), turns)->0.progress is Done,
        all_succeed(turns),
    ensures
        ({
            let q = run(c, recover_start(w), turns)->0;
            &&& q.engine == idle(None)
            &&& q.progress == ProgressModel::Done(OutcomeModel::Recovered(Ok(true)))
            &&& q.world.procs == w.procs
            &&& q.world.services == undone(w.services, session.services)
            &&& forall|pid: u32| #[trigger]
                q.world.suspended.contains(pid) <==> w.suspended.contains(pid) && !still_listed(
                    w.procs,
                    session.processes,
                    pid,
                )
            &&& q.world.disk is None
        }),
{
    let target = undoing(w, session);
    law_restore_begins(target, w, session, true);
    lemma_recovery_run(c, target, w, session, turns);
}

/// Ending a boost restores what is left: as [`law_recovery_restores_what_is_left`]
/// says, for the boost that records `session`, on any system.
pub proof fn law_end_restores_what_is_left(
    c: Classifier,
    w: World,
    session: SessionModel,
    turns: Seq<Turn>,
)
    requires
        run(c, end_start(w, session), turns) is Some,
        run(c, end_start(w, session), turns)->0.progress is Done,
        all_succeed(turns),
    ensures
        ({
            let q = run(c, end_start(w, session), turns)->0;
            &&& q.engine == idle(None)
            &&& q.progress matches ProgressModel::Done(OutcomeModel::Ended(Ok(_)))
            &&& q.world.procs == w.procs
            &&& q.world.services == undone(w.services, session.services)
            &&& forall|pid: u32| #[trigger]
                q.world.suspended.contains(pid) <==> w.suspended.contains(pid) && !still_listed(
                    w.procs,
                    session.processes,
                    pid,
                )
            &&& q.world.disk is None
        }),
{
    let target = undoing(w, session);
    law_restore_begins(target, w, session, false);
    lemma_restore_run(c, target, false, end_start(w, session), turns);
}

/// Whether a boost's run that began in the world `w0` is past its first save: it
/// goes on after it, it is applied, or it has failed and the store has changed.
pub open spec fn past_first_save(w0: World, p: Place) -> bool {
    match p.progress {
        ProgressModel::Next(_) => p.engine.task->Boost_0.stage != BoostStage::Reserve,
        ProgressModel::Done(OutcomeModel::Boosted(Ok(_))) => true,
        ProgressModel::Done(OutcomeModel::Boosted(Err(_))) => p.world.disk != w0.disk,
        _ => false,
    }
}

/// A reboot is fully recovered from. Take any run of a boost to any point past its
/// first save, be it under way, applied or failed, and then any system that still
/// has its services and its store, whatever processes it runs, as after a reboot
/// or when suspended processes were killed; and, with a fresh engine, any run of a
/// recovery in which nothing fails: all services are again as they were before the
/// boost, the recorded processes that are still there are resumed, and the store is
/// empty. As with [`law_crash_round_trips`], a service that was changed otherwise
/// than expected, and whose record was not set right yet, rests on what [`answers`]
/// says of restoring it.
pub proof fn law_reboot_is_recovered(
    c: Classifier,
    profile: ProfileModel,
    w0: World,
    session: SessionModel,
    boost_turns: Seq<Turn>,
    w: World,
    recover_turns: Seq<Turn>,
)
    requires
        distinct_names(w0.services),
        session.processes.len() == 0,
        session.services.len() == 0,
        run(c, boost_start(w0, session, profile), boost_turns) is Some,
        ({
            let cut = run(c, boost_start(w0, session, profile), boost_turns)->0;
            &&& past_first_save(w0, cut)
            &&& w.services == cut.world.services
            &&& w.disk == cut.world.disk
        }),
        run(c, recover_start(w), recover_turns) is Some,
        run(c, recover_start(w), recover_turns)->0.progress is Done,
        all_succeed(recover_turns),
    ensures
        ({
            let q = run(c, recover_start(w), recover_turns)->0;
            &&& w.disk is Some
            &&& q.engine == idle(None)
            &&& q.progress == ProgressModel::Done(OutcomeModel::Recovered(Ok(true)))
            &&& q.world.procs == w.procs
            &&& q.world.services == w0.services
            &&& forall|pid: u32| #[trigger]
                q.world.suspended.contains(pid) <==> w.suspended.contains(pid) && !still_listed(
                    w.procs,
                    w.disk->0.processes,
                    pid,
                )
            &&& q.world.disk is None
        }),
{
    let start = boost_start(w0, session, profile);
    law_boost_begins(c, w0, session, profile);
    lemma_boost_run(c, profile, w0, start, boost_turns);
    let cut = run(c, start, boost_turns)->0;
    match cut.progress {
        ProgressModel::Next(a) => {
            lemma_stored_services_undo(
                c,
                w0,
                cut.world,
                cut.engine,
                cut.engine.task->Boost_0,
                a,
            );
        },
        ProgressModel::Done(OutcomeModel::Boosted(Ok(_))) => {
            lemma_applied_services_undo(c, profile, w0, cut.world, cut.engine);
        },
        _ => {
            let (s, b, a) = choose|s: EngineModel, b: BoostModel, a: Action|
                #[trigger] boosting(c, w0, cut.world, s, b, a) && b.profile == profile;
            lemma_stored_services_undo(c, w0, cut.world, s, b, a);
        },
    }
    law_recovery_restores_what_is_left(c, w, w.disk->0, recover_turns);
}

/// A boost can be ended on a system that has changed. Take any run of a boost to
/// its success, and then any system with the services that it left, whatever
/// processes it runs, and any run of ending the boost in which nothing fails: all
/// services are again as they were before the boost, the recorded processes that
/// are still there are resumed, no other pid is, and the store is empty.
pub proof fn law_boost_ends_on_a_changed_system(
    c: Classifier,
    profile: ProfileModel,
    w0: World,
    session: SessionModel,
    boost_turns: Seq<Turn>,
    w: World,
    end_turns: Seq<Turn>,
)
    requires
        distinct_names(w0.services),
        session.processes.len() == 0,
        session.services.len() == 0,
        run(c, boost_start(w0, session, profile), boost_turns) is Some,
        ({
            let applied = run(c, boost_start(w0, session, profile), boost_turns)->0;
            let start = end_start(w, applied.engine.active->0);
            &&& applied.progress matches ProgressModel::Done(OutcomeModel::Boosted(Ok(_)))
            &&& w.services == applied.world.services
            &&& run(c, start, end_turns) is Some
            &&& run(c, start, end_turns)->0.progress is Done
        }),
        all_succeed(end_turns),
    ensures
        ({
            let applied = run(c, boost_start(w0, session, profile), boost_turns)->0;
            let recorded = applied.engine.active->0;
            let q = run(c, end_start(w, recorded), end_turns)->0;
            &&& q.engine == idle(None)
            &&& q.progress matches ProgressModel::Done(OutcomeModel::Ended(Ok(_)))
            &&& q.world.procs == w.procs
            &&& q.world.services == w0.services
            &&& forall|pid: u32| #[trigger]
                q.world.suspended.contains(pid) <==> w.suspended.contains(pid) && !still_listed(
                    w.procs,
                    recorded.processes,
                    pid,
                )
            &&& q.world.disk is None
        }),
{
    let start = boost_start(w0, session, profile);
    law_boost_begins(c, w0, session, profile);
    lemma_boost_run(c, profile, w0, start, boost_turns);
    let applied = run(c, start, boost_turns)->0;
    lemma_applied_services_undo(c, profile, w0, applied.world, applied.engine);
    law_end_restores_what_is_left(c, w, applied.engine.active->0, end_turns);
}

/// A reboot in the middle of a restore is recovered from as well. Take any run of a
/// boost to its success, then any run of ending it, in which anything may fail and
/// which may stop anywhere, as long as the session is still in the store, and then
/// any system that still has its services and its store, whatever processes it
/// runs: a recovery in which nothing fails brings all services back, resumes the
/// recorded processes that are still there, and empties the store.
pub proof fn law_cut_restore_survives_a_reboot(
    c: Classifier,
    profile: ProfileModel,
    w0: World,
    session: SessionModel,
    boost_turns: Seq<Turn>,
    end_turns: Seq<Turn>,
    w: World,
    recover_turns: Seq<Turn>,
)
    requires
        distinct_names(w0.services),
        session.processes.len() == 0,
        session.services.len() == 0,
        run(c, boost_start(w0, session, profile), boost_turns) is Some,
        ({
            let applied = run(c, boost_start(w0, session, profile), boost_turns)->0;
            let cut = run(c, end_start(applied.world, applied.engine.active->0), end_turns);
            &&& applied.progress matches ProgressModel::Done(OutcomeModel::Boosted(Ok(_)))
            &&& cut is Some
            &&& cut->0.world.disk is Some
            &&& w.services == cut->0.world.services
            &&& w.disk == cut->0.world.disk
        }),
        run(c, recover_start(w), recover_turns) is Some,
        run(c, recover_start(w), recover_turns)->0.progress is Done,
        all_succeed(recover_turns),
    ensures
        ({
            let q = run(c, recover_start(w), recover_turns)->0;
            &&& q.engine == idle(None)
            &&& q.progress == ProgressModel::Done(OutcomeModel::Recovered(Ok(true)))
            &&& q.world.procs == w.procs
            &&& q.world.services == w0.services
            &&& forall|pid: u32| #[trigger]
                q.world.suspended.contains(pid) <==> w.suspended.contains(pid) && !still_listed(
                    w.procs,
                    w.disk->0.processes,
                    pid,
                )
            &&& q.world.disk is None
        }),
{
    lemma_cut_restore(c, profile, w0, session, boost_turns, end_turns);
    law_recovery_restores_what_is_left(c, w, w.disk->0, recover_turns);
}

proof fn lemma_same_boost_run(c: Classifier, session: SessionModel, p: Place, turns: Seq<Turn>)
    requires
        match p.progress {
            ProgressModel::Next(_) => p.engine.task is Boost && same_boost(
                p.engine.task->Boost_0.session,
                session,
            ),
            ProgressModel::Done(OutcomeModel::Boosted(Ok(_))) => p.engine.active is Some
                && same_boost(p.engine.active->0, session),
            _ => true,
        },
        run(c, p, turns) is Some,
    ensures
        run(c, p, turns)->0.progress matches ProgressModel::Done(OutcomeModel::Boosted(Ok(_)))
            ==> run(c, p, turns)->0.engine.active is Some && same_boost(
            run(c, p, turns)->0.engine.active->0,
            session,
        ),
    decreases turns.len(),
{
    if turns.len() > 0 {
        let t = turns[0];
        law_boost_keeps_its_deadline(c, p.engine.active, p.engine.task->Boost_0, t.reply);
        let (engine, progress) = step(c, p.engine, t.reply)->0;
        lemma_same_boost_run(
            c,
            session,
            Place { engine, world: t.world, progress },
            turns.drop_first(),
        );
    }
}

/// A boost that is asked for survives [`heartbeat_ttl`] without a heartbeat, and
/// no longer. Take a request at the time `now` to start a boost while none is
/// applied, and any run of the boost to its success: unless a heartbeat follows,
/// it is overdue exactly after that time.
pub proof fn law_requested_boost_expires(
    c: Classifier,
    w0: World,
    profile: Profile,
    metrics: Metrics,
    id: SessionId,
    now: Timestamp,
    turns: Seq<Turn>,
    later: Timestamp,
)
    requires
        now.can_add(heartbeat_ttl()),
        ({
            let asked = dispatched(
                idle(None),
                Request::StartBoost { profile },
                metrics,
                id,
                now,
            );
            let start = Place {
                engine: asked.0,
                world: w0,
                progress: ProgressModel::Next(asked.1->Perform_0),
            };
            &&& run(c, start, turns) is Some
            &&& run(c, start, turns)->0.progress matches ProgressModel::Done(
                OutcomeModel::Boosted(Ok(_)),
            )
        }),
    ensures
        ({
            let asked = dispatched(
                idle(None),
                Request::StartBoost { profile },
                metrics,
                id,
                now,
            );
            let start = Place {
                engine: asked.0,
                world: w0,
                progress: ProgressModel::Next(asked.1->Perform_0),
            };
            let applied = run(c, start, turns)->0;
            &&& asked.1 == DispatchModel::Perform(Action::SaveSession)
            &&& applied.engine.active is Some
            &&& overdue(applied.engine, later) <==> later.nanos > now.nanos
                + heartbeat_ttl().total()
        }),
{
    let asked = dispatched(idle(None), Request::StartBoost { profile }, metrics, id, now);
    let start = Place {
        engine: asked.0,
        world: w0,
        progress: ProgressModel::Next(asked.1->Perform_0),
    };
    lemma_same_boost_run(c, asked.0.task->Boost_0.session, start, turns);
}

} // verus!
