//! What a boost leaves out: nothing. Every eligible item has its turn, and in the
//! end is on record as changed or noted as skipped.

use vstd::prelude::*;

use crate::classify::{Classifier, ProfileModel};
use crate::engine::Action;
use crate::error::BoosterError;
use crate::model::{
    eligible_processes, eligible_services, process_note, process_record, service_note, service_record,
    step, to_save, BoostModel, BoostStage, EngineModel, EventModel, OutcomeModel, ProgressModel,
    TaskModel,
};
use crate::process::ProcessInfo;
use crate::recovery::{answers, boost_action, made, World};
use crate::runs::{boost_start, run, Place, Turn};
use crate::service::{action_for, ServiceAction, ServiceInfo};
use crate::session::SessionModel;

verus! {

/// Whether a process is on record as suspended or noted as skipped.
pub open spec fn process_handled(
    session: SessionModel,
    skipped: Seq<Seq<char>>,
    p: ProcessInfo,
) -> bool {
    ||| session.processes.contains(process_record(p))
    ||| exists|e: BoosterError| skipped.contains(#[trigger] process_note(p, e))
}

/// Whether a service is on record as changed or noted as skipped.
pub open spec fn service_handled(
    session: SessionModel,
    skipped: Seq<Seq<char>>,
    x: ServiceInfo,
) -> bool {
    ||| exists|action: ServiceAction|
        session.services.contains(#[trigger] service_record(x, action))
    ||| exists|e: BoosterError| skipped.contains(#[trigger] service_note(x, e))
}

/// Whether the first `n` of `todo` are on record or noted.
pub open spec fn processes_handled(
    session: SessionModel,
    skipped: Seq<Seq<char>>,
    todo: Seq<ProcessInfo>,
    n: int,
) -> bool {
    forall|i: int| 0 <= i < n ==> process_handled(session, skipped, #[trigger] todo[i])
}

/// Whether the first `n` of `todo` are on record or noted.
pub open spec fn services_handled(
    session: SessionModel,
    skipped: Seq<Seq<char>>,
    todo: Seq<ServiceInfo>,
    n: int,
) -> bool {
    forall|i: int| 0 <= i < n ==> service_handled(session, skipped, #[trigger] todo[i])
}

/// Whether a boost in the world `w0` has handled every item that `profile`
/// allows: each one is on record or noted, and there are no more records and
/// notes than items.
pub open spec fn complete(
    c: Classifier,
    profile: ProfileModel,
    w0: World,
    session: SessionModel,
    skipped: Seq<Seq<char>>,
) -> bool {
    let processes = eligible_processes(c, w0.procs, profile);
    let services = eligible_services(c, w0.services, profile);
    &&& processes_handled(session, skipped, processes, processes.len() as int)
    &&& services_handled(session, skipped, services, services.len() as int)
    &&& session.processes.len() + session.services.len() + skipped.len() == processes.len()
        + services.len()
}

/// Whether a boost under way has handled the items before those that it still
/// has to do.
pub open spec fn accounted(c: Classifier, w0: World, b: BoostModel) -> bool {
    let processes = eligible_processes(c, w0.procs, b.profile);
    let services = eligible_services(c, w0.services, b.profile);
    let changes = made(b);
    let records = changes.processes.len() + changes.services.len() + b.skipped.len();
    match b.stage {
        BoostStage::Reserve | BoostStage::ListProcesses => records == 0,
        BoostStage::RecordProcess | BoostStage::Suspend | BoostStage::AmendProcess => {
            let n = processes.len() - b.processes.len();
            &&& 0 <= n
            &&& b.processes == processes.skip(n)
            &&& processes_handled(changes, b.skipped, processes, n)
            &&& records == n
        },
        BoostStage::ListServices => {
            &&& processes_handled(changes, b.skipped, processes, processes.len() as int)
            &&& records == processes.len()
        },
        BoostStage::RecordService | BoostStage::Change | BoostStage::AmendService => {
            let n = services.len() - b.services.len();
            &&& 0 <= n
            &&& b.services == services.skip(n)
            &&& processes_handled(changes, b.skipped, processes, processes.len() as int)
            &&& services_handled(changes, b.skipped, services, n)
            &&& records == processes.len() + n
        },
    }
}

/// The state of a boost under way that began in the world `w0`, in the world `w`
/// with the action `a` pending.
pub open spec fn in_order(
    c: Classifier,
    w0: World,
    w: World,
    s: EngineModel,
    b: BoostModel,
    a: Action,
) -> bool {
    &&& s.task == TaskModel::Boost(b)
    &&& a == boost_action(b)
    &&& w.procs == w0.procs
    &&& match b.stage {
        BoostStage::RecordProcess | BoostStage::Suspend => {
            &&& b.processes.len() > 0
            &&& b.session.processes.len() > 0
            &&& b.session.processes.last() == process_record(b.processes[0])
            &&& w.services == w0.services
        },
        BoostStage::RecordService | BoostStage::Change => {
            &&& b.services.len() > 0
            &&& b.session.services.len() > 0
            &&& b.session.services.last() == service_record(
                b.services[0],
                action_for(b.services[0]),
            )
        },
        BoostStage::AmendService => true,
        _ => w.services == w0.services,
    }
    &&& accounted(c, w0, b)
}

/// What is handled stays handled when records and notes are added.
proof fn lemma_handled_grows(
    old_session: SessionModel,
    old_skipped: Seq<Seq<char>>,
    session: SessionModel,
    skipped: Seq<Seq<char>>,
)
    requires
        old_session.processes.is_prefix_of(session.processes),
        old_session.services.is_prefix_of(session.services),
        old_skipped.is_prefix_of(skipped),
    ensures
        forall|p: ProcessInfo| #[trigger]
            process_handled(old_session, old_skipped, p) ==> process_handled(session, skipped, p),
        forall|x: ServiceInfo| #[trigger]
            service_handled(old_session, old_skipped, x) ==> service_handled(session, skipped, x),
{
    lemma_prefix_contains(old_session.processes, session.processes);
    lemma_prefix_contains(old_session.services, session.services);
    lemma_prefix_contains(old_skipped, skipped);
}

proof fn lemma_prefix_contains<A>(prefix: Seq<A>, whole: Seq<A>)
    requires
        prefix.is_prefix_of(whole),
    ensures
        forall|x: A| #[trigger] prefix.contains(x) ==> whole.contains(x),
{
    assert forall|x: A| #[trigger] prefix.contains(x) implies whole.contains(x) by {
        let i = choose|i: int| 0 <= i < prefix.len() && prefix[i] == x;
        assert(whole[i] == x);
    }
}

/// Every reply of the system brings a boost on by the item that it is about, and
/// none is passed over: a boost that ends in success has handled every item that
/// is eligible.
pub proof fn law_boost_passes_over_nothing(
    c: Classifier,
    w0: World,
    w: World,
    s: EngineModel,
    b: BoostModel,
    a: Action,
    e: EventModel,
    w2: World,
)
    requires
        in_order(c, w0, w, s, b, a),
        answers(w, to_save(s), a, e, w2),
    ensures
        step(c, s, e) is Some,
        match step(c, s, e)->0 {
            (s2, ProgressModel::Next(a2)) => {
                &&& s2.task is Boost
                &&& s2.task->Boost_0.profile == b.profile
                &&& in_order(c, w0, w2, s2, s2.task->Boost_0, a2)
            },
            (s2, ProgressModel::Done(OutcomeModel::Boosted(Ok(r)))) => {
                &&& s2.active is Some
                &&& complete(c, b.profile, w0, s2.active->0, r.skipped)
                &&& r.suspended_processes == s2.active->0.processes.len()
                &&& r.changed_services == s2.active->0.services.len()
            },
            (_, ProgressModel::Done(OutcomeModel::Boosted(Err(_)))) => true,
            _ => false,
        },
{
    let processes = eligible_processes(c, w0.procs, b.profile);
    let services = eligible_services(c, w0.services, b.profile);
    let (s2, progress) = step(c, s, e)->0;
    let b2 = s2.task->Boost_0;
    if progress is Next && b2.stage == BoostStage::RecordProcess {
        // What was on record before the next process.
        assert(made(b2) =~= b.session);
    }
    match b.stage {
        BoostStage::ListProcesses => {
            assert(processes.skip(0) =~= processes);
        },
        BoostStage::ListServices => {
            assert(services.skip(0) =~= services);
        },
        BoostStage::Suspend => {
            let n = processes.len() - b.processes.len();
            let p = b.processes[0];
            let before = made(b);
            assert(p == processes[n]);
            assert(b.processes.drop_first() =~= processes.skip(n + 1));
            match e->Suspended_0 {
                Ok(_) => {
                    lemma_handled_grows(before, b.skipped, b.session, b.skipped);
                    assert(b.session.processes.last() == process_record(p));
                    assert(process_handled(b.session, b.skipped, p));
                    assert(processes_handled(b.session, b.skipped, processes, n + 1));
                },
                Err(x) => {
                    let skipped = b.skipped.push(process_note(p, x));
                    lemma_handled_grows(before, b.skipped, before, skipped);
                    assert(skipped.last() == process_note(p, x));
                    assert(process_handled(before, skipped, p));
                },
            }
        },
        BoostStage::Change => {
            let n = services.len() - b.services.len();
            let x = b.services[0];
            let before = made(b);
            assert(x == services[n]);
            assert(b.services.drop_first() =~= services.skip(n + 1));
            match e->Changed_0 {
                Ok(action) => {
                    let session = SessionModel {
                        services: before.services.push(service_record(x, action)),
                        ..before
                    };
                    lemma_handled_grows(before, b.skipped, session, b.skipped);
                    assert(session.services.last() == service_record(x, action));
                    assert(service_handled(session, b.skipped, x));
                    assert(services_handled(session, b.skipped, services, n + 1));
                    if action == action_for(x) {
                        assert(session =~= b.session);
                    }
                },
                Err(why) => {
                    let skipped = b.skipped.push(service_note(x, why));
                    lemma_handled_grows(before, b.skipped, before, skipped);
                    assert(skipped.last() == service_note(x, why));
                    assert(service_handled(before, skipped, x));
                },
            }
        },
        _ => {},
    }
    if progress is Next && b2.stage == BoostStage::RecordService {
        // What was on record before the next service.
        assert(made(b2) =~= b.session);
    }
}

/// Where a boost's run may lead.
spec fn boost_place(c: Classifier, profile: ProfileModel, w0: World, p: Place) -> bool {
    match p.progress {
        ProgressModel::Next(a) => {
            &&& p.engine.task is Boost
            &&& p.engine.task->Boost_0.profile == profile
            &&& in_order(c, w0, p.world, p.engine, p.engine.task->Boost_0, a)
        },
        ProgressModel::Done(OutcomeModel::Boosted(Ok(r))) => {
            &&& p.engine.active is Some
            &&& complete(c, profile, w0, p.engine.active->0, r.skipped)
            &&& r.suspended_processes == p.engine.active->0.processes.len()
            &&& r.changed_services == p.engine.active->0.services.len()
        },
        _ => true,
    }
}

proof fn lemma_boost_run(
    c: Classifier,
    profile: ProfileModel,
    w0: World,
    p: Place,
    turns: Seq<Turn>,
)
    requires
        boost_place(c, profile, w0, p),
        run(c, p, turns) is Some,
    ensures
        boost_place(c, profile, w0, run(c, p, turns)->0),
    decreases turns.len(),
{
    if turns.len() > 0 {
        let t = turns[0];
        let a = p.progress->Next_0;
        let b = p.engine.task->Boost_0;
        law_boost_passes_over_nothing(c, w0, p.world, p.engine, b, a, t.reply, t.world);
        let (engine, progress) = step(c, p.engine, t.reply)->0;
        lemma_boost_run(
            c,
            profile,
            w0,
            Place { engine, world: t.world, progress },
            turns.drop_first(),
        );
    }
}

/// A boost is complete. Take any run of a boost to its success: every process and
/// service that was eligible when it began is on record as changed or noted as
/// skipped, and the report counts the records.
pub proof fn law_boost_is_complete(
    c: Classifier,
    profile: ProfileModel,
    w0: World,
    session: SessionModel,
    turns: Seq<Turn>,
)
    requires
        session.processes.len() == 0,
        session.services.len() == 0,
        run(c, boost_start(w0, session, profile), turns) is Some,
        run(c, boost_start(w0, session, profile), turns)->0.progress matches
            ProgressModel::Done(OutcomeModel::Boosted(Ok(_))),
    ensures
        ({
            let applied = run(c, boost_start(w0, session, profile), turns)->0;
            let recorded = applied.engine.active->0;
            let r = applied.progress->Done_0->Boosted_0->Ok_0;
            &&& applied.engine.active is Some
            &&& complete(c, profile, w0, recorded, r.skipped)
            &&& r.suspended_processes == recorded.processes.len()
            &&& r.changed_services == recorded.services.len()
        }),
{
    lemma_boost_run(c, profile, w0, boost_start(w0, session, profile), turns);
}

} // verus!
