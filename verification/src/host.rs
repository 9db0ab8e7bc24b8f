//! What the service host and the front-end decide: how a request is met, and what
//! the answer to it is.

use vstd::prelude::*;

use crate::classify::{gaming_profile, work_profile, Classifier, Profile, ProfileModel};
use crate::engine::{Action, BoostReport, BoosterEngine, Outcome};
use crate::ipc::{Request, Response, ResponseModel, Status};
use crate::error::BoosterError;
use crate::model::{
    beaten, boost_begun, idle, overdue, restore_begin, step, EngineModel, EventModel, OutcomeModel,
    ProgressModel, ReportModel, TaskModel,
};
use crate::process::ProcessInfo;
use crate::replies::{
    law_restore_asks_for_every_record, law_scan_shows_what_was_listed, replay, restore_asks,
};
use crate::scan::{
    lists_processes, lists_services, Candidate, CandidateModel, ScanModel, ScanResult,
};
use crate::service::ServiceInfo;
use crate::session::{initial_ttl, is_random_uuid, new_session, SessionId};
use crate::snapshot::Metrics;
use crate::time::{Span, Timestamp};

verus! {

/// How many seconds a boost survives without a heartbeat before the watchdog
/// restores it.
pub const HEARTBEAT_TTL_SECS: u64 = 15;

/// How long a boost survives without a heartbeat before the watchdog restores it.
pub open spec fn heartbeat_ttl() -> Span {
    Span { secs: HEARTBEAT_TTL_SECS, nanos: 0 }
}

/// How a request is met.
#[derive(Debug)]
pub enum Dispatch {
    /// By this response.
    Reply(Response),
    /// By an operation, of which this is the first action.
    Perform(Action),
}

/// What a [`Dispatch`] holds.
pub enum DispatchModel {
    Reply(ResponseModel),
    Perform(Action),
}

impl View for Dispatch {
    type V = DispatchModel;

    open spec fn view(&self) -> DispatchModel {
        match *self {
            Dispatch::Reply(response) => DispatchModel::Reply(response@),
            Dispatch::Perform(action) => DispatchModel::Perform(action),
        }
    }
}

/// How a request is met: what becomes of the engine, and what is answered or
/// done.
pub open spec fn dispatched(
    s: EngineModel,
    req: Request,
    metrics: Metrics,
    id: SessionId,
    now: Timestamp,
) -> (EngineModel, DispatchModel) {
    match req {
        Request::Scan { profile } => (
            EngineModel { task: TaskModel::ScanProcesses { profile: profile@ }, ..s },
            DispatchModel::Perform(Action::EnumerateProcesses),
        ),
        Request::StartBoost { profile } => match s.active {
            // The heartbeat counts though the boost is refused.
            Some(_) => (
                beaten(s, heartbeat_ttl(), now),
                DispatchModel::Reply(
                    ResponseModel::Error { message: "OS error: "@ + "a boost is already active"@ },
                ),
            ),
            None => (
                boost_begun(
                    s,
                    new_session(profile.name@, id, now).bumped(heartbeat_ttl(), now),
                    profile@,
                ),
                DispatchModel::Perform(Action::SaveSession),
            ),
        },
        Request::EndBoost => match s.active {
            Some(session) => (
                restore_begin(session, false).0,
                DispatchModel::Perform(restore_begin(session, false).1->Next_0),
            ),
            None => (
                s,
                DispatchModel::Reply(
                    ResponseModel::Error { message: "no active boost session"@ },
                ),
            ),
        },
        Request::Heartbeat => (
            beaten(s, heartbeat_ttl(), now),
            DispatchModel::Reply(ResponseModel::Ack),
        ),
        Request::GetStatus => (
            s,
            DispatchModel::Reply(
                ResponseModel::Status {
                    boosted: s.active is Some,
                    active_profile: None,
                    metrics,
                },
            ),
        ),
    }
}

/// The answer to a request, by what the operation that it led to came to. No
/// request leads to a recovery.
pub open spec fn answer(outcome: OutcomeModel) -> Option<ResponseModel> {
    match outcome {
        OutcomeModel::Scanned(Ok(scan)) => Some(ResponseModel::Scan(scan)),
        OutcomeModel::Scanned(Err(e)) => Some(ResponseModel::Error { message: e.text() }),
        OutcomeModel::Boosted(Ok(report)) => Some(ResponseModel::Boosted(report)),
        OutcomeModel::Boosted(Err(e)) => Some(ResponseModel::Error { message: e.text() }),
        OutcomeModel::Ended(Ok(_)) => Some(ResponseModel::Ended),
        OutcomeModel::Ended(Err(e)) => Some(ResponseModel::Error { message: e.text() }),
        OutcomeModel::Recovered(_) => None,
    }
}

impl Outcome {
    /// The answer to the request that led to this outcome.
    pub fn response(self) -> (response: Option<Response>)
        ensures
            match response {
                Some(response) => answer(self@) == Some(response@),
                None => answer(self@) is None,
            },
    {
        match self {
            Outcome::Scanned(Ok(scan)) => Some(Response::Scan(scan)),
            Outcome::Boosted(Ok(report)) => Some(Response::Boosted(report)),
            Outcome::Ended(Ok(_)) => Some(Response::Ended),
            Outcome::Scanned(Err(e)) | Outcome::Boosted(Err(e)) | Outcome::Ended(Err(e)) => Some(
                Response::Error { message: e.to_string() },
            ),
            Outcome::Recovered(_) => None,
        }
    }
}

impl BoosterEngine {
    /// Meets a request at the time `now`; `id` is the identity of the boost if
    /// one is started.
    pub fn dispatch_at(
        &mut self,
        req: Request,
        metrics: Metrics,
        id: SessionId,
        now: Timestamp,
    ) -> (met: Dispatch)
        requires
            old(self)@.task is Idle,
            now.can_add(heartbeat_ttl()),
            now.can_add(initial_ttl()),
        ensures
            final(self).classifier() == old(self).classifier(),
            (final(self)@, met@) == dispatched(old(self)@, req, metrics, id, now),
    {
        let ttl = Span { secs: HEARTBEAT_TTL_SECS, nanos: 0 };
        match req {
            Request::Scan { profile } => Dispatch::Perform(self.scan(&profile)),
            Request::StartBoost { profile } => match self.start_boost_within(
                &profile,
                id,
                now,
                ttl,
            ) {
                Ok(action) => Dispatch::Perform(action),
                Err(e) => {
                    self.heartbeat_at(ttl, now);
                    Dispatch::Reply(Response::Error { message: e.to_string() })
                },
            },
            Request::EndBoost => match self.end_boost() {
                Ok(action) => Dispatch::Perform(action),
                Err(e) => Dispatch::Reply(Response::Error { message: e.to_string() }),
            },
            Request::Heartbeat => {
                self.heartbeat_at(ttl, now);
                Dispatch::Reply(Response::Ack)
            },
            Request::GetStatus => Dispatch::Reply(
                Response::Status(
                    Status { boosted: self.is_boosted(), active_profile: None, metrics },
                ),
            ),
        }
    }

    /// Meets a request.
    pub fn dispatch(&mut self, req: Request, metrics: Metrics) -> (met: Dispatch)
        requires
            old(self)@.task is Idle,
        ensures
            final(self).classifier() == old(self).classifier(),
            exists|id: SessionId, now: Timestamp|
                {
                    &&& is_random_uuid(id.bits)
                    &&& now.can_add(heartbeat_ttl())
                    &&& now.can_add(initial_ttl())
                    &&& (final(self)@, met@) == #[trigger] dispatched(
                        old(self)@,
                        req,
                        metrics,
                        id,
                        now,
                    )
                },
    {
        let id = SessionId::new_v4();
        let now = Timestamp::now();
        assert(now.can_add(heartbeat_ttl()));
        assert(now.can_add(initial_ttl()));
        self.dispatch_at(req, metrics, id, now)
    }
}

/// Boosts do not stack: a request to start one while another is applied is
/// answered with an error and does nothing but count as a heartbeat.
pub proof fn law_boosts_do_not_stack(
    s: EngineModel,
    profile: Profile,
    metrics: Metrics,
    id: SessionId,
    now: Timestamp,
)
    requires
        s.active is Some,
    ensures
        dispatched(s, Request::StartBoost { profile }, metrics, id, now).1 matches
            DispatchModel::Reply(ResponseModel::Error { .. }),
        dispatched(s, Request::StartBoost { profile }, metrics, id, now).0 == dispatched(
            s,
            Request::Heartbeat,
            metrics,
            id,
            now,
        ).0,
{
}

/// The status tells whether a boost is applied, and asking for it changes
/// nothing.
pub proof fn law_status_is_read_only(
    s: EngineModel,
    metrics: Metrics,
    id: SessionId,
    now: Timestamp,
)
    ensures
        dispatched(s, Request::GetStatus, metrics, id, now).0 == s,
        dispatched(s, Request::GetStatus, metrics, id, now).1 == DispatchModel::Reply(
            ResponseModel::Status { boosted: s.active is Some, active_profile: None, metrics },
        ),
{
}

/// The profile that a name stands for.
pub open spec fn named_profile(name: Seq<char>) -> ProfileModel {
    if name == "Work"@ {
        work_profile()
    } else {
        gaming_profile()
    }
}

/// The profile that a name stands for: gaming, unless it is the work profile's.
pub fn profile_from_name(name: &str) -> (profile: Profile)
    ensures
        profile@ == if name@ == "Work"@ {
            work_profile()
        } else {
            gaming_profile()
        },
        profile@ == named_profile(name@),
{
    if name.to_owned() == "Work".to_owned() {
        Profile::work()
    } else {
        Profile::gaming()
    }
}

/// Made-up answers, with which the front-end can be previewed where there is no
/// service.
pub open spec fn preview(req: Request) -> ResponseModel {
    match req {
        Request::Scan { .. } => ResponseModel::Scan(
            ScanModel {
                processes: seq![
                    CandidateModel { key: "1500"@, name: "Spotify.exe"@, eligible: true },
                    CandidateModel { key: "800"@, name: "lsass.exe"@, eligible: false },
                ],
                services: seq![
                    CandidateModel { key: "WSearch"@, name: "Windows Search"@, eligible: true },
                ],
            },
        ),
        Request::StartBoost { .. } => ResponseModel::Boosted(
            ReportModel {
                session_id: SessionId { bits: 0 },
                suspended_processes: 23,
                changed_services: 11,
                skipped: Seq::empty(),
            },
        ),
        Request::EndBoost => ResponseModel::Ended,
        Request::Heartbeat => ResponseModel::Ack,
        Request::GetStatus => ResponseModel::Status {
            boosted: false,
            active_profile: None,
            metrics: Metrics {
                memory_load_percent: 62,
                total_physical_bytes: 17_179_869_184,
                available_physical_bytes: 6_442_450_944,
            },
        },
    }
}

/// A candidate out of literals.
fn candidate(key: &str, name: &str, eligible: bool) -> (c: Candidate)
    ensures
        c@ == (CandidateModel { key: key@, name: name@, eligible }),
{
    Candidate { key: key.to_owned(), name: name.to_owned(), eligible }
}

/// Answers a request with made-up data, so that the front-end can be previewed
/// without the service.
pub fn respond(req: Request) -> (response: Response)
    ensures
        response@ == preview(req),
{
    match req {
        Request::Scan { .. } => {
            let processes = vec![
                candidate("1500", "Spotify.exe", true),
                candidate("800", "lsass.exe", false),
            ];
            let services = vec![candidate("WSearch", "Windows Search", true)];
            let scan = ScanResult { processes, services };
            assert(scan@ =~= preview(req)->Scan_0);
            Response::Scan(scan)
        },
        Request::StartBoost { .. } => {
            let report = BoostReport {
                session_id: SessionId::nil(),
                suspended_processes: 23,
                changed_services: 11,
                skipped: Vec::new(),
            };
            assert(report@ =~= preview(req)->Boosted_0);
            Response::Boosted(report)
        },
        Request::EndBoost => Response::Ended,
        Request::Heartbeat => Response::Ack,
        Request::GetStatus => Response::Status(
            Status {
                boosted: false,
                active_profile: None,
                metrics: Metrics {
                    memory_load_percent: 62,
                    total_physical_bytes: 16 * 1024 * 1024 * 1024,
                    available_physical_bytes: 6 * 1024 * 1024 * 1024,
                },
            },
        ),
    }
}

/// A heartbeat resets the watchdog. After a heartbeat request at any time `now` while a
/// boost is applied, whatever its deadline was, the boost is overdue exactly when more
/// than fifteen seconds have passed since; the request is acknowledged, and nothing but
/// the deadline changes.
pub proof fn law_heartbeat_resets_the_watchdog(
    s: EngineModel,
    metrics: Metrics,
    id: SessionId,
    now: Timestamp,
    later: Timestamp,
)
    requires
        s.active is Some,
        now.can_add(heartbeat_ttl()),
    ensures
        ({
            let (after, met) = dispatched(s, Request::Heartbeat, metrics, id, now);
            &&& met == DispatchModel::Reply(ResponseModel::Ack)
            &&& overdue(after, later) <==> later.nanos > now.nanos + 15_000_000_000
            &&& after.task == s.task
            &&& after.active is Some
            &&& after.active->0.id == s.active->0.id
            &&& after.active->0.started_at == s.active->0.started_at
            &&& after.active->0.profile == s.active->0.profile
            &&& after.active->0.processes == s.active->0.processes
            &&& after.active->0.services == s.active->0.services
        }),
{
}

/// While no boost is applied a heartbeat is acknowledged and changes nothing, and a
/// request to end the boost is refused and changes nothing.
pub proof fn law_nothing_to_keep_or_end(
    s: EngineModel,
    metrics: Metrics,
    id: SessionId,
    now: Timestamp,
)
    requires
        s.active is None,
    ensures
        dispatched(s, Request::Heartbeat, metrics, id, now) == (
            s,
            DispatchModel::Reply(ResponseModel::Ack),
        ),
        dispatched(s, Request::EndBoost, metrics, id, now).0 == s,
        dispatched(s, Request::EndBoost, metrics, id, now).1 == DispatchModel::Reply(
            ResponseModel::Error { message: BoosterError::NoActiveSession.text() },
        ),
{
}

/// A request to start a boost while another is applied is a heartbeat too: the applied
/// boost is then overdue exactly when more than fifteen seconds have passed since.
pub proof fn law_refused_start_is_a_heartbeat(
    s: EngineModel,
    profile: Profile,
    metrics: Metrics,
    id: SessionId,
    now: Timestamp,
    later: Timestamp,
)
    requires
        s.active is Some,
        now.can_add(heartbeat_ttl()),
    ensures
        ({
            let (after, met) = dispatched(s, Request::StartBoost { profile }, metrics, id, now);
            &&& met matches DispatchModel::Reply(ResponseModel::Error { .. })
            &&& overdue(after, later) <==> later.nanos > now.nanos + 15_000_000_000
            &&& after.task == s.task
        }),
{
}

/// A request to start a boost, while none is applied, starts one for the profile that it
/// names, under the identity and at the time that it was given, with nothing changed
/// yet; and the session is saved first.
pub proof fn law_start_request_goes_by_its_profile(
    s: EngineModel,
    profile: Profile,
    metrics: Metrics,
    id: SessionId,
    now: Timestamp,
)
    requires
        s.active is None,
    ensures
        ({
            let (after, met) = dispatched(s, Request::StartBoost { profile }, metrics, id, now);
            let b = after.task->Boost_0;
            &&& met == DispatchModel::Perform(Action::SaveSession)
            &&& after.active is None
            &&& after.task is Boost
            &&& b.profile.name == profile.name@
            &&& b.profile.suspend_processes == profile.suspend_processes
            &&& b.profile.suspend_services == profile.suspend_services
            &&& b.profile.excludes == profile@.excludes
            &&& b.profile.includes == profile@.includes
            &&& b.session.id == id
            &&& b.session.started_at == now
            &&& b.session.profile == profile.name@
            &&& b.session.processes.len() == 0
            &&& b.session.services.len() == 0
            &&& b.skipped.len() == 0
            &&& b.processes.len() == 0
            &&& b.services.len() == 0
        }),
{
}

/// A request to scan is answered with what was listed: every process and service with
/// whether the profile that the request names may suspend it. A listing that fails is
/// answered with its failure. Whether a boost is applied does not matter and does not
/// change.
pub proof fn law_scan_request_is_answered(
    c: Classifier,
    s: EngineModel,
    profile: Profile,
    metrics: Metrics,
    id: SessionId,
    now: Timestamp,
    procs: Seq<ProcessInfo>,
    services: Seq<ServiceInfo>,
    failure: BoosterError,
)
    ensures
        ({
            let (asked, met) = dispatched(s, Request::Scan { profile }, metrics, id, now);
            let failed = step(c, asked, EventModel::Processes(Err(failure)));
            let first = step(c, asked, EventModel::Processes(Ok(procs)));
            let second = step(c, (first->0).0, EventModel::Services(Ok(services)));
            let shown = answer((second->0).1->Done_0);
            &&& met == DispatchModel::Perform(Action::EnumerateProcesses)
            &&& answer((failed->0).1->Done_0) == Some(
                ResponseModel::Error { message: failure.text() },
            )
            &&& second is Some
            &&& (second->0).0 == idle(s.active)
            &&& shown matches Some(ResponseModel::Scan(scan)) && {
                &&& lists_processes(c, profile@, procs, scan.processes)
                &&& lists_services(c, profile@, services, scan.services)
            }
        }),
{
    law_scan_shows_what_was_listed(c, s.active, profile@, procs, services, failure);
}

/// A request to end the boost puts back every record of the applied boost, one by one:
/// it asks for what [`restore_asks`] says, whatever is replied.
pub proof fn law_end_request_restores_the_boost(
    c: Classifier,
    s: EngineModel,
    metrics: Metrics,
    id: SessionId,
    now: Timestamp,
    replies: Seq<EventModel>,
)
    requires
        s.active is Some,
        ({
            let (asked, met) = dispatched(s, Request::EndBoost, metrics, id, now);
            replay(c, (asked, ProgressModel::Next(met->Perform_0)), replies) is Some
        }),
    ensures
        ({
            let (asked, met) = dispatched(s, Request::EndBoost, metrics, id, now);
            let now = replay(c, (asked, ProgressModel::Next(met->Perform_0)), replies);
            &&& met is Perform
            &&& (now->0).0.active is None
            &&& restore_asks(s.active->0, false, replies, (now->0).1)
        }),
{
    let (asked, met) = dispatched(s, Request::EndBoost, metrics, id, now);
    assert((asked, ProgressModel::Next(met->Perform_0)) == restore_begin(s.active->0, false));
    law_restore_asks_for_every_record(
        c,
        s.active->0,
        false,
        replies,
        EventModel::Matched(true),
    );
}

/// The answer tells what became of the request: a failure is answered with its text,
/// and with an error only a failure is; a success with what it gave.
pub proof fn law_answer_tells_the_outcome(outcome: OutcomeModel, e: BoosterError)
    ensures
        answer(outcome) is None <==> outcome is Recovered,
        outcome == OutcomeModel::Scanned(Err(e)) || outcome == OutcomeModel::Boosted(Err(e))
            || outcome == OutcomeModel::Ended(Err(e)) ==> answer(outcome) == Some(
            ResponseModel::Error { message: e.text() },
        ),
        outcome matches OutcomeModel::Scanned(Ok(scan)) ==> answer(outcome) == Some(
            ResponseModel::Scan(scan),
        ),
        outcome matches OutcomeModel::Boosted(Ok(report)) ==> answer(outcome) == Some(
            ResponseModel::Boosted(report),
        ),
        outcome matches OutcomeModel::Ended(Ok(_)) ==> answer(outcome) == Some(
            ResponseModel::Ended,
        ),
{
}

/// The preview does not depend on what it is asked about: two requests of a kind get
/// the same answer.
pub proof fn law_preview_ignores_the_profile(profile: Profile, other: Profile)
    ensures
        preview(Request::Scan { profile }) == preview(Request::Scan { profile: other }),
        preview(Request::StartBoost { profile }) == preview(
            Request::StartBoost { profile: other },
        ),
        preview(Request::Scan { profile }) is Scan,
        preview(Request::StartBoost { profile }) is Boosted,
{
}

/// What meets a request holds what it carries.
pub proof fn law_dispatch_holds_what_it_carries(response: Response, action: Action)
    ensures
        Dispatch::Reply(response)@ == DispatchModel::Reply(response@),
        Dispatch::Perform(action)@ == DispatchModel::Perform(action),
{
}

/// A name stands for a ready-made profile: it takes services unless it is the name of the
/// work profile, and the profile under it goes by that name or is the gaming profile.
pub proof fn law_names_stand_for_ready_made_profiles(name: Seq<char>)
    ensures
        named_profile(name).suspend_services <==> name != "Work"@,
        named_profile(name).suspend_processes,
        named_profile(name).includes.len() == 0,
        named_profile(name).excludes.len() == 0,
        named_profile(name).name == "Work"@ || named_profile(name).name == "Gaming"@,
        name == "Work"@ || name == "Gaming"@ ==> named_profile(name).name == name,
{
    reveal_strlit("Work");
    reveal_strlit("Gaming");
}

/// Under every profile the preview shows the same two processes, the first of them
/// eligible, and one eligible service, and a boost of the same size, of no session and with
/// nothing skipped. It shows no boost as applied, and 16 GiB of memory of which 6 are free.
pub proof fn law_preview_shows_one_boost(profile: Profile)
    ensures
        preview(Request::Scan { profile }) matches ResponseModel::Scan(scan) && {
            &&& scan.processes.len() == 2
            &&& scan.processes[0].key == "1500"@ && scan.processes[0].name == "Spotify.exe"@
            &&& scan.processes[1].key == "800"@ && scan.processes[1].name == "lsass.exe"@
            &&& scan.processes[0].eligible && !scan.processes[1].eligible
            &&& scan.services.len() == 1
            &&& scan.services[0].key == "WSearch"@ && scan.services[0].name == "Windows Search"@
            &&& scan.services[0].eligible
        },
        preview(Request::StartBoost { profile }) matches ResponseModel::Boosted(report) && {
            &&& report.session_id.bits == 0
            &&& report.suspended_processes == 23
            &&& report.changed_services == 11
            &&& report.skipped.len() == 0
        },
        preview(Request::GetStatus) matches ResponseModel::Status { boosted, metrics, .. } && {
            &&& !boosted
            &&& metrics.memory_load_percent == 62
            &&& metrics.total_physical_bytes == 16 * 0x4000_0000
            &&& metrics.available_physical_bytes == 6 * 0x4000_0000
        },
        preview(Request::EndBoost) is Ended,
        preview(Request::Heartbeat) is Ack,
{
}

} // verus!
