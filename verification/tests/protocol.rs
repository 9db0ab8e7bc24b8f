//! Requests, responses and frames, the session and its store.

use std::path::PathBuf;
use system_booster::classify::{Classifier, Profile};
use system_booster::engine::{Action, Event, Outcome, Progress};
use system_booster::host::{profile_from_name, respond, Dispatch, HEARTBEAT_TTL_SECS};
use system_booster::ipc::{body_len, encode, Request, Response, PIPE_NAME};
use system_booster::memory::{controllers, MemorySystem};
use system_booster::session::{RestoreSession, SessionId, INITIAL_TTL_SECS};
use system_booster::snapshot::{sample, MemoryStatus, Metrics};
use system_booster::store::{FileError, SaveProgress, SaveStep, SessionStore};
use system_booster::time::{Span, Timestamp};
use system_booster::{BoosterEngine, BoosterError};

#[test]
fn frame_roundtrip() {
    // A request without data is its name in JSON.
    let req = Request::Heartbeat;
    let frame = encode(&serde_json::to_vec(&format!("{:?}", req)).unwrap());
    // First 4 bytes are the big-endian length.
    let len = u32::from_be_bytes(frame[..4].try_into().unwrap()) as usize;
    assert_eq!(len, frame.len() - 4);
    let header: [u8; 4] = frame[..4].try_into().unwrap();
    let body = &frame[4..4 + body_len(header) as usize];
    assert_eq!(body.len(), len);
    assert_eq!(body, b"\"Heartbeat\"");
    let decoded: String = serde_json::from_slice(body).unwrap();
    assert_eq!(decoded, format!("{:?}", Request::Heartbeat));
}

#[test]
fn frames_start_with_the_length() {
    assert_eq!(encode(&vec![]), vec![0, 0, 0, 0]);
    assert_eq!(encode(&vec![7, 8]), vec![0, 0, 0, 2, 7, 8]);
    let body = vec![9u8; 0x1_0203];
    let framed = encode(&body);
    assert_eq!(&framed[..4], &[0, 1, 2, 3]);
    assert_eq!(&framed[4..], body.as_slice());
    assert_eq!(body_len([0, 1, 2, 3]), 0x1_0203);
    assert_eq!(body_len([255, 255, 255, 255]), u32::MAX);
    assert_eq!(PIPE_NAME, "\\\\.\\pipe\\SystemBooster");
}

#[test]
fn the_preview_is_made_up() {
    let profile = Profile::work();
    match respond(Request::Scan { profile: profile.clone() }) {
        Response::Scan(scan) => {
            assert_eq!(scan.processes.len(), 2);
            assert_eq!(scan.processes[0].key, "1500");
            assert_eq!(scan.processes[0].name, "Spotify.exe");
            assert!(scan.processes[0].eligible);
            assert_eq!(scan.processes[1].name, "lsass.exe");
            assert!(!scan.processes[1].eligible);
            assert_eq!(scan.services.len(), 1);
            assert_eq!(scan.services[0].name, "Windows Search");
        }
        other => panic!("{:?}", other),
    }
    match respond(Request::StartBoost { profile }) {
        Response::Boosted(report) => {
            assert_eq!(report.session_id, SessionId::nil());
            assert_eq!((report.suspended_processes, report.changed_services), (23, 11));
            assert!(report.skipped.is_empty());
        }
        other => panic!("{:?}", other),
    }
    assert!(matches!(respond(Request::EndBoost), Response::Ended));
    assert!(matches!(respond(Request::Heartbeat), Response::Ack));
    match respond(Request::GetStatus) {
        Response::Status(status) => {
            assert!(!status.boosted && status.active_profile.is_none());
            assert_eq!(status.metrics.memory_load_percent, 62);
            assert_eq!(status.metrics.total_physical_bytes, 16 << 30);
            assert_eq!(status.metrics.available_physical_bytes, 6 << 30);
        }
        other => panic!("{:?}", other),
    }
}

#[test]
fn profiles_are_named() {
    assert_eq!(profile_from_name("Work").name, "Work");
    assert_eq!(profile_from_name("Gaming").name, "Gaming");
    assert_eq!(profile_from_name("work").name, "Gaming");
    assert_eq!(profile_from_name("").name, "Gaming");
}

#[test]
fn metrics_are_zero_where_nothing_is_known() {
    let none = sample(None);
    assert_eq!(none, Metrics::default());
    assert_eq!(
        (none.memory_load_percent, none.total_physical_bytes, none.available_physical_bytes),
        (0, 0, 0)
    );
    let some = sample(Some(MemoryStatus {
        load_percent: 40,
        total_physical: 100,
        available_physical: 60,
    }));
    assert_eq!(
        (some.memory_load_percent, some.total_physical_bytes, some.available_physical_bytes),
        (40, 100, 60)
    );
}

/// Carries an operation to its end on a system in memory that keeps no store.
fn finish(engine: &mut BoosterEngine, system: &mut MemorySystem, first: Action) -> Outcome {
    let mut action = first;
    loop {
        let event = match system.perform(&action) {
            Some(event) => event,
            None => match action {
                Action::SaveSession => Event::Saved(Ok(())),
                Action::ClearSession => Event::Cleared(Ok(())),
                _ => Event::Loaded(Ok(None)),
            },
        };
        match engine.step(event).unwrap() {
            Progress::Next(next) => action = next,
            Progress::Done(outcome) => return outcome,
        }
    }
}

fn ask(engine: &mut BoosterEngine, system: &mut MemorySystem, req: Request) -> Response {
    match engine.dispatch(req, Metrics::default()) {
        Dispatch::Reply(response) => response,
        Dispatch::Perform(first) => finish(engine, system, first).response().unwrap(),
    }
}

fn boosted(response: &Response) -> bool {
    match response {
        Response::Status(status) => status.boosted,
        other => panic!("{:?}", other),
    }
}

fn message(response: &Response) -> String {
    match response {
        Response::Error { message } => message.clone(),
        other => panic!("{:?}", other),
    }
}

#[test]
fn requests_are_met() {
    let (processes, services) = controllers();
    let mut system = MemorySystem { processes, services };
    let mut engine = BoosterEngine::new(Classifier::default());
    let profile = Profile::gaming();

    let refused = ask(&mut engine, &mut system, Request::EndBoost);
    assert_eq!(message(&refused), "no active boost session");
    match ask(&mut engine, &mut system, Request::Scan { profile: profile.clone() }) {
        Response::Scan(scan) => {
            assert_eq!(scan.processes.len(), 3);
            assert_eq!(scan.services.len(), 2);
        }
        other => panic!("{:?}", other),
    }
    assert!(!boosted(&ask(&mut engine, &mut system, Request::GetStatus)));
    match ask(&mut engine, &mut system, Request::StartBoost { profile: profile.clone() }) {
        Response::Boosted(report) => {
            assert_eq!((report.suspended_processes, report.changed_services), (2, 1));
        }
        other => panic!("{:?}", other),
    }
    assert!(boosted(&ask(&mut engine, &mut system, Request::GetStatus)));
    let stacked = ask(&mut engine, &mut system, Request::StartBoost { profile });
    assert_eq!(message(&stacked), "OS error: a boost is already active");
    assert!(matches!(ask(&mut engine, &mut system, Request::Heartbeat), Response::Ack));
    assert!(!engine.heartbeat_expired());
    assert!(matches!(ask(&mut engine, &mut system, Request::EndBoost), Response::Ended));
    assert!(!boosted(&ask(&mut engine, &mut system, Request::GetStatus)));
}

#[test]
fn deadlines_of_a_boost() {
    let (processes, services) = controllers();
    let mut system = MemorySystem { processes, services };
    let mut engine = BoosterEngine::new(Classifier::default());
    let id = SessionId { bits: 5 };
    let at = |secs: i128| Timestamp { nanos: secs * 1_000_000_000 };
    let start = Request::StartBoost { profile: Profile::work() };
    match engine.dispatch_at(start, Metrics::default(), id, at(100)) {
        Dispatch::Perform(first) => match finish(&mut engine, &mut system, first) {
            Outcome::Boosted(Ok(report)) => assert_eq!(report.session_id, id),
            other => panic!("{:?}", other),
        },
        other => panic!("{:?}", other),
    }
    // Without a heartbeat the boost survives fifteen seconds from the request.
    assert_eq!(HEARTBEAT_TTL_SECS, 15);
    assert!(!engine.heartbeat_expired_at(at(115)));
    assert!(engine.heartbeat_expired_at(at(116)) && engine.watchdog_due_at(at(116)));
    engine.dispatch_at(Request::Heartbeat, Metrics::default(), id, at(131));
    assert!(!engine.heartbeat_expired_at(at(146)));
    assert!(engine.heartbeat_expired_at(at(147)));
    // So is a boost that is refused.
    let again = Request::StartBoost { profile: Profile::work() };
    engine.dispatch_at(again, Metrics::default(), id, at(200));
    assert!(!engine.watchdog_due_at(at(215)));
    assert!(engine.watchdog_due_at(at(216)));
}

#[test]
fn deadline_of_a_boost_that_no_request_started() {
    let (processes, services) = controllers();
    let mut system = MemorySystem { processes, services };
    let mut engine = BoosterEngine::new(Classifier::default());
    let at = |secs: i128| Timestamp { nanos: secs * 1_000_000_000 };
    let id = SessionId { bits: 5 };
    let first = engine.start_boost_at(&Profile::work(), id, at(100)).unwrap();
    finish(&mut engine, &mut system, first);
    assert_eq!(INITIAL_TTL_SECS, 30);
    assert!(!engine.heartbeat_expired_at(at(130)));
    assert!(engine.heartbeat_expired_at(at(131)));
}

#[test]
fn errors_of_outcomes_are_answered_with_their_text() {
    let failed = Outcome::Scanned(Err(BoosterError::Os("x".to_string())));
    assert_eq!(message(&failed.response().unwrap()), "OS error: x");
    let failed = Outcome::Boosted(Err(BoosterError::Io("y".to_string())));
    assert_eq!(message(&failed.response().unwrap()), "io error: y");
    let failed = Outcome::Ended(Err(BoosterError::Io("z".to_string())));
    assert_eq!(message(&failed.response().unwrap()), "io error: z");
    assert!(Outcome::Recovered(Ok(true)).response().is_none());
}

#[test]
fn errors_have_texts() {
    assert_eq!(
        BoosterError::Protected("lsass.exe".to_string()).to_string(),
        "item is protected and may never be modified: lsass.exe"
    );
    assert_eq!(BoosterError::Serde("eof".to_string()).to_string(), "serialization error: eof");
    assert_eq!(BoosterError::NoActiveSession.to_string(), "no active boost session");
    assert_eq!(BoosterError::Os(String::new()).to_string(), "OS error: ");
    assert_eq!(BoosterError::Io("full".to_string()).to_string(), "io error: full");
}

#[test]
fn a_session_has_a_random_identity_and_starts_now() {
    let epoch = std::time::SystemTime::UNIX_EPOCH;
    let before = std::time::SystemTime::now().duration_since(epoch).unwrap().as_nanos() as i128;
    let session = RestoreSession::new("Work".to_string());
    let after = std::time::SystemTime::now().duration_since(epoch).unwrap().as_nanos() as i128;
    assert!(before <= session.started_at.nanos && session.started_at.nanos <= after);
    assert_eq!(
        session.heartbeat_deadline.nanos,
        session.started_at.nanos + 30_000_000_000
    );
    assert_eq!(session.profile, "Work");
    assert!(session.suspended_processes.is_empty() && session.changed_services.is_empty());
    assert!(!session.heartbeat_expired());
    let id = uuid::Uuid::from_u128(session.id.bits);
    assert_eq!(id.get_version_num(), 4);
    assert_eq!(id.get_variant(), uuid::Variant::RFC4122);
    assert_ne!(session.id, SessionId::new_v4());
    assert_eq!(SessionId::nil().bits, uuid::Uuid::nil().as_u128());
}

#[test]
fn a_heartbeat_moves_the_deadline() {
    let now = Timestamp { nanos: -5 };
    let mut session = RestoreSession::started("Work".to_string(), SessionId::nil(), now);
    assert_eq!(session.heartbeat_deadline.nanos, 29_999_999_995);
    session.bump_heartbeat_at(Span::from_millis(1_500), now);
    assert_eq!(session.heartbeat_deadline.nanos, 1_499_999_995);
    assert!(!session.heartbeat_expired_at(Timestamp { nanos: 1_499_999_995 }));
    assert!(session.heartbeat_expired_at(Timestamp { nanos: 1_499_999_996 }));
    assert!(session.heartbeat_expired());
    session.bump_heartbeat(Span::from_secs(60));
    assert!(!session.heartbeat_expired());
}

#[test]
fn clock_readings() {
    assert_eq!(Timestamp::from_reading(Ok((2, 3))).nanos, 2_000_000_003);
    assert_eq!(Timestamp::from_reading(Err((2, 3))).nanos, -2_000_000_003);
    assert_eq!(
        Timestamp::from_reading(Ok((u64::MAX, 999_999_999))).nanos,
        18_446_744_073_709_551_615_999_999_999
    );
    assert_eq!(Span::from_millis(1_234), Span { secs: 1, nanos: 234_000_000 });
    assert_eq!(Span::from_secs(7), Span { secs: 7, nanos: 0 });
    let t = Timestamp { nanos: 5 };
    assert!(t.plus(Span { secs: 0, nanos: 1 }).is_after(t) && !t.is_after(t));
}

#[test]
fn a_save_goes_through_a_temporary_file() {
    let store = SessionStore::new(PathBuf::from("dir/session.json"));
    assert_eq!(store.path(), &PathBuf::from("dir/session.json"));
    assert_eq!(store.save(true), SaveStep::CreateParent);
    assert_eq!(store.save(false), SaveStep::WriteTemp);
    assert!(matches!(
        store.save_step(SaveStep::CreateParent, Ok(())),
        SaveProgress::Next(SaveStep::WriteTemp)
    ));
    assert!(matches!(
        store.save_step(SaveStep::WriteTemp, Ok(())),
        SaveProgress::Next(SaveStep::Rename)
    ));
    assert!(matches!(
        store.save_step(SaveStep::Rename, Ok(())),
        SaveProgress::Done(Ok(()))
    ));
    for step in [SaveStep::CreateParent, SaveStep::WriteTemp, SaveStep::Rename] {
        match store.save_step(step, Err(BoosterError::Io("full".to_string()))) {
            SaveProgress::Done(Err(e)) => assert_eq!(e.to_string(), "io error: full"),
            other => panic!("{:?}", other),
        }
    }
}

#[test]
fn a_missing_file_is_no_error() {
    let store = SessionStore::new(PathBuf::from("session.json"));
    assert_eq!(store.load(Ok(vec![1, 2])).unwrap(), Some(vec![1, 2]));
    assert_eq!(store.load(Err(FileError::NotFound)).unwrap(), None);
    let denied = store.load(Err(FileError::Failed("denied".to_string()))).unwrap_err();
    assert_eq!(denied.to_string(), "io error: denied");
    assert!(store.clear(Ok(())).is_ok());
    assert!(store.clear(Err(FileError::NotFound)).is_ok());
    let denied = store.clear(Err(FileError::Failed("denied".to_string()))).unwrap_err();
    assert_eq!(denied.to_string(), "io error: denied");
}

/// Carries out a save on files in memory: the store's file and the temporary one.
/// `fails_at` is the step that fails, if any.
fn save(
    store: &SessionStore,
    file: &mut Option<Vec<u8>>,
    temp: &mut Option<Vec<u8>>,
    json: &[u8],
    fails_at: Option<SaveStep>,
) -> Result<(), BoosterError> {
    let mut step = store.save(true);
    loop {
        let done = if fails_at == Some(step) {
            Err(BoosterError::Io("full".to_string()))
        } else {
            match step {
                SaveStep::CreateParent => {}
                SaveStep::WriteTemp => *temp = Some(json.to_vec()),
                SaveStep::Rename => *file = temp.take(),
            }
            Ok(())
        };
        match store.save_step(step, done) {
            SaveProgress::Next(next) => step = next,
            SaveProgress::Done(saved) => return saved,
        }
    }
}

#[test]
fn a_load_gives_back_what_was_written_last() {
    let store = SessionStore::new(PathBuf::from("dir/session.json"));
    let (mut file, mut temp) = (None, None);
    let read = |file: &Option<Vec<u8>>| file.clone().ok_or(FileError::NotFound);
    save(&store, &mut file, &mut temp, b"one", None).unwrap();
    save(&store, &mut file, &mut temp, b"two", None).unwrap();
    assert_eq!(store.load(read(&file)).unwrap(), Some(b"two".to_vec()));
    for step in [SaveStep::CreateParent, SaveStep::WriteTemp, SaveStep::Rename] {
        assert!(save(&store, &mut file, &mut temp, b"three", Some(step)).is_err());
        assert_eq!(store.load(read(&file)).unwrap(), Some(b"two".to_vec()));
    }
    store.clear(file.take().map(|_| ()).ok_or(FileError::NotFound)).unwrap();
    assert_eq!(store.load(read(&file)).unwrap(), None);
    store.clear(file.take().map(|_| ()).ok_or(FileError::NotFound)).unwrap();
}
