//! End-to-end tests of the engine on a system in memory: classification, boost
//! and restore, write-ahead saving and recovery.

use system_booster::classify::{Classifier, Profile};
use system_booster::engine::{Action, Event, Outcome, Progress};
use system_booster::memory::MemorySystem;
use system_booster::process::{MockProcessController, ProcessInfo};
use system_booster::service::{
    MockServiceController, ServiceAction, ServiceInfo, ServiceState,
};
use system_booster::session::RestoreSession;
use system_booster::time::{Span, Timestamp};
use system_booster::{BoostReport, BoosterEngine, BoosterError, ScanResult};

fn process(pid: u32, name: &str, start_time: u64) -> ProcessInfo {
    ProcessInfo {
        pid,
        name: name.to_string(),
        image_path: None,
        start_time,
    }
}

fn sample_processes() -> Vec<ProcessInfo> {
    vec![
        // Critical: must never be suspended.
        process(4, "System", 1),
        process(800, "lsass.exe", 2),
        process(900, "csrss.exe", 3),
        // Eligible user-space apps.
        process(1500, "Spotify.exe", 4),
        process(1600, "Slack.exe", 5),
        // Skipped by default.
        process(1700, "explorer.exe", 6),
    ]
}

fn service(name: &str, display: Option<&str>, state: ServiceState, pause: bool) -> ServiceInfo {
    ServiceInfo {
        name: name.to_string(),
        display_name: display.map(|d| d.to_string()),
        state,
        accepts_pause: pause,
    }
}

fn sample_services() -> Vec<ServiceInfo> {
    vec![
        service("RpcSs", None, ServiceState::Running, false),
        service("WSearch", Some("Windows Search"), ServiceState::Running, true),
        service("Spooler", Some("Print Spooler"), ServiceState::Running, false),
        service("AlreadyStopped", None, ServiceState::Stopped, false),
    ]
}

/// An engine with the system it works on and its store. `log` lists the actions
/// that were performed.
struct Host {
    engine: BoosterEngine,
    system: MemorySystem,
    disk: Option<RestoreSession>,
    log: Vec<String>,
    /// Saves fail from this one on, counted from zero.
    failing_save: Option<usize>,
    /// Suspending this pid fails.
    stubborn_pid: Option<u32>,
    saves: usize,
}

impl Host {
    fn new() -> Self {
        Host {
            engine: BoosterEngine::new(Classifier::default()),
            system: MemorySystem {
                processes: MockProcessController::with_processes(sample_processes()),
                services: MockServiceController::with_services(sample_services()),
            },
            disk: None,
            log: Vec::new(),
            failing_save: None,
            stubborn_pid: None,
            saves: 0,
        }
    }

    fn perform(&mut self, action: &Action) -> Event {
        self.log.push(format!("{:?}", action));
        if let Action::Suspend { pid } = action {
            if self.stubborn_pid == Some(*pid) {
                return Event::Suspended(Err(BoosterError::Os("access denied".to_string())));
            }
        }
        match self.system.perform(action) {
            Some(event) => event,
            None => match action {
                Action::SaveSession => {
                    let n = self.saves;
                    self.saves += 1;
                    if self.failing_save.map_or(false, |k| n >= k) {
                        Event::Saved(Err(BoosterError::Io("disk full".to_string())))
                    } else {
                        self.disk = self.engine.session_to_save().cloned();
                        assert!(self.disk.is_some());
                        Event::Saved(Ok(()))
                    }
                }
                Action::ClearSession => {
                    self.disk = None;
                    Event::Cleared(Ok(()))
                }
                Action::LoadSession => Event::Loaded(Ok(self.disk.clone())),
                _ => unreachable!(),
            },
        }
    }

    fn drive(&mut self, first: Action) -> Outcome {
        let mut action = first;
        loop {
            let event = self.perform(&action);
            match self.engine.step(event).unwrap() {
                Progress::Next(next) => action = next,
                Progress::Done(outcome) => return outcome,
            }
        }
    }

    fn scan(&mut self, profile: &Profile) -> Result<ScanResult, BoosterError> {
        let first = self.engine.scan(profile);
        match self.drive(first) {
            Outcome::Scanned(r) => r,
            _ => unreachable!(),
        }
    }

    fn start_boost(&mut self, profile: &Profile) -> Result<BoostReport, BoosterError> {
        let first = self.engine.start_boost(profile)?;
        match self.drive(first) {
            Outcome::Boosted(r) => r,
            _ => unreachable!(),
        }
    }

    fn end_boost(&mut self) -> Result<(), BoosterError> {
        let first = self.engine.end_boost()?;
        match self.drive(first) {
            Outcome::Ended(r) => r,
            _ => unreachable!(),
        }
    }

    fn recover(&mut self) -> Result<bool, BoosterError> {
        let first = self.engine.recover();
        match self.drive(first) {
            Outcome::Recovered(r) => r,
            _ => unreachable!(),
        }
    }
}

#[test]
fn scan_locks_critical_items() {
    let mut host = Host::new();
    let scan = host.scan(&Profile::gaming()).unwrap();

    let lsass = scan
        .processes
        .iter()
        .find(|c| c.name == "lsass.exe")
        .unwrap();
    assert!(!lsass.eligible, "lsass must be locked");
    let spotify = scan
        .processes
        .iter()
        .find(|c| c.name == "Spotify.exe")
        .unwrap();
    assert!(spotify.eligible, "user app should be eligible");

    let rpcss = scan.services.iter().find(|c| c.key == "RpcSs").unwrap();
    assert!(!rpcss.eligible, "RpcSs must be locked");
}

#[test]
fn boost_then_restore_round_trips() {
    let mut host = Host::new();

    let report = host.start_boost(&Profile::gaming()).unwrap();
    assert_eq!(report.suspended_processes, 2, "Spotify + Slack");
    assert_eq!(
        report.changed_services, 2,
        "WSearch + Spooler (RpcSs critical, one stopped)"
    );

    // Critical items untouched, eligible ones suspended.
    assert!(host.system.processes.is_suspended(1500));
    assert!(host.system.processes.is_suspended(1600));
    assert!(
        !host.system.processes.is_suspended(800),
        "lsass must not be suspended"
    );
    let svcs = &host.system.services;
    assert_eq!(svcs.state_of("RpcSs"), Some(ServiceState::Running));
    assert_eq!(svcs.state_of("WSearch"), Some(ServiceState::Paused));
    assert_eq!(svcs.state_of("Spooler"), Some(ServiceState::Stopped));
    assert!(host.engine.is_boosted());

    host.end_boost().unwrap();
    let svcs = &host.system.services;
    assert!(!host.system.processes.is_suspended(1500));
    assert_eq!(svcs.state_of("WSearch"), Some(ServiceState::Running));
    assert_eq!(svcs.state_of("Spooler"), Some(ServiceState::Running));
    assert!(!host.engine.is_boosted());
}

#[test]
fn recover_restores_orphaned_session() {
    // A first engine applies a boost, then is gone without ending it.
    let mut first = Host::new();
    first.start_boost(&Profile::gaming()).unwrap();
    let session_json = first.disk.take();
    assert!(session_json.is_some(), "session should be persisted on disk");

    // A fresh engine recovers on startup.
    let mut host = Host::new();
    host.disk = session_json;
    let recovered = host.recover().unwrap();
    assert!(recovered);
    assert!(host.disk.is_none(), "session cleared after recovery");
    assert_eq!(
        host.system.services.state_of("WSearch"),
        Some(ServiceState::Running)
    );
}

#[test]
fn work_profile_leaves_services_alone() {
    let mut host = Host::new();
    let report = host.start_boost(&Profile::work()).unwrap();
    assert_eq!(report.changed_services, 0);
    assert_eq!(
        host.system.services.state_of("WSearch"),
        Some(ServiceState::Running)
    );
    host.end_boost().unwrap();
}

#[test]
fn custom_profile_opts_in_protected_process() {
    let mut host = Host::new();

    // Under Gaming, explorer.exe is skipped by default.
    let gaming = host.scan(&Profile::gaming()).unwrap();
    let explorer = gaming
        .processes
        .iter()
        .find(|c| c.name == "explorer.exe")
        .unwrap();
    assert!(!explorer.eligible, "explorer must be protected by default");

    // A Custom profile that opts it in makes it eligible.
    let custom = Profile::custom(vec!["explorer.exe".into()], vec![]);
    let scan = host.scan(&custom).unwrap();
    let explorer = scan
        .processes
        .iter()
        .find(|c| c.name == "explorer.exe")
        .unwrap();
    assert!(
        explorer.eligible,
        "explorer should be eligible once opted in"
    );

    // Critical items can never be opted in, even by name.
    let force_lsass = Profile::custom(vec!["lsass.exe".into()], vec![]);
    let scan = host.scan(&force_lsass).unwrap();
    let lsass = scan
        .processes
        .iter()
        .find(|c| c.name == "lsass.exe")
        .unwrap();
    assert!(!lsass.eligible, "critical lsass must never be opt-in-able");
}

#[test]
fn custom_profile_excludes_named_process() {
    let mut host = Host::new();

    let custom = Profile::custom(vec![], vec!["spotify.exe".into()]);
    let scan = host.scan(&custom).unwrap();
    let spotify = scan
        .processes
        .iter()
        .find(|c| c.name == "Spotify.exe")
        .unwrap();
    let slack = scan
        .processes
        .iter()
        .find(|c| c.name == "Slack.exe")
        .unwrap();
    assert!(!spotify.eligible, "excluded Spotify must be locked");
    assert!(slack.eligible, "Slack stays eligible");
}

#[test]
fn pid_recycle_is_not_resumed() {
    let mut host = Host::new();

    host.start_boost(&Profile::gaming()).unwrap();
    assert!(host.system.processes.is_suspended(1500) && host.system.processes.is_suspended(1600));

    // The system reuses pid 1500 for a different process.
    host.system.processes.recycle_pid(1500, 9999);

    host.end_boost().unwrap();
    // The recycled pid must NOT be resumed (creation time no longer matches),
    // while the untouched pid is restored normally.
    assert!(
        host.system.processes.is_suspended(1500),
        "recycled pid must not be resumed"
    );
    assert!(
        !host.system.processes.is_suspended(1600),
        "matching pid should be resumed"
    );
}

#[test]
fn heartbeat_expiry_tracks_deadline() {
    let mut host = Host::new();

    host.start_boost(&Profile::gaming()).unwrap();
    host.engine.heartbeat(Span::from_millis(0));
    let begun = std::time::Instant::now();
    while begun.elapsed() < std::time::Duration::from_millis(5) {}
    assert!(
        host.engine.heartbeat_expired(),
        "zero-ttl heartbeat must expire"
    );
    assert!(host.engine.watchdog_due());

    host.engine.heartbeat(Span::from_secs(30));
    assert!(
        !host.engine.heartbeat_expired(),
        "fresh heartbeat is not expired"
    );
    assert!(!host.engine.watchdog_due());

    host.end_boost().unwrap();
    assert!(!host.engine.heartbeat_expired());
}

#[test]
fn deadline_is_exact() {
    let mut host = Host::new();
    let now = Timestamp { nanos: 1_000 };
    let late = Timestamp { nanos: i128::MAX };
    host.engine.heartbeat_at(Span::from_secs(2), now);
    assert!(!host.engine.heartbeat_expired_at(late), "nothing to expire");
    assert!(!host.engine.watchdog_due_at(late));
    host.start_boost(&Profile::gaming()).unwrap();
    host.engine.heartbeat_at(Span::from_secs(2), now);
    assert!(!host
        .engine
        .heartbeat_expired_at(Timestamp { nanos: 2_000_001_000 }));
    assert!(host
        .engine
        .heartbeat_expired_at(Timestamp { nanos: 2_000_001_001 }));
    assert!(host.engine.watchdog_due_at(late));
}

#[test]
fn boost_saves_before_every_change() {
    let mut host = Host::new();
    host.start_boost(&Profile::gaming()).unwrap();
    assert_eq!(
        host.log,
        vec![
            "SaveSession",
            "EnumerateProcesses",
            "SaveSession",
            "Suspend { pid: 1500 }",
            "SaveSession",
            "Suspend { pid: 1600 }",
            "EnumerateServices",
            "SaveSession",
            "PauseOrStop { name: \"WSearch\" }",
            "SaveSession",
            "PauseOrStop { name: \"Spooler\" }",
        ]
    );
    let disk = host.disk.clone().unwrap();
    assert_eq!(disk.profile, "Gaming");
    assert_eq!(disk.suspended_processes.len(), 2);
    assert_eq!(disk.suspended_processes[1].pid, 1600);
    assert_eq!(disk.suspended_processes[1].name, "Slack.exe");
    assert_eq!(disk.suspended_processes[1].start_time, 5);
    assert_eq!(disk.changed_services.len(), 2);

    host.log.clear();
    host.end_boost().unwrap();
    assert_eq!(
        host.log,
        vec![
            "Restore { name: \"Spooler\", original: Running, action: Stopped }",
            "Restore { name: \"WSearch\", original: Running, action: Paused }",
            "Match { pid: 1600, start_time: 5 }",
            "Resume { pid: 1600 }",
            "Match { pid: 1500, start_time: 4 }",
            "Resume { pid: 1500 }",
            "ClearSession",
        ]
    );
}

#[test]
fn boosts_do_not_stack() {
    let mut host = Host::new();
    host.start_boost(&Profile::gaming()).unwrap();
    let refused = host.start_boost(&Profile::work()).unwrap_err();
    assert_eq!(refused.to_string(), "OS error: a boost is already active");
    assert!(host.engine.is_boosted() && host.engine.is_idle());
    assert_eq!(host.disk.clone().unwrap().profile, "Gaming");
}

#[test]
fn ending_without_a_boost_is_refused() {
    let mut host = Host::new();
    let refused = host.end_boost().unwrap_err();
    assert!(matches!(refused, BoosterError::NoActiveSession));
    assert_eq!(refused.to_string(), "no active boost session");
    assert!(!host.recover().unwrap(), "an empty store has nothing to recover");
}

#[test]
fn every_change_is_on_disk_before_it_is_made() {
    let mut host = Host::new();
    let mut action = host.engine.start_boost(&Profile::gaming()).unwrap();
    let mut changes = 0;
    loop {
        match &action {
            Action::Suspend { pid } => {
                let disk = host.disk.as_ref().unwrap();
                assert!(disk.suspended_processes.iter().any(|r| r.pid == *pid));
                changes += 1;
            }
            Action::PauseOrStop { name } => {
                let disk = host.disk.as_ref().unwrap();
                assert!(disk.changed_services.iter().any(|r| r.name == *name));
                changes += 1;
            }
            _ => {}
        }
        let event = host.perform(&action);
        match host.engine.step(event).unwrap() {
            Progress::Next(next) => action = next,
            Progress::Done(_) => break,
        }
    }
    assert_eq!(changes, 4);
}

#[test]
fn an_item_that_fails_is_skipped_and_noted() {
    let mut host = Host::new();
    host.stubborn_pid = Some(1500);
    let report = host.start_boost(&Profile::gaming()).unwrap();
    assert_eq!(report.suspended_processes, 1);
    assert_eq!(
        report.skipped,
        vec!["process Spotify.exe: OS error: access denied".to_string()]
    );
    assert!(!host.system.processes.is_suspended(1500));
    assert!(host.system.processes.is_suspended(1600));
    // Its record is taken back, on disk too.
    let disk = host.disk.clone().unwrap();
    assert_eq!(disk.suspended_processes.len(), 1);
    assert_eq!(disk.suspended_processes[0].pid, 1600);
    assert_eq!(
        host.log[2..6],
        ["SaveSession", "Suspend { pid: 1500 }", "SaveSession", "SaveSession"]
    );
}

#[test]
fn a_service_that_fails_or_is_changed_otherwise_is_set_right() {
    let mut host = Host::new();
    let mut action = host.engine.start_boost(&Profile::gaming()).unwrap();
    let report = loop {
        let event = match &action {
            // WSearch could be paused, but is stopped; Spooler refuses.
            Action::PauseOrStop { name } if name == "WSearch" => {
                Event::Changed(Ok(ServiceAction::Stopped))
            }
            Action::PauseOrStop { .. } => {
                Event::Changed(Err(BoosterError::Os("refused".to_string())))
            }
            other => host.perform(other),
        };
        match host.engine.step(event).unwrap() {
            Progress::Next(next) => action = next,
            Progress::Done(Outcome::Boosted(report)) => break report.unwrap(),
            Progress::Done(other) => panic!("{:?}", other),
        }
    };
    assert_eq!(report.changed_services, 1);
    assert_eq!(report.skipped, vec!["service Spooler: OS error: refused".to_string()]);
    let disk = host.disk.clone().unwrap();
    assert_eq!(disk.changed_services.len(), 1);
    assert_eq!(disk.changed_services[0].name, "WSearch");
    assert_eq!(disk.changed_services[0].original_state, ServiceState::Running);
    assert_eq!(disk.changed_services[0].action, ServiceAction::Stopped);
}

#[test]
fn a_failed_save_ends_the_boost_and_is_recoverable() {
    // Whichever save fails, what was changed by then is undone in full.
    for failing in 0..5 {
        let mut host = Host::new();
        host.failing_save = Some(failing);
        let error = host.start_boost(&Profile::gaming()).unwrap_err();
        assert_eq!(error.to_string(), "io error: disk full");
        assert!(!host.engine.is_boosted() && host.engine.is_idle());
        assert_eq!(host.system.processes.is_suspended(1500), failing > 1);
        assert_eq!(host.system.processes.is_suspended(1600), failing > 2);

        assert_eq!(host.recover().unwrap(), failing > 0);
        for p in sample_processes() {
            assert!(!host.system.processes.is_suspended(p.pid));
        }
        for s in sample_services() {
            assert_eq!(host.system.services.state_of(&s.name), Some(s.state));
        }
        assert!(host.disk.is_none());
    }
}

#[test]
fn a_crash_at_any_point_is_undone() {
    // Cut after each of the actions of the boost in turn.
    for cut in 1..=11 {
        let mut host = Host::new();
        let mut action = Some(host.engine.start_boost(&Profile::gaming()).unwrap());
        for _ in 0..cut {
            let event = host.perform(&action.take().unwrap());
            action = match host.engine.step(event).unwrap() {
                Progress::Next(next) => Some(next),
                Progress::Done(_) => None,
            };
        }
        assert_eq!(action.is_none(), cut == 11);

        host.engine = BoosterEngine::new(Classifier::default());
        assert!(host.recover().unwrap());
        for p in sample_processes() {
            assert!(!host.system.processes.is_suspended(p.pid));
        }
        for s in sample_services() {
            assert_eq!(host.system.services.state_of(&s.name), Some(s.state));
        }
        assert!(host.disk.is_none());
    }
}

#[test]
fn a_stray_reply_changes_nothing() {
    let mut host = Host::new();
    assert!(host.engine.step(Event::Matched(true)).is_none());
    let first = host.engine.start_boost(&Profile::gaming()).unwrap();
    assert!(host.engine.step(Event::Suspended(Ok(()))).is_none());
    assert!(!host.engine.awaits(&Event::Cleared(Ok(()))));
    assert!(host.engine.awaits(&Event::Saved(Ok(()))));
    match host.drive(first) {
        Outcome::Boosted(Ok(report)) => assert_eq!(report.suspended_processes, 2),
        other => panic!("{:?}", other),
    }
}

#[test]
fn a_listing_that_fails_is_reported() {
    let mut host = Host::new();
    host.engine.scan(&Profile::gaming());
    let done = host
        .engine
        .step(Event::Processes(Err(BoosterError::Os("snapshot".into()))))
        .unwrap();
    match done {
        Progress::Done(Outcome::Scanned(Err(e))) => assert_eq!(e.to_string(), "OS error: snapshot"),
        other => panic!("{:?}", other),
    }
    assert!(host.engine.is_idle());
}

#[test]
fn a_store_that_cannot_be_read_or_cleared_is_reported() {
    let mut host = Host::new();
    host.engine.recover();
    let bad = Event::Loaded(Err(BoosterError::Serde("expected value".into())));
    match host.engine.step(bad).unwrap() {
        Progress::Done(Outcome::Recovered(Err(e))) => {
            assert_eq!(e.to_string(), "serialization error: expected value")
        }
        other => panic!("{:?}", other),
    }

    host.start_boost(&Profile::gaming()).unwrap();
    let mut action = host.engine.end_boost().unwrap();
    while !matches!(action, Action::ClearSession) {
        let event = host.perform(&action);
        action = match host.engine.step(event).unwrap() {
            Progress::Next(next) => next,
            Progress::Done(_) => unreachable!(),
        };
    }
    let failed = Event::Cleared(Err(BoosterError::Io("denied".into())));
    match host.engine.step(failed).unwrap() {
        Progress::Done(Outcome::Ended(Err(e))) => assert_eq!(e.to_string(), "io error: denied"),
        other => panic!("{:?}", other),
    }
    assert!(!host.engine.is_boosted());
}

#[test]
fn scan_presents_keys_and_names() {
    let mut host = Host::new();
    let scan = host.scan(&Profile::gaming()).unwrap();
    assert_eq!(scan.processes.len(), 6);
    assert_eq!(scan.processes[3].key, "1500");
    assert_eq!(scan.processes[0].key, "4");
    assert_eq!(scan.services[0].name, "RpcSs");
    assert_eq!(scan.services[1].key, "WSearch");
    assert_eq!(scan.services[1].name, "Windows Search");
    assert!(scan.services[2].eligible);
    assert!(!scan.services[3].eligible, "a stopped service is left alone");
    assert_eq!(system_booster::scan::eligible_count(&scan.processes), 2);
    assert_eq!(system_booster::scan::eligible_count(&scan.services), 2);
}

#[test]
fn a_restore_that_is_cut_short_is_recovered() {
    // Cut before each of the actions of the restore in turn.
    for cut in 0..7 {
        let mut host = Host::new();
        host.start_boost(&Profile::gaming()).unwrap();
        let mut action = host.engine.end_boost().unwrap();
        for _ in 0..cut {
            let event = host.perform(&action);
            action = match host.engine.step(event).unwrap() {
                Progress::Next(next) => next,
                Progress::Done(_) => unreachable!(),
            };
        }
        assert!(host.disk.is_some());

        host.engine = BoosterEngine::new(Classifier::default());
        assert!(host.recover().unwrap());
        for p in sample_processes() {
            assert!(!host.system.processes.is_suspended(p.pid));
        }
        for s in sample_services() {
            assert_eq!(host.system.services.state_of(&s.name), Some(s.state));
        }
        assert!(host.disk.is_none());
    }
}

#[test]
fn no_failure_stops_a_restore() {
    let mut host = Host::new();
    host.start_boost(&Profile::gaming()).unwrap();
    let mut action = host.engine.end_boost().unwrap();
    let mut asked = Vec::new();
    loop {
        asked.push(format!("{:?}", action));
        let denied = || Err(BoosterError::Os("denied".to_string()));
        let event = match action {
            Action::Restore { .. } => Event::Restored(denied()),
            Action::Resume { .. } => Event::Resumed(denied()),
            other => host.perform(&other),
        };
        match host.engine.step(event).unwrap() {
            Progress::Next(next) => action = next,
            Progress::Done(Outcome::Ended(ended)) => {
                assert!(ended.is_ok());
                break;
            }
            Progress::Done(other) => panic!("{:?}", other),
        }
    }
    // Two services, two processes with a look at each, and the store.
    assert_eq!(asked.len(), 7);
    assert!(!host.engine.is_boosted());
}

#[test]
fn a_boost_does_what_the_scan_announced() {
    let mut host = Host::new();
    let profile = Profile::custom(vec!["explorer.exe".into()], vec!["slack.exe".into()]);
    let scan = host.scan(&profile).unwrap();
    let report = host.start_boost(&profile).unwrap();
    for c in &scan.processes {
        let pid: u32 = c.key.parse().unwrap();
        assert_eq!(host.system.processes.is_suspended(pid), c.eligible, "{}", c.name);
    }
    for c in &scan.services {
        let running = host.system.services.state_of(&c.key) == Some(ServiceState::Running);
        if c.eligible {
            assert!(!running, "{}", c.name);
        }
    }
    let eligible = system_booster::scan::eligible_count(&scan.processes)
        + system_booster::scan::eligible_count(&scan.services);
    assert_eq!(
        report.suspended_processes + report.changed_services + report.skipped.len(),
        eligible
    );
}

#[test]
fn a_failed_boost_over_an_older_session_is_recovered() {
    // An older session lies in the store; the first save of the boost replaces it.
    let mut host = Host::new();
    host.disk = Some(RestoreSession::new("Old".to_string()));
    host.failing_save = Some(3);
    assert!(host.start_boost(&Profile::gaming()).is_err());
    assert_eq!(host.disk.as_ref().unwrap().profile, "Gaming");
    assert!(host.system.processes.is_suspended(1600));
    assert!(host.recover().unwrap());
    for p in sample_processes() {
        assert!(!host.system.processes.is_suspended(p.pid));
    }
    assert!(host.disk.is_none());
}

#[test]
fn services_of_the_same_name_are_written_ahead_too() {
    let mut host = Host::new();
    host.system.services = MockServiceController::with_services(vec![
        service("Twin", None, ServiceState::Running, true),
        service("Twin", None, ServiceState::Running, true),
    ]);
    let mut action = host.engine.start_boost(&Profile::gaming()).unwrap();
    let mut asked = 0;
    loop {
        if let Action::PauseOrStop { name } = &action {
            asked += 1;
            let on_disk = host.disk.as_ref().unwrap().changed_services.len();
            assert_eq!((name.as_str(), on_disk), ("Twin", asked));
        }
        let event = host.perform(&action);
        match host.engine.step(event).unwrap() {
            Progress::Next(next) => action = next,
            Progress::Done(_) => break,
        }
    }
    assert_eq!(asked, 2);
}

#[test]
fn a_reboot_is_recovered() {
    // Cut after each of the actions of the boost in turn; the system then comes up
    // with other processes, one of which has a pid that was suspended.
    for cut in 1..=11 {
        let mut host = Host::new();
        let mut action = Some(host.engine.start_boost(&Profile::gaming()).unwrap());
        for _ in 0..cut {
            let event = host.perform(&action.take().unwrap());
            action = match host.engine.step(event).unwrap() {
                Progress::Next(next) => Some(next),
                Progress::Done(_) => None,
            };
        }
        host.engine = BoosterEngine::new(Classifier::default());
        host.system.processes =
            MockProcessController::with_processes(vec![process(1500, "other.exe", 77)]);
        host.log.clear();
        assert!(host.recover().unwrap());
        for s in sample_services() {
            assert_eq!(host.system.services.state_of(&s.name), Some(s.state));
        }
        assert!(!host.log.iter().any(|a| a.starts_with("Resume")));
        assert!(host.disk.is_none());
    }
}

#[test]
fn a_recovery_resumes_the_processes_that_are_left() {
    let mut host = Host::new();
    host.start_boost(&Profile::gaming()).unwrap();
    // Slack is killed and another process starts; Spotify is still there.
    host.system.processes = MockProcessController::with_processes(vec![
        process(1500, "Spotify.exe", 4),
        process(2000, "new.exe", 8),
    ]);
    assert!(matches!(
        host.system.perform(&Action::Suspend { pid: 1500 }),
        Some(Event::Suspended(Ok(())))
    ));
    host.engine = BoosterEngine::new(Classifier::default());
    host.log.clear();
    assert!(host.recover().unwrap());
    assert!(!host.system.processes.is_suspended(1500));
    assert_eq!(
        host.log,
        vec![
            "LoadSession",
            "Restore { name: \"Spooler\", original: Running, action: Stopped }",
            "Restore { name: \"WSearch\", original: Running, action: Paused }",
            "Match { pid: 1600, start_time: 5 }",
            "Match { pid: 1500, start_time: 4 }",
            "Resume { pid: 1500 }",
            "ClearSession",
        ]
    );
}

#[test]
fn a_reboot_in_the_middle_of_a_restore_is_recovered() {
    for cut in 0..7 {
        let mut host = Host::new();
        host.start_boost(&Profile::gaming()).unwrap();
        let mut action = host.engine.end_boost().unwrap();
        for _ in 0..cut {
            let event = host.perform(&action);
            action = match host.engine.step(event).unwrap() {
                Progress::Next(next) => next,
                Progress::Done(_) => unreachable!(),
            };
        }
        host.engine = BoosterEngine::new(Classifier::default());
        host.system.processes = MockProcessController::default();
        assert!(host.recover().unwrap());
        for s in sample_services() {
            assert_eq!(host.system.services.state_of(&s.name), Some(s.state));
        }
        assert!(host.disk.is_none());
    }
}
