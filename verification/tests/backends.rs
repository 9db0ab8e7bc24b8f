//! The backends in memory, and what the Windows backends decide.

use system_booster::engine::{Action, Event};
use system_booster::memory::{controllers, MemorySystem};
use system_booster::process::{MockProcessController, ProcessController, ProcessInfo};
use system_booster::service::{
    MockServiceController, ServiceAction, ServiceController, ServiceInfo, ServiceState,
};
use system_booster::win32::{
    accepts_pause, filetime_ticks, map_state, name_text, name_units, pause_or_stop_plan,
    process_info, process_list, restore_plan, same_process, service_info, service_list, threads_of,
    to_wide, ListedProcess, ListedService, RestorePlan, ThreadEntry, SERVICE_ACCEPT_PAUSE_CONTINUE, SERVICE_CONTROL_CONTINUE, SERVICE_CONTROL_PAUSE,
    SERVICE_CONTROL_STOP, SERVICE_PAUSED, SERVICE_RUNNING, SERVICE_STOPPED,
};

fn service(name: &str, pause: bool) -> ServiceInfo {
    ServiceInfo {
        name: name.to_string(),
        display_name: None,
        state: ServiceState::Running,
        accepts_pause: pause,
    }
}

#[test]
fn processes_in_memory() {
    let mut procs = MockProcessController::with_processes(vec![ProcessInfo {
        pid: 10,
        name: "a.exe".to_string(),
        image_path: Some("c:\\a.exe".to_string()),
        start_time: 3,
    }]);
    assert_eq!(procs.enumerate().unwrap()[0].image_path.as_deref(), Some("c:\\a.exe"));
    assert!(!procs.is_suspended(10));
    procs.suspend(10).unwrap();
    procs.suspend(99).unwrap();
    assert!(procs.is_suspended(10) && procs.is_suspended(99));
    procs.resume(10).unwrap();
    assert!(!procs.is_suspended(10) && procs.is_suspended(99));
    assert!(procs.matches(10, 3) && !procs.matches(10, 4) && !procs.matches(11, 3));
    procs.recycle_pid(10, 4);
    assert!(!procs.matches(10, 3) && procs.matches(10, 4));
    assert!(MockProcessController::default().enumerate().unwrap().is_empty());
}

#[test]
fn services_in_memory() {
    let mut svcs =
        MockServiceController::with_services(vec![service("A", true), service("B", false)]);
    assert_eq!(service("A", true).expected_action(), ServiceAction::Paused);
    assert_eq!(service("B", false).expected_action(), ServiceAction::Stopped);
    assert_eq!(svcs.pause_or_stop("A").unwrap(), ServiceAction::Paused);
    assert_eq!(svcs.pause_or_stop("B").unwrap(), ServiceAction::Stopped);
    assert_eq!(svcs.state_of("A"), Some(ServiceState::Paused));
    assert_eq!(svcs.state_of("B"), Some(ServiceState::Stopped));
    assert_eq!(svcs.state_of("b"), None);
    let missing = svcs.pause_or_stop("C").unwrap_err();
    assert_eq!(missing.to_string(), "OS error: no such service C");
    svcs.restore("A", &ServiceState::Running, &ServiceAction::Paused).unwrap();
    svcs.restore("C", &ServiceState::Running, &ServiceAction::Paused).unwrap();
    assert_eq!(svcs.state_of("A"), Some(ServiceState::Running));
    assert_eq!(svcs.enumerate().unwrap().len(), 2);
    assert!(MockServiceController::default().enumerate().unwrap().is_empty());
}

#[test]
fn the_system_in_memory_performs_actions() {
    let (processes, services) = controllers();
    let mut system = MemorySystem { processes, services };
    match system.perform(&Action::EnumerateProcesses) {
        Some(Event::Processes(Ok(list))) => {
            let shown: Vec<(u32, &str, u64)> = list
                .iter()
                .map(|p| (p.pid, p.name.as_str(), p.start_time))
                .collect();
            assert_eq!(
                shown,
                vec![(4, "System", 1), (1500, "Spotify.exe", 4), (1600, "Slack.exe", 5)]
            );
        }
        other => panic!("{:?}", other),
    }
    match system.perform(&Action::EnumerateServices) {
        Some(Event::Services(Ok(list))) => {
            assert_eq!(list.len(), 2);
            assert_eq!(list[0].name, "RpcSs");
            assert!(list[0].display_name.is_none() && !list[0].accepts_pause);
            assert_eq!(list[1].name, "WSearch");
            assert_eq!(list[1].display_name.as_deref(), Some("Windows Search"));
            assert!(list[1].accepts_pause && list[1].state == ServiceState::Running);
        }
        other => panic!("{:?}", other),
    }
    assert!(matches!(
        system.perform(&Action::Suspend { pid: 1500 }),
        Some(Event::Suspended(Ok(())))
    ));
    assert!(system.processes.is_suspended(1500));
    assert!(matches!(
        system.perform(&Action::Match { pid: 1500, start_time: 4 }),
        Some(Event::Matched(true))
    ));
    assert!(matches!(
        system.perform(&Action::Resume { pid: 1500 }),
        Some(Event::Resumed(Ok(())))
    ));
    assert!(!system.processes.is_suspended(1500));
    let name = "WSearch".to_string();
    assert!(matches!(
        system.perform(&Action::PauseOrStop { name: name.clone() }),
        Some(Event::Changed(Ok(ServiceAction::Paused)))
    ));
    let back = Action::Restore {
        name,
        original: ServiceState::Running,
        action: ServiceAction::Paused,
    };
    assert!(matches!(system.perform(&back), Some(Event::Restored(Ok(())))));
    assert_eq!(system.services.state_of("WSearch"), Some(ServiceState::Running));
    assert!(system.perform(&Action::SaveSession).is_none());
    assert!(system.perform(&Action::LoadSession).is_none());
    assert!(system.perform(&Action::ClearSession).is_none());
}

#[test]
fn numbers_are_those_of_the_system() {
    assert_eq!((SERVICE_STOPPED, SERVICE_RUNNING, SERVICE_PAUSED), (1, 4, 7));
    assert_eq!(SERVICE_ACCEPT_PAUSE_CONTINUE, 2);
    assert_eq!(SERVICE_CONTROL_STOP, 1);
    assert_eq!(SERVICE_CONTROL_PAUSE, 2);
    assert_eq!(SERVICE_CONTROL_CONTINUE, 3);
}

#[test]
fn service_states_are_mapped() {
    assert_eq!(map_state(SERVICE_RUNNING), ServiceState::Running);
    assert_eq!(map_state(SERVICE_PAUSED), ServiceState::Paused);
    assert_eq!(map_state(SERVICE_STOPPED), ServiceState::Stopped);
    for pending in [0, 2, 3, 5, 6, 8] {
        assert_eq!(map_state(pending), ServiceState::Other);
    }
}

#[test]
fn a_listed_service_keeps_what_could_be_read() {
    let s = service_info(Some("A".to_string()), Some("Alpha".to_string()), SERVICE_RUNNING, 3);
    assert_eq!(s.name, "A");
    assert_eq!(s.display_name.as_deref(), Some("Alpha"));
    assert!(s.state == ServiceState::Running && s.accepts_pause);
    let s = service_info(None, None, 2, 1);
    assert_eq!(s.name, "");
    assert!(s.display_name.is_none());
    assert!(s.state == ServiceState::Other && !s.accepts_pause);
}

#[test]
fn lists_keep_their_length_and_order() {
    let listed = |name: &str, current: u32| ListedService {
        name: Some(name.to_string()),
        display_name: None,
        current,
        controls: 2,
    };
    let services = service_list(vec![
        listed("B", SERVICE_STOPPED),
        listed("A", SERVICE_RUNNING),
        listed("B", SERVICE_PAUSED),
    ]);
    let shown: Vec<(&str, ServiceState)> =
        services.iter().map(|s| (s.name.as_str(), s.state)).collect();
    assert_eq!(
        shown,
        vec![
            ("B", ServiceState::Stopped),
            ("A", ServiceState::Running),
            ("B", ServiceState::Paused)
        ]
    );
    assert!(services.iter().all(|s| s.accepts_pause));
    assert!(service_list(vec![]).is_empty());

    let processes = process_list(&vec![
        ListedProcess { pid: 9, name: vec![98, 0, 99], started: None },
        ListedProcess { pid: 4, name: vec![97, 0], started: Some(3) },
    ]);
    let shown: Vec<(u32, &str, u64)> = processes
        .iter()
        .map(|p| (p.pid, p.name.as_str(), p.start_time))
        .collect();
    assert_eq!(shown, vec![(9, "b", 0), (4, "a", 3)]);
}

#[test]
fn a_service_is_paused_if_it_can_be() {
    assert!(accepts_pause(2) && accepts_pause(7) && !accepts_pause(5) && !accepts_pause(0));
    assert_eq!(pause_or_stop_plan(3), (SERVICE_CONTROL_PAUSE, ServiceAction::Paused));
    assert_eq!(pause_or_stop_plan(1), (SERVICE_CONTROL_STOP, ServiceAction::Stopped));
}

#[test]
fn only_a_running_service_is_brought_back() {
    assert_eq!(
        restore_plan(ServiceState::Running, ServiceAction::Paused),
        RestorePlan::Control(SERVICE_CONTROL_CONTINUE)
    );
    assert_eq!(
        restore_plan(ServiceState::Running, ServiceAction::Stopped),
        RestorePlan::Start
    );
    for state in [ServiceState::Paused, ServiceState::Stopped, ServiceState::Other] {
        assert_eq!(restore_plan(state, ServiceAction::Stopped), RestorePlan::Leave);
    }
}

#[test]
fn creation_times_tell_processes_apart() {
    assert_eq!(filetime_ticks(1, 2), 4_294_967_298);
    assert_eq!(filetime_ticks(u32::MAX, u32::MAX), u64::MAX);
    assert!(same_process(Some(5), 5));
    assert!(!same_process(Some(6), 5));
    assert!(!same_process(None, 0));
}

#[test]
fn names_end_at_the_first_zero() {
    assert_eq!(name_units(&[97, 98, 0, 99, 0]), vec![97, 98]);
    assert!(name_units(&[97, 98]).is_empty());
    assert!(name_units(&[]).is_empty());
    assert_eq!(name_text(&[97, 98, 0, 99, 0]), "ab");
    assert_eq!(name_text(&[97, 98]), "");
    // A pair of surrogates is one character, a lone one is replaced.
    assert_eq!(name_text(&[0xd83d, 0xde00, 0]), "\u{1f600}");
    assert_eq!(name_text(&[0xd83d, 97, 0]), "\u{fffd}a");
    assert_eq!(name_text(&[0xde00, 0xd83d, 0xd83d, 0xde00, 0]), "\u{fffd}\u{fffd}\u{1f600}");
    assert_eq!(name_text(&[0xe000, 0xd7ff, 0xdbff, 0]), "\u{e000}\u{d7ff}\u{fffd}");
}

#[test]
fn a_listed_process_keeps_what_could_be_read() {
    let p = process_info(10, "a.exe".to_string(), Some(9));
    assert_eq!((p.pid, p.name.as_str(), p.start_time), (10, "a.exe", 9));
    assert!(p.image_path.is_none());
    assert_eq!(process_info(10, "a.exe".to_string(), None).start_time, 0);
}

#[test]
fn threads_are_found_by_their_owner() {
    let entries: Vec<ThreadEntry> = [(1, 10), (2, 20), (1, 30)]
        .iter()
        .map(|&(owner_pid, thread_id)| ThreadEntry { owner_pid, thread_id })
        .collect();
    assert_eq!(threads_of(&entries, 1), vec![10, 30]);
    assert_eq!(threads_of(&entries, 3), Vec::<u32>::new());
}

#[test]
fn texts_go_out_in_utf16() {
    for text in ["", "WSearch", "Größe", "a\u{1f600}b", "\u{ffff}\u{10000}\u{10ffff}"] {
        let mut expected: Vec<u16> = text.encode_utf16().collect();
        expected.push(0);
        assert_eq!(to_wide(text), expected);
    }
}
