//! What may be touched.

use system_booster::classify::{
    Classifier, Profile, CRITICAL_PROCESSES, CRITICAL_SERVICES, OPT_IN_PROCESSES,
};
use system_booster::process::ProcessInfo;
use system_booster::scan::eligible_count;
use system_booster::service::{ServiceInfo, ServiceState};

fn process(pid: u32, name: &str) -> ProcessInfo {
    ProcessInfo {
        pid,
        name: name.to_string(),
        image_path: None,
        start_time: 7,
    }
}

fn service(name: &str, state: ServiceState) -> ServiceInfo {
    ServiceInfo {
        name: name.to_string(),
        display_name: None,
        state,
        accepts_pause: true,
    }
}

fn names(list: &[&str]) -> Vec<String> {
    list.iter().map(|s| s.to_string()).collect()
}

#[test]
fn profiles_hold_what_they_say() {
    let gaming = Profile::gaming();
    assert_eq!(gaming.name, "Gaming");
    assert!(gaming.suspend_processes && gaming.suspend_services);
    assert!(gaming.user_includes.is_empty() && gaming.user_excludes.is_empty());
    let work = Profile::work();
    assert_eq!(work.name, "Work");
    assert!(work.suspend_processes && !work.suspend_services);
    let custom = Profile::custom(names(&["Explorer.EXE"]), names(&["ÄRGER.exe"]));
    assert_eq!(custom.name, "Custom");
    assert_eq!(custom.user_includes, names(&["explorer.exe"]));
    assert_eq!(custom.user_excludes, names(&["ärger.exe"]));
    let copy = custom.clone();
    assert_eq!(copy.user_excludes, custom.user_excludes);
}

#[test]
fn critical_processes_are_never_eligible() {
    let c = Classifier::default();
    for name in CRITICAL_PROCESSES {
        let shouted = name.to_uppercase();
        assert!(c.is_critical_process(name) && c.is_critical_process(&shouted));
        let profile = Profile::custom(names(&[name]), vec![]);
        assert!(!c.process_eligible(&process(100, name), &profile));
        assert!(!c.process_eligible(&process(100, &shouted), &profile));
    }
    assert!(!c.is_critical_process("spotify.exe"));
    assert!(c.process_eligible(&process(100, "spotify.exe"), &Profile::gaming()));
}

#[test]
fn critical_services_are_never_eligible() {
    let c = Classifier::default();
    for name in CRITICAL_SERVICES {
        let shouted = name.to_uppercase();
        assert!(c.is_critical_service(name) && c.is_critical_service(&shouted));
        let s = service(&shouted, ServiceState::Running);
        assert!(!c.service_eligible(&s, &Profile::gaming()));
    }
    assert!(!c.is_critical_service("WSearch"));
}

#[test]
fn kernel_pids_are_never_eligible() {
    let c = Classifier::default();
    let profile = Profile::custom(names(&["app.exe"]), vec![]);
    assert!(!c.process_eligible(&process(0, "app.exe"), &profile));
    assert!(!c.process_eligible(&process(4, "app.exe"), &profile));
    assert!(c.process_eligible(&process(5, "app.exe"), &profile));
}

#[test]
fn an_exclusion_beats_an_inclusion() {
    let c = Classifier::default();
    let both = Profile::custom(names(&["explorer.exe"]), names(&["EXPLORER.EXE"]));
    assert!(!c.process_eligible(&process(100, "explorer.exe"), &both));
}

#[test]
fn opt_in_processes_need_an_inclusion() {
    let c = Classifier::default();
    assert_eq!(c.opt_in_processes(), names(&OPT_IN_PROCESSES).as_slice());
    assert!(c.is_opt_in_process("Explorer.exe"));
    assert!(!c.is_opt_in_process("slack.exe"));
    let p = process(100, "Explorer.exe");
    assert!(!c.process_eligible(&p, &Profile::gaming()));
    let custom = Profile::custom(names(&["EXPLORER.exe"]), vec![]);
    assert!(c.process_eligible(&p, &custom));
    for name in OPT_IN_PROCESSES {
        assert!(!c.is_critical_process(name));
    }
}

#[test]
fn profile_switches_hold() {
    let c = Classifier::default();
    let mut off = Profile::gaming();
    off.suspend_processes = false;
    assert!(!c.process_eligible(&process(100, "app.exe"), &off));
    assert!(c.service_eligible(&service("WSearch", ServiceState::Running), &off));
    let work = Profile::work();
    assert!(c.process_eligible(&process(100, "app.exe"), &work));
    assert!(!c.service_eligible(&service("WSearch", ServiceState::Running), &work));
}

#[test]
fn only_running_services_are_eligible() {
    let c = Classifier::default();
    let gaming = Profile::gaming();
    assert!(c.service_eligible(&service("WSearch", ServiceState::Running), &gaming));
    for state in [ServiceState::Paused, ServiceState::Stopped, ServiceState::Other] {
        assert!(!c.service_eligible(&service("WSearch", state), &gaming));
    }
}

#[test]
fn extra_entries_are_critical_too() {
    let c = Classifier::with_extra(names(&["Öffner.EXE"]), names(&["MySvc"]));
    assert!(c.is_critical_process("öFFNER.exe"));
    assert!(c.is_critical_process("lsass.exe"));
    assert!(c.is_critical_service("mysvc"));
    assert!(!c.process_eligible(&process(100, "ÖFFNER.EXE"), &Profile::gaming()));
    assert!(!c.service_eligible(&service("MYSVC", ServiceState::Running), &Profile::gaming()));
    assert!(!Classifier::default().is_critical_process("öffner.exe"));
    let copy = c.clone();
    assert!(copy.is_critical_service("MySvc"));
}

#[test]
fn eligibility_can_be_asked_of_lowered_names() {
    let c = Classifier::default();
    let gaming = Profile::gaming();
    let lsass = "lsass.exe".to_string();
    let slack = "slack.exe".to_string();
    assert!(!c.process_eligible_folded(800, &lsass, &lsass, &gaming));
    assert!(c.process_eligible_folded(1600, &slack, &slack, &gaming));
    let rpcss = "rpcss".to_string();
    assert!(!c.service_eligible_folded(&rpcss, ServiceState::Running, &gaming));
}

#[test]
fn candidates_carry_decimal_pids() {
    let c = Classifier::default();
    let shown = c.present_processes(
        &vec![process(0, "Idle"), process(10, "a.exe"), process(u32::MAX, "b.exe")],
        &Profile::gaming(),
    );
    assert_eq!(shown[0].key, "0");
    assert_eq!(shown[1].key, "10");
    assert_eq!(shown[2].key, "4294967295");
    assert_eq!(eligible_count(&shown), 2);
}

#[test]
fn a_service_without_a_display_name_shows_its_own() {
    let c = Classifier::default();
    let mut search = service("WSearch", ServiceState::Running);
    search.display_name = Some("Windows Search".to_string());
    let shown = c.present_services(
        &vec![service("Spooler", ServiceState::Running), search],
        &Profile::gaming(),
    );
    assert_eq!((shown[0].key.as_str(), shown[0].name.as_str()), ("Spooler", "Spooler"));
    assert_eq!((shown[1].key.as_str(), shown[1].name.as_str()), ("WSearch", "Windows Search"));
}
