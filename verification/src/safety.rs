//! What the classification guarantees.

use vstd::prelude::*;
use vstd::utf8::is_ascii_chars;

use crate::classify::{
    custom_profile, gaming_profile, literals, process_allowed, service_allowed, work_profile,
    Classifier, ProfileModel, CRITICAL_PROCESSES, CRITICAL_SERVICES, OPT_IN_PROCESSES,
};
use crate::model::{eligible_processes, eligible_services};
use crate::process::ProcessInfo;
use crate::recovery::lemma_kept;
use crate::scan::{
    process_candidate, process_candidates, service_candidate, service_candidates, CandidateModel,
};
use crate::service::{ServiceInfo, ServiceState};
use crate::text::{ascii_lower, lowercase};

verus! {

/// No profile, whatever it opts in, makes a critical process eligible.
pub proof fn law_critical_process_is_never_eligible(
    c: Classifier,
    p: ProcessInfo,
    profile: ProfileModel,
)
    requires
        c.critical_process_names().contains(lowercase(p.name@)),
    ensures
        !c.allows_process(p, profile),
{
}

/// No profile makes a critical service eligible.
pub proof fn law_critical_service_is_never_eligible(
    c: Classifier,
    s: ServiceInfo,
    profile: ProfileModel,
)
    requires
        c.critical_service_names().contains(lowercase(s.name@)),
    ensures
        !c.allows_service(s, profile),
{
}

/// The kernel's own pids are never eligible, whatever the name.
pub proof fn law_kernel_pids_are_never_eligible(
    c: Classifier,
    p: ProcessInfo,
    profile: ProfileModel,
)
    requires
        p.pid == 0 || p.pid == 4,
    ensures
        !c.allows_process(p, profile),
{
}

/// What a profile excludes is not eligible, even if the profile opts it in too.
pub proof fn law_exclusion_wins(c: Classifier, p: ProcessInfo, profile: ProfileModel)
    requires
        profile.excludes.contains(lowercase(p.name@)),
    ensures
        !c.allows_process(p, profile),
{
}

/// A process that is skipped by default is eligible only if the profile opts it
/// in by name.
pub proof fn law_opt_in_needs_inclusion(c: Classifier, p: ProcessInfo, profile: ProfileModel)
    requires
        c.opt_in_names().contains(lowercase(p.name@)),
        c.allows_process(p, profile),
    ensures
        profile.includes.contains(lowercase(p.name@)),
{
}

/// Inclusions matter only for a process that is skipped by default: two profiles
/// that differ at most in their names and inclusions treat any other alike.
pub proof fn law_inclusion_only_lifts_the_default(
    c: Classifier,
    p: ProcessInfo,
    profile: ProfileModel,
    other: ProfileModel,
)
    requires
        !c.opt_in_names().contains(lowercase(p.name@)),
        other == (ProfileModel { name: other.name, includes: other.includes, ..profile }),
    ensures
        c.allows_process(p, other) == c.allows_process(p, profile),
{
}

/// Names are matched without regard to case: two processes with the same pid
/// whose names differ only in case are treated alike.
pub proof fn law_process_names_ignore_case(
    c: Classifier,
    p: ProcessInfo,
    q: ProcessInfo,
    profile: ProfileModel,
)
    requires
        p.pid == q.pid,
        lowercase(p.name@) == lowercase(q.name@),
    ensures
        c.allows_process(p, profile) == c.allows_process(q, profile),
{
}

/// Names are matched without regard to case: two services in the same state whose
/// names differ only in case are treated alike.
pub proof fn law_service_names_ignore_case(
    c: Classifier,
    s: ServiceInfo,
    t: ServiceInfo,
    profile: ProfileModel,
)
    requires
        s.state == t.state,
        lowercase(s.name@) == lowercase(t.name@),
    ensures
        c.allows_service(s, profile) == c.allows_service(t, profile),
{
}

/// Adding entries to the critical lists only takes eligibility away.
pub proof fn law_extra_entries_only_restrict(
    critical: Seq<Seq<char>>,
    extra: Seq<Seq<char>>,
    opt_in: Seq<Seq<char>>,
    pid: u32,
    folded: Seq<char>,
    refolded: Seq<char>,
    state: ServiceState,
    profile: ProfileModel,
)
    ensures
        process_allowed(critical + extra, opt_in, pid, folded, refolded, profile)
            ==> process_allowed(critical, opt_in, pid, folded, refolded, profile),
        service_allowed(critical + extra, folded, state, profile) ==> service_allowed(
            critical,
            folded,
            state,
            profile,
        ),
        extra.contains(folded) || extra.contains(refolded) ==> !process_allowed(
            critical + extra,
            opt_in,
            pid,
            folded,
            refolded,
            profile,
        ),
        extra.contains(folded) ==> !service_allowed(critical + extra, folded, state, profile),
{
    let all = critical + extra;
    assert forall|name: Seq<char>| #[trigger]
        critical.contains(name) || extra.contains(name) implies all.contains(name) by {
        if critical.contains(name) {
            let i = choose|i: int| 0 <= i < critical.len() && critical[i] == name;
            assert(all[i] == name);
        } else {
            let i = choose|i: int| 0 <= i < extra.len() && extra[i] == name;
            assert(all[critical.len() + i] == name);
        }
    }
    assert(critical.contains(refolded) ==> all.contains(refolded));
    assert(critical.contains(folded) ==> all.contains(folded));
    assert(extra.contains(refolded) ==> all.contains(refolded));
    assert(extra.contains(folded) ==> all.contains(folded));
}

/// A profile that does not suspend services touches none, and one that does not
/// suspend processes touches none.
pub proof fn law_profile_switches_hold(
    c: Classifier,
    procs: Seq<ProcessInfo>,
    services: Seq<ServiceInfo>,
    profile: ProfileModel,
)
    ensures
        !profile.suspend_processes ==> eligible_processes(c, procs, profile).len() == 0,
        !profile.suspend_services ==> eligible_services(c, services, profile).len() == 0,
{
    let f = |p: ProcessInfo| c.allows_process(p, profile);
    let g = |s: ServiceInfo| c.allows_service(s, profile);
    lemma_kept(procs, f);
    lemma_kept(services, g);
    if !profile.suspend_processes && procs.filter(f).len() > 0 {
        assert(f(procs.filter(f)[0]));
    }
    if !profile.suspend_services && services.filter(g).len() > 0 {
        assert(g(services.filter(g)[0]));
    }
}

/// The candidates that are marked, out of a list, are those of the items that pass.
proof fn lemma_marked<A>(
    items: Seq<A>,
    f: spec_fn(A) -> bool,
    g: spec_fn(A) -> CandidateModel,
)
    requires
        forall|x: A| (#[trigger] g(x)).eligible == f(x),
    ensures
        items.map_values(g).filter(|m: CandidateModel| m.eligible) == items.filter(f).map_values(g),
    decreases items.len(),
{
    reveal(Seq::filter);
    let h = |m: CandidateModel| m.eligible;
    if items.len() == 0 {
        assert(items.map_values(g).filter(h) =~= items.filter(f).map_values(g));
    } else {
        let rest = items.drop_last();
        lemma_marked(rest, f, g);
        assert(items.map_values(g).drop_last() =~= rest.map_values(g));
        assert(items.map_values(g).last() == g(items.last()));
        assert(items.map_values(g).filter(h) =~= items.filter(f).map_values(g));
    }
}

/// What a scan marks as eligible is what a boost of the same list touches: the
/// marked entries are those of the items that the boost takes, each once and in
/// the same order, and an item is marked exactly if the boost takes it.
pub proof fn law_scan_predicts_boost(
    c: Classifier,
    procs: Seq<ProcessInfo>,
    services: Seq<ServiceInfo>,
    profile: ProfileModel,
    i: int,
)
    ensures
        process_candidates(c, procs, profile).filter(|m: CandidateModel| m.eligible)
            == process_candidates(c, eligible_processes(c, procs, profile), profile),
        service_candidates(c, services, profile).filter(|m: CandidateModel| m.eligible)
            == service_candidates(c, eligible_services(c, services, profile), profile),
        0 <= i < procs.len() ==> (process_candidates(c, procs, profile)[i].eligible
            <==> eligible_processes(c, procs, profile).contains(procs[i])),
        0 <= i < services.len() ==> (service_candidates(c, services, profile)[i].eligible
            <==> eligible_services(c, services, profile).contains(services[i])),
{
    broadcast use vstd::seq_lib::group_filter_ensures;

    let f = |p: ProcessInfo| c.allows_process(p, profile);
    let g = |s: ServiceInfo| c.allows_service(s, profile);
    lemma_marked(procs, f, |p: ProcessInfo| process_candidate(c, p, profile));
    lemma_marked(services, g, |s: ServiceInfo| service_candidate(c, s, profile));
    lemma_kept(procs, f);
    lemma_kept(services, g);
    if 0 <= i < procs.len() {
        if f(procs[i]) {
            assert(procs.filter(f).contains(procs[i]));
        }
    }
    if 0 <= i < services.len() {
        if g(services[i]) {
            assert(services.filter(g).contains(services[i]));
        }
    }
}

/// A scan presents critical items as locked under every profile.
pub proof fn law_scan_locks_critical_items(
    c: Classifier,
    procs: Seq<ProcessInfo>,
    services: Seq<ServiceInfo>,
    profile: ProfileModel,
    i: int,
)
    ensures
        0 <= i < procs.len() && c.critical_process_names().contains(lowercase(procs[i].name@))
            ==> !process_candidates(c, procs, profile)[i].eligible,
        0 <= i < services.len() && c.critical_service_names().contains(lowercase(services[i].name@))
            ==> !service_candidates(c, services, profile)[i].eligible,
{
}

/// Whether every name of a list is ASCII without capital letters.
pub open spec fn lower_cased(list: Seq<Seq<char>>) -> bool {
    forall|i: int|
        0 <= i < list.len() ==> is_ascii_chars(#[trigger] list[i]) && ascii_lower(list[i])
            == list[i]
}

/// Whether a text is ASCII without capital letters.
spec fn lower_text(s: Seq<char>) -> bool {
    forall|i: int| 0 <= i < s.len() ==> '\0' <= #[trigger] s[i] <= '\u{7f}' && !('A' <= s[i] <= 'Z')
}

proof fn lemma_lower_text(s: Seq<char>)
    requires
        lower_text(s),
    ensures
        is_ascii_chars(s),
        ascii_lower(s) == s,
{
    assert(ascii_lower(s) =~= s);
}

/// The critical process names are in small ASCII letters, and none of them is the
/// name that has to be opted in.
proof fn lemma_critical_processes()
    ensures
        forall|i: int|
            0 <= i < CRITICAL_PROCESSES@.len() ==> lower_text(
                #[trigger] literals(CRITICAL_PROCESSES@)[i],
            ) && literals(CRITICAL_PROCESSES@)[i] != "explorer.exe"@,
{
    reveal_strlit("explorer.exe");
    reveal_strlit("system");
    reveal_strlit("system idle process");
    reveal_strlit("registry");
    reveal_strlit("smss.exe");
    reveal_strlit("csrss.exe");
    reveal_strlit("wininit.exe");
    reveal_strlit("winlogon.exe");
    reveal_strlit("services.exe");
    reveal_strlit("lsass.exe");
    reveal_strlit("svchost.exe");
    reveal_strlit("dwm.exe");
    reveal_strlit("fontdrvhost.exe");
    reveal_strlit("wudfhost.exe");
    reveal_strlit("msmpeng.exe");
    reveal_strlit("booster-service.exe");
    reveal_strlit("booster-app.exe");
    let list = literals(CRITICAL_PROCESSES@);
    let name = "explorer.exe"@;
    assert(lower_text(list[0]));
    assert(lower_text(list[1]));
    assert(lower_text(list[2]));
    assert(lower_text(list[3]));
    assert(lower_text(list[4]));
    assert(lower_text(list[5]));
    assert(lower_text(list[6]));
    assert(lower_text(list[7]));
    assert(lower_text(list[8]));
    assert(lower_text(list[9]));
    assert(lower_text(list[10]));
    assert(lower_text(list[11]));
    assert(lower_text(list[12]));
    assert(lower_text(list[13]));
    assert(lower_text(list[14]));
    assert(lower_text(list[15]));
    assert(list[0].len() != name.len());
    assert(list[1].len() != name.len());
    assert(list[2].len() != name.len());
    assert(list[3].len() != name.len());
    assert(list[4].len() != name.len());
    assert(list[5].len() != name.len());
    assert(list[6][0] != name[0]);
    assert(list[7][0] != name[0]);
    assert(list[8].len() != name.len());
    assert(list[9].len() != name.len());
    assert(list[10].len() != name.len());
    assert(list[11].len() != name.len());
    assert(list[12][0] != name[0]);
    assert(list[13].len() != name.len());
    assert(list[14].len() != name.len());
    assert(list[15].len() != name.len());
}

proof fn lemma_critical_processes_lower_cased()
    ensures
        lower_cased(literals(CRITICAL_PROCESSES@)),
{
    let list = literals(CRITICAL_PROCESSES@);
    lemma_critical_processes();
    assert forall|i: int| 0 <= i < list.len() implies is_ascii_chars(#[trigger] list[i])
        && ascii_lower(list[i]) == list[i] by {
        lemma_lower_text(list[i]);
    }
}

proof fn lemma_critical_services_lower_cased()
    ensures
        lower_cased(literals(CRITICAL_SERVICES@)),
{
    reveal_strlit("rpcss");
    reveal_strlit("dcomlaunch");
    reveal_strlit("rpceptmapper");
    reveal_strlit("power");
    reveal_strlit("lsm");
    reveal_strlit("schedule");
    reveal_strlit("dnscache");
    reveal_strlit("nsi");
    reveal_strlit("brokerinfrastructure");
    reveal_strlit("systemeventsbroker");
    reveal_strlit("bfe");
    reveal_strlit("mpssvc");
    reveal_strlit("windefend");
    reveal_strlit("wscsvc");
    reveal_strlit("eventlog");
    reveal_strlit("plugplay");
    reveal_strlit("profsvc");
    reveal_strlit("gpsvc");
    reveal_strlit("systembooster");
    let list = literals(CRITICAL_SERVICES@);
    assert(lower_text(list[0]));
    assert(lower_text(list[1]));
    assert(lower_text(list[2]));
    assert(lower_text(list[3]));
    assert(lower_text(list[4]));
    assert(lower_text(list[5]));
    assert(lower_text(list[6]));
    assert(lower_text(list[7]));
    assert(lower_text(list[8]));
    assert(lower_text(list[9]));
    assert(lower_text(list[10]));
    assert(lower_text(list[11]));
    assert(lower_text(list[12]));
    assert(lower_text(list[13]));
    assert(lower_text(list[14]));
    assert(lower_text(list[15]));
    assert(lower_text(list[16]));
    assert(lower_text(list[17]));
    assert(lower_text(list[18]));
    assert forall|i: int| 0 <= i < list.len() implies is_ascii_chars(#[trigger] list[i]) && ascii_lower(
        list[i],
    ) == list[i] by {
        lemma_lower_text(list[i]);
    }
}

proof fn lemma_opt_in_processes_lower_cased()
    ensures
        lower_cased(literals(OPT_IN_PROCESSES@)),
{
    reveal_strlit("explorer.exe");
    let list = literals(OPT_IN_PROCESSES@);
    assert(lower_text(list[0]));
    assert forall|i: int| 0 <= i < list.len() implies is_ascii_chars(#[trigger] list[i]) && ascii_lower(
        list[i],
    ) == list[i] by {
        lemma_lower_text(list[i]);
    }
}

/// The built-in lists are lower-cased.
pub proof fn law_lists_are_lower_cased()
    ensures
        lower_cased(literals(CRITICAL_PROCESSES@)),
        lower_cased(literals(CRITICAL_SERVICES@)),
        lower_cased(literals(OPT_IN_PROCESSES@)),
{
    lemma_critical_processes_lower_cased();
    lemma_critical_services_lower_cased();
    lemma_opt_in_processes_lower_cased();
}

/// No critical process can be opted in.
pub proof fn law_opt_in_processes_are_not_critical(name: Seq<char>)
    requires
        literals(OPT_IN_PROCESSES@).contains(name),
    ensures
        !literals(CRITICAL_PROCESSES@).contains(name),
{
    lemma_critical_processes();
    assert(literals(OPT_IN_PROCESSES@)[0] == "explorer.exe"@);
    assert(name == "explorer.exe"@);
}

/// Whether `p` is protected from every profile: it is critical, or the kernel's.
pub open spec fn untouchable(c: Classifier, p: ProcessInfo) -> bool {
    ||| c.critical_process_names().contains(lowercase(p.name@))
    ||| c.critical_process_names().contains(lowercase(lowercase(p.name@)))
    ||| p.pid == 0
    ||| p.pid == 4
}

/// Only what a profile suspends is eligible, nothing that is protected or excluded,
/// and nothing that is skipped by default unless it is opted in.
pub proof fn law_eligible_process_is_unprotected(
    c: Classifier,
    p: ProcessInfo,
    profile: ProfileModel,
)
    requires
        c.allows_process(p, profile),
    ensures
        profile.suspend_processes,
        !untouchable(c, p),
        !profile.excludes.contains(lowercase(p.name@)),
        c.opt_in_names().contains(lowercase(p.name@)) ==> profile.includes.contains(
            lowercase(p.name@),
        ),
{
}

/// Nothing else is spared: under a profile that suspends processes every process is
/// eligible that is not protected, not excluded and, if it is skipped by default,
/// opted in.
pub proof fn law_any_other_process_is_eligible(
    c: Classifier,
    p: ProcessInfo,
    profile: ProfileModel,
)
    requires
        profile.suspend_processes,
        !untouchable(c, p),
        !profile.excludes.contains(lowercase(p.name@)),
        !c.opt_in_names().contains(lowercase(p.name@)) || profile.includes.contains(
            lowercase(p.name@),
        ),
    ensures
        c.allows_process(p, profile),
{
}

/// Only a service that runs is ever paused or stopped, only under a profile that
/// suspends services, and never a critical one.
pub proof fn law_eligible_service_runs(c: Classifier, s: ServiceInfo, profile: ProfileModel)
    requires
        c.allows_service(s, profile),
    ensures
        s.state == ServiceState::Running,
        profile.suspend_services,
        !c.critical_service_names().contains(lowercase(s.name@)),
{
}

/// Every service that runs and is not critical may be paused or stopped under a
/// profile that suspends services, whatever else the profile holds.
pub proof fn law_any_other_service_is_eligible(
    c: Classifier,
    s: ServiceInfo,
    profile: ProfileModel,
)
    requires
        s.state == ServiceState::Running,
        profile.suspend_services,
        !c.critical_service_names().contains(lowercase(s.name@)),
    ensures
        c.allows_service(s, profile),
{
}

/// What a profile lists by name concerns processes alone: two profiles that agree on
/// whether services are suspended treat every service alike.
pub proof fn law_lists_do_not_concern_services(
    c: Classifier,
    s: ServiceInfo,
    profile: ProfileModel,
    other: ProfileModel,
)
    requires
        profile.suspend_services == other.suspend_services,
    ensures
        c.allows_service(s, profile) == c.allows_service(s, other),
{
}

/// The gaming and the work profile list nothing: under them exactly those processes
/// are eligible that are neither protected nor skipped by default. The gaming profile
/// takes every service that runs and is not critical, the work profile none.
pub proof fn law_ready_made_profiles_list_nothing(c: Classifier, p: ProcessInfo, s: ServiceInfo)
    ensures
        c.allows_process(p, gaming_profile()) <==> !untouchable(c, p)
            && !c.opt_in_names().contains(lowercase(p.name@)),
        c.allows_process(p, work_profile()) <==> !untouchable(c, p)
            && !c.opt_in_names().contains(lowercase(p.name@)),
        c.allows_service(s, gaming_profile()) <==> s.state == ServiceState::Running
            && !c.critical_service_names().contains(lowercase(s.name@)),
        !c.allows_service(s, work_profile()),
{
}

/// Whether `list` holds a name that is `name` but for case.
pub open spec fn names_alike(list: Seq<Seq<char>>, name: Seq<char>) -> bool {
    exists|i: int| 0 <= i < list.len() && lowercase(#[trigger] list[i]) == lowercase(name)
}

/// A custom profile goes by the names that it was given, in any case: it spares what
/// is excluded, takes of what is skipped by default just what is included, and takes
/// everything else that is not protected; and it takes services as the gaming profile
/// does.
pub proof fn law_custom_profile_goes_by_its_names(
    c: Classifier,
    includes: Seq<Seq<char>>,
    excludes: Seq<Seq<char>>,
    p: ProcessInfo,
    s: ServiceInfo,
)
    ensures
        c.allows_process(p, custom_profile(includes, excludes)) <==> {
            &&& !untouchable(c, p)
            &&& !names_alike(excludes, p.name@)
            &&& c.opt_in_names().contains(lowercase(p.name@)) ==> names_alike(includes, p.name@)
        },
        c.allows_service(s, custom_profile(includes, excludes)) <==> c.allows_service(
            s,
            gaming_profile(),
        ),
{
    lemma_names_alike(includes, p.name@);
    lemma_names_alike(excludes, p.name@);
}

proof fn lemma_names_alike(list: Seq<Seq<char>>, name: Seq<char>)
    ensures
        names_alike(list, name) <==> list.map_values(|x: Seq<char>| lowercase(x)).contains(
            lowercase(name),
        ),
{
    let lowered = list.map_values(|x: Seq<char>| lowercase(x));
    if names_alike(list, name) {
        let i = choose|i: int|
            0 <= i < list.len() && lowercase(#[trigger] list[i]) == lowercase(name);
        assert(lowered[i] == lowercase(name));
    }
    if lowered.contains(lowercase(name)) {
        let i = choose|i: int| 0 <= i < lowered.len() && lowered[i] == lowercase(name);
        assert(lowercase(list[i]) == lowercase(name));
    }
}

/// What the system cannot do without is on the critical lists, and the shell has to be
/// opted in.
pub proof fn law_core_items_are_protected()
    ensures
        ({
            let list = literals(CRITICAL_PROCESSES@);
            &&& list.len() == 16
            &&& list.contains("system"@) && list.contains("system idle process"@)
            &&& list.contains("registry"@) && list.contains("smss.exe"@)
            &&& list.contains("csrss.exe"@) && list.contains("wininit.exe"@)
            &&& list.contains("winlogon.exe"@) && list.contains("services.exe"@)
            &&& list.contains("lsass.exe"@) && list.contains("svchost.exe"@)
            &&& list.contains("dwm.exe"@) && list.contains("fontdrvhost.exe"@)
            &&& list.contains("wudfhost.exe"@) && list.contains("msmpeng.exe"@)
            &&& list.contains("booster-service.exe"@) && list.contains("booster-app.exe"@)
        }),
        ({
            let list = literals(CRITICAL_SERVICES@);
            &&& list.len() == 19
            &&& list.contains("rpcss"@) && list.contains("dcomlaunch"@)
            &&& list.contains("rpceptmapper"@) && list.contains("power"@)
            &&& list.contains("lsm"@) && list.contains("schedule"@)
            &&& list.contains("dnscache"@) && list.contains("nsi"@)
            &&& list.contains("brokerinfrastructure"@) && list.contains("systemeventsbroker"@)
            &&& list.contains("bfe"@) && list.contains("mpssvc"@)
            &&& list.contains("windefend"@) && list.contains("wscsvc"@)
            &&& list.contains("eventlog"@) && list.contains("plugplay"@)
            &&& list.contains("profsvc"@) && list.contains("gpsvc"@)
            &&& list.contains("systembooster"@)
        }),
        literals(OPT_IN_PROCESSES@) == seq!["explorer.exe"@],
{
    let p = literals(CRITICAL_PROCESSES@);
    assert(p[0] == "system"@);
    assert(p[1] == "system idle process"@);
    assert(p[2] == "registry"@);
    assert(p[3] == "smss.exe"@);
    assert(p[4] == "csrss.exe"@);
    assert(p[5] == "wininit.exe"@);
    assert(p[6] == "winlogon.exe"@);
    assert(p[7] == "services.exe"@);
    assert(p[8] == "lsass.exe"@);
    assert(p[9] == "svchost.exe"@);
    assert(p[10] == "dwm.exe"@);
    assert(p[11] == "fontdrvhost.exe"@);
    assert(p[12] == "wudfhost.exe"@);
    assert(p[13] == "msmpeng.exe"@);
    assert(p[14] == "booster-service.exe"@);
    assert(p[15] == "booster-app.exe"@);
    let s = literals(CRITICAL_SERVICES@);
    assert(s[0] == "rpcss"@);
    assert(s[1] == "dcomlaunch"@);
    assert(s[2] == "rpceptmapper"@);
    assert(s[3] == "power"@);
    assert(s[4] == "lsm"@);
    assert(s[5] == "schedule"@);
    assert(s[6] == "dnscache"@);
    assert(s[7] == "nsi"@);
    assert(s[8] == "brokerinfrastructure"@);
    assert(s[9] == "systemeventsbroker"@);
    assert(s[10] == "bfe"@);
    assert(s[11] == "mpssvc"@);
    assert(s[12] == "windefend"@);
    assert(s[13] == "wscsvc"@);
    assert(s[14] == "eventlog"@);
    assert(s[15] == "plugplay"@);
    assert(s[16] == "profsvc"@);
    assert(s[17] == "gpsvc"@);
    assert(s[18] == "systembooster"@);
}

} // verus!
