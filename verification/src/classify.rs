//! Safety classification. Anything that could destabilise the system is denied:
//! a process or service is eligible only if it is not on a hard list and the
//! profile is willing to touch it.

use vstd::prelude::*;
use vstd::utf8::is_ascii_chars;

use crate::process::ProcessInfo;
use crate::service::{ServiceInfo, ServiceState};
use crate::text::{ascii_lower, holds, lemma_ascii_lower, lower_all, lowercase, texts, to_lowercase};

verus! {

/// Processes that are never suspended, under any profile. Lower-cased.
pub const CRITICAL_PROCESSES: [&'static str; 16] = [
    "system",
    "system idle process",
    "registry",
    "smss.exe",
    "csrss.exe",
    "wininit.exe",
    "winlogon.exe",
    "services.exe",
    "lsass.exe",
    "svchost.exe",
    "dwm.exe",
    "fontdrvhost.exe",
    "wudfhost.exe",
    "msmpeng.exe",  // Defender
    // SystemBooster's own components:
    "booster-service.exe",
    "booster-app.exe",
];

/// Processes that are skipped unless a custom profile opts them in by name.
/// Suspending one is unfriendly, not dangerous, so a user who knows what they
/// want may include it. Lower-cased. Never put a critical process here.
pub const OPT_IN_PROCESSES: [&'static str; 1] = [
    "explorer.exe",  // the shell; suspending it hides the taskbar and desktop
];

/// Services that are never paused or stopped. Lower-cased service (key) names.
pub const CRITICAL_SERVICES: [&'static str; 19] = [
    "rpcss",
    "dcomlaunch",
    "rpceptmapper",
    "power",
    "lsm",
    "schedule",
    "dnscache",
    "nsi",
    "brokerinfrastructure",
    "systemeventsbroker",
    "bfe",
    "mpssvc",  // firewall
    "windefend",
    "wscsvc",
    "eventlog",
    "plugplay",
    "profsvc",
    "gpsvc",
    // SystemBooster's own service:
    "systembooster",
];

/// The texts of a list of literals.
pub open spec fn literals(list: Seq<&'static str>) -> Seq<Seq<char>> {
    list.map_values(|s: &'static str| s@)
}

/// A list of names as owned strings.
fn owned(list: &[&'static str]) -> (copies: Vec<String>)
    ensures
        texts(copies@) == literals(list@),
{
    let mut copies: Vec<String> = Vec::new();
    let mut i: usize = 0;
    while i < list.len()
        invariant
            i <= list@.len(),
            copies@.len() == i,
            forall|j: int| 0 <= j < i ==> #[trigger] copies@[j]@ == list@[j]@,
        decreases list@.len() - i,
    {
        copies.push(list[i].to_owned());
        i += 1;
    }
    copies
}

/// A named set of rules for what may be suspended.
#[derive(Debug)]
pub struct Profile {
    pub name: String,
    /// Suspend eligible user-space processes.
    pub suspend_processes: bool,
    /// Pause or stop eligible services.
    pub suspend_services: bool,
    /// Process names, lower-cased, that are never to be touched.
    pub user_excludes: Vec<String>,
    /// Process names, lower-cased, that are opted in though they are skipped by
    /// default. A critical process cannot be.
    pub user_includes: Vec<String>,
}

/// What a [`Profile`] holds.
#[verifier::ext_equal]
pub struct ProfileModel {
    pub name: Seq<char>,
    pub suspend_processes: bool,
    pub suspend_services: bool,
    pub excludes: Seq<Seq<char>>,
    pub includes: Seq<Seq<char>>,
}

impl View for Profile {
    type V = ProfileModel;

    open spec fn view(&self) -> ProfileModel {
        ProfileModel {
            name: self.name@,
            suspend_processes: self.suspend_processes,
            suspend_services: self.suspend_services,
            excludes: texts(self.user_excludes@),
            includes: texts(self.user_includes@),
        }
    }
}

impl Clone for Profile {
    fn clone(&self) -> (copy: Self)
        ensures
            copy@ == self@,
    {
        let user_excludes = self.user_excludes.clone();
        let user_includes = self.user_includes.clone();
        assert(user_excludes@ =~= self.user_excludes@);
        assert(user_includes@ =~= self.user_includes@);
        Profile {
            name: self.name.clone(),
            suspend_processes: self.suspend_processes,
            suspend_services: self.suspend_services,
            user_excludes,
            user_includes,
        }
    }
}

/// The gaming profile: both processes and services, nothing listed.
pub open spec fn gaming_profile() -> ProfileModel {
    ProfileModel {
        name: "Gaming"@,
        suspend_processes: true,
        suspend_services: true,
        excludes: Seq::empty(),
        includes: Seq::empty(),
    }
}

/// The work profile: processes only, nothing listed.
pub open spec fn work_profile() -> ProfileModel {
    ProfileModel {
        name: "Work"@,
        suspend_processes: true,
        suspend_services: false,
        excludes: Seq::empty(),
        includes: Seq::empty(),
    }
}

/// A user-tailored profile: both processes and services, with what is opted in and
/// out by name.
pub open spec fn custom_profile(
    includes: Seq<Seq<char>>,
    excludes: Seq<Seq<char>>,
) -> ProfileModel {
    ProfileModel {
        name: "Custom"@,
        suspend_processes: true,
        suspend_services: true,
        excludes: excludes.map_values(|s: Seq<char>| lowercase(s)),
        includes: includes.map_values(|s: Seq<char>| lowercase(s)),
    }
}

impl Profile {
    /// Suspends both processes and services.
    pub fn gaming() -> (profile: Self)
        ensures
            profile@ == gaming_profile(),
            profile.name@ == "Gaming"@,
            profile.suspend_processes && profile.suspend_services,
            profile.user_excludes@.len() == 0,
            profile.user_includes@.len() == 0,
    {
        Profile {
            name: "Gaming".to_owned(),
            suspend_processes: true,
            suspend_services: true,
            user_excludes: Vec::new(),
            user_includes: Vec::new(),
        }
    }

    /// Suspends processes and leaves services alone.
    pub fn work() -> (profile: Self)
        ensures
            profile@ == work_profile(),
            profile.name@ == "Work"@,
            profile.suspend_processes && !profile.suspend_services,
            profile.user_excludes@.len() == 0,
            profile.user_includes@.len() == 0,
    {
        Profile {
            name: "Work".to_owned(),
            suspend_processes: true,
            suspend_services: false,
            user_excludes: Vec::new(),
            user_includes: Vec::new(),
        }
    }

    /// A user-tailored profile. `includes` opts in processes that are skipped by
    /// default (see [`OPT_IN_PROCESSES`]); `excludes` opts out anything else.
    /// Both are matched without regard to case, so they are stored lower-cased.
    pub fn custom(includes: Vec<String>, excludes: Vec<String>) -> (profile: Self)
        ensures
            profile@ == (ProfileModel {
                name: "Custom"@,
                suspend_processes: true,
                suspend_services: true,
                excludes: texts(excludes@).map_values(|s: Seq<char>| lowercase(s)),
                includes: texts(includes@).map_values(|s: Seq<char>| lowercase(s)),
            }),
            profile@ == custom_profile(texts(includes@), texts(excludes@)),
            forall|i: int|
                0 <= i < excludes@.len() && is_ascii_chars(excludes@[i]@)
                    ==> #[trigger] profile.user_excludes@[i]@ == ascii_lower(excludes@[i]@),
            forall|i: int|
                0 <= i < includes@.len() && is_ascii_chars(includes@[i]@)
                    ==> #[trigger] profile.user_includes@[i]@ == ascii_lower(includes@[i]@),
    {
        Profile {
            name: "Custom".to_owned(),
            suspend_processes: true,
            suspend_services: true,
            user_excludes: lower_all(excludes),
            user_includes: lower_all(includes),
        }
    }
}

/// The hard lists, and the decisions that they lead to. Entries can be added to
/// the built-in ones, none can be taken out.
#[derive(Clone)]
pub struct Classifier {
    critical_processes: Vec<String>,
    critical_services: Vec<String>,
    opt_in_processes: Vec<String>,
}

/// Whether a profile lets a process be suspended, given the lists of critical
/// and of opt-in names. `folded` is the process's name lower-cased and `refolded`
/// is `folded` lower-cased. The critical names are searched, to be safe, for both.
pub open spec fn process_allowed(
    critical: Seq<Seq<char>>,
    opt_in: Seq<Seq<char>>,
    pid: u32,
    folded: Seq<char>,
    refolded: Seq<char>,
    profile: ProfileModel,
) -> bool {
    &&& profile.suspend_processes
    &&& !critical.contains(folded) && !critical.contains(refolded)
    // Pids 0 and 4 are the kernel's, whatever the name.
    &&& pid != 0 && pid != 4
    &&& !profile.excludes.contains(folded)
    &&& opt_in.contains(folded) ==> profile.includes.contains(folded)
}

/// Whether a profile lets a service be paused or stopped, given the list of
/// critical names and the service's name lower-cased.
pub open spec fn service_allowed(
    critical: Seq<Seq<char>>,
    folded: Seq<char>,
    state: ServiceState,
    profile: ProfileModel,
) -> bool {
    &&& profile.suspend_services
    &&& !critical.contains(folded)
    &&& state == ServiceState::Running
}

impl Default for Classifier {
    /// The built-in lists.
    fn default() -> (c: Self)
        ensures
            c.critical_process_names() == literals(CRITICAL_PROCESSES@),
            c.critical_service_names() == literals(CRITICAL_SERVICES@),
            c.opt_in_names() == literals(OPT_IN_PROCESSES@),
    {
        Classifier {
            critical_processes: owned(CRITICAL_PROCESSES.as_slice()),
            critical_services: owned(CRITICAL_SERVICES.as_slice()),
            opt_in_processes: owned(OPT_IN_PROCESSES.as_slice()),
        }
    }
}

impl Classifier {
    /// The names of the processes that are never suspended.
    pub closed spec fn critical_process_names(&self) -> Seq<Seq<char>> {
        texts(self.critical_processes@)
    }

    /// The names of the services that are never paused or stopped.
    pub closed spec fn critical_service_names(&self) -> Seq<Seq<char>> {
        texts(self.critical_services@)
    }

    /// The names of the processes that have to be opted in.
    pub closed spec fn opt_in_names(&self) -> Seq<Seq<char>> {
        texts(self.opt_in_processes@)
    }

    /// Whether `p` may be suspended under `profile`.
    pub open spec fn allows_process(&self, p: ProcessInfo, profile: ProfileModel) -> bool {
        process_allowed(
            self.critical_process_names(),
            self.opt_in_names(),
            p.pid,
            lowercase(p.name@),
            lowercase(lowercase(p.name@)),
            profile,
        )
    }

    /// Whether `s` may be paused or stopped under `profile`.
    pub open spec fn allows_service(&self, s: ServiceInfo, profile: ProfileModel) -> bool {
        service_allowed(self.critical_service_names(), lowercase(s.name@), s.state, profile)
    }

    /// The built-in lists, with critical entries added to them.
    pub fn with_extra(extra_processes: Vec<String>, extra_services: Vec<String>) -> (c: Self)
        ensures
            c.critical_process_names() == literals(CRITICAL_PROCESSES@) + texts(
                extra_processes@,
            ).map_values(|s: Seq<char>| lowercase(s)),
            c.critical_service_names() == literals(CRITICAL_SERVICES@) + texts(
                extra_services@,
            ).map_values(|s: Seq<char>| lowercase(s)),
            c.opt_in_names() == literals(OPT_IN_PROCESSES@),
            forall|i: int|
                0 <= i < extra_processes@.len() && is_ascii_chars(extra_processes@[i]@)
                    ==> c.critical_process_names().contains(
                    ascii_lower(#[trigger] extra_processes@[i]@),
                ),
            forall|i: int|
                0 <= i < extra_services@.len() && is_ascii_chars(extra_services@[i]@)
                    ==> c.critical_service_names().contains(
                    ascii_lower(#[trigger] extra_services@[i]@),
                ),
    {
        let mut c = Classifier::default();
        let ghost p0 = c.critical_processes@;
        let ghost s0 = c.critical_services@;
        let mut processes = lower_all(extra_processes);
        let mut services = lower_all(extra_services);
        let ghost p1 = processes@;
        let ghost s1 = services@;
        c.critical_processes.append(&mut processes);
        c.critical_services.append(&mut services);
        proof {
            assert(texts(p0 + p1) =~= texts(p0) + texts(p1));
            assert(texts(s0 + s1) =~= texts(s0) + texts(s1));
            assert forall|i: int|
                0 <= i < extra_processes@.len() && is_ascii_chars(
                    extra_processes@[i]@,
                ) implies c.critical_process_names().contains(
                ascii_lower(#[trigger] extra_processes@[i]@),
            ) by {
                assert(p1[i]@ == ascii_lower(extra_processes@[i]@));
                assert(c.critical_process_names()[p0.len() + i] == p1[i]@);
            }
            assert forall|i: int|
                0 <= i < extra_services@.len() && is_ascii_chars(
                    extra_services@[i]@,
                ) implies c.critical_service_names().contains(
                ascii_lower(#[trigger] extra_services@[i]@),
            ) by {
                assert(s1[i]@ == ascii_lower(extra_services@[i]@));
                assert(c.critical_service_names()[s0.len() + i] == s1[i]@);
            }
        }
        c
    }

    /// The names, lower-cased, of the processes that a custom profile may opt
    /// in.
    pub fn opt_in_processes(&self) -> (names: &[String])
        ensures
            texts(names@) == self.opt_in_names(),
    {
        self.opt_in_processes.as_slice()
    }

    /// Whether a process of this name, in any case, is never suspended.
    pub fn is_critical_process(&self, name: &str) -> (b: bool)
        ensures
            b == self.critical_process_names().contains(lowercase(name@)),
            is_ascii_chars(name@) ==> b == self.critical_process_names().contains(
                ascii_lower(name@),
            ),
    {
        holds(&self.critical_processes, &to_lowercase(name))
    }

    /// Whether a service of this name, in any case, is never paused or stopped.
    pub fn is_critical_service(&self, name: &str) -> (b: bool)
        ensures
            b == self.critical_service_names().contains(lowercase(name@)),
            is_ascii_chars(name@) ==> b == self.critical_service_names().contains(
                ascii_lower(name@),
            ),
    {
        holds(&self.critical_services, &to_lowercase(name))
    }

    /// Whether a process of this name, in any case, is eligible only when a
    /// profile opts it in.
    pub fn is_opt_in_process(&self, name: &str) -> (b: bool)
        ensures
            b == self.opt_in_names().contains(lowercase(name@)),
            is_ascii_chars(name@) ==> b == self.opt_in_names().contains(ascii_lower(name@)),
    {
        holds(&self.opt_in_processes, &to_lowercase(name))
    }

    /// Whether a process may be suspended under `profile`, given its name
    /// lower-cased once and twice.
    pub fn process_eligible_folded(
        &self,
        pid: u32,
        folded: &String,
        refolded: &String,
        profile: &Profile,
    ) -> (b: bool)
        ensures
            b == process_allowed(
                self.critical_process_names(),
                self.opt_in_names(),
                pid,
                folded@,
                refolded@,
                profile@,
            ),
    {
        if !profile.suspend_processes {
            return false;
        }
        // Never suspended, whatever the profile opts in.
        if holds(&self.critical_processes, folded) || holds(&self.critical_processes, refolded) {
            return false;
        }
        // Pids 0 and 4 are the kernel's, whatever the name.
        if pid == 0 || pid == 4 {
            return false;
        }
        if holds(&profile.user_excludes, folded) {
            return false;
        }
        // Skipped by default, unless the profile opts it in.
        if holds(&self.opt_in_processes, folded) {
            return holds(&profile.user_includes, folded);
        }
        true
    }

    /// Whether a process may be suspended under `profile`.
    pub fn process_eligible(&self, p: &ProcessInfo, profile: &Profile) -> (b: bool)
        ensures
            b == self.allows_process(*p, profile@),
            is_ascii_chars(p.name@) ==> b == process_allowed(
                self.critical_process_names(),
                self.opt_in_names(),
                p.pid,
                ascii_lower(p.name@),
                ascii_lower(p.name@),
                profile@,
            ),
    {
        let folded = to_lowercase(p.name.as_str());
        let refolded = to_lowercase(folded.as_str());
        proof {
            if is_ascii_chars(p.name@) {
                lemma_ascii_lower(p.name@);
            }
        }
        self.process_eligible_folded(p.pid, &folded, &refolded, profile)
    }

    /// Whether a service may be paused or stopped under `profile`, given its
    /// name lower-cased and its state.
    pub fn service_eligible_folded(
        &self,
        folded: &String,
        state: ServiceState,
        profile: &Profile,
    ) -> (b: bool)
        ensures
            b == service_allowed(self.critical_service_names(), folded@, state, profile@),
    {
        if !profile.suspend_services {
            return false;
        }
        if holds(&self.critical_services, folded) {
            return false;
        }
        // Only services that run are touched.
        state == ServiceState::Running
    }

    /// Whether a service may be paused or stopped under `profile`.
    pub fn service_eligible(&self, s: &ServiceInfo, profile: &Profile) -> (b: bool)
        ensures
            b == self.allows_service(*s, profile@),
            is_ascii_chars(s.name@) ==> b == service_allowed(
                self.critical_service_names(),
                ascii_lower(s.name@),
                s.state,
                profile@,
            ),
    {
        let folded = to_lowercase(s.name.as_str());
        self.service_eligible_folded(&folded, s.state, profile)
    }
}

/// What a profile holds is what its fields hold.
pub proof fn law_profile_holds_its_fields(profile: Profile, i: int)
    ensures
        profile@.name == profile.name@,
        profile@.suspend_processes == profile.suspend_processes,
        profile@.suspend_services == profile.suspend_services,
        profile@.excludes.len() == profile.user_excludes@.len(),
        profile@.includes.len() == profile.user_includes@.len(),
        0 <= i < profile.user_excludes@.len() ==> profile@.excludes[i]
            == profile.user_excludes@[i]@,
        0 <= i < profile.user_includes@.len() ==> profile@.includes[i]
            == profile.user_includes@[i]@,
{
}

/// The built-in names are those of the lists, one for one.
pub proof fn law_literals_are_of_the_list(list: Seq<&'static str>, i: int)
    ensures
        literals(list).len() == list.len(),
        0 <= i < list.len() ==> literals(list)[i] == list[i]@,
{
}

} // verus!
