//! What a scan presents: every process and service, and whether it may be
//! suspended.

use vstd::prelude::*;
use vstd::utf8::is_ascii_chars;

use crate::classify::{process_allowed, service_allowed, Classifier, Profile, ProfileModel};
use crate::process::ProcessInfo;
use crate::service::ServiceInfo;
use crate::text::{
    ascii_lower, decimal, decimal_text, is_number, law_decimal_reads_back, number_of,
};

verus! {

/// A process or service that can be presented, with whether it may be
/// suspended.
#[derive(Debug, Clone)]
pub struct Candidate {
    /// The pid in decimal for a process, the service name for a service.
    pub key: String,
    pub name: String,
    pub eligible: bool,
}

/// What a [`Candidate`] holds.
pub struct CandidateModel {
    pub key: Seq<char>,
    pub name: Seq<char>,
    pub eligible: bool,
}

impl View for Candidate {
    type V = CandidateModel;

    open spec fn view(&self) -> CandidateModel {
        CandidateModel { key: self.key@, name: self.name@, eligible: self.eligible }
    }
}

/// What a list of candidates holds.
pub open spec fn candidates(list: Seq<Candidate>) -> Seq<CandidateModel> {
    list.map_values(|c: Candidate| c@)
}

/// Every process and service, in the order in which they were listed.
#[derive(Debug, Clone)]
pub struct ScanResult {
    pub processes: Vec<Candidate>,
    pub services: Vec<Candidate>,
}

/// What a [`ScanResult`] holds.
#[verifier::ext_equal]
pub struct ScanModel {
    pub processes: Seq<CandidateModel>,
    pub services: Seq<CandidateModel>,
}

impl View for ScanResult {
    type V = ScanModel;

    open spec fn view(&self) -> ScanModel {
        ScanModel {
            processes: candidates(self.processes@),
            services: candidates(self.services@),
        }
    }
}

/// How a process is presented.
pub open spec fn process_candidate(
    c: Classifier,
    p: ProcessInfo,
    profile: ProfileModel,
) -> CandidateModel {
    CandidateModel {
        key: decimal(p.pid as nat),
        name: p.name@,
        eligible: c.allows_process(p, profile),
    }
}

/// How a service is presented: by its display name, where it has one.
pub open spec fn service_candidate(
    c: Classifier,
    s: ServiceInfo,
    profile: ProfileModel,
) -> CandidateModel {
    CandidateModel {
        key: s.name@,
        name: match s.display_name {
            Some(d) => d@,
            None => s.name@,
        },
        eligible: c.allows_service(s, profile),
    }
}

/// How the listed processes are presented.
pub open spec fn process_candidates(
    c: Classifier,
    procs: Seq<ProcessInfo>,
    profile: ProfileModel,
) -> Seq<CandidateModel> {
    procs.map_values(|p: ProcessInfo| process_candidate(c, p, profile))
}

/// How the listed services are presented.
pub open spec fn service_candidates(
    c: Classifier,
    services: Seq<ServiceInfo>,
    profile: ProfileModel,
) -> Seq<CandidateModel> {
    services.map_values(|s: ServiceInfo| service_candidate(c, s, profile))
}

/// Whether `shown` presents every one of `procs`, in order: under a key that is its
/// pid in decimal, by its name, and as eligible exactly if it may be suspended.
pub open spec fn lists_processes(
    c: Classifier,
    profile: ProfileModel,
    procs: Seq<ProcessInfo>,
    shown: Seq<CandidateModel>,
) -> bool {
    &&& shown.len() == procs.len()
    &&& forall|i: int|
        0 <= i < procs.len() ==> {
            &&& is_number((#[trigger] shown[i]).key)
            &&& number_of(shown[i].key) == procs[i].pid
            &&& shown[i].name == procs[i].name@
            &&& shown[i].eligible <==> c.allows_process(procs[i], profile)
        }
}

/// Whether `shown` presents every one of `services`, in order: under its name as key,
/// by its display name, or its name where it has none, and as eligible exactly if it
/// may be paused or stopped.
pub open spec fn lists_services(
    c: Classifier,
    profile: ProfileModel,
    services: Seq<ServiceInfo>,
    shown: Seq<CandidateModel>,
) -> bool {
    &&& shown.len() == services.len()
    &&& forall|i: int|
        0 <= i < services.len() ==> {
            &&& (#[trigger] shown[i]).key == services[i].name@
            &&& services[i].display_name matches Some(d) ==> shown[i].name == d@
            &&& services[i].display_name is None ==> shown[i].name == services[i].name@
            &&& shown[i].eligible <==> c.allows_service(services[i], profile)
        }
}

/// A scan lists every process, eligible or not, under its own pid: two entries have
/// the same key only if their processes have the same pid.
pub proof fn law_scan_lists_every_process(
    c: Classifier,
    profile: ProfileModel,
    procs: Seq<ProcessInfo>,
)
    ensures
        lists_processes(c, profile, procs, process_candidates(c, procs, profile)),
        forall|i: int, j: int|
            0 <= i < procs.len() && 0 <= j < procs.len() && (
            #[trigger] process_candidates(c, procs, profile)[i]).key == (
            #[trigger] process_candidates(c, procs, profile)[j]).key ==> procs[i].pid
                == procs[j].pid,
{
    let shown = process_candidates(c, procs, profile);
    assert forall|i: int| 0 <= i < procs.len() implies {
        &&& is_number((#[trigger] shown[i]).key)
        &&& number_of(shown[i].key) == procs[i].pid
    } by {
        law_decimal_reads_back(procs[i].pid as nat);
    }
}

/// A scan lists every service, eligible or not, under its own name.
pub proof fn law_scan_lists_every_service(
    c: Classifier,
    profile: ProfileModel,
    services: Seq<ServiceInfo>,
)
    ensures
        lists_services(c, profile, services, service_candidates(c, services, profile)),
{
}

/// What a candidate and a scan hold is what their fields hold.
pub proof fn law_candidates_hold_their_fields(candidate: Candidate, scan: ScanResult, i: int)
    ensures
        candidate@.key == candidate.key@,
        candidate@.name == candidate.name@,
        candidate@.eligible == candidate.eligible,
        scan@.processes.len() == scan.processes@.len(),
        scan@.services.len() == scan.services@.len(),
        0 <= i < scan.processes@.len() ==> scan@.processes[i] == scan.processes@[i]@,
        0 <= i < scan.services@.len() ==> scan@.services[i] == scan.services@[i]@,
{
}

impl Classifier {
    /// Presents the listed processes, in order.
    pub fn present_processes(&self, procs: &Vec<ProcessInfo>, profile: &Profile) -> (shown: Vec<
        Candidate,
    >)
        ensures
            candidates(shown@) == process_candidates(*self, procs@, profile@),
            shown@.len() == procs@.len(),
            forall|i: int|
                0 <= i < procs@.len() ==> {
                    &&& is_number((#[trigger] shown@[i]).key@)
                    &&& number_of(shown@[i].key@) == procs@[i].pid
                    &&& shown@[i].name == procs@[i].name
                    &&& shown@[i].eligible == self.allows_process(procs@[i], profile@)
                },
            forall|i: int|
                0 <= i < procs@.len() && is_ascii_chars(procs@[i].name@) ==> (
                #[trigger] shown@[i]).eligible == process_allowed(
                    self.critical_process_names(),
                    self.opt_in_names(),
                    procs@[i].pid,
                    ascii_lower(procs@[i].name@),
                    ascii_lower(procs@[i].name@),
                    profile@,
                ),
    {
        let mut shown: Vec<Candidate> = Vec::new();
        let mut i: usize = 0;
        while i < procs.len()
            invariant
                i <= procs@.len(),
                shown@.len() == i,
                forall|j: int|
                    0 <= j < i ==> (#[trigger] shown@[j])@ == process_candidate(
                        *self,
                        procs@[j],
                        profile@,
                    ),
                forall|j: int|
                    0 <= j < i ==> {
                        &&& is_number((#[trigger] shown@[j]).key@)
                        &&& number_of(shown@[j].key@) == procs@[j].pid
                        &&& shown@[j].name == procs@[j].name
                        &&& shown@[j].eligible == self.allows_process(procs@[j], profile@)
                    },
                forall|j: int|
                    0 <= j < i && is_ascii_chars(procs@[j].name@) ==> (
                    #[trigger] shown@[j]).eligible == process_allowed(
                        self.critical_process_names(),
                        self.opt_in_names(),
                        procs@[j].pid,
                        ascii_lower(procs@[j].name@),
                        ascii_lower(procs@[j].name@),
                        profile@,
                    ),
            decreases procs@.len() - i,
        {
            let p = &procs[i];
            proof {
                law_decimal_reads_back(p.pid as nat);
            }
            let eligible = self.process_eligible(p, profile);
            shown.push(Candidate { key: decimal_text(p.pid), name: p.name.clone(), eligible });
            i += 1;
        }
        shown
    }

    /// Presents the listed services, in order.
    pub fn present_services(&self, services: &Vec<ServiceInfo>, profile: &Profile) -> (shown: Vec<
        Candidate,
    >)
        ensures
            candidates(shown@) == service_candidates(*self, services@, profile@),
            shown@.len() == services@.len(),
            forall|i: int|
                0 <= i < services@.len() ==> {
                    &&& (#[trigger] shown@[i]).key == services@[i].name
                    &&& shown@[i].name == match services@[i].display_name {
                        Some(d) => d,
                        None => services@[i].name,
                    }
                    &&& shown@[i].eligible == self.allows_service(services@[i], profile@)
                },
            forall|i: int|
                0 <= i < services@.len() && is_ascii_chars(services@[i].name@) ==> (
                #[trigger] shown@[i]).eligible == service_allowed(
                    self.critical_service_names(),
                    ascii_lower(services@[i].name@),
                    services@[i].state,
                    profile@,
                ),
    {
        let mut shown: Vec<Candidate> = Vec::new();
        let mut i: usize = 0;
        while i < services.len()
            invariant
                i <= services@.len(),
                shown@.len() == i,
                forall|j: int|
                    0 <= j < i ==> (#[trigger] shown@[j])@ == service_candidate(
                        *self,
                        services@[j],
                        profile@,
                    ),
                forall|j: int|
                    0 <= j < i ==> {
                        &&& (#[trigger] shown@[j]).key == services@[j].name
                        &&& shown@[j].name == match services@[j].display_name {
                            Some(d) => d,
                            None => services@[j].name,
                        }
                        &&& shown@[j].eligible == self.allows_service(services@[j], profile@)
                    },
                forall|j: int|
                    0 <= j < i && is_ascii_chars(services@[j].name@) ==> (
                    #[trigger] shown@[j]).eligible == service_allowed(
                        self.critical_service_names(),
                        ascii_lower(services@[j].name@),
                        services@[j].state,
                        profile@,
                    ),
            decreases services@.len() - i,
        {
            let s = &services[i];
            let eligible = self.service_eligible(s, profile);
            let name = match &s.display_name {
                Some(d) => d.clone(),
                None => s.name.clone(),
            };
            shown.push(Candidate { key: s.name.clone(), name, eligible });
            i += 1;
        }
        shown
    }
}

/// How many of the candidates are eligible.
pub fn eligible_count(list: &Vec<Candidate>) -> (n: usize)
    ensures
        n == list@.filter(|c: Candidate| c.eligible).len(),
{
    let ghost f = |c: Candidate| c.eligible;
    let mut n: usize = 0;
    let mut i: usize = 0;
    while i < list.len()
        invariant
            i <= list@.len(),
            n <= i,
            f == (|c: Candidate| c.eligible),
            n == list@.take(i as int).filter(f).len(),
        decreases list@.len() - i,
    {
        proof {
            reveal(Seq::filter);
            assert(list@.take(i + 1).drop_last() =~= list@.take(i as int));
        }
        if list[i].eligible {
            n += 1;
        }
        i += 1;
    }
    assert(list@.take(i as int) =~= list@);
    n
}

} // verus!
