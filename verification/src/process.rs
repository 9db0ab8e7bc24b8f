//! Processes: what the engine knows of one, the backend that lists, suspends
//! and resumes them, and an in-memory backend.

use std::collections::HashSet;
use vstd::prelude::*;

use crate::error::BoosterError;
use crate::text::copy_text;

verus! {

broadcast use vstd::std_specs::hash::group_hash_axioms;

/// A snapshot of one running process.
#[derive(Debug)]
pub struct ProcessInfo {
    pub pid: u32,
    pub name: String,
    pub image_path: Option<String>,
    /// Process creation time in ticks. Tells a process from a later one that
    /// was given the same pid.
    pub start_time: u64,
}

impl Clone for ProcessInfo {
    fn clone(&self) -> (copy: Self)
        ensures
            copy == *self,
    {
        ProcessInfo {
            pid: self.pid,
            name: self.name.clone(),
            image_path: copy_text(&self.image_path),
            start_time: self.start_time,
        }
    }
}

/// The operating system's processes, as the engine's host sees them.
pub trait ProcessController: Send + Sync {
    /// Every running process.
    fn enumerate(&self) -> Result<Vec<ProcessInfo>, BoosterError>;

    /// Suspends the process `pid`.
    fn suspend(&mut self, pid: u32) -> Result<(), BoosterError>;

    /// Resumes the process `pid`.
    fn resume(&mut self, pid: u32) -> Result<(), BoosterError>;

    /// True if a process `pid` exists and was created at `start_time`, that is,
    /// if the pid was not given to a different process since.
    fn matches(&self, pid: u32, start_time: u64) -> bool;
}

/// Whether `procs` lists a process `pid` that was created at `start_time`.
pub open spec fn lists_process(procs: Seq<ProcessInfo>, pid: u32, start_time: u64) -> bool {
    exists|i: int|
        0 <= i < procs.len() && (#[trigger] procs[i]).pid == pid && procs[i].start_time
            == start_time
}

/// `p` as it is listed once its pid, if that is `pid`, has gone to a process
/// created at `start_time`.
pub open spec fn recycled(p: ProcessInfo, pid: u32, start_time: u64) -> ProcessInfo {
    if p.pid == pid {
        ProcessInfo { start_time, ..p }
    } else {
        p
    }
}

/// In-memory backend for tests and for the console host.
pub struct MockProcessController {
    procs: Vec<ProcessInfo>,
    suspended: HashSet<u32>,
}

impl MockProcessController {
    /// The processes that it lists.
    pub closed spec fn procs(&self) -> Seq<ProcessInfo> {
        self.procs@
    }

    /// The pids that are suspended.
    pub closed spec fn suspended(&self) -> Set<u32> {
        self.suspended@
    }

    /// A backend that lists `procs`, none of them suspended.
    pub fn with_processes(procs: Vec<ProcessInfo>) -> (mock: Self)
        ensures
            mock.procs() == procs@,
            mock.suspended() == Set::<u32>::empty(),
    {
        MockProcessController { procs, suspended: HashSet::new() }
    }

    /// Whether `pid` is suspended.
    pub fn is_suspended(&self, pid: u32) -> (b: bool)
        ensures
            b == self.suspended().contains(pid),
    {
        self.suspended.contains(&pid)
    }

    /// Stands for the operating system giving `pid` to another process, one
    /// that is created at `start_time`. What is suspended stays so.
    pub fn recycle_pid(&mut self, pid: u32, start_time: u64)
        ensures
            final(self).procs() == old(self).procs().map_values(
                |p: ProcessInfo| recycled(p, pid, start_time),
            ),
            final(self).suspended() == old(self).suspended(),
    {
        let ghost before = self.procs@;
        let mut i: usize = 0;
        while i < self.procs.len()
            invariant
                i <= self.procs@.len(),
                before == old(self).procs@,
                self.suspended == old(self).suspended,
                self.procs@.len() == before.len(),
                forall|j: int|
                    0 <= j < i ==> #[trigger] self.procs@[j] == recycled(
                        before[j],
                        pid,
                        start_time,
                    ),
                forall|j: int| i <= j < before.len() ==> #[trigger] self.procs@[j] == before[j],
            decreases self.procs@.len() - i,
        {
            if self.procs[i].pid == pid {
                let mut p = self.procs[i].clone();
                p.start_time = start_time;
                self.procs.set(i, p);
            }
            i += 1;
        }
    }
}

impl Default for MockProcessController {
    /// A backend that lists nothing.
    fn default() -> (mock: Self)
        ensures
            mock.procs() == Seq::<ProcessInfo>::empty(),
            mock.suspended() == Set::<u32>::empty(),
    {
        MockProcessController { procs: Vec::new(), suspended: HashSet::new() }
    }
}

impl ProcessController for MockProcessController {
    fn enumerate(&self) -> (listed: Result<Vec<ProcessInfo>, BoosterError>)
        ensures
            listed is Ok,
            listed->Ok_0@ == self.procs(),
    {
        let mut listed: Vec<ProcessInfo> = Vec::new();
        let mut i: usize = 0;
        while i < self.procs.len()
            invariant
                i <= self.procs@.len(),
                listed@ == self.procs@.take(i as int),
            decreases self.procs@.len() - i,
        {
            listed.push(self.procs[i].clone());
            i += 1;
        }
        Ok(listed)
    }

    fn suspend(&mut self, pid: u32) -> (done: Result<(), BoosterError>)
        ensures
            done is Ok,
            final(self).procs() == old(self).procs(),
            final(self).suspended() == old(self).suspended().insert(pid),
    {
        self.suspended.insert(pid);
        Ok(())
    }

    fn resume(&mut self, pid: u32) -> (done: Result<(), BoosterError>)
        ensures
            done is Ok,
            final(self).procs() == old(self).procs(),
            final(self).suspended() == old(self).suspended().remove(pid),
    {
        self.suspended.remove(&pid);
        Ok(())
    }

    fn matches(&self, pid: u32, start_time: u64) -> (b: bool)
        ensures
            b == lists_process(self.procs(), pid, start_time),
    {
        let mut i: usize = 0;
        while i < self.procs.len()
            invariant
                i <= self.procs@.len(),
                forall|j: int|
                    0 <= j < i ==> !((#[trigger] self.procs@[j]).pid == pid
                        && self.procs@[j].start_time == start_time),
            decreases self.procs@.len() - i,
        {
            if self.procs[i].pid == pid && self.procs[i].start_time == start_time {
                assert(lists_process(self.procs@, pid, start_time));
                return true;
            }
            i += 1;
        }
        false
    }
}

/// A list has a process exactly if one of its entries is that process: pid and creation
/// time have to agree with the same entry.
pub proof fn law_process_is_listed_by_its_entry(
    procs: Seq<ProcessInfo>,
    p: ProcessInfo,
    pid: u32,
    start_time: u64,
)
    ensures
        !lists_process(Seq::empty(), pid, start_time),
        lists_process(procs.push(p), pid, start_time) <==> lists_process(procs, pid, start_time)
            || (p.pid == pid && p.start_time == start_time),
{
    let more = procs.push(p);
    if lists_process(procs, pid, start_time) {
        let i = choose|i: int|
            0 <= i < procs.len() && (#[trigger] procs[i]).pid == pid && procs[i].start_time
                == start_time;
        assert(more[i] == procs[i]);
    }
    if p.pid == pid && p.start_time == start_time {
        assert(more[procs.len() as int] == p);
    }
    if lists_process(more, pid, start_time) {
        let i = choose|i: int|
            0 <= i < more.len() && (#[trigger] more[i]).pid == pid && more[i].start_time
                == start_time;
        if i < procs.len() {
            assert(procs[i] == more[i]);
        }
    }
}

/// Recycling a pid touches that pid alone: its entry has the new creation time and is
/// otherwise as it was, and so are all other entries.
pub proof fn law_recycling_touches_one_pid(p: ProcessInfo, pid: u32, start_time: u64)
    ensures
        recycled(p, pid, start_time).pid == p.pid,
        recycled(p, pid, start_time).name == p.name,
        recycled(p, pid, start_time).image_path == p.image_path,
        p.pid == pid ==> recycled(p, pid, start_time).start_time == start_time,
        p.pid != pid ==> recycled(p, pid, start_time) == p,
{
}

} // verus!
