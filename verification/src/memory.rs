//! A system in memory, on which the engine runs where there is no Windows.

use vstd::prelude::*;

use crate::engine::{Action, Event};
use crate::model::EventModel;
use crate::process::{MockProcessController, ProcessController, ProcessInfo};
use crate::recovery::{answers, succeeds, World};
use crate::service::{
    action_for, find_named, MockServiceController, ServiceController, ServiceInfo, ServiceState,
};
use crate::session::SessionModel;

verus! {

/// Whether `p` is the process `pid` called `name`, created at `start_time`,
/// with no image path.
pub open spec fn is_process(p: ProcessInfo, pid: u32, name: Seq<char>, start_time: u64) -> bool {
    &&& p.pid == pid
    &&& p.name@ == name
    &&& p.image_path is None
    &&& p.start_time == start_time
}

fn process(pid: u32, name: &str, start_time: u64) -> (p: ProcessInfo)
    ensures
        is_process(p, pid, name@, start_time),
{
    ProcessInfo { pid, name: name.to_owned(), image_path: None, start_time }
}

/// The backends of the console host: a few processes and services in memory.
pub fn controllers() -> (backends: (MockProcessController, MockServiceController))
    ensures
        backends.0.suspended() == Set::<u32>::empty(),
        ({
            let procs = backends.0.procs();
            &&& procs.len() == 3
            &&& is_process(procs[0], 4, "System"@, 1)
            &&& is_process(procs[1], 1500, "Spotify.exe"@, 4)
            &&& is_process(procs[2], 1600, "Slack.exe"@, 5)
        }),
        ({
            let services = backends.1.services();
            &&& services.len() == 2
            &&& services[0].name@ == "RpcSs"@
            &&& services[0].display_name is None
            &&& services[0].state == ServiceState::Running
            &&& !services[0].accepts_pause
            &&& services[1].name@ == "WSearch"@
            &&& services[1].display_name is Some
            &&& services[1].display_name->0@ == "Windows Search"@
            &&& services[1].state == ServiceState::Running
            &&& services[1].accepts_pause
        }),
{
    let procs = MockProcessController::with_processes(
        vec![
            process(4, "System", 1),
            process(1500, "Spotify.exe", 4),
            process(1600, "Slack.exe", 5),
        ],
    );
    let services = MockServiceController::with_services(
        vec![
            ServiceInfo {
                name: "RpcSs".to_owned(),
                display_name: None,
                state: ServiceState::Running,
                accepts_pause: false,
            },
            ServiceInfo {
                name: "WSearch".to_owned(),
                display_name: Some("Windows Search".to_owned()),
                state: ServiceState::Running,
                accepts_pause: true,
            },
        ],
    );
    (procs, services)
}

/// A system in memory: what the console host runs the engine on.
pub struct MemorySystem {
    pub processes: MockProcessController,
    pub services: MockServiceController,
}

impl MemorySystem {
    /// This system, with a store that holds `disk`.
    pub open spec fn world(&self, disk: Option<SessionModel>) -> World {
        World {
            procs: self.processes.procs(),
            suspended: self.processes.suspended(),
            services: self.services.services(),
            disk,
        }
    }

    /// Performs an action on the processes or services and gives the reply;
    /// `None` if the action is the store's. All succeed, but for changing a
    /// service that there is not.
    pub fn perform(&mut self, action: &Action) -> (reply: Option<Event>)
        ensures
            reply is None <==> (action is SaveSession || action is ClearSession
                || action is LoadSession),
            match reply {
                Some(e) => {
                    &&& forall|disk: Option<SessionModel>|
                        answers(
                            #[trigger] old(self).world(disk),
                            None,
                            *action,
                            e@,
                            final(self).world(disk),
                        )
                    &&& match *action {
                        Action::PauseOrStop { name } => match find_named(
                            old(self).services.services(),
                            name@,
                        ) {
                            Some(i) => e@ == EventModel::Changed(
                                Ok(action_for(old(self).services.services()[i])),
                            ),
                            None => !succeeds(e@),
                        },
                        _ => succeeds(e@),
                    }
                },
                None => *final(self) == *old(self),
            },
    {
        match action {
            Action::EnumerateProcesses => Some(Event::Processes(self.processes.enumerate())),
            Action::Suspend { pid } => Some(Event::Suspended(self.processes.suspend(*pid))),
            Action::EnumerateServices => Some(Event::Services(self.services.enumerate())),
            Action::PauseOrStop { name } => Some(
                Event::Changed(self.services.pause_or_stop(name.as_str())),
            ),
            Action::Restore { name, original, action } => Some(
                Event::Restored(self.services.restore(name.as_str(), original, action)),
            ),
            Action::Match { pid, start_time } => Some(
                Event::Matched(self.processes.matches(*pid, *start_time)),
            ),
            Action::Resume { pid } => Some(Event::Resumed(self.processes.resume(*pid))),
            Action::SaveSession | Action::ClearSession | Action::LoadSession => None,
        }
    }
}

/// The world of a system in memory is what its backends hold.
pub proof fn law_world_is_the_system(system: MemorySystem, disk: Option<SessionModel>)
    ensures
        system.world(disk).procs == system.processes.procs(),
        system.world(disk).suspended == system.processes.suspended(),
        system.world(disk).services == system.services.services(),
        system.world(disk).disk == disk,
{
}

} // verus!
