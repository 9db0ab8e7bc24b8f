//! Services: what the engine knows of one, the backend that lists, pauses,
//! stops and restores them, and an in-memory backend.

use vstd::prelude::*;

use crate::error::BoosterError;
use crate::text::{copy_text, join};

verus! {

/// The run states that matter for restoring a service.
#[derive(Debug, Clone, Copy, PartialEq, Eq, Structural)]
pub enum ServiceState {
    Running,
    Paused,
    Stopped,
    Other,
}

/// What was done to a service, and so how to undo it.
#[derive(Debug, Clone, Copy, PartialEq, Eq, Structural)]
pub enum ServiceAction {
    Paused,
    Stopped,
}

/// A snapshot of one service.
#[derive(Debug)]
pub struct ServiceInfo {
    pub name: String,
    pub display_name: Option<String>,
    pub state: ServiceState,
    /// Whether the service can be paused and continued, rather than only
    /// stopped.
    pub accepts_pause: bool,
}

impl Clone for ServiceInfo {
    fn clone(&self) -> (copy: Self)
        ensures
            copy == *self,
    {
        ServiceInfo {
            name: self.name.clone(),
            display_name: copy_text(&self.display_name),
            state: self.state,
            accepts_pause: self.accepts_pause,
        }
    }
}

/// The operating system's services, as the engine's host sees them.
pub trait ServiceController: Send + Sync {
    /// Every service.
    fn enumerate(&self) -> Result<Vec<ServiceInfo>, BoosterError>;

    /// Pauses the service if it supports that, otherwise stops it. Returns
    /// which.
    fn pause_or_stop(&mut self, name: &str) -> Result<ServiceAction, BoosterError>;

    /// Undoes an earlier pause or stop, bringing the service back to
    /// `original`.
    fn restore(
        &mut self,
        name: &str,
        original: &ServiceState,
        action: &ServiceAction,
    ) -> Result<(), BoosterError>;
}

/// Whether `i` is the place of the first service called `name`.
pub open spec fn is_first_named(services: Seq<ServiceInfo>, name: Seq<char>, i: int) -> bool {
    &&& 0 <= i < services.len()
    &&& services[i].name@ == name
    &&& forall|j: int| 0 <= j < i ==> (#[trigger] services[j]).name@ != name
}

/// The place of the first service called `name`, if there is one.
pub open spec fn find_named(services: Seq<ServiceInfo>, name: Seq<char>) -> Option<int> {
    if exists|i: int| is_first_named(services, name, i) {
        Some(choose|i: int| is_first_named(services, name, i))
    } else {
        None
    }
}

/// `services` with the state of the first one called `name` set to `state`.
pub open spec fn with_state(
    services: Seq<ServiceInfo>,
    name: Seq<char>,
    state: ServiceState,
) -> Seq<ServiceInfo> {
    match find_named(services, name) {
        Some(i) => services.update(i, ServiceInfo { state, ..services[i] }),
        None => services,
    }
}

/// What pausing or stopping does to a service.
pub open spec fn action_for(s: ServiceInfo) -> ServiceAction {
    if s.accepts_pause {
        ServiceAction::Paused
    } else {
        ServiceAction::Stopped
    }
}

impl ServiceInfo {
    /// What pausing or stopping will do to this service: it is paused if it can
    /// be, and stopped otherwise.
    pub fn expected_action(&self) -> (action: ServiceAction)
        ensures
            action == action_for(*self),
    {
        if self.accepts_pause {
            ServiceAction::Paused
        } else {
            ServiceAction::Stopped
        }
    }
}

/// The state that a service is in after `action`.
pub open spec fn state_after(action: ServiceAction) -> ServiceState {
    match action {
        ServiceAction::Paused => ServiceState::Paused,
        ServiceAction::Stopped => ServiceState::Stopped,
    }
}

proof fn lemma_find_named(services: Seq<ServiceInfo>, name: Seq<char>, i: int)
    requires
        is_first_named(services, name, i),
    ensures
        find_named(services, name) == Some(i),
{
    let k = choose|k: int| is_first_named(services, name, k);
    assert(is_first_named(services, name, k));
    if k < i {
        assert(services[k].name@ != name);
    } else if i < k {
        assert(services[i].name@ != name);
    }
}

/// In-memory backend for tests and for the console host.
pub struct MockServiceController {
    services: Vec<ServiceInfo>,
}

impl MockServiceController {
    /// The services that it lists.
    pub closed spec fn services(&self) -> Seq<ServiceInfo> {
        self.services@
    }

    /// A backend that lists `services`.
    pub fn with_services(services: Vec<ServiceInfo>) -> (mock: Self)
        ensures
            mock.services() == services@,
    {
        MockServiceController { services }
    }

    /// The place of the first service called `name`.
    fn position(&self, name: &str) -> (place: Option<usize>)
        ensures
            match place {
                Some(i) => find_named(self.services(), name@) == Some(i as int) && is_first_named(
                    self.services(),
                    name@,
                    i as int,
                ),
                None => find_named(self.services(), name@) is None,
            },
    {
        let wanted = name.to_owned();
        let mut i: usize = 0;
        while i < self.services.len()
            invariant
                i <= self.services@.len(),
                wanted@ == name@,
                forall|j: int| 0 <= j < i ==> (#[trigger] self.services@[j]).name@ != name@,
            decreases self.services@.len() - i,
        {
            if self.services[i].name == wanted {
                proof {
                    lemma_find_named(self.services@, name@, i as int);
                }
                return Some(i);
            }
            i += 1;
        }
        None
    }

    /// The state of the first service called `name`, if there is one.
    pub fn state_of(&self, name: &str) -> (state: Option<ServiceState>)
        ensures
            state == match find_named(self.services(), name@) {
                Some(i) => Some(self.services()[i].state),
                None => None,
            },
    {
        match self.position(name) {
            Some(i) => Some(self.services[i].state),
            None => None,
        }
    }

    fn set_state(&mut self, i: usize, state: ServiceState)
        requires
            i < old(self).services().len(),
        ensures
            final(self).services() == old(self).services().update(
                i as int,
                ServiceInfo { state, ..old(self).services()[i as int] },
            ),
    {
        let mut s = self.services[i].clone();
        s.state = state;
        self.services.set(i, s);
    }
}

impl Default for MockServiceController {
    /// A backend that lists nothing.
    fn default() -> (mock: Self)
        ensures
            mock.services() == Seq::<ServiceInfo>::empty(),
    {
        MockServiceController { services: Vec::new() }
    }
}

impl ServiceController for MockServiceController {
    fn enumerate(&self) -> (listed: Result<Vec<ServiceInfo>, BoosterError>)
        ensures
            listed is Ok,
            listed->Ok_0@ == self.services(),
    {
        let mut listed: Vec<ServiceInfo> = Vec::new();
        let mut i: usize = 0;
        while i < self.services.len()
            invariant
                i <= self.services@.len(),
                listed@ == self.services@.take(i as int),
            decreases self.services@.len() - i,
        {
            listed.push(self.services[i].clone());
            i += 1;
        }
        Ok(listed)
    }

    fn pause_or_stop(&mut self, name: &str) -> (done: Result<ServiceAction, BoosterError>)
        ensures
            match find_named(old(self).services(), name@) {
                Some(i) => {
                    &&& done == Ok::<ServiceAction, BoosterError>(
                        action_for(old(self).services()[i]),
                    )
                    &&& final(self).services() == with_state(
                        old(self).services(),
                        name@,
                        state_after(action_for(old(self).services()[i])),
                    )
                },
                None => {
                    &&& done matches Err(BoosterError::Os(m)) && m@ == "no such service "@ + name@
                    &&& final(self).services() == old(self).services()
                },
            },
    {
        match self.position(name) {
            Some(i) => {
                if self.services[i].accepts_pause {
                    self.set_state(i, ServiceState::Paused);
                    Ok(ServiceAction::Paused)
                } else {
                    self.set_state(i, ServiceState::Stopped);
                    Ok(ServiceAction::Stopped)
                }
            },
            None => Err(BoosterError::Os(join("no such service ", name))),
        }
    }

    fn restore(
        &mut self,
        name: &str,
        original: &ServiceState,
        action: &ServiceAction,
    ) -> (done: Result<(), BoosterError>)
        ensures
            done is Ok,
            final(self).services() == with_state(old(self).services(), name@, *original),
    {
        match self.position(name) {
            Some(i) => {
                self.set_state(i, *original);
            },
            None => {},
        }
        Ok(())
    }
}

/// A service is found by its name: the first of that name, and one is found exactly if
/// there is one.
pub proof fn law_first_service_of_the_name_is_found(
    services: Seq<ServiceInfo>,
    name: Seq<char>,
    k: int,
)
    ensures
        find_named(services, name) matches Some(i) ==> {
            &&& 0 <= i < services.len()
            &&& services[i].name@ == name
            &&& 0 <= k < i ==> services[k].name@ != name
        },
        0 <= k < services.len() && services[k].name@ == name ==> find_named(services, name) is Some,
{
    match find_named(services, name) {
        Some(i) => {
            assert(is_first_named(services, name, i));
        },
        None => {
            if 0 <= k < services.len() && services[k].name@ == name {
                lemma_first_exists(services, name, k);
            }
        },
    }
}

proof fn lemma_first_exists(services: Seq<ServiceInfo>, name: Seq<char>, k: int)
    requires
        0 <= k < services.len(),
        services[k].name@ == name,
    ensures
        exists|i: int| is_first_named(services, name, i),
    decreases k,
{
    if forall|j: int| 0 <= j < k ==> (#[trigger] services[j]).name@ != name {
        assert(is_first_named(services, name, k));
    } else {
        let j = choose|j: int| 0 <= j < k && (#[trigger] services[j]).name@ == name;
        lemma_first_exists(services, name, j);
    }
}

/// Setting a state touches the first service of the name alone, and nothing of it but its
/// state.
pub proof fn law_setting_a_state_touches_one_service(
    services: Seq<ServiceInfo>,
    name: Seq<char>,
    state: ServiceState,
    k: int,
)
    requires
        0 <= k < services.len(),
    ensures
        with_state(services, name, state).len() == services.len(),
        with_state(services, name, state)[k].name == services[k].name,
        with_state(services, name, state)[k].display_name == services[k].display_name,
        with_state(services, name, state)[k].accepts_pause == services[k].accepts_pause,
        find_named(services, name) == Some(k) ==> with_state(services, name, state)[k].state
            == state,
        find_named(services, name) != Some(k) ==> with_state(services, name, state)[k]
            == services[k],
{
    law_first_service_of_the_name_is_found(services, name, k);
}

/// A service is paused exactly if it can be, and is then paused; otherwise it is stopped,
/// and is then stopped.
pub proof fn law_service_is_paused_if_it_can_be(s: ServiceInfo)
    ensures
        action_for(s) == ServiceAction::Paused <==> s.accepts_pause,
        action_for(s) == ServiceAction::Stopped <==> !s.accepts_pause,
        state_after(ServiceAction::Paused) == ServiceState::Paused,
        state_after(ServiceAction::Stopped) == ServiceState::Stopped,
{
}

} // verus!
