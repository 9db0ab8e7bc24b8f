//! What the Windows backends decide, on plain values: the system calls
//! themselves are made by the host.

use vstd::prelude::*;

use crate::process::ProcessInfo;
use crate::service::{ServiceAction, ServiceInfo, ServiceState};

verus! {

/// The service control manager's number for a stopped service.
pub const SERVICE_STOPPED: u32 = 1;

/// The service control manager's number for a running service.
pub const SERVICE_RUNNING: u32 = 4;

/// The service control manager's number for a paused service.
pub const SERVICE_PAUSED: u32 = 7;

/// The bit, among the controls that a service accepts, for pause and continue.
pub const SERVICE_ACCEPT_PAUSE_CONTINUE: u32 = 2;

/// The control code that continues a paused service.
pub const SERVICE_CONTROL_CONTINUE: u32 = 3;

/// The control code that pauses a service.
pub const SERVICE_CONTROL_PAUSE: u32 = 2;

/// The control code that stops a service.
pub const SERVICE_CONTROL_STOP: u32 = 1;

/// The run state that the service control manager's number stands for.
pub open spec fn state_of_number(current: u32) -> ServiceState {
    if current == SERVICE_RUNNING {
        ServiceState::Running
    } else if current == SERVICE_PAUSED {
        ServiceState::Paused
    } else if current == SERVICE_STOPPED {
        ServiceState::Stopped
    } else {
        ServiceState::Other
    }
}

/// The run state that the service control manager's number stands for.
pub fn map_state(current: u32) -> (state: ServiceState)
    ensures
        state == state_of_number(current),
{
    if current == SERVICE_RUNNING {
        ServiceState::Running
    } else if current == SERVICE_PAUSED {
        ServiceState::Paused
    } else if current == SERVICE_STOPPED {
        ServiceState::Stopped
    } else {
        ServiceState::Other
    }
}

/// Whether a service that accepts `controls` can be paused and continued.
pub open spec fn can_pause(controls: u32) -> bool {
    controls / 2 % 2 == 1
}

/// Whether a service that accepts `controls` can be paused and continued.
pub fn accepts_pause(controls: u32) -> (b: bool)
    ensures
        b == (controls / 2 % 2 == 1),
        b == can_pause(controls),
{
    assert((controls & 2 != 0) == (controls / 2 % 2 == 1)) by (bit_vector);
    controls & SERVICE_ACCEPT_PAUSE_CONTINUE != 0
}

/// One service as it is listed: its names as far as they could be read, its
/// state and the controls that it accepts as numbers.
pub fn service_info(
    name: Option<String>,
    display_name: Option<String>,
    current: u32,
    controls: u32,
) -> (info: ServiceInfo)
    ensures
        match name {
            Some(name) => info.name == name,
            None => info.name@ == Seq::<char>::empty(),
        },
        info.display_name == display_name,
        info.state == state_of_number(current),
        info.accepts_pause == (controls / 2 % 2 == 1),
{
    let name = match name {
        Some(name) => name,
        None => String::new(),
    };
    ServiceInfo {
        name,
        display_name,
        state: map_state(current),
        accepts_pause: accepts_pause(controls),
    }
}

/// One service as the system lists it: its names as far as they could be read, its
/// state and the controls that it accepts as numbers.
#[derive(Debug)]
pub struct ListedService {
    pub name: Option<String>,
    pub display_name: Option<String>,
    pub current: u32,
    pub controls: u32,
}

/// Whether `info` is what becomes of a listed service.
pub open spec fn is_listed_service(entry: ListedService, info: ServiceInfo) -> bool {
    &&& match entry.name {
        Some(name) => info.name == name,
        None => info.name@ == Seq::<char>::empty(),
    }
    &&& info.display_name == entry.display_name
    &&& info.state == state_of_number(entry.current)
    &&& info.accepts_pause == (entry.controls / 2 % 2 == 1)
}

/// The services that the system lists, in the same order.
pub fn service_list(entries: Vec<ListedService>) -> (out: Vec<ServiceInfo>)
    ensures
        out@.len() == entries@.len(),
        forall|i: int| 0 <= i < out@.len() ==> is_listed_service(entries@[i], #[trigger] out@[i]),
{
    let ghost listed = entries@;
    let mut out: Vec<ServiceInfo> = Vec::new();
    for entry in it: entries
        invariant
            it.seq() == listed,
            out@.len() == it.index(),
            forall|i: int|
                0 <= i < out@.len() ==> is_listed_service(listed[i], #[trigger] out@[i]),
    {
        out.push(
            service_info(entry.name, entry.display_name, entry.current, entry.controls),
        );
    }
    out
}

/// How to take a service that accepts `controls` out of the way: the control code
/// to send, and what that does.
pub open spec fn change_plan(controls: u32) -> (u32, ServiceAction) {
    if can_pause(controls) {
        (SERVICE_CONTROL_PAUSE, ServiceAction::Paused)
    } else {
        (SERVICE_CONTROL_STOP, ServiceAction::Stopped)
    }
}

/// How to take a service that accepts `controls` out of the way: the control
/// code to send, and what that does. A service that can be paused is paused, any
/// other is stopped.
pub fn pause_or_stop_plan(controls: u32) -> (plan: (u32, ServiceAction))
    ensures
        plan == if controls / 2 % 2 == 1 {
            (SERVICE_CONTROL_PAUSE, ServiceAction::Paused)
        } else {
            (SERVICE_CONTROL_STOP, ServiceAction::Stopped)
        },
        plan == change_plan(controls),
{
    if accepts_pause(controls) {
        (SERVICE_CONTROL_PAUSE, ServiceAction::Paused)
    } else {
        (SERVICE_CONTROL_STOP, ServiceAction::Stopped)
    }
}

/// How a service is brought back.
#[derive(Debug, Clone, Copy, PartialEq, Eq, Structural)]
pub enum RestorePlan {
    /// It is left as it is.
    Leave,
    /// It is sent this control code.
    Control(u32),
    /// It is started.
    Start,
}

/// How to bring a service back to `original` after `action`.
pub open spec fn undo_plan(original: ServiceState, action: ServiceAction) -> RestorePlan {
    if original != ServiceState::Running {
        RestorePlan::Leave
    } else if action == ServiceAction::Paused {
        RestorePlan::Control(SERVICE_CONTROL_CONTINUE)
    } else {
        RestorePlan::Start
    }
}

/// How to bring a service back to `original` after `action`. Only a service that
/// was running is touched: one that was not is left as the user had it.
pub fn restore_plan(original: ServiceState, action: ServiceAction) -> (plan: RestorePlan)
    ensures
        plan == if original != ServiceState::Running {
            RestorePlan::Leave
        } else {
            match action {
                ServiceAction::Paused => RestorePlan::Control(SERVICE_CONTROL_CONTINUE),
                ServiceAction::Stopped => RestorePlan::Start,
            }
        },
        plan == undo_plan(original, action),
{
    if original != ServiceState::Running {
        return RestorePlan::Leave;
    }
    match action {
        ServiceAction::Paused => RestorePlan::Control(SERVICE_CONTROL_CONTINUE),
        ServiceAction::Stopped => RestorePlan::Start,
    }
}

/// The ticks of a file time that is given in two halves.
pub fn filetime_ticks(high: u32, low: u32) -> (ticks: u64)
    ensures
        ticks == high * 0x1_0000_0000 + low,
{
    assert(((high as u64) << 32) | (low as u64) == (high as u64) * 0x1_0000_0000 + (low as u64))
        by (bit_vector);
    ((high as u64) << 32) | low as u64
}

/// Whether a process that was created at `found`, if there is one, is the one
/// that was created at `start_time`.
pub fn same_process(found: Option<u64>, start_time: u64) -> (b: bool)
    ensures
        b == (found == Some(start_time)),
{
    match found {
        Some(t) => t == start_time,
        None => false,
    }
}

/// Whether `n` is the place of the first zero in `units`.
pub open spec fn is_first_zero(units: Seq<u16>, n: int) -> bool {
    &&& 0 <= n < units.len()
    &&& units[n] == 0
    &&& forall|j: int| 0 <= j < n ==> #[trigger] units[j] != 0
}

/// The units of a zero-terminated name, without the zero. A name that is not
/// terminated counts as empty.
pub fn name_units(units: &[u16]) -> (name: Vec<u16>)
    ensures
        forall|n: int| #[trigger] is_first_zero(units@, n) ==> name@ == units@.take(n),
        !units@.contains(0) ==> name@ == Seq::<u16>::empty(),
{
    let mut name: Vec<u16> = Vec::new();
    let mut i: usize = 0;
    while i < units.len()
        invariant
            i <= units@.len(),
            name@ == units@.take(i as int),
            forall|j: int| 0 <= j < i ==> #[trigger] units@[j] != 0,
        decreases units@.len() - i,
    {
        if units[i] == 0 {
            proof {
                assert(units@.contains(0));
                assert forall|n: int| #[trigger] is_first_zero(units@, n) implies name@
                    == units@.take(n) by {
                    if n < i {
                        assert(units@[n] != 0);
                    } else if i < n {
                        assert(units@[i as int] != 0);
                    }
                }
            }
            return name;
        }
        name.push(units[i]);
        i += 1;
    }
    Vec::new()
}

/// Whether a unit is half of a pair, the half that comes first.
pub open spec fn is_high_surrogate(unit: u16) -> bool {
    0xd800 <= unit < 0xdc00
}

/// Whether a unit is half of a pair, the half that comes second.
pub open spec fn is_low_surrogate(unit: u16) -> bool {
    0xdc00 <= unit < 0xe000
}

/// The text that units of UTF-16 stand for: a unit that is no surrogate is the
/// character of its number, a high and a low surrogate together are a character
/// past the first 65536, and any other surrogate counts as U+FFFD.
pub open spec fn utf16_lossy(units: Seq<u16>) -> Seq<char>
    decreases units.len(),
{
    if units.len() == 0 {
        Seq::empty()
    } else if !is_high_surrogate(units[0]) && !is_low_surrogate(units[0]) {
        seq![units[0] as char] + utf16_lossy(units.skip(1))
    } else if is_high_surrogate(units[0]) && units.len() > 1 && is_low_surrogate(units[1]) {
        seq![(0x1_0000 + (units[0] - 0xd800) * 0x400 + (units[1] - 0xdc00)) as char]
            + utf16_lossy(units.skip(2))
    } else {
        seq!['\u{fffd}'] + utf16_lossy(units.skip(1))
    }
}

/// Calls `String::from_utf16_lossy`. Claimed of it: it decodes UTF-16, with each
/// surrogate that is not part of a pair replaced by U+FFFD.
#[verifier::external_body]
fn from_utf16_lossy(units: &[u16]) -> (text: String)
    ensures
        text@ == utf16_lossy(units@),
{
    String::from_utf16_lossy(units)
}

/// The text of a zero-terminated name. A name that is not terminated counts as
/// empty.
pub fn name_text(units: &[u16]) -> (text: String)
    ensures
        forall|n: int| #[trigger] is_first_zero(units@, n) ==> text@ == utf16_lossy(units@.take(n)),
        !units@.contains(0) ==> text@ == Seq::<char>::empty(),
{
    let name = name_units(units);
    from_utf16_lossy(name.as_slice())
}

/// One process as it is listed: its name, and its creation time as far as it
/// could be read.
pub fn process_info(pid: u32, name: String, started: Option<u64>) -> (info: ProcessInfo)
    ensures
        info.pid == pid,
        info.name == name,
        info.image_path is None,
        info.start_time == match started {
            Some(t) => t,
            None => 0,
        },
{
    let start_time: u64 = match started {
        Some(t) => t,
        None => 0,
    };
    ProcessInfo { pid, name, image_path: None, start_time }
}

/// One process as the system lists it: its zero-terminated name, and its creation
/// time as far as it could be read.
#[derive(Debug)]
pub struct ListedProcess {
    pub pid: u32,
    pub name: Vec<u16>,
    pub started: Option<u64>,
}

/// Whether `info` is what becomes of a listed process.
pub open spec fn is_listed_process(entry: ListedProcess, info: ProcessInfo) -> bool {
    &&& info.pid == entry.pid
    &&& forall|n: int| #[trigger]
        is_first_zero(entry.name@, n) ==> info.name@ == utf16_lossy(entry.name@.take(n))
    &&& !entry.name@.contains(0) ==> info.name@ == Seq::<char>::empty()
    &&& info.image_path is None
    &&& info.start_time == match entry.started {
        Some(t) => t,
        None => 0,
    }
}

/// The processes that the system lists, in the same order.
pub fn process_list(entries: &Vec<ListedProcess>) -> (out: Vec<ProcessInfo>)
    ensures
        out@.len() == entries@.len(),
        forall|i: int| 0 <= i < out@.len() ==> is_listed_process(entries@[i], #[trigger] out@[i]),
{
    let mut out: Vec<ProcessInfo> = Vec::new();
    let mut i: usize = 0;
    while i < entries.len()
        invariant
            i <= entries@.len(),
            out@.len() == i,
            forall|j: int|
                0 <= j < i ==> is_listed_process(entries@[j], #[trigger] out@[j]),
        decreases entries@.len() - i,
    {
        let entry = &entries[i];
        out.push(process_info(entry.pid, name_text(entry.name.as_slice()), entry.started));
        i += 1;
    }
    out
}

/// One thread of the system.
#[derive(Debug, Clone, Copy, PartialEq, Eq, Structural)]
pub struct ThreadEntry {
    pub owner_pid: u32,
    pub thread_id: u32,
}

/// The threads of the process `pid`, in the order in which they are listed.
pub fn threads_of(entries: &Vec<ThreadEntry>, pid: u32) -> (threads: Vec<u32>)
    ensures
        threads@ == entries@.filter(|e: ThreadEntry| e.owner_pid == pid).map_values(
            |e: ThreadEntry| e.thread_id,
        ),
{
    let ghost f = |e: ThreadEntry| e.owner_pid == pid;
    let ghost g = |e: ThreadEntry| e.thread_id;
    let mut threads: Vec<u32> = Vec::new();
    let mut i: usize = 0;
    assert(entries@.take(0).filter(f).map_values(g) =~= Seq::<u32>::empty()) by {
        reveal(Seq::filter);
    }
    while i < entries.len()
        invariant
            i <= entries@.len(),
            f == (|e: ThreadEntry| e.owner_pid == pid),
            g == (|e: ThreadEntry| e.thread_id),
            threads@ == entries@.take(i as int).filter(f).map_values(g),
        decreases entries@.len() - i,
    {
        proof {
            reveal(Seq::filter);
            assert(entries@.take(i + 1).drop_last() =~= entries@.take(i as int));
        }
        if entries[i].owner_pid == pid {
            threads.push(entries[i].thread_id);
        }
        i += 1;
    }
    assert(entries@.take(i as int) =~= entries@);
    threads
}

/// One character in UTF-16: a unit, or a pair of surrogates.
pub open spec fn utf16_char(c: char) -> Seq<u16> {
    let n = c as int;
    if n < 0x1_0000 {
        seq![n as u16]
    } else {
        seq![
            (0xd800 + (n - 0x1_0000) / 0x400) as u16,
            (0xdc00 + (n - 0x1_0000) % 0x400) as u16,
        ]
    }
}

/// A text in UTF-16.
pub open spec fn utf16(s: Seq<char>) -> Seq<u16>
    decreases s.len(),
{
    if s.len() == 0 {
        Seq::empty()
    } else {
        utf16(s.drop_last()) + utf16_char(s.last())
    }
}

/// Appends one character in UTF-16.
fn push_char(wide: &mut Vec<u16>, c: char)
    ensures
        final(wide)@ == old(wide)@ + utf16_char(c),
{
    let n: u32 = c as u32;
    if n < 0x1_0000 {
        wide.push(n as u16);
    } else {
        wide.push((0xd800 + (n - 0x1_0000) / 0x400) as u16);
        wide.push((0xdc00 + (n - 0x1_0000) % 0x400) as u16);
    }
}

/// A text in UTF-16, with a zero behind it, as the system's calls want it.
pub fn to_wide(s: &str) -> (wide: Vec<u16>)
    ensures
        wide@ == utf16(s@).push(0),
{
    let mut wide: Vec<u16> = Vec::new();
    for c in it: s.chars()
        invariant
            it.seq() == s@,
            wide@ == utf16(s@.take(it.index() as int)),
    {
        proof {
            assert(s@.take(it.index() + 1).drop_last() =~= s@.take(it.index() as int));
        }
        push_char(&mut wide, c);
    }
    assert(s@.take(s@.len() as int) =~= s@);
    wide.push(0);
    wide
}

/// Each run state has its own number, and every other number stands for none of them.
pub proof fn law_states_have_their_numbers(current: u32)
    ensures
        state_of_number(current) == ServiceState::Running <==> current == 4,
        state_of_number(current) == ServiceState::Paused <==> current == 7,
        state_of_number(current) == ServiceState::Stopped <==> current == 1,
{
}

/// What becomes of a listed service is what was listed of it.
pub proof fn law_listed_service_is_kept(entry: ListedService, info: ServiceInfo)
    requires
        is_listed_service(entry, info),
    ensures
        entry.name matches Some(name) ==> info.name == name,
        entry.name is None ==> info.name@.len() == 0,
        info.display_name == entry.display_name,
        info.state == ServiceState::Running <==> entry.current == 4,
        info.state == ServiceState::Paused <==> entry.current == 7,
        info.state == ServiceState::Stopped <==> entry.current == 1,
        info.accepts_pause <==> entry.controls / 2 % 2 == 1,
{
}

/// What becomes of a listed process is what was listed of it.
pub proof fn law_listed_process_is_kept(entry: ListedProcess, info: ProcessInfo, n: int)
    requires
        is_listed_process(entry, info),
    ensures
        info.pid == entry.pid,
        info.image_path is None,
        entry.started matches Some(t) ==> info.start_time == t,
        entry.started is None ==> info.start_time == 0,
        0 <= n < entry.name@.len() && entry.name@[n] == 0 && (forall|j: int|
            0 <= j < n ==> #[trigger] entry.name@[j] != 0) ==> info.name@ == utf16_lossy(
            entry.name@.take(n),
        ),
        (forall|j: int| 0 <= j < entry.name@.len() ==> #[trigger] entry.name@[j] != 0)
            ==> info.name@.len() == 0,
{
    if 0 <= n < entry.name@.len() && entry.name@[n] == 0 && (forall|j: int|
        0 <= j < n ==> #[trigger] entry.name@[j] != 0) {
        assert(is_first_zero(entry.name@, n));
    }
}

/// A text that goes out in UTF-16 reads back as that text.
pub proof fn law_utf16_reads_back(s: Seq<char>)
    ensures
        utf16_lossy(utf16(s)) == s,
    decreases s.len(),
{
    if s.len() > 0 {
        law_utf16_reads_back(s.drop_last());
        lemma_lossy_char(s.last());
        lemma_utf16_whole(s.drop_last(), s.last());
        assert(s =~= s.drop_last() + seq![s.last()]);
    }
}

/// One character in UTF-16 reads back as that character.
proof fn lemma_lossy_char(c: char)
    ensures
        utf16_lossy(utf16_char(c)) == seq![c],
{
    let units = utf16_char(c);
    let n = c as int;
    reveal_with_fuel(utf16_lossy, 3);
    if n < 0x1_0000 {
        assert(units.skip(1) =~= Seq::empty());
    } else {
        assert(units.skip(2) =~= Seq::empty());
    }
    assert(utf16_lossy(units) =~= seq![c]);
}

/// Reading a text in UTF-16 with one more character behind it gives the text and the
/// character.
proof fn lemma_utf16_whole(s: Seq<char>, c: char)
    ensures
        utf16_lossy(utf16(s) + utf16_char(c)) == utf16_lossy(utf16(s)) + utf16_lossy(utf16_char(c)),
    decreases s.len(),
{
    lemma_lossy_chars(s, utf16_char(c));
}

/// Whole characters in front are read one by one, whatever follows.
proof fn lemma_lossy_chars(s: Seq<char>, rest: Seq<u16>)
    ensures
        utf16_lossy(utf16(s) + rest) == utf16_lossy(utf16(s)) + utf16_lossy(rest),
    decreases s.len(),
{
    if s.len() == 0 {
        assert(utf16(s) + rest =~= rest);
        assert(utf16_lossy(utf16(s)) =~= Seq::empty());
        assert(utf16_lossy(utf16(s)) + utf16_lossy(rest) =~= utf16_lossy(rest));
    } else {
        let front = s.drop_last();
        let u = utf16_char(s.last());
        assert(utf16(s) + rest =~= utf16(front) + (u + rest));
        lemma_lossy_chars(front, u + rest);
        lemma_lossy_chars(front, u);
        lemma_lossy_one(s.last(), rest);
        lemma_lossy_char(s.last());
        assert(utf16_lossy(utf16(s)) + utf16_lossy(rest) =~= utf16_lossy(utf16(front)) + (
        utf16_lossy(u) + utf16_lossy(rest)));
    }
}

proof fn lemma_lossy_one(c: char, rest: Seq<u16>)
    ensures
        utf16_lossy(utf16_char(c) + rest) == seq![c] + utf16_lossy(rest),
{
    let units = utf16_char(c) + rest;
    let n = c as int;
    if n < 0x1_0000 {
        assert(units.skip(1) =~= rest);
    } else {
        assert(units.skip(2) =~= rest);
    }
}

/// A service is paused exactly if it accepts that, and stopped otherwise; and a service
/// that ran is brought back from a pause by continuing it and from a stop by starting it.
/// A service that did not run is left alone.
pub proof fn law_plans_undo_each_other(
    controls: u32,
    original: ServiceState,
    action: ServiceAction,
)
    ensures
        can_pause(controls) <==> controls % 4 == 2 || controls % 4 == 3,
        change_plan(controls).1 == ServiceAction::Paused <==> can_pause(controls),
        change_plan(controls).0 == 2 <==> can_pause(controls),
        change_plan(controls).0 == 1 <==> !can_pause(controls),
        undo_plan(ServiceState::Running, change_plan(controls).1) == RestorePlan::Control(3)
            <==> can_pause(controls),
        undo_plan(ServiceState::Running, change_plan(controls).1) == RestorePlan::Start
            <==> !can_pause(controls),
        undo_plan(original, action) == RestorePlan::Leave <==> original != ServiceState::Running,
{
}

/// A half of a pair that has no other half to go with reads as U+FFFD, and what follows
/// it reads as it would alone.
pub proof fn law_lone_surrogate_is_replaced(unit: u16, rest: Seq<u16>)
    requires
        0xd800 <= unit < 0xe000,
        unit < 0xdc00 && rest.len() > 0 ==> !(0xdc00 <= rest[0] < 0xe000),
    ensures
        utf16_lossy(seq![unit] + rest).len() == 1 + utf16_lossy(rest).len(),
        utf16_lossy(seq![unit] + rest)[0] as u32 == 0xfffd,
        utf16_lossy(seq![unit] + rest).skip(1) == utf16_lossy(rest),
{
    let units = seq![unit] + rest;
    assert(units.skip(1) =~= rest);
    assert(units.len() > 1 ==> units[1] == rest[0]);
    assert(utf16_lossy(units).skip(1) =~= utf16_lossy(rest));
}

/// A name ends at its first zero: it ends exactly where a zero has no zero before it, and
/// so in one place at most.
pub proof fn law_name_ends_at_its_first_zero(units: Seq<u16>, n: int, m: int)
    ensures
        is_first_zero(units, n) ==> units.contains(0) && !units.take(n).contains(0),
        is_first_zero(units, n) && is_first_zero(units, m) ==> n == m,
        0 <= n < units.len() && units[n] == 0 && !units.take(n).contains(0)
            ==> is_first_zero(units, n),
{
    if 0 <= n < units.len() {
        assert forall|j: int| 0 <= j < n implies #[trigger] units[j] == units.take(n)[j] by {}
        if units[n] == 0 && !units.take(n).contains(0) {
            assert forall|j: int| 0 <= j < n implies #[trigger] units[j] != 0 by {
                assert(units.take(n)[j] == units[j]);
            }
        }
    }
}

} // verus!
