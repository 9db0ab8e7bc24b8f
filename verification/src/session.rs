//! The restore session: everything that a boost changes is written here before it
//! is changed (write-ahead), and kept on disk while the boost lasts, so that a
//! crash or a reboot in the middle of a boost is still fully recoverable.

use vstd::prelude::*;

use crate::service::{ServiceAction, ServiceState};
use crate::time::{Span, Timestamp};

verus! {

/// How many seconds a new session lasts without a heartbeat.
pub const INITIAL_TTL_SECS: u64 = 30;

/// How long a new session lasts without a heartbeat.
pub open spec fn initial_ttl() -> Span {
    Span { secs: INITIAL_TTL_SECS, nanos: 0 }
}

/// The identity of a session: the 128 bits of a UUID.
#[derive(Debug, Clone, Copy, PartialEq, Eq, Structural)]
pub struct SessionId {
    pub bits: u128,
}

/// Whether `bits` are those of a random (version 4) UUID of the standard
/// variant.
pub open spec fn is_random_uuid(bits: u128) -> bool {
    &&& (bits >> 76) & 0xf == 4
    &&& (bits >> 62) & 0x3 == 2
}

/// Calls `uuid::Uuid::new_v4` and takes its bits by `Uuid::as_u128`. Claimed:
/// the version and variant bits. The others are random.
#[verifier::external_body]
fn random_uuid_bits() -> (bits: u128)
    ensures
        is_random_uuid(bits),
{
    uuid::Uuid::new_v4().as_u128()
}

impl SessionId {
    /// A fresh identity.
    pub fn new_v4() -> (id: Self)
        ensures
            is_random_uuid(id.bits),
    {
        SessionId { bits: random_uuid_bits() }
    }

    /// The identity that stands for none.
    pub fn nil() -> (id: Self)
        ensures
            id.bits == 0,
    {
        SessionId { bits: 0 }
    }
}

/// One suspended process, with what it takes to notice that its pid went to
/// another process.
#[derive(Debug, Clone)]
pub struct ProcessRecord {
    pub pid: u32,
    pub name: String,
    pub image_path: Option<String>,
    pub start_time: u64,
}

/// One service that was paused or stopped, with the state to bring it back to.
#[derive(Debug, Clone)]
pub struct ServiceRecord {
    pub name: String,
    pub original_state: ServiceState,
    pub action: ServiceAction,
}

/// The full record of a boost.
#[derive(Debug, Clone)]
pub struct RestoreSession {
    pub id: SessionId,
    pub started_at: Timestamp,
    pub profile: String,
    pub suspended_processes: Vec<ProcessRecord>,
    pub changed_services: Vec<ServiceRecord>,
    /// Past this point, without a heartbeat, the watchdog restores everything.
    pub heartbeat_deadline: Timestamp,
}

/// What a [`RestoreSession`] holds.
#[verifier::ext_equal]
pub struct SessionModel {
    pub id: SessionId,
    pub started_at: Timestamp,
    pub profile: Seq<char>,
    pub processes: Seq<ProcessRecord>,
    pub services: Seq<ServiceRecord>,
    pub deadline: Timestamp,
}

impl View for RestoreSession {
    type V = SessionModel;

    open spec fn view(&self) -> SessionModel {
        SessionModel {
            id: self.id,
            started_at: self.started_at,
            profile: self.profile@,
            processes: self.suspended_processes@,
            services: self.changed_services@,
            deadline: self.heartbeat_deadline,
        }
    }
}

/// A session that has changed nothing yet.
pub open spec fn new_session(profile: Seq<char>, id: SessionId, now: Timestamp) -> SessionModel {
    SessionModel {
        id,
        started_at: now,
        profile,
        processes: Seq::empty(),
        services: Seq::empty(),
        deadline: Timestamp { nanos: (now.nanos + initial_ttl().total()) as i128 },
    }
}

impl SessionModel {
    /// This session after a heartbeat at `now` that is good for `ttl`.
    pub open spec fn bumped(self, ttl: Span, now: Timestamp) -> SessionModel {
        SessionModel { deadline: Timestamp { nanos: (now.nanos + ttl.total()) as i128 }, ..self }
    }

    /// Whether the deadline lies before `now`.
    pub open spec fn expired(self, now: Timestamp) -> bool {
        now.nanos > self.deadline.nanos
    }
}

impl RestoreSession {
    /// A session with the given identity that starts at `now`.
    pub fn started(profile: String, id: SessionId, now: Timestamp) -> (session: Self)
        requires
            now.can_add(initial_ttl()),
        ensures
            session@ == new_session(profile@, id, now),
    {
        RestoreSession {
            id,
            started_at: now,
            profile,
            suspended_processes: Vec::new(),
            changed_services: Vec::new(),
            heartbeat_deadline: now.plus(Span { secs: INITIAL_TTL_SECS, nanos: 0 }),
        }
    }

    /// A session that starts now, with a fresh identity.
    pub fn new(profile: String) -> (session: Self)
        ensures
            is_random_uuid(session.id.bits),
            session@ == new_session(profile@, session.id, session.started_at),
            forall|span: Span| #[trigger] session.started_at.can_add(span),
    {
        RestoreSession::started(profile, SessionId::new_v4(), Timestamp::now())
    }

    /// Sets the deadline to `ttl` after `now`.
    pub fn bump_heartbeat_at(&mut self, ttl: Span, now: Timestamp)
        requires
            now.can_add(ttl),
        ensures
            final(self)@ == old(self)@.bumped(ttl, now),
    {
        self.heartbeat_deadline = now.plus(ttl);
    }

    /// Sets the deadline to `ttl` from the present.
    pub fn bump_heartbeat(&mut self, ttl: Span)
        ensures
            exists|now: Timestamp|
                now.can_add(ttl) && final(self)@ == #[trigger] old(self)@.bumped(ttl, now),
    {
        let now = Timestamp::now();
        self.bump_heartbeat_at(ttl, now);
        assert(final(self)@ == old(self)@.bumped(ttl, now));
    }

    /// Whether the deadline has passed at `now`.
    pub fn heartbeat_expired_at(&self, now: Timestamp) -> (b: bool)
        ensures
            b == self@.expired(now),
    {
        now.is_after(self.heartbeat_deadline)
    }

    /// Whether the deadline has passed.
    pub fn heartbeat_expired(&self) -> (b: bool)
        ensures
            exists|now: Timestamp| b == #[trigger] self@.expired(now),
    {
        self.heartbeat_expired_at(Timestamp::now())
    }
}

/// What a session holds is what its fields hold.
pub proof fn law_session_holds_its_fields(session: RestoreSession)
    ensures
        session@.id == session.id,
        session@.started_at == session.started_at,
        session@.profile == session.profile@,
        session@.processes == session.suspended_processes@,
        session@.services == session.changed_services@,
        session@.deadline == session.heartbeat_deadline,
{
}

/// An identity has the marks of a random one exactly if, of its thirty-two hexadecimal
/// digits, the thirteenth is 4 and the seventeenth is 8, 9, a or b.
pub proof fn law_random_identity_has_its_marks(bits: u128)
    ensures
        is_random_uuid(bits) <==> {
            &&& bits / 0x1_0000_0000_0000_0000_000 % 16 == 4
            &&& 8 <= bits / 0x1_0000_0000_0000_000 % 16 < 12
        },
{
    assert((bits >> 76) & 0xf == bits / 0x1_0000_0000_0000_0000_000 % 16) by (bit_vector);
    assert((bits >> 62) & 0x3 == 2 <==> {
        8 <= bits / 0x1_0000_0000_0000_000 % 16 && bits / 0x1_0000_0000_0000_000 % 16 < 12
    }) by (bit_vector);
}

} // verus!
