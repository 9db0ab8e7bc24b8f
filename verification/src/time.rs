//! Points in time and spans of time, in nanoseconds.

use vstd::prelude::*;

verus! {

/// A span of time: `secs` seconds and `nanos` nanoseconds.
#[derive(Debug, Clone, Copy, PartialEq, Eq, Structural)]
pub struct Span {
    pub secs: u64,
    pub nanos: u32,
}

impl Span {
    /// The whole span in nanoseconds.
    pub open spec fn total(self) -> int {
        self.secs * 1_000_000_000 + self.nanos
    }

    /// `secs` seconds.
    pub fn from_secs(secs: u64) -> (span: Self)
        ensures
            span.total() == secs * 1_000_000_000,
    {
        Span { secs, nanos: 0 }
    }

    /// `millis` milliseconds.
    pub fn from_millis(millis: u64) -> (span: Self)
        ensures
            span.total() == millis * 1_000_000,
    {
        let rest: u64 = millis % 1000;
        Span { secs: millis / 1000, nanos: rest as u32 * 1_000_000 }
    }
}

/// A point in time, in nanoseconds from the Unix epoch; negative before it.
#[derive(Debug, Clone, Copy, PartialEq, Eq, Structural)]
pub struct Timestamp {
    pub nanos: i128,
}

/// The nanoseconds from the epoch of a clock reading: how far it lies after the
/// epoch, or, as `Err`, how far before, in seconds and nanoseconds.
pub open spec fn reading_nanos(reading: Result<(u64, u32), (u64, u32)>) -> int {
    match reading {
        Ok((secs, nanos)) => secs * 1_000_000_000 + nanos,
        Err((secs, nanos)) => -(secs * 1_000_000_000 + nanos),
    }
}

/// Reads the system clock: calls `SystemTime::elapsed` on the Unix epoch. `Ok` is
/// the distance of the present after the epoch, `Err` the distance before it, in
/// seconds and nanoseconds. Claimed: that the nanoseconds make less than a second.
/// What the clock shows is open.
#[verifier::external_body]
fn read_clock() -> (reading: Result<(u64, u32), (u64, u32)>)
    ensures
        match reading {
            Ok((_, nanos)) => nanos < 1_000_000_000,
            Err((_, nanos)) => nanos < 1_000_000_000,
        },
{
    match std::time::SystemTime::UNIX_EPOCH.elapsed() {
        Ok(after) => Ok((after.as_secs(), after.subsec_nanos())),
        Err(before) => Err((before.duration().as_secs(), before.duration().subsec_nanos())),
    }
}

impl Timestamp {
    /// Whether the point that lies `span` later can be represented.
    pub open spec fn can_add(self, span: Span) -> bool {
        self.nanos + span.total() <= i128::MAX
    }

    /// The point in time that a clock reading stands for.
    pub fn from_reading(reading: Result<(u64, u32), (u64, u32)>) -> (t: Self)
        ensures
            t.nanos == reading_nanos(reading),
    {
        match reading {
            Ok((secs, nanos)) => Timestamp {
                nanos: secs as i128 * 1_000_000_000 + nanos as i128,
            },
            Err((secs, nanos)) => Timestamp {
                nanos: -(secs as i128 * 1_000_000_000 + nanos as i128),
            },
        }
    }

    /// The present. Nothing is promised of it but that any span can be added.
    pub fn now() -> (t: Self)
        ensures
            forall|span: Span| #[trigger] t.can_add(span),
    {
        Timestamp::from_reading(read_clock())
    }

    /// The point in time that lies `span` later.
    pub fn plus(self, span: Span) -> (later: Self)
        requires
            self.can_add(span),
        ensures
            later.nanos == self.nanos + span.total(),
    {
        Timestamp { nanos: self.nanos + (span.secs as i128 * 1_000_000_000 + span.nanos as i128) }
    }

    /// Whether this point lies after `other`.
    pub fn is_after(self, other: Self) -> (b: bool)
        ensures
            b == (self.nanos > other.nanos),
    {
        self.nanos > other.nanos
    }
}

/// A span counts its seconds and nanoseconds in full: it grows by a thousand million with
/// each second, and by one with each nanosecond.
pub proof fn law_span_counts_in_full(a: Span, b: Span)
    ensures
        a.total() - b.total() == (a.secs - b.secs) * 1_000_000_000 + (a.nanos - b.nanos),
        (Span { secs: 0, nanos: 0 }).total() == 0,
        a.total() >= 0,
{
}

/// A clock reading after the epoch counts as the span that it gives, and one before the
/// epoch as the same span backwards.
pub proof fn law_readings_mirror(secs: u64, nanos: u32)
    ensures
        reading_nanos(Ok((secs, nanos))) == (Span { secs, nanos }).total(),
        reading_nanos(Err((secs, nanos))) == -reading_nanos(Ok((secs, nanos))),
{
}

} // verus!
