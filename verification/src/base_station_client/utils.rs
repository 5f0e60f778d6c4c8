//! A cell that holds the latest value of some telemetry together with the
//! moment it arrived, and the rule that picks the freshest of a robot's cells.
use vstd::prelude::*;
use std::time::Duration;
use std::time::Instant;

verus! {

/// `std::time::Instant`, a reading of the monotonic clock. Verus is told that
/// the type exists and nothing of what a value holds.
#[verifier::external_type_specification]
#[verifier::external_body]
pub struct ExInstant(Instant);

/// Calls `Instant::now`. The result is whatever the clock reads, so the
/// contract claims nothing of it.
#[verifier::external_body]
pub(crate) fn clock_now() -> Instant {
    Instant::now()
}

/// Calls `Instant::elapsed`: the time that passed since `since`. It depends
/// on the clock, so the contract claims nothing of it.
#[verifier::external_body]
pub(crate) fn clock_elapsed(since: &Instant) -> Duration {
    since.elapsed()
}

/// Calls `Duration::as_nanos`: the whole number of nanoseconds in `span`.
/// A `Duration` is opaque to Verus, so the contract claims nothing of the
/// number.
#[verifier::external_body]
pub(crate) fn span_nanos(span: &Duration) -> u128 {
    span.as_nanos()
}

/// Either nothing yet, or a value with the moment at which it was stored.
#[derive(Copy, Debug)]
pub enum Stamped<T> {
    Have(Instant, T),
    NothingYet,
}

impl<T: Copy> Clone for Stamped<T> {
    fn clone(&self) -> (cell: Self)
        ensures
            cell == *self,
    {
        *self
    }
}

impl<T: Copy> Stamped<T> {
    /// The value this cell holds, if it holds one.
    pub open spec fn value(&self) -> Option<T> {
        match self {
            Stamped::Have(_, val) => Some(*val),
            Stamped::NothingYet => None,
        }
    }

    /// A cell that holds `val`, stamped with the present moment.
    pub fn make_now(val: T) -> (cell: Stamped<T>)
        ensures
            cell.value() == Some(val),
    {
        Stamped::Have(clock_now(), val)
    }

    /// Stores `val` in this cell, stamped with the present moment.
    pub fn update(&mut self, val: T)
        ensures
            final(self).value() == Some(val),
    {
        *self = Stamped::Have(clock_now(), val)
    }

    /// The time that passed since the value was stored; `None` exactly when
    /// the cell holds nothing.
    pub fn time_since(&self) -> (age: Option<Duration>)
        ensures
            age is Some <==> self.value() is Some,
    {
        match self {
            Stamped::NothingYet => None,
            Stamped::Have(timestamp, _) => Some(clock_elapsed(timestamp)),
        }
    }

    /// Applies `f` to the value of this cell; `None` exactly when the cell
    /// holds nothing.
    #[inline]
    pub fn have<U, F>(&self, f: F) -> (out: Option<U>) where F: FnOnce(T) -> U
        requires
            self.value() matches Some(t) ==> f.requires((t,)),
        ensures
            match self.value() {
                Some(t) => out matches Some(u) && f.ensures((t,), u),
                None => out is None,
            },
    {
        match *self {
            Stamped::Have(_, t) => Some(f(t)),
            Stamped::NothingYet => None,
        }
    }
}

/// The three kinds of telemetry that a robot sends of itself.
#[derive(Clone, Copy, Debug, PartialEq, Eq, Structural)]
pub enum Telemetry {
    StatusLF,
    StatusHF,
    ImuReading,
}

/// Age in nanoseconds from which telemetry counts as never received: five
/// minutes.
pub const STALE_NANOS: u128 = 300_000_000_000;

/// Age in nanoseconds below which telemetry shows that a robot is online:
/// 400 milliseconds.
pub const ONLINE_NANOS: u128 = 400_000_000;

/// An age as the rule below counts it: itself while below the stale limit,
/// and the limit where it is not below it or there is no age.
pub open spec fn counted_age(age: Option<u128>) -> int {
    match age {
        Some(a) if a < STALE_NANOS => a as int,
        _ => STALE_NANOS as int,
    }
}

/// The least of the three counted ages.
pub open spec fn least_age(lf: Option<u128>, hf: Option<u128>, imu: Option<u128>) -> int {
    let a = counted_age(lf);
    let b = counted_age(hf);
    let c = counted_age(imu);
    if a <= b && a <= c {
        a
    } else if b <= c {
        b
    } else {
        c
    }
}

/// The kind of telemetry that is freshest: the first of low-frequency status,
/// high-frequency status and inertial reading whose age is the least. `None`
/// where no age is below the stale limit.
pub open spec fn freshest_of(lf: Option<u128>, hf: Option<u128>, imu: Option<u128>) -> Option<
    Telemetry,
> {
    let least = least_age(lf, hf, imu);
    if least >= STALE_NANOS {
        None
    } else if counted_age(lf) == least {
        Some(Telemetry::StatusLF)
    } else if counted_age(hf) == least {
        Some(Telemetry::StatusHF)
    } else {
        Some(Telemetry::ImuReading)
    }
}

/// Picks the freshest kind of telemetry from the age in nanoseconds of each
/// kind, `None` standing for telemetry that never arrived.
pub fn freshest(lf: Option<u128>, hf: Option<u128>, imu: Option<u128>) -> (kind: Option<Telemetry>)
    ensures
        kind == freshest_of(lf, hf, imu),
{
    let mut least: u128 = STALE_NANOS;
    let mut kind: Option<Telemetry> = None;
    if let Some(d) = lf {
        if d < least {
            least = d;
            kind = Some(Telemetry::StatusLF);
        }
    }
    if let Some(d) = hf {
        if d < least {
            least = d;
            kind = Some(Telemetry::StatusHF);
        }
    }
    if let Some(d) = imu {
        if d < least {
            least = d;
            kind = Some(Telemetry::ImuReading);
        }
    }
    kind
}

/// Tells whether an age is one that shows a robot online.
fn shows_online(age: Option<u128>) -> (online: bool)
    ensures
        online == (counted_age(age) < ONLINE_NANOS),
{
    match age {
        Some(a) => a < ONLINE_NANOS,
        None => false,
    }
}

/// Tells from the age in nanoseconds of each kind of telemetry whether the
/// robot is online: whether the least age is below 400 milliseconds.
pub fn fresh_enough(lf: Option<u128>, hf: Option<u128>, imu: Option<u128>) -> (online: bool)
    ensures
        online == (least_age(lf, hf, imu) < ONLINE_NANOS),
{
    shows_online(lf) || shows_online(hf) || shows_online(imu)
}

} // verus!
