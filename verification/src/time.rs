//! Time function set: points in time, and the offset between the client's clock and the server's.
use std::time::{Duration, SystemTime, SystemTimeError, UNIX_EPOCH};
use vstd::prelude::*;

verus! {

/// Nanoseconds in a second.
pub const NANOS_PER_SEC: u32 = 1_000_000_000;

/// A point in time, as whole seconds since the Unix epoch (negative before it) and the
/// nanoseconds past that second.
#[derive(Clone, Copy, Debug, PartialEq, Eq, Structural)]
pub struct SEPTime {
    secs: i64,
    nanos: u32,
}

/// The abstract value of a point in time: (seconds, nanoseconds).
pub struct TimeView {
    pub secs: int,
    pub nanos: int,
}

impl View for SEPTime {
    type V = TimeView;

    closed spec fn view(&self) -> TimeView {
        TimeView { secs: self.secs as int, nanos: self.nanos as int }
    }
}

/// `a` comes before `b`.
pub open spec fn time_before(a: TimeView, b: TimeView) -> bool {
    a.secs < b.secs || (a.secs == b.secs && a.nanos < b.nanos)
}

/// The time `rhs` seconds after `t` (before it, if `rhs` is negative).
pub open spec fn time_plus(t: TimeView, rhs: int) -> TimeView {
    TimeView { secs: t.secs + rhs, nanos: t.nanos }
}

/// The time that a reading of the system clock stands for: `secs` seconds and `nanos`
/// nanoseconds after the Unix epoch, or before it when `after_epoch` is false. A reading
/// beyond the range of `i64` seconds is held at the bound.
pub open spec fn clock_time(after_epoch: bool, secs: u64, nanos: u32) -> TimeView {
    if after_epoch {
        TimeView { secs: if secs > i64::MAX { i64::MAX as int } else { secs as int }, nanos: nanos as int }
    } else if secs >= i64::MAX {
        TimeView { secs: i64::MIN as int, nanos: 0 }
    } else if nanos == 0 {
        TimeView { secs: -secs, nanos: 0 }
    } else {
        TimeView { secs: -secs - 1, nanos: NANOS_PER_SEC - nanos }
    }
}

/// Some reading of the system clock stands for the time.
pub open spec fn is_clock_time(t: TimeView) -> bool {
    exists|after_epoch: bool, secs: u64, nanos: u32|
        nanos < NANOS_PER_SEC && t == #[trigger] clock_time(after_epoch, secs, nanos)
}

/// The system clock's time type of std, carried through opaquely.
#[verifier::external_type_specification]
#[verifier::external_body]
pub struct ExSystemTime(std::time::SystemTime);

/// The error of std's `SystemTime::duration_since`, carried through opaquely.
#[verifier::external_type_specification]
#[verifier::external_body]
pub struct ExSystemTimeError(std::time::SystemTimeError);

/// Calls `std::time::SystemTime::now`: a reading of the system clock. Nothing is promised of it.
#[verifier::external_body]
fn system_time_now() -> (t: SystemTime) {
    SystemTime::now()
}

/// Calls `std::time::SystemTime::duration_since` with the Unix epoch: the distance from the
/// epoch to a time after it, or an error holding the distance to a time before it.
#[verifier::external_body]
fn since_epoch(t: &SystemTime) -> (r: Result<Duration, SystemTimeError>) {
    t.duration_since(UNIX_EPOCH)
}

/// Calls `std::time::SystemTimeError::duration`: the distance the error reports.
#[verifier::external_body]
fn error_distance(e: &SystemTimeError) -> (d: Duration) {
    e.duration()
}

/// Calls `std::time::Duration::as_secs`: the whole seconds of a duration.
#[verifier::external_body]
fn whole_secs(d: &Duration) -> (s: u64) {
    d.as_secs()
}

/// Calls `std::time::Duration::subsec_nanos`: the fractional part of a duration in
/// nanoseconds, which std documents as less than one billion.
#[verifier::external_body]
fn fraction_nanos(d: &Duration) -> (n: u32)
    ensures
        n < NANOS_PER_SEC,
{
    d.subsec_nanos()
}

impl SEPTime {
    #[verifier::type_invariant]
    spec fn inv(self) -> bool {
        self.nanos < NANOS_PER_SEC
    }

    /// The point in time `secs` seconds and `nanos` nanoseconds after the Unix epoch.
    pub fn from_parts(secs: i64, nanos: u32) -> (t: SEPTime)
        requires
            nanos < NANOS_PER_SEC,
        ensures
            t@ == (TimeView { secs: secs as int, nanos: nanos as int }),
    {
        SEPTime { secs, nanos }
    }

    /// Whole seconds since the Unix epoch (negative before it).
    pub fn secs(&self) -> (s: i64)
        ensures
            s == self@.secs,
    {
        self.secs
    }

    /// Nanoseconds past the whole second.
    pub fn subsec_nanos(&self) -> (n: u32)
        ensures
            n == self@.nanos,
            n < NANOS_PER_SEC,
    {
        proof {
            use_type_invariant(self);
        }
        self.nanos
    }

    /// The current time of the system clock: the time that some reading of the clock stands for.
    pub fn now() -> (t: SEPTime)
        ensures
            0 <= t@.nanos < NANOS_PER_SEC,
            is_clock_time(t@),
    {
        let clock = system_time_now();
        match since_epoch(&clock) {
            Ok(d) => Self::from_clock(true, whole_secs(&d), fraction_nanos(&d)),
            Err(e) => {
                let d = error_distance(&e);
                Self::from_clock(false, whole_secs(&d), fraction_nanos(&d))
            },
        }
    }

    /// The time that a reading of the system clock stands for: its distance from the Unix
    /// epoch, after it or before it, in whole seconds and sub-second nanoseconds.
    pub fn from_clock(after_epoch: bool, secs: u64, nanos: u32) -> (t: SEPTime)
        requires
            nanos < NANOS_PER_SEC,
        ensures
            t@ == clock_time(after_epoch, secs, nanos),
            0 <= t@.nanos < NANOS_PER_SEC,
    {
        if after_epoch {
            // A clock reading further than `i64::MAX` seconds from the epoch is held at that bound.
            let s: i64 = if secs > 0x7fff_ffff_ffff_ffff { 0x7fff_ffff_ffff_ffff } else { secs as i64 };
            SEPTime { secs: s, nanos }
        } else if secs >= 0x7fff_ffff_ffff_ffff {
            SEPTime { secs: -0x7fff_ffff_ffff_ffff - 1, nanos: 0 }
        } else if nanos == 0 {
            SEPTime { secs: -(secs as i64), nanos: 0 }
        } else {
            SEPTime { secs: -(secs as i64) - 1, nanos: NANOS_PER_SEC - nanos }
        }
    }

    /// The time `rhs` seconds later (earlier, for a negative `rhs`).
    pub fn add_secs(self, rhs: i64) -> (t: SEPTime)
        requires
            i64::MIN <= self@.secs + rhs <= i64::MAX,
        ensures
            t@ == time_plus(self@, rhs as int),
    {
        proof {
            use_type_invariant(&self);
        }
        SEPTime { secs: self.secs + rhs, nanos: self.nanos }
    }

    /// The time `rhs` seconds later (earlier, for a negative `rhs`), if it can be represented.
    pub fn checked_add_secs(self, rhs: i64) -> (t: Option<SEPTime>)
        ensures
            match t {
                Some(t) => i64::MIN <= self@.secs + rhs <= i64::MAX && t@ == time_plus(self@, rhs as int),
                None => !(i64::MIN <= self@.secs + rhs <= i64::MAX),
            },
    {
        match self.secs.checked_add(rhs) {
            Some(secs) => {
                proof {
                    use_type_invariant(&self);
                }
                Some(SEPTime { secs, nanos: self.nanos })
            },
            None => None,
        }
    }

    /// Whether this time comes before `other`.
    pub fn is_before(&self, other: &SEPTime) -> (b: bool)
        ensures
            b == time_before(self@, other@),
    {
        self.secs < other.secs || (self.secs == other.secs && self.nanos < other.nanos)
    }

    /// Whole seconds since the Unix epoch, for a time not before it.
    pub fn unix_secs(&self) -> (s: u64)
        requires
            self@.secs >= 0,
        ensures
            s == self@.secs,
    {
        self.secs as u64
    }

    /// Whole seconds since the Unix epoch, as a signed count, for a time not before it.
    pub fn unix_secs_i64(&self) -> (s: i64)
        requires
            self@.secs >= 0,
        ensures
            s == self@.secs,
    {
        self.unix_secs() as i64
    }
}

/// Return the current time: the time that some reading of the system clock stands for.
pub fn current_time() -> (t: SEPTime)
    ensures
        0 <= t@.nanos < NANOS_PER_SEC,
        is_clock_time(t@),
{
    SEPTime::now()
}

/// The current time moved by `offset` seconds, given the current time `clock`: the moved time
/// if it can be represented, and `None` otherwise.
pub open spec fn spec_with_offset(clock: TimeView, offset: int) -> Option<TimeView> {
    if i64::MIN <= clock.secs + offset <= i64::MAX {
        Some(time_plus(clock, offset))
    } else {
        None
    }
}

/// Return the current time with a time offset applied, if the result can be represented:
/// for some reading of the system clock, the time it stands for moved by `offset` seconds.
pub fn current_time_with_offset(offset: i64) -> (t: Option<SEPTime>)
    ensures
        t matches Some(t) ==> 0 <= t@.nanos < NANOS_PER_SEC,
        exists|clock: TimeView|
            is_clock_time(clock) && #[trigger] spec_with_offset(clock, offset as int) == (match t {
                Some(t) => Some(t@),
                None => None,
            }),
{
    let now = current_time();
    let t = now.checked_add_secs(offset);
    assert(spec_with_offset(now@, offset as int) == (match t {
        Some(t) => Some(t@),
        None => None,
    }));
    t
}

/// The offset between a server's clock and the local one: the server's current time in seconds,
/// as a `Time` resource reports it, less the local time in seconds.
pub open spec fn spec_time_offset(server_time: int, local: TimeView) -> int {
    server_time - local.secs
}

/// Given the current time a server reports and the local time, compute the offset to apply to
/// local times so that they follow the server's clock.
pub fn time_offset(server_time: i64, local: SEPTime) -> (offset: i64)
    requires
        local@.secs >= 0,
        i64::MIN <= server_time - local@.secs <= i64::MAX,
    ensures
        offset == spec_time_offset(server_time as int, local@),
{
    server_time - local.unix_secs_i64()
}

/// A local time moved by the offset computed at that time reads the server's time.
pub proof fn lemma_offset_reads_server_time(server_time: int, local: TimeView)
    ensures
        time_plus(local, spec_time_offset(server_time, local)).secs == server_time,
{
}

/// With the offset computed when the local clock read `then`, a later local reading `now`
/// reads the server's time advanced by the local time elapsed since.
pub proof fn lemma_offset_follows_server_clock(server_time: int, then: TimeView, now: TimeView)
    ensures
        time_plus(now, spec_time_offset(server_time, then)).secs == server_time + (now.secs - then.secs),
        time_plus(now, spec_time_offset(server_time, then)).nanos == now.nanos,
{
}

/// The seconds of a time fit in an `i64`.
pub proof fn lemma_secs_in_range(t: SEPTime)
    ensures
        i64::MIN <= t@.secs <= i64::MAX,
{
}

/// Moving a time by `a` seconds and then by `b` moves it by `a + b`.
pub proof fn lemma_time_plus_assoc(t: TimeView, a: int, b: int)
    ensures
        time_plus(time_plus(t, a), b) == time_plus(t, a + b),
{
}

/// A time moved forward by a positive number of seconds comes after it, and moved backward
/// comes before it.
pub proof fn lemma_time_plus_order(t: TimeView, a: int)
    ensures
        a > 0 ==> time_before(t, time_plus(t, a)),
        a < 0 ==> time_before(time_plus(t, a), t),
        a == 0 ==> time_plus(t, a) == t,
{
}

} // verus!
