//! Wall clock time, as the counters and the round trip computation need it.

use std::sync::Arc;
use std::time::SystemTime;

use vstd::prelude::*;

verus! {

/// Seconds between the NTP epoch (1900) and the Unix epoch (1970).
pub const NTP_UNIX_OFFSET: u64 = 0x83AA7E80;

/// A point in time at or after the Unix epoch: the span since then.
#[derive(Clone, Copy, Debug, PartialEq, Eq, Structural)]
pub struct UnixTime {
    pub secs: u64,
    pub nanos: u32,
}

impl UnixTime {
    /// Nanoseconds since the epoch.
    pub open spec fn total_nanos(self) -> nat {
        self.secs as nat * 1_000_000_000 + self.nanos as nat
    }

    /// Whole milliseconds since the epoch.
    pub open spec fn total_millis(self) -> nat {
        self.total_nanos() / 1_000_000
    }

    /// Whole milliseconds since the epoch.
    pub fn as_millis(&self) -> (millis: u128)
        ensures
            millis == self.total_millis(),
            millis == (self.secs * 1_000_000_000 + self.nanos) / 1_000_000,
    {
        self.secs as u128 * 1000 + (self.nanos / 1_000_000) as u128
    }

    /// The time that lies `millis` milliseconds after the epoch.
    pub fn from_millis(millis: u64) -> (time: UnixTime)
        ensures
            time.total_nanos() == millis * 1_000_000,
            time.secs == millis / 1000,
            time.nanos == millis % 1000 * 1_000_000,
            time.nanos < 1_000_000_000,
    {
        UnixTime { secs: millis / 1000, nanos: (millis % 1000) as u32 * 1_000_000 }
    }
}

/// Nanoseconds between the Unix epoch and `now`; zero for a clock that stands before the epoch.
pub open spec fn nanos_after_epoch(now: Option<UnixTime>) -> nat {
    match now {
        Some(t) => t.total_nanos(),
        None => 0,
    }
}

/// The 64 bit NTP timestamp of `now`: seconds since 1900 in the upper half, the fraction of a
/// second, in units of 2^-32 s, in the lower. The nanosecond count is taken modulo 2^64 and the
/// seconds modulo 2^32.
pub open spec fn ntp_timestamp(now: Option<UnixTime>) -> nat {
    let u = nanos_after_epoch(now) % 0x1_0000_0000_0000_0000;
    let seconds = (u / 1_000_000_000 + NTP_UNIX_OFFSET as nat) % 0x1_0000_0000;
    let fraction = (u % 1_000_000_000) * 0x1_0000_0000 / 1_000_000_000;
    seconds * 0x1_0000_0000 + fraction
}

/// The middle 32 bits of the NTP timestamp of `now`, the form in which RTCP reports carry time.
pub open spec fn ntp_middle_bits(now: Option<UnixTime>) -> u32 {
    ((ntp_timestamp(now) / 0x1_0000) % 0x1_0000_0000) as u32
}

/// The NTP timestamp of a wall clock reading. `None` stands for a clock before the Unix epoch,
/// which reads as the epoch itself.
pub fn unix2ntp(now: Option<UnixTime>) -> (ntp: u64)
    ensures
        ntp == ntp_timestamp(now),
        ({
            let u = match now {
                Some(t) => (t.secs * 1_000_000_000 + t.nanos) % 0x1_0000_0000_0000_0000,
                None => 0,
            };
            ntp == (u / 1_000_000_000 + 0x83AA7E80) % 0x1_0000_0000 * 0x1_0000_0000 + (u
                % 1_000_000_000) * 0x1_0000_0000 / 1_000_000_000
        }),
{
    let nanos: u128 = match now {
        Some(t) => t.secs as u128 * 1_000_000_000 + t.nanos as u128,
        None => 0,
    };
    let u: u64 = (nanos % 0x1_0000_0000_0000_0000) as u64;
    let s: u64 = u / 1_000_000_000 + NTP_UNIX_OFFSET;
    let r: u64 = u % 1_000_000_000;
    assert(r << 32 == r * 0x1_0000_0000) by (bit_vector)
        requires
            r < 1_000_000_000,
    ;
    let f: u64 = (r << 32) / 1_000_000_000;
    assert(f < 0x1_0000_0000);
    assert((s << 32) | f == (s % 0x1_0000_0000) * 0x1_0000_0000 + f) by (bit_vector)
        requires
            f < 0x1_0000_0000,
    ;
    (s << 32) | f
}

/// The middle 32 bits of the NTP timestamp of a wall clock reading.
pub fn ntp_middle(now: Option<UnixTime>) -> (middle: u32)
    ensures
        middle == ntp_middle_bits(now),
        ({
            let u = match now {
                Some(t) => (t.secs * 1_000_000_000 + t.nanos) % 0x1_0000_0000_0000_0000,
                None => 0,
            };
            middle == (u * 0x1_0000 / 1_000_000_000 + 0x83AA7E80 * 0x1_0000) % 0x1_0000_0000
        }),
{
    let ntp: u64 = unix2ntp(now);
    proof {
        crate::behavior::law_ntp_middle_bits(now);
    }
    assert((ntp >> 16) as u32 == (ntp / 0x1_0000) % 0x1_0000_0000) by (bit_vector);
    (ntp >> 16) as u32
}

/// Reads the system's wall clock with `SystemTime::now`; `None` when it stands before the Unix
/// epoch. Nothing is promised of the time itself, only that the part of a second that
/// `Duration::subsec_nanos` gives is less than a second.
#[verifier::external_body]
fn system_now() -> (now: Option<UnixTime>)
    ensures
        now matches Some(t) ==> t.nanos < 1_000_000_000,
{
    let elapsed = SystemTime::now().duration_since(SystemTime::UNIX_EPOCH);
    elapsed.ok().map(|d| UnixTime { secs: d.as_secs(), nanos: d.subsec_nanos() })
}

/// Whether `now` is a reading of the system's wall clock.
pub closed spec fn system_reading(now: Option<UnixTime>) -> bool {
    call_ensures(system_now, (), now)
}

/// A reading of the system's clock is one that `SystemTime::now` has given, as it was given.
proof fn law_system_readings(now: Option<UnixTime>)
    ensures
        system_reading(now) ==> call_ensures(system_now, (), now),
{
}

/// Reads the system's wall clock; `None` when it stands before the Unix epoch.
pub fn read_system_clock() -> (now: Option<UnixTime>)
    ensures
        system_reading(now),
        now matches Some(t) ==> t.nanos < 1_000_000_000,
{
    system_now()
}

/// Where the current time comes from.
pub enum Clock<F> {
    /// The system's wall clock.
    System,
    /// A function that stands in for it.
    Custom(Arc<F>),
}

impl<F: Fn() -> Option<UnixTime>> Clock<F> {
    /// Whether the clock can be read: the function that stands in for it may be called.
    pub open spec fn readable(self) -> bool {
        self matches Clock::Custom(f) ==> call_requires(*f, ())
    }

    /// Whether `now` is a reading that this clock can give.
    pub open spec fn may_read(self, now: Option<UnixTime>) -> bool {
        match self {
            Clock::System => system_reading(now) && (now matches Some(t) ==> t.nanos
                < 1_000_000_000),
            Clock::Custom(f) => call_ensures(*f, (), now),
        }
    }

    /// Reads the clock.
    pub fn now(&self) -> (now: Option<UnixTime>)
        requires
            self.readable(),
        ensures
            self.may_read(now),
    {
        match self {
            Clock::System => read_system_clock(),
            Clock::Custom(f) => (**f)(),
        }
    }
}

} // verus!
