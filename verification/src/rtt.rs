//! Round trip times.

use vstd::prelude::*;

verus! {

/// A round trip time of `seconds * 1000 + fraction * 1000 / 65536` milliseconds.
#[derive(Clone, Copy, Debug, PartialEq, Eq, Structural)]
pub struct RttMs {
    pub seconds: u16,
    pub fraction: u16,
}

impl RttMs {
    /// The round trip time between two readings of the middle 32 bits of an NTP clock: the upper
    /// half of their difference counts seconds, the lower half parts of a second.
    pub open spec fn between(now: u32, delay: u32, last_sender_report: u32) -> RttMs {
        let rtt = (now - delay - last_sender_report) % 0x1_0000_0000;
        RttMs { seconds: (rtt / 0x1_0000) as u16, fraction: (rtt % 0x1_0000) as u16 }
    }

    /// The two halves put together again: the round trip time in units of 1/65536 s.
    pub open spec fn fixed_point(self) -> nat {
        self.seconds as nat * 0x1_0000 + self.fraction as nat
    }
}

/// Calculate the round trip time for a given peer as described in
/// [RFC3550 6.4.1](https://datatracker.ietf.org/doc/html/rfc3550#section-6.4.1).
///
/// - `now` the current middle 32 bits of an NTP timestamp for the current time.
/// - `delay` the delay (`DLSR`) since the last sender report, in units of 1/65536 s.
/// - `last_sender_report` the middle 32 bits of an NTP timestamp for the most recent sender
///   report (`LSR`).
///
/// These timestamps wrap around every 18 hours, and so does their difference.
pub fn calculate_rtt_ms(now: u32, delay: u32, last_sender_report: u32) -> (rtt_ms: RttMs)
    ensures
        rtt_ms == RttMs::between(now, delay, last_sender_report),
        rtt_ms.seconds * 0x1_0000 + rtt_ms.fraction == (now - delay - last_sender_report)
            % 0x1_0000_0000,
{
    // [10 Nov 1995 11:33:25.125 UTC]       [10 Nov 1995 11:33:36.5 UTC]
    // n                 SR(n)              A=b710:8000 (46864.500 s)
    // ---------------------------------------------------------------->
    //                    v                 ^
    // ntp_sec =0xb44db705 v               ^ dlsr=0x0005:4000 (    5.250s)
    // ntp_frac=0x20000000  v             ^  lsr =0xb705:2000 (46853.125s)
    //   (3024992005.125 s)  v           ^
    // r                      v         ^ RR(n)
    // ---------------------------------------------------------------->
    //                        |<-DLSR->|
    //                         (5.250 s)
    //
    // A     0xb710:8000 (46864.500 s)
    // DLSR -0x0005:4000 (    5.250 s)
    // LSR  -0xb705:2000 (46853.125 s)
    // -------------------------------
    // delay 0x0006:2000 (    6.125 s)
    let rtt: u32 = now.wrapping_sub(delay).wrapping_sub(last_sender_report);
    assert(rtt == (now - delay - last_sender_report) % 0x1_0000_0000);
    assert(rtt >> 16 == rtt / 0x1_0000) by (bit_vector);
    assert(rtt & 0xFFFF == rtt % 0x1_0000) by (bit_vector);
    RttMs { seconds: (rtt >> 16) as u16, fraction: (rtt & 0xFFFF) as u16 }
}

} // verus!
