//! The memory behind the counters.
//!
//! The writing and the reading half of a set of counters are handles to the same place in a
//! [`StatsStore`]. Whatever is written through the one is seen through the other.

use std::collections::HashMap;

use vstd::prelude::*;

use crate::rtt::RttMs;
use crate::time::UnixTime;

verus! {

broadcast use vstd::std_specs::hash::group_hash_axioms;

/// `n` modulo 2^64.
pub open spec fn wrap64(n: int) -> u64 {
    (n % 0x1_0000_0000_0000_0000) as u64
}

/// The counters of one RTP stream.
#[derive(Clone, Copy, Debug, PartialEq, Eq, Structural)]
pub struct RtpCounts {
    /// Packets sent or received
    pub packets: u64,
    /// Payload bytes sent or received
    pub payload_bytes: u64,
    /// Header bytes sent or received
    pub header_bytes: u64,
    /// When the last packet was sent or received, in milliseconds since the Unix epoch.
    pub last_packet_timestamp: u64,
}

impl RtpCounts {
    /// The counters of a stream on which nothing was sent or received.
    pub open spec fn zero() -> RtpCounts {
        RtpCounts { packets: 0, payload_bytes: 0, header_bytes: 0, last_packet_timestamp: 0 }
    }

    /// The counters after `packets` more packets with these many header and payload bytes at the
    /// time `now`. Each counter wraps around at 2^64. A clock before the Unix epoch (`None`)
    /// leaves the timestamp as it is.
    pub open spec fn updated(
        self,
        header_bytes: u64,
        payload_bytes: u64,
        packets: u64,
        now: Option<UnixTime>,
    ) -> RtpCounts {
        RtpCounts {
            packets: wrap64(self.packets + packets),
            payload_bytes: wrap64(self.payload_bytes + payload_bytes),
            header_bytes: wrap64(self.header_bytes + header_bytes),
            last_packet_timestamp: match now {
                Some(t) => wrap64(t.total_millis() as int),
                None => self.last_packet_timestamp,
            },
        }
    }
}

/// The RTCP feedback seen about one stream.
#[derive(Clone, Copy, Debug, PartialEq, Eq, Structural)]
pub struct RtcpCounts {
    /// The round trip time in the last receiver report
    pub rtt_ms: RttMs,
    /// The fraction of packets lost in the last receiver report, in units of 1/256
    pub loss: u8,
    /// Full intra requests
    pub fir_count: u64,
    /// Picture loss indications
    pub pli_count: u64,
    /// Packets reported as lost
    pub nack_count: u64,
}

impl RtcpCounts {
    /// What is known of a stream about which no feedback was seen.
    pub open spec fn zero() -> RtcpCounts {
        RtcpCounts {
            rtt_ms: RttMs { seconds: 0, fraction: 0 },
            loss: 0,
            fir_count: 0,
            pli_count: 0,
            nack_count: 0,
        }
    }

    pub open spec fn with_rtt_ms(self, rtt_ms: RttMs) -> RtcpCounts {
        RtcpCounts { rtt_ms, ..self }
    }

    pub open spec fn with_loss(self, loss: u8) -> RtcpCounts {
        RtcpCounts { loss, ..self }
    }

    pub open spec fn with_fir(self, n: int) -> RtcpCounts {
        RtcpCounts { fir_count: wrap64(self.fir_count + n), ..self }
    }

    pub open spec fn with_pli(self, n: int) -> RtcpCounts {
        RtcpCounts { pli_count: wrap64(self.pli_count + n), ..self }
    }

    pub open spec fn with_nack(self, n: int) -> RtcpCounts {
        RtcpCounts { nack_count: wrap64(self.nack_count + n), ..self }
    }
}

/// What a [`StatsStore`] holds: the counters of each RTP stream by place, and tables of RTCP
/// feedback by place, each keyed by SSRC.
#[verifier::ext_equal]
pub struct StoreView {
    pub rtp: Seq<RtpCounts>,
    pub rtcp: Seq<Map<u32, RtcpCounts>>,
}

impl StoreView {
    pub open spec fn empty() -> StoreView {
        StoreView { rtp: Seq::empty(), rtcp: Seq::empty() }
    }

    /// The store with one more set of RTP counters, at zero.
    pub open spec fn add_rtp(self) -> StoreView {
        StoreView { rtp: self.rtp.push(RtpCounts::zero()), ..self }
    }

    /// The store with the RTP counters at `place` replaced.
    pub open spec fn set_rtp(self, place: nat, counts: RtpCounts) -> StoreView {
        StoreView { rtp: self.rtp.update(place as int, counts), ..self }
    }

    /// The store with one more table of RTCP feedback, empty.
    pub open spec fn add_rtcp(self) -> StoreView {
        StoreView { rtcp: self.rtcp.push(Map::empty()), ..self }
    }

    /// The feedback about `ssrc` in a table: nothing, where the table has no entry.
    pub open spec fn feedback(self, table: nat, ssrc: u32) -> RtcpCounts {
        if self.rtcp[table as int].contains_key(ssrc) {
            self.rtcp[table as int][ssrc]
        } else {
            RtcpCounts::zero()
        }
    }

    /// The store with the entry of `ssrc` in a table replaced or added.
    pub open spec fn set_feedback(self, table: nat, ssrc: u32, counts: RtcpCounts) -> StoreView {
        StoreView {
            rtcp: self.rtcp.update(
                table as int,
                self.rtcp[table as int].insert(ssrc, counts),
            ),
            ..self
        }
    }

    /// The store with an entry of `ssrc` in a table: the one that was there, or else an empty one.
    pub open spec fn get_or_create(self, table: nat, ssrc: u32) -> StoreView {
        self.set_feedback(table, ssrc, self.feedback(table, ssrc))
    }

    /// The store with an entry of each of `ssrcs` in a table.
    pub open spec fn all_created(self, table: nat, ssrcs: Seq<u32>) -> StoreView
        decreases ssrcs.len(),
    {
        if ssrcs.len() == 0 {
            self
        } else {
            self.all_created(table, ssrcs.drop_last()).get_or_create(table, ssrcs.last())
        }
    }
}

/// The memory in which counters are kept. A place or a table that was given out stays, also when
/// its stream is unbound: readers of it may still be around.
#[derive(Debug)]
pub struct StatsStore {
    rtp: Vec<RtpCounts>,
    rtcp: Vec<HashMap<u32, RtcpCounts>>,
}

impl View for StatsStore {
    type V = StoreView;

    closed spec fn view(&self) -> StoreView {
        StoreView {
            rtp: self.rtp@,
            rtcp: self.rtcp@.map_values(|m: HashMap<u32, RtcpCounts>| m@),
        }
    }
}

impl StatsStore {
    /// A store with nothing in it.
    pub fn new() -> (store: StatsStore)
        ensures
            store@ == StoreView::empty(),
    {
        StatsStore { rtp: Vec::new(), rtcp: Vec::new() }
    }

    /// Adds a set of RTP counters and returns its place.
    pub(crate) fn add_rtp(&mut self) -> (place: usize)
        ensures
            final(self)@ == old(self)@.add_rtp(),
            place == old(self)@.rtp.len(),
    {
        let place: usize = self.rtp.len();
        self.rtp.push(
            RtpCounts { packets: 0, payload_bytes: 0, header_bytes: 0, last_packet_timestamp: 0 },
        );
        place
    }

    pub(crate) fn rtp(&self, place: usize) -> (counts: RtpCounts)
        requires
            place < self@.rtp.len(),
        ensures
            counts == self@.rtp[place as int],
    {
        self.rtp[place]
    }

    pub(crate) fn set_rtp(&mut self, place: usize, counts: RtpCounts)
        requires
            place < old(self)@.rtp.len(),
        ensures
            final(self)@ == old(self)@.set_rtp(place as nat, counts),
    {
        self.rtp[place] = counts;
    }

    /// Adds a table of RTCP feedback and returns its place.
    pub(crate) fn add_rtcp(&mut self) -> (table: usize)
        ensures
            final(self)@ == old(self)@.add_rtcp(),
            table == old(self)@.rtcp.len(),
    {
        let table: usize = self.rtcp.len();
        self.rtcp.push(HashMap::new());
        assert(self@.rtcp =~= old(self)@.rtcp.push(Map::empty()));
        table
    }

    pub(crate) fn feedback(&self, table: usize, ssrc: u32) -> (counts: Option<RtcpCounts>)
        requires
            table < self@.rtcp.len(),
        ensures
            match counts {
                Some(c) => self@.rtcp[table as int].contains_key(ssrc)
                    && c == self@.rtcp[table as int][ssrc],
                None => !self@.rtcp[table as int].contains_key(ssrc),
            },
    {
        match self.rtcp[table].get(&ssrc) {
            Some(c) => Some(*c),
            None => None,
        }
    }

    pub(crate) fn set_feedback(&mut self, table: usize, ssrc: u32, counts: RtcpCounts)
        requires
            table < old(self)@.rtcp.len(),
        ensures
            final(self)@ == old(self)@.set_feedback(table as nat, ssrc, counts),
    {
        self.rtcp[table].insert(ssrc, counts);
        assert(self@.rtcp =~= old(self)@.rtcp.update(
            table as int,
            old(self)@.rtcp[table as int].insert(ssrc, counts),
        ));
    }
}

} // verus!
