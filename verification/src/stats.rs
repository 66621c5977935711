//! The writing and the reading halves of the counters.

use vstd::prelude::*;

use crate::rtt::RttMs;
use crate::store::{RtcpCounts, RtpCounts, StatsStore, StoreView};
use crate::time::{read_system_clock, UnixTime};

verus! {

/// Records stats about a given RTP stream.
pub struct RTPStats {
    place: usize,
}

impl RTPStats {
    /// Where in a store the counters are kept.
    pub closed spec fn place(self) -> nat {
        self.place as nat
    }

    /// Whether `store` holds the counters.
    pub open spec fn in_store(self, store: StoreView) -> bool {
        self.place() < store.rtp.len()
    }

    /// The counters.
    pub open spec fn counts(self, store: StoreView) -> RtpCounts {
        store.rtp[self.place() as int]
    }

    /// The store after `packets` more packets on this stream at the time `now`.
    pub open spec fn after_update(
        self,
        store: StoreView,
        header_bytes: u64,
        payload_bytes: u64,
        packets: u64,
        now: Option<UnixTime>,
    ) -> StoreView {
        store.set_rtp(
            self.place(),
            self.counts(store).updated(header_bytes, payload_bytes, packets, now),
        )
    }

    /// New counters, all at zero.
    pub fn new(store: &mut StatsStore) -> (stats: RTPStats)
        ensures
            final(store)@ == old(store)@.add_rtp(),
            stats.place() == old(store)@.rtp.len(),
    {
        RTPStats { place: store.add_rtp() }
    }

    /// Counts `packets` more packets with these many header and payload bytes, sent or received
    /// just now.
    pub fn update(
        &self,
        store: &mut StatsStore,
        header_bytes: u64,
        payload_bytes: u64,
        packets: u64,
    )
        requires
            self.in_store(old(store)@),
        ensures
            exists|now: Option<UnixTime>|
                crate::time::system_reading(now) && final(store)@ == #[trigger] self.after_update(
                    old(store)@,
                    header_bytes,
                    payload_bytes,
                    packets,
                    now,
                ),
    {
        let now = read_system_clock();
        self.update_at(store, header_bytes, payload_bytes, packets, now);
    }

    /// Counts `packets` more packets with these many header and payload bytes, sent or received
    /// at the time `now`; `None` stands for a clock before the Unix epoch.
    pub fn update_at(
        &self,
        store: &mut StatsStore,
        header_bytes: u64,
        payload_bytes: u64,
        packets: u64,
        now: Option<UnixTime>,
    )
        requires
            self.in_store(old(store)@),
        ensures
            final(store)@ == self.after_update(
                old(store)@,
                header_bytes,
                payload_bytes,
                packets,
                now,
            ),
    {
        let mut counts = store.rtp(self.place);
        counts.header_bytes = counts.header_bytes.wrapping_add(header_bytes);
        counts.payload_bytes = counts.payload_bytes.wrapping_add(payload_bytes);
        counts.packets = counts.packets.wrapping_add(packets);

        if let Some(time) = now {
            let millis: u128 = time.as_millis();
            // Truncated from 128 bits to 64, which still leaves some 500 million years.
            counts.last_packet_timestamp = (millis % 0x1_0000_0000_0000_0000) as u64;
        }
        store.set_rtp(self.place, counts);
    }

    /// A reader of these counters. It sees every update, later ones too.
    pub fn reader(&self) -> (reader: RTPStatsReader)
        ensures
            reader.place() == self.place(),
    {
        RTPStatsReader { place: self.place }
    }
}

/// Reader half of RTPStats.
#[derive(Clone, Copy)]
pub struct RTPStatsReader {
    place: usize,
}

impl RTPStatsReader {
    /// Where in a store the counters are kept.
    pub closed spec fn place(self) -> nat {
        self.place as nat
    }

    /// Whether `store` holds the counters.
    pub open spec fn in_store(self, store: StoreView) -> bool {
        self.place() < store.rtp.len()
    }

    /// The counters.
    pub open spec fn counts(self, store: StoreView) -> RtpCounts {
        store.rtp[self.place() as int]
    }

    /// Get packets sent or received.
    pub fn packets(&self, store: &StatsStore) -> (packets: u64)
        requires
            self.in_store(store@),
        ensures
            packets == self.counts(store@).packets,
            packets == store@.rtp[self.place() as int].packets,
    {
        store.rtp(self.place).packets
    }

    /// Get header bytes sent or received.
    pub fn header_bytes(&self, store: &StatsStore) -> (header_bytes: u64)
        requires
            self.in_store(store@),
        ensures
            header_bytes == self.counts(store@).header_bytes,
            header_bytes == store@.rtp[self.place() as int].header_bytes,
    {
        store.rtp(self.place).header_bytes
    }

    /// Get payload bytes sent or received.
    pub fn payload_bytes(&self, store: &StatsStore) -> (payload_bytes: u64)
        requires
            self.in_store(store@),
        ensures
            payload_bytes == self.counts(store@).payload_bytes,
            payload_bytes == store@.rtp[self.place() as int].payload_bytes,
    {
        store.rtp(self.place).payload_bytes
    }

    /// When the last packet was sent or received, to the millisecond; the Unix epoch where none
    /// was.
    pub fn last_packet_timestamp(&self, store: &StatsStore) -> (time: UnixTime)
        requires
            self.in_store(store@),
        ensures
            time.total_nanos() == self.counts(store@).last_packet_timestamp * 1_000_000,
            time.secs == store@.rtp[self.place() as int].last_packet_timestamp / 1000,
            time.nanos == store@.rtp[self.place() as int].last_packet_timestamp % 1000 * 1_000_000,
            time.nanos < 1_000_000_000,
    {
        UnixTime::from_millis(store.rtp(self.place).last_packet_timestamp)
    }

    /// All the counters at once, to be printed.
    pub fn snapshot(&self, store: &StatsStore) -> (counts: RtpCounts)
        requires
            self.in_store(store@),
        ensures
            counts == self.counts(store@),
    {
        store.rtp(self.place)
    }
}

/// Records the RTCP feedback about a given stream.
#[derive(Clone, Copy)]
pub struct RTCPStats {
    table: usize,
    ssrc: u32,
}

impl RTCPStats {
    /// The table in a store that has the entry.
    pub closed spec fn table(self) -> nat {
        self.table as nat
    }

    /// The stream that the feedback is about.
    pub closed spec fn ssrc(self) -> u32 {
        self.ssrc
    }

    /// Whether `store` has the entry.
    pub open spec fn in_store(self, store: StoreView) -> bool {
        &&& self.table() < store.rtcp.len()
        &&& store.rtcp[self.table() as int].contains_key(self.ssrc())
    }

    /// The entry.
    pub open spec fn counts(self, store: StoreView) -> RtcpCounts {
        store.feedback(self.table(), self.ssrc())
    }

    /// The store with the entry replaced.
    pub open spec fn set(self, store: StoreView, counts: RtcpCounts) -> StoreView {
        store.set_feedback(self.table(), self.ssrc(), counts)
    }

    fn read(&self, store: &StatsStore) -> (counts: RtcpCounts)
        requires
            self.in_store(store@),
        ensures
            counts == self.counts(store@),
    {
        read_feedback(store, self.table, self.ssrc)
    }

    /// A reader of this entry. It sees everything that is written to it, later on too.
    pub fn get_reader(&self) -> (reader: RTCPStatsReader)
        ensures
            reader.table() == self.table(),
            reader.ssrc() == self.ssrc(),
    {
        RTCPStatsReader { table: self.table, ssrc: self.ssrc }
    }

    /// Sets the round trip time.
    pub fn write_rtt_ms(&self, store: &mut StatsStore, rtt_ms: RttMs)
        requires
            self.in_store(old(store)@),
        ensures
            final(store)@ == self.set(old(store)@, self.counts(old(store)@).with_rtt_ms(rtt_ms)),
    {
        let mut counts = self.read(store);
        counts.rtt_ms = rtt_ms;
        store.set_feedback(self.table, self.ssrc, counts);
    }

    /// Sets the fraction of packets lost.
    pub fn write_loss(&self, store: &mut StatsStore, loss: u8)
        requires
            self.in_store(old(store)@),
        ensures
            final(store)@ == self.set(old(store)@, self.counts(old(store)@).with_loss(loss)),
    {
        let mut counts = self.read(store);
        counts.loss = loss;
        store.set_feedback(self.table, self.ssrc, counts);
    }

    /// Adds to the full intra requests.
    pub fn write_fir(&self, store: &mut StatsStore, fir_count: u64)
        requires
            self.in_store(old(store)@),
        ensures
            final(store)@ == self.set(old(store)@, self.counts(old(store)@).with_fir(fir_count as int)),
    {
        let mut counts = self.read(store);
        counts.fir_count = counts.fir_count.wrapping_add(fir_count);
        store.set_feedback(self.table, self.ssrc, counts);
    }

    /// Adds to the picture loss indications.
    pub fn write_pli(&self, store: &mut StatsStore, pli_count: u64)
        requires
            self.in_store(old(store)@),
        ensures
            final(store)@ == self.set(old(store)@, self.counts(old(store)@).with_pli(pli_count as int)),
    {
        let mut counts = self.read(store);
        counts.pli_count = counts.pli_count.wrapping_add(pli_count);
        store.set_feedback(self.table, self.ssrc, counts);
    }

    /// Adds to the packets reported as lost.
    pub fn write_nack(&self, store: &mut StatsStore, nack_count: u64)
        requires
            self.in_store(old(store)@),
        ensures
            final(store)@ == self.set(old(store)@, self.counts(old(store)@).with_nack(nack_count as int)),
    {
        let mut counts = self.read(store);
        counts.nack_count = counts.nack_count.wrapping_add(nack_count);
        store.set_feedback(self.table, self.ssrc, counts);
    }
}

/// Reader half of RTCPStats.
#[derive(Clone, Copy)]
pub struct RTCPStatsReader {
    table: usize,
    ssrc: u32,
}

impl RTCPStatsReader {
    /// The table in a store that has the entry.
    pub closed spec fn table(self) -> nat {
        self.table as nat
    }

    /// The stream that the feedback is about.
    pub closed spec fn ssrc(self) -> u32 {
        self.ssrc
    }

    /// Whether `store` has the entry.
    pub open spec fn in_store(self, store: StoreView) -> bool {
        &&& self.table() < store.rtcp.len()
        &&& store.rtcp[self.table() as int].contains_key(self.ssrc())
    }

    /// The entry.
    pub open spec fn counts(self, store: StoreView) -> RtcpCounts {
        store.feedback(self.table(), self.ssrc())
    }

    /// The round trip time in the last receiver report.
    pub fn rtt_ms(&self, store: &StatsStore) -> (rtt_ms: RttMs)
        requires
            self.in_store(store@),
        ensures
            rtt_ms == self.counts(store@).rtt_ms,
            rtt_ms == store@.rtcp[self.table() as int][self.ssrc()].rtt_ms,
    {
        read_feedback(store, self.table, self.ssrc).rtt_ms
    }

    /// The number of full intra requests.
    pub fn fir_count(&self, store: &StatsStore) -> (fir_count: u64)
        requires
            self.in_store(store@),
        ensures
            fir_count == self.counts(store@).fir_count,
            fir_count == store@.rtcp[self.table() as int][self.ssrc()].fir_count,
    {
        read_feedback(store, self.table, self.ssrc).fir_count
    }

    /// The number of picture loss indications.
    pub fn pli_count(&self, store: &StatsStore) -> (pli_count: u64)
        requires
            self.in_store(store@),
        ensures
            pli_count == self.counts(store@).pli_count,
            pli_count == store@.rtcp[self.table() as int][self.ssrc()].pli_count,
    {
        read_feedback(store, self.table, self.ssrc).pli_count
    }

    /// The number of packets reported as lost.
    pub fn nack_count(&self, store: &StatsStore) -> (nack_count: u64)
        requires
            self.in_store(store@),
        ensures
            nack_count == self.counts(store@).nack_count,
            nack_count == store@.rtcp[self.table() as int][self.ssrc()].nack_count,
    {
        read_feedback(store, self.table, self.ssrc).nack_count
    }

    /// The whole entry at once, to be printed.
    pub fn snapshot(&self, store: &StatsStore) -> (counts: RtcpCounts)
        requires
            self.in_store(store@),
        ensures
            counts == self.counts(store@),
    {
        read_feedback(store, self.table, self.ssrc)
    }
}

fn read_feedback(store: &StatsStore, table: usize, ssrc: u32) -> (counts: RtcpCounts)
    requires
        table < store@.rtcp.len(),
        store@.rtcp[table as int].contains_key(ssrc),
    ensures
        counts == store@.feedback(table as nat, ssrc),
{
    store.feedback(table, ssrc).unwrap()
}

impl StatsStore {
    /// The entry of `ssrc` in a table, which is added with nothing in it where there was none.
    pub(crate) fn get_or_create(&mut self, table: usize, ssrc: u32) -> (stats: RTCPStats)
        requires
            table < old(self)@.rtcp.len(),
        ensures
            final(self)@ == old(self)@.get_or_create(table as nat, ssrc),
            stats.table() == table,
            stats.ssrc() == ssrc,
            stats.in_store(final(self)@),
            if old(self)@.rtcp[table as int].contains_key(ssrc) {
                final(self)@ == old(self)@
            } else {
                let entry = final(self)@.rtcp[table as int][ssrc];
                &&& entry.rtt_ms == (RttMs { seconds: 0, fraction: 0 })
                &&& entry.loss == 0
                &&& entry.fir_count == 0 && entry.pli_count == 0 && entry.nack_count == 0
            },
    {
        if self.feedback(table, ssrc).is_none() {
            self.set_feedback(
                table,
                ssrc,
                RtcpCounts {
                    rtt_ms: RttMs { seconds: 0, fraction: 0 },
                    loss: 0,
                    fir_count: 0,
                    pli_count: 0,
                    nack_count: 0,
                },
            );
        }
        assert(self@ =~~= old(self)@.get_or_create(table as nat, ssrc));
        RTCPStats { table, ssrc }
    }
}

} // verus!
