//! Recorders: they sit in the path of the packets and keep the stats up to date.

use vstd::prelude::*;

use crate::packet::{count_lost, ReceptionReport, RtcpPacket, RtcpPacketView};
use crate::rtt::{calculate_rtt_ms, RttMs};
use crate::stats::{RTCPStatsReader, RTPStats, RTPStatsReader};
use crate::store::{StatsStore, StoreView};
use crate::time::{read_system_clock, UnixTime};
use crate::wire::{header_marshal_size, read_rtp, PacketError, RtpHeader};

verus! {

/// Records incoming RTCP packets from the remote: the feedback stats in them, keyed by SSRC.
/// Copies share the stats.
#[derive(Clone, Copy)]
pub struct RTCPReadRecorder {
    table: usize,
}

impl RTCPReadRecorder {
    /// The table in a store that has the stats.
    pub closed spec fn table(self) -> nat {
        self.table as nat
    }

    /// Whether `store` has the stats.
    pub open spec fn in_store(self, store: StoreView) -> bool {
        self.table() < store.rtcp.len()
    }

    /// A recorder that has seen nothing.
    pub fn new(store: &mut StatsStore) -> (recorder: RTCPReadRecorder)
        ensures
            final(store)@ == old(store)@.add_rtcp(),
            recorder.table() == old(store)@.rtcp.len(),
    {
        RTCPReadRecorder { table: store.add_rtcp() }
    }

    /// A reader of the stats of `ssrc`.
    pub fn get_reader(&self, store: &mut StatsStore, ssrc: u32) -> (reader: RTCPStatsReader)
        requires
            self.in_store(old(store)@),
        ensures
            final(store)@ == old(store)@.get_or_create(self.table(), ssrc),
            reader.table() == self.table(),
            reader.ssrc() == ssrc,
            reader.in_store(final(store)@),
    {
        let entry = store.get_or_create(self.table, ssrc);
        entry.get_reader()
    }

    /// Sets the round trip time of `ssrc`.
    pub fn write_rtt_ms(&self, store: &mut StatsStore, ssrc: u32, rtt_ms: RttMs)
        requires
            self.in_store(old(store)@),
        ensures
            final(store)@ == old(store)@.set_feedback(
                self.table(),
                ssrc,
                old(store)@.feedback(self.table(), ssrc).with_rtt_ms(rtt_ms),
            ),
    {
        let entry = store.get_or_create(self.table, ssrc);
        proof {
            old(store)@.lemma_created_then_set(self.table(), ssrc);
        }
        entry.write_rtt_ms(store, rtt_ms);
    }

    /// Sets the fraction of packets of `ssrc` that were lost.
    pub fn write_loss(&self, store: &mut StatsStore, ssrc: u32, loss: u8)
        requires
            self.in_store(old(store)@),
        ensures
            final(store)@ == old(store)@.set_feedback(
                self.table(),
                ssrc,
                old(store)@.feedback(self.table(), ssrc).with_loss(loss),
            ),
    {
        let entry = store.get_or_create(self.table, ssrc);
        proof {
            old(store)@.lemma_created_then_set(self.table(), ssrc);
        }
        entry.write_loss(store, loss);
    }

    /// Adds to the full intra requests for `ssrc`.
    pub fn write_fir(&self, store: &mut StatsStore, ssrc: u32, fir_count: u64)
        requires
            self.in_store(old(store)@),
        ensures
            final(store)@ == old(store)@.set_feedback(
                self.table(),
                ssrc,
                old(store)@.feedback(self.table(), ssrc).with_fir(fir_count as int),
            ),
    {
        let entry = store.get_or_create(self.table, ssrc);
        proof {
            old(store)@.lemma_created_then_set(self.table(), ssrc);
        }
        entry.write_fir(store, fir_count);
    }

    /// Adds to the picture loss indications for `ssrc`.
    pub fn write_pli(&self, store: &mut StatsStore, ssrc: u32, pli_count: u64)
        requires
            self.in_store(old(store)@),
        ensures
            final(store)@ == old(store)@.set_feedback(
                self.table(),
                ssrc,
                old(store)@.feedback(self.table(), ssrc).with_pli(pli_count as int),
            ),
    {
        let entry = store.get_or_create(self.table, ssrc);
        proof {
            old(store)@.lemma_created_then_set(self.table(), ssrc);
        }
        entry.write_pli(store, pli_count);
    }

    /// Adds to the packets of `ssrc` reported as lost.
    pub fn write_nack(&self, store: &mut StatsStore, ssrc: u32, nack_count: u64)
        requires
            self.in_store(old(store)@),
        ensures
            final(store)@ == old(store)@.set_feedback(
                self.table(),
                ssrc,
                old(store)@.feedback(self.table(), ssrc).with_nack(nack_count as int),
            ),
    {
        let entry = store.get_or_create(self.table, ssrc);
        proof {
            old(store)@.lemma_created_then_set(self.table(), ssrc);
        }
        entry.write_nack(store, nack_count);
    }

    /// Counts an intra request for each of `ssrcs`.
    fn write_all_fir(&self, store: &mut StatsStore, ssrcs: &Vec<u32>)
        requires
            self.in_store(old(store)@),
        ensures
            final(store)@ == old(store)@.all_intra_requested(self.table(), ssrcs@),
    {
        let mut i: usize = 0;
        assert(ssrcs@.take(0) == Seq::<u32>::empty());
        while i < ssrcs.len()
            invariant
                i <= ssrcs@.len(),
                self.in_store(old(store)@),
                store@ == old(store)@.all_intra_requested(self.table(), ssrcs@.take(i as int)),
            decreases ssrcs@.len() - i,
        {
            proof {
                old(store)@.lemma_all_intra_requested_frame(self.table(), ssrcs@.take(i as int));
                assert(ssrcs@.take(i + 1).drop_last() == ssrcs@.take(i as int));
            }
            self.write_fir(store, ssrcs[i], 1);
            i += 1;
        }
        assert(ssrcs@.take(i as int) == ssrcs@);
    }

    /// Takes note of the blocks of a receiver report that came in at the NTP time `now` (its
    /// middle 32 bits).
    fn write_reports(&self, store: &mut StatsStore, reports: &Vec<ReceptionReport>, now: u32)
        requires
            self.in_store(old(store)@),
        ensures
            final(store)@ == old(store)@.all_reported(self.table(), now, reports@),
    {
        let mut i: usize = 0;
        assert(reports@.take(0) == Seq::<ReceptionReport>::empty());
        while i < reports.len()
            invariant
                i <= reports@.len(),
                self.in_store(old(store)@),
                store@ == old(store)@.all_reported(self.table(), now, reports@.take(i as int)),
            decreases reports@.len() - i,
        {
            let ghost before = store@;
            let recp = reports[i];
            proof {
                old(store)@.lemma_all_reported_frame(self.table(), now, reports@.take(i as int));
                assert(reports@.take(i + 1).drop_last() == reports@.take(i as int));
                let counts = before.feedback(self.table(), recp.ssrc);
                let rtt = RttMs::between(now, recp.delay, recp.last_sender_report);
                before.lemma_set_feedback_twice(
                    self.table(),
                    recp.ssrc,
                    counts.with_rtt_ms(rtt),
                    counts.with_rtt_ms(rtt).with_loss(recp.fraction_lost),
                );
            }
            let rtt_ms = calculate_rtt_ms(now, recp.delay, recp.last_sender_report);
            self.write_rtt_ms(store, recp.ssrc, rtt_ms);
            self.write_loss(store, recp.ssrc, recp.fraction_lost);
            i += 1;
        }
        assert(reports@.take(i as int) == reports@);
    }

    /// Takes note of a batch of packets that came in at the NTP time `now` (its middle 32 bits).
    pub fn record(&self, store: &mut StatsStore, packets: &[RtcpPacket], now: u32)
        requires
            self.in_store(old(store)@),
        ensures
            final(store)@ == old(store)@.all_received(
                self.table(),
                now,
                crate::packet::batch_view(packets@),
            ),
    {
        let ghost views = crate::packet::batch_view(packets@);
        let mut i: usize = 0;
        assert(views.take(0) == Seq::<RtcpPacketView>::empty());
        while i < packets.len()
            invariant
                i <= packets@.len(),
                views == crate::packet::batch_view(packets@),
                self.in_store(old(store)@),
                store@ == old(store)@.all_received(self.table(), now, views.take(i as int)),
            decreases packets@.len() - i,
        {
            proof {
                old(store)@.lemma_all_received_frame(self.table(), now, views.take(i as int));
                assert(views.take(i + 1).drop_last() == views.take(i as int));
            }
            match &packets[i] {
                RtcpPacket::ReceiverReport { reports } => {
                    self.write_reports(store, reports, now);
                },
                RtcpPacket::FullIntraRequest { ssrcs } => {
                    self.write_all_fir(store, ssrcs);
                },
                RtcpPacket::PictureLossIndication { media_ssrc } => {
                    self.write_pli(store, *media_ssrc, 1);
                },
                RtcpPacket::TransportLayerNack { media_ssrc, nacks } => {
                    self.write_nack(store, *media_ssrc, count_lost(nacks.as_slice()));
                },
                RtcpPacket::Other => {},
            }
            i += 1;
        }
        assert(views.take(i as int) == views);
    }
}

/// Records outgoing RTCP packets to the remote: the feedback stats in them, keyed by SSRC.
/// Copies share the stats.
#[derive(Clone, Copy)]
pub struct RTCPWriteRecorder {
    table: usize,
}

impl RTCPWriteRecorder {
    /// The table in a store that has the stats.
    pub closed spec fn table(self) -> nat {
        self.table as nat
    }

    /// Whether `store` has the stats.
    pub open spec fn in_store(self, store: StoreView) -> bool {
        self.table() < store.rtcp.len()
    }

    /// A recorder that has seen nothing.
    pub fn new(store: &mut StatsStore) -> (recorder: RTCPWriteRecorder)
        ensures
            final(store)@ == old(store)@.add_rtcp(),
            recorder.table() == old(store)@.rtcp.len(),
    {
        RTCPWriteRecorder { table: store.add_rtcp() }
    }

    /// A reader of the stats of `ssrc`.
    pub fn get_reader(&self, store: &mut StatsStore, ssrc: u32) -> (reader: RTCPStatsReader)
        requires
            self.in_store(old(store)@),
        ensures
            final(store)@ == old(store)@.get_or_create(self.table(), ssrc),
            reader.table() == self.table(),
            reader.ssrc() == ssrc,
            reader.in_store(final(store)@),
    {
        let entry = store.get_or_create(self.table, ssrc);
        entry.get_reader()
    }

    /// Sets the round trip time of `ssrc`.
    pub fn write_rtt_ms(&self, store: &mut StatsStore, ssrc: u32, rtt_ms: RttMs)
        requires
            self.in_store(old(store)@),
        ensures
            final(store)@ == old(store)@.set_feedback(
                self.table(),
                ssrc,
                old(store)@.feedback(self.table(), ssrc).with_rtt_ms(rtt_ms),
            ),
    {
        let entry = store.get_or_create(self.table, ssrc);
        proof {
            old(store)@.lemma_created_then_set(self.table(), ssrc);
        }
        entry.write_rtt_ms(store, rtt_ms);
    }

    /// Sets the fraction of packets of `ssrc` that were lost.
    pub fn write_loss(&self, store: &mut StatsStore, ssrc: u32, loss: u8)
        requires
            self.in_store(old(store)@),
        ensures
            final(store)@ == old(store)@.set_feedback(
                self.table(),
                ssrc,
                old(store)@.feedback(self.table(), ssrc).with_loss(loss),
            ),
    {
        let entry = store.get_or_create(self.table, ssrc);
        proof {
            old(store)@.lemma_created_then_set(self.table(), ssrc);
        }
        entry.write_loss(store, loss);
    }

    /// Adds to the full intra requests for `ssrc`.
    pub fn write_fir(&self, store: &mut StatsStore, ssrc: u32, fir_count: u64)
        requires
            self.in_store(old(store)@),
        ensures
            final(store)@ == old(store)@.set_feedback(
                self.table(),
                ssrc,
                old(store)@.feedback(self.table(), ssrc).with_fir(fir_count as int),
            ),
    {
        let entry = store.get_or_create(self.table, ssrc);
        proof {
            old(store)@.lemma_created_then_set(self.table(), ssrc);
        }
        entry.write_fir(store, fir_count);
    }

    /// Adds to the picture loss indications for `ssrc`.
    pub fn write_pli(&self, store: &mut StatsStore, ssrc: u32, pli_count: u64)
        requires
            self.in_store(old(store)@),
        ensures
            final(store)@ == old(store)@.set_feedback(
                self.table(),
                ssrc,
                old(store)@.feedback(self.table(), ssrc).with_pli(pli_count as int),
            ),
    {
        let entry = store.get_or_create(self.table, ssrc);
        proof {
            old(store)@.lemma_created_then_set(self.table(), ssrc);
        }
        entry.write_pli(store, pli_count);
    }

    /// Adds to the packets of `ssrc` reported as lost.
    pub fn write_nack(&self, store: &mut StatsStore, ssrc: u32, nack_count: u64)
        requires
            self.in_store(old(store)@),
        ensures
            final(store)@ == old(store)@.set_feedback(
                self.table(),
                ssrc,
                old(store)@.feedback(self.table(), ssrc).with_nack(nack_count as int),
            ),
    {
        let entry = store.get_or_create(self.table, ssrc);
        proof {
            old(store)@.lemma_created_then_set(self.table(), ssrc);
        }
        entry.write_nack(store, nack_count);
    }

    /// Counts an intra request for each of `ssrcs`.
    fn write_all_fir(&self, store: &mut StatsStore, ssrcs: &Vec<u32>)
        requires
            self.in_store(old(store)@),
        ensures
            final(store)@ == old(store)@.all_intra_requested(self.table(), ssrcs@),
    {
        let mut i: usize = 0;
        assert(ssrcs@.take(0) == Seq::<u32>::empty());
        while i < ssrcs.len()
            invariant
                i <= ssrcs@.len(),
                self.in_store(old(store)@),
                store@ == old(store)@.all_intra_requested(self.table(), ssrcs@.take(i as int)),
            decreases ssrcs@.len() - i,
        {
            proof {
                old(store)@.lemma_all_intra_requested_frame(self.table(), ssrcs@.take(i as int));
                assert(ssrcs@.take(i + 1).drop_last() == ssrcs@.take(i as int));
            }
            self.write_fir(store, ssrcs[i], 1);
            i += 1;
        }
        assert(ssrcs@.take(i as int) == ssrcs@);
    }

    /// Takes note of a batch of packets that goes out.
    pub fn record(&self, store: &mut StatsStore, packets: &[RtcpPacket])
        requires
            self.in_store(old(store)@),
        ensures
            final(store)@ == old(store)@.all_sent(
                self.table(),
                crate::packet::batch_view(packets@),
            ),
    {
        let ghost views = crate::packet::batch_view(packets@);
        let mut i: usize = 0;
        assert(views.take(0) == Seq::<RtcpPacketView>::empty());
        while i < packets.len()
            invariant
                i <= packets@.len(),
                views == crate::packet::batch_view(packets@),
                self.in_store(old(store)@),
                store@ == old(store)@.all_sent(self.table(), views.take(i as int)),
            decreases packets@.len() - i,
        {
            proof {
                old(store)@.lemma_all_sent_frame(self.table(), views.take(i as int));
                assert(views.take(i + 1).drop_last() == views.take(i as int));
            }
            match &packets[i] {
                RtcpPacket::FullIntraRequest { ssrcs } => {
                    self.write_all_fir(store, ssrcs);
                },
                RtcpPacket::PictureLossIndication { media_ssrc } => {
                    self.write_pli(store, *media_ssrc, 1);
                },
                RtcpPacket::TransportLayerNack { media_ssrc, nacks } => {
                    self.write_nack(store, *media_ssrc, count_lost(nacks.as_slice()));
                },
                _ => {},
            }
            i += 1;
        }
        assert(views.take(i as int) == views);
    }
}

/// Records the packets of an incoming RTP stream.
pub struct RTPReadRecorder<R> {
    /// What the packets are read from.
    pub rtp_reader: R,
    /// The stream's counters.
    pub stats: RTPStats,
}

impl<R> RTPReadRecorder<R> {
    /// A recorder in front of `rtp_reader`, with new counters.
    pub fn new(store: &mut StatsStore, rtp_reader: R) -> (recorder: Self)
        ensures
            final(store)@ == old(store)@.add_rtp(),
            recorder.stats.place() == old(store)@.rtp.len(),
            recorder.rtp_reader == rtp_reader,
    {
        RTPReadRecorder { rtp_reader, stats: RTPStats::new(store) }
    }

    /// A reader of the stream's counters.
    pub fn reader(&self) -> (reader: RTPStatsReader)
        ensures
            reader.place() == self.stats.place(),
    {
        self.stats.reader()
    }

    /// The number of payload bytes of a packet of which `bytes_read` bytes have just been read into
    /// `buf`, and the time. The stats are not touched.
    pub fn receive(&self, buf: &[u8], bytes_read: usize) -> (result: Result<
        (usize, Option<UnixTime>),
        PacketError,
    >)
        requires
            bytes_read <= buf@.len(),
            crate::wire::rtp_extension_fits(buf@.take(bytes_read as int)),
        ensures
            match crate::wire::rtp_payload_len(buf@.take(bytes_read as int)) {
                Some(len) => {
                    &&& result matches Ok((payload_len, now))
                    &&& payload_len == len
                    &&& payload_len <= bytes_read
                    &&& crate::time::system_reading(now)
                },
                None => result matches Err(PacketError::Util(e)) && crate::wire::rtp_error(
                    buf@.take(bytes_read as int),
                    e,
                ),
            },
    {
        let packet = vstd::slice::slice_subrange(buf, 0, bytes_read);
        assert(packet@ == buf@.take(bytes_read as int));
        match read_rtp(packet) {
            Ok(payload_len) => Ok((payload_len, read_system_clock())),
            Err(e) => Err(e),
        }
    }

    /// Takes note of a packet of which `bytes_read` bytes have just been read into `buf`. The
    /// bytes that are not payload count as header.
    pub fn read(&self, store: &mut StatsStore, buf: &[u8], bytes_read: usize) -> (result: Result<
        usize,
        PacketError,
    >)
        requires
            self.stats.in_store(old(store)@),
            bytes_read <= buf@.len(),
            crate::wire::rtp_extension_fits(buf@.take(bytes_read as int)),
        ensures
            match crate::wire::rtp_payload_len(buf@.take(bytes_read as int)) {
                Some(payload_len) => {
                    &&& result == Ok::<usize, PacketError>(bytes_read)
                    &&& payload_len <= bytes_read
                    &&& exists|now: Option<UnixTime>|
                        crate::time::system_reading(now) && final(store)@
                            == #[trigger] self.stats.after_update(
                            old(store)@,
                            (bytes_read - payload_len) as u64,
                            payload_len as u64,
                            1,
                            now,
                        )
                },
                None => {
                    &&& result matches Err(PacketError::Util(e)) && crate::wire::rtp_error(
                        buf@.take(bytes_read as int),
                        e,
                    )
                    &&& final(store)@ == old(store)@
                },
            },
    {
        match self.receive(buf, bytes_read) {
            Ok((payload_len, now)) => {
                self.record_at(store, bytes_read, payload_len, now);
                Ok(bytes_read)
            },
            Err(e) => Err(e),
        }
    }

    /// Takes note of a packet of `bytes_read` bytes, `payload_len` of them payload, that was read
    /// at the time `now`.
    pub fn record_at(
        &self,
        store: &mut StatsStore,
        bytes_read: usize,
        payload_len: usize,
        now: Option<UnixTime>,
    )
        requires
            self.stats.in_store(old(store)@),
            payload_len <= bytes_read,
        ensures
            final(store)@ == self.stats.after_update(
                old(store)@,
                (bytes_read - payload_len) as u64,
                payload_len as u64,
                1,
                now,
            ),
    {
        self.stats.update_at(
            store,
            (bytes_read - payload_len) as u64,
            payload_len as u64,
            1,
            now,
        );
    }
}

/// Records the packets of an outgoing RTP stream.
pub struct RTPWriteRecorder<W> {
    /// What the packets are written to.
    pub rtp_writer: W,
    /// The stream's counters.
    pub stats: RTPStats,
}

impl<W> RTPWriteRecorder<W> {
    /// A recorder in front of `rtp_writer`, with new counters.
    pub fn new(store: &mut StatsStore, rtp_writer: W) -> (recorder: Self)
        ensures
            final(store)@ == old(store)@.add_rtp(),
            recorder.stats.place() == old(store)@.rtp.len(),
            recorder.rtp_writer == rtp_writer,
    {
        RTPWriteRecorder { rtp_writer, stats: RTPStats::new(store) }
    }

    /// A reader of the stream's counters.
    pub fn reader(&self) -> (reader: RTPStatsReader)
        ensures
            reader.place() == self.stats.place(),
    {
        self.stats.reader()
    }

    /// Takes note of a packet with this header and `payload_len` bytes of payload, which has just
    /// been written.
    pub fn write(&self, store: &mut StatsStore, header: &RtpHeader, payload_len: usize)
        requires
            self.stats.in_store(old(store)@),
            header.wire_size() <= usize::MAX,
        ensures
            exists|now: Option<UnixTime>|
                crate::time::system_reading(now) && final(store)@
                    == #[trigger] self.stats.after_update(
                    old(store)@,
                    header.wire_size() as u64,
                    payload_len as u64,
                    1,
                    now,
                ),
    {
        self.record_at(store, header, payload_len, read_system_clock());
    }

    /// Takes note of a packet with this header and `payload_len` bytes of payload, which was
    /// written at the time `now`.
    pub fn record_at(
        &self,
        store: &mut StatsStore,
        header: &RtpHeader,
        payload_len: usize,
        now: Option<UnixTime>,
    )
        requires
            self.stats.in_store(old(store)@),
            header.wire_size() <= usize::MAX,
        ensures
            final(store)@ == self.stats.after_update(
                old(store)@,
                header.wire_size() as u64,
                payload_len as u64,
                1,
                now,
            ),
    {
        self.stats.update_at(
            store,
            header_marshal_size(header) as u64,
            payload_len as u64,
            1,
            now,
        );
    }
}

} // verus!
