//! The interceptor: it puts recorders in front of streams and hands out readers of their stats.

use std::collections::HashMap;
use std::sync::Arc;

use vstd::prelude::*;

use crate::packet::RtcpPacket;
use crate::recorder::{RTCPReadRecorder, RTCPWriteRecorder, RTPReadRecorder, RTPWriteRecorder};
use crate::stats::{RTCPStatsReader, RTPStatsReader};
use crate::store::{StatsStore, StoreView};
use crate::time::{ntp_middle, Clock, UnixTime};
use crate::wire::{check_rtcp_datagram, read_rtcp, PacketError, RtcpBatch};

verus! {

broadcast use vstd::std_specs::hash::group_hash_axioms;

/// Records the RTCP packets that are read from `rtcp_reader`.
pub struct RTCPReadInterceptor<R, F> {
    pub rtcp_reader: R,
    pub recorder: RTCPReadRecorder,
    pub now_gen: Clock<F>,
}

impl<R, F: Fn() -> Option<UnixTime>> RTCPReadInterceptor<R, F> {
    /// Whether `now` is the middle 32 bits of the NTP time at a reading that the clock may give.
    pub open spec fn may_receive_at(self, now: u32) -> bool {
        exists|time: Option<UnixTime>|
            self.now_gen.may_read(time) && now == #[trigger] crate::time::ntp_middle_bits(time)
    }

    /// What receiving `datagram` may come to: the packets in it, with a time that the clock gives;
    /// where it is malformed, the error of the `rtcp` crate.
    pub open spec fn may_receive(
        self,
        datagram: Seq<u8>,
        result: Result<(Vec<RtcpPacket>, u32), PacketError>,
    ) -> bool {
        match crate::wire::rtcp_packets(datagram) {
            Some(packets) => {
                &&& result matches Ok((received, now))
                &&& crate::packet::batch_view(received@) == packets
                &&& self.may_receive_at(now)
            },
            None => result matches Err(PacketError::Rtcp(e)) && crate::wire::rtcp_error(
                datagram,
                e,
            ),
        }
    }

    /// What reading `datagram` may come to: the packets in it are taken note of, at a time that the
    /// clock gives; where it is malformed, the error of the `rtcp` crate is the result and nothing
    /// else happens.
    pub open spec fn may_yield(
        self,
        datagram: Seq<u8>,
        before: StoreView,
        after: StoreView,
        result: Result<usize, PacketError>,
    ) -> bool {
        match crate::wire::rtcp_packets(datagram) {
            Some(packets) => {
                &&& result matches Ok(n) && n == datagram.len()
                &&& exists|now: u32|
                    #[trigger] self.may_receive_at(now) && after == before.all_received(
                        self.recorder.table(),
                        now,
                        packets,
                    )
            },
            None => {
                &&& result matches Err(PacketError::Rtcp(e)) && crate::wire::rtcp_error(datagram, e)
                &&& after == before
            },
        }
    }

    /// The RTCP packets of which `n` bytes have just been read into `buf`, and the middle 32 bits
    /// of the NTP time. The stats are not touched, so that the clock can be read without them.
    pub fn receive(&self, buf: &[u8], n: usize) -> (result: Result<
        (Vec<RtcpPacket>, u32),
        PacketError,
    >)
        requires
            self.now_gen.readable(),
            n <= buf@.len(),
            crate::wire::rtcp_datagram_fits(buf@.take(n as int)),
        ensures
            self.may_receive(buf@.take(n as int), result),
            match crate::wire::rtcp_packets(buf@.take(n as int)) {
                Some(packets) => {
                    &&& result is Ok
                    &&& result->Ok_0.0@.len() == packets.len()
                    &&& forall|i: int|
                        0 <= i < packets.len() ==> (#[trigger] result->Ok_0.0@[i])@ == packets[i]
                    &&& exists|time: Option<UnixTime>| #[trigger]
                        self.now_gen.may_read(time) && ({
                            let nanos = match time {
                                Some(t) => (t.secs * 1_000_000_000 + t.nanos)
                                    % 0x1_0000_0000_0000_0000,
                                None => 0,
                            };
                            result->Ok_0.1 == (nanos * 0x1_0000 / 1_000_000_000 + 0x83AA7E80
                                * 0x1_0000) % 0x1_0000_0000
                        })
                },
                None => result is Err,
            },
    {
        let datagram = vstd::slice::slice_subrange(buf, 0, n);
        assert(datagram@ == buf@.take(n as int));
        match read_rtcp(datagram) {
            Ok(packets) => {
                let now = self.now_gen.now();
                Ok((packets, ntp_middle(now)))
            },
            Err(e) => Err(e),
        }
    }

    /// Takes note of a batch of RTCP packets of which `n` bytes have just been read into `buf`.
    pub fn read(&self, store: &mut StatsStore, buf: &[u8], n: usize) -> (result: Result<
        usize,
        PacketError,
    >)
        requires
            self.recorder.in_store(old(store)@),
            self.now_gen.readable(),
            n <= buf@.len(),
            crate::wire::rtcp_datagram_fits(buf@.take(n as int)),
        ensures
            self.may_yield(buf@.take(n as int), old(store)@, final(store)@, result),
    {
        match self.receive(buf, n) {
            Ok((packets, now)) => {
                self.recorder.record(store, packets.as_slice(), now);
                Ok(n)
            },
            Err(e) => Err(e),
        }
    }

    /// The RTCP packets of which `n` bytes have just been read into `buf`, and the time, if the
    /// `rtcp` crate can be given these bytes. Otherwise the clock is not read and there is no
    /// result.
    pub fn try_receive(&self, buf: &[u8], n: usize) -> (result: Option<
        Result<(Vec<RtcpPacket>, u32), PacketError>,
    >)
        requires
            self.now_gen.readable(),
            n <= buf@.len(),
        ensures
            match result {
                Some(r) => {
                    &&& crate::wire::rtcp_datagram_fits(buf@.take(n as int))
                    &&& self.may_receive(buf@.take(n as int), r)
                },
                None => !crate::wire::rtcp_datagram_fits(buf@.take(n as int)),
            },
    {
        let datagram = vstd::slice::slice_subrange(buf, 0, n);
        assert(datagram@ == buf@.take(n as int));
        if check_rtcp_datagram(datagram) {
            Some(self.receive(buf, n))
        } else {
            None
        }
    }

    /// Takes note of a batch of RTCP packets of which `n` bytes have just been read into `buf`, if
    /// the `rtcp` crate can be given these bytes. Otherwise nothing happens and there is no result.
    pub fn try_read(&self, store: &mut StatsStore, buf: &[u8], n: usize) -> (result: Option<
        Result<usize, PacketError>,
    >)
        requires
            self.recorder.in_store(old(store)@),
            self.now_gen.readable(),
            n <= buf@.len(),
        ensures
            match result {
                Some(r) => {
                    &&& crate::wire::rtcp_datagram_fits(buf@.take(n as int))
                    &&& self.may_yield(buf@.take(n as int), old(store)@, final(store)@, r)
                },
                None => {
                    &&& !crate::wire::rtcp_datagram_fits(buf@.take(n as int))
                    &&& final(store)@ == old(store)@
                },
            },
    {
        let datagram = vstd::slice::slice_subrange(buf, 0, n);
        assert(datagram@ == buf@.take(n as int));
        if check_rtcp_datagram(datagram) {
            Some(self.read(store, buf, n))
        } else {
            None
        }
    }
}

/// Records the RTCP packets that are written to `rtcp_writer`.
pub struct RTCPWriteInterceptor<W, F> {
    pub rtcp_writer: W,
    pub recorder: RTCPWriteRecorder,
    pub now_gen: Clock<F>,
}

impl<W, F> RTCPWriteInterceptor<W, F> {
    /// Takes note of a batch of RTCP packets that is about to be written.
    pub fn write(&self, store: &mut StatsStore, pkts: &RtcpBatch)
        requires
            self.recorder.in_store(old(store)@),
        ensures
            final(store)@ == old(store)@.all_sent(
                self.recorder.table(),
                crate::wire::batch_packets(*pkts),
            ),
    {
        let packets = pkts.to_packets();
        self.recorder.record(store, packets.as_slice());
    }
}

/// Keeps stats of RTP streams, by SSRC, and of the RTCP feedback about streams.
pub struct StatsInterceptor<R, W, F> {
    recv_streams: HashMap<u32, Arc<RTPReadRecorder<R>>>,
    send_streams: HashMap<u32, Arc<RTPWriteRecorder<W>>>,
    rtcp_recv_recorder: RTCPReadRecorder,
    rtcp_send_recorder: RTCPWriteRecorder,
    id: String,
    now_gen: Option<Arc<F>>,
}

/// The places of the counters of those of `ssrcs` that are bound, in their order.
pub open spec fn bound_places(streams: Map<u32, nat>, ssrcs: Seq<u32>) -> Seq<nat> {
    ssrcs.filter(|ssrc: u32| streams.contains_key(ssrc)).map_values(|ssrc: u32| streams[ssrc])
}

/// Whether no two streams, incoming or outgoing, have the same place, and every place is below
/// `limit`.
pub open spec fn places_apart(recv: Map<u32, nat>, send: Map<u32, nat>, limit: nat) -> bool {
    &&& forall|s: u32| recv.contains_key(s) ==> #[trigger] recv[s] < limit
    &&& forall|s: u32| send.contains_key(s) ==> #[trigger] send[s] < limit
    &&& forall|s: u32, t: u32|
        recv.contains_key(s) && recv.contains_key(t) && s != t ==> #[trigger] recv[s]
            != #[trigger] recv[t]
    &&& forall|s: u32, t: u32|
        send.contains_key(s) && send.contains_key(t) && s != t ==> #[trigger] send[s]
            != #[trigger] send[t]
    &&& forall|s: u32, t: u32|
        recv.contains_key(s) && send.contains_key(t) ==> #[trigger] recv[s] != #[trigger] send[t]
}

pub(crate) proof fn lemma_bound_places_step(streams: Map<u32, nat>, ssrcs: Seq<u32>, i: int)
    requires
        0 <= i < ssrcs.len(),
    ensures
        bound_places(streams, ssrcs.take(i + 1)) == if streams.contains_key(ssrcs[i]) {
            bound_places(streams, ssrcs.take(i)).push(streams[ssrcs[i]])
        } else {
            bound_places(streams, ssrcs.take(i))
        },
{
    reveal(Seq::filter);
    assert(ssrcs.take(i + 1).drop_last() == ssrcs.take(i));
    if streams.contains_key(ssrcs[i]) {
        assert(bound_places(streams, ssrcs.take(i + 1)) =~= bound_places(
            streams,
            ssrcs.take(i),
        ).push(streams[ssrcs[i]]));
    }
}

impl<R, W, F> StatsInterceptor<R, W, F> {
    /// The recorders of the incoming streams.
    pub closed spec fn recv_streams(self) -> Map<u32, Arc<RTPReadRecorder<R>>> {
        self.recv_streams@
    }

    /// The recorders of the outgoing streams.
    pub closed spec fn send_streams(self) -> Map<u32, Arc<RTPWriteRecorder<W>>> {
        self.send_streams@
    }

    /// Where the counters of each incoming stream are kept.
    pub open spec fn recv_places(self) -> Map<u32, nat> {
        self.recv_streams().map_values(|r: Arc<RTPReadRecorder<R>>| r.stats.place())
    }

    /// Where the counters of each outgoing stream are kept.
    pub open spec fn send_places(self) -> Map<u32, nat> {
        self.send_streams().map_values(|r: Arc<RTPWriteRecorder<W>>| r.stats.place())
    }

    /// The recorder of incoming RTCP packets.
    pub closed spec fn rtcp_recv_recorder(self) -> RTCPReadRecorder {
        self.rtcp_recv_recorder
    }

    /// The recorder of outgoing RTCP packets.
    pub closed spec fn rtcp_send_recorder(self) -> RTCPWriteRecorder {
        self.rtcp_send_recorder
    }

    pub closed spec fn id(self) -> Seq<char> {
        self.id@
    }

    /// The function that stands in for the system's clock.
    pub closed spec fn now_gen(self) -> Option<Arc<F>> {
        self.now_gen
    }

    /// The clock by which incoming RTCP packets are timed.
    pub open spec fn clock(self) -> Clock<F> {
        match self.now_gen() {
            Some(f) => Clock::Custom(f),
            None => Clock::System,
        }
    }

    /// Whether `store` holds all the stats of this interceptor, those of no two streams in the
    /// same place, and those of incoming and of outgoing RTCP packets apart.
    pub open spec fn wf(self, store: StoreView) -> bool {
        &&& self.rtcp_recv_recorder().in_store(store)
        &&& self.rtcp_send_recorder().in_store(store)
        &&& self.rtcp_recv_recorder().table() != self.rtcp_send_recorder().table()
        &&& places_apart(self.recv_places(), self.send_places(), store.rtp.len())
    }

    /// Whether two interceptors differ at most in the recorders of the incoming streams.
    pub open spec fn same_but_recv_streams(self, other: Self) -> bool {
        &&& self.send_streams() == other.send_streams()
        &&& self.rtcp_recv_recorder() == other.rtcp_recv_recorder()
        &&& self.rtcp_send_recorder() == other.rtcp_send_recorder()
        &&& self.id() == other.id()
        &&& self.now_gen() == other.now_gen()
    }

    /// Whether two interceptors differ at most in the recorders of the outgoing streams.
    pub open spec fn same_but_send_streams(self, other: Self) -> bool {
        &&& self.recv_streams() == other.recv_streams()
        &&& self.rtcp_recv_recorder() == other.rtcp_recv_recorder()
        &&& self.rtcp_send_recorder() == other.rtcp_send_recorder()
        &&& self.id() == other.id()
        &&& self.now_gen() == other.now_gen()
    }

    /// Whether this interceptor has no streams and has seen no feedback, and `after` is the store
    /// `before` with room for the feedback.
    pub open spec fn is_new(self, before: StoreView, after: StoreView) -> bool {
        &&& after == before.add_rtcp().add_rtcp()
        &&& self.rtcp_recv_recorder().table() == before.rtcp.len()
        &&& self.rtcp_send_recorder().table() == before.rtcp.len() + 1
        &&& self.recv_streams() == Map::<u32, Arc<RTPReadRecorder<R>>>::empty()
        &&& self.send_streams() == Map::<u32, Arc<RTPWriteRecorder<W>>>::empty()
        &&& self.wf(after)
    }

    fn with_clock(store: &mut StatsStore, id: String, now_gen: Option<Arc<F>>) -> (icpr: Self)
        ensures
            icpr.is_new(old(store)@, final(store)@),
            icpr.id() == id@,
            icpr.now_gen() == now_gen,
    {
        StatsInterceptor {
            recv_streams: HashMap::new(),
            send_streams: HashMap::new(),
            rtcp_recv_recorder: RTCPReadRecorder::new(store),
            rtcp_send_recorder: RTCPWriteRecorder::new(store),
            id,
            now_gen,
        }
    }

    /// An interceptor with no streams and no feedback seen, by the system's clock.
    pub fn new(store: &mut StatsStore, id: String) -> (icpr: Self)
        ensures
            icpr.is_new(old(store)@, final(store)@),
            icpr.id() == id@,
            icpr.now_gen() is None,
    {
        Self::with_clock(store, id, None)
    }

    /// An interceptor with no streams and no feedback seen, with `now_gen` for a clock.
    pub fn with_time_gen(store: &mut StatsStore, id: String, now_gen: F) -> (icpr: Self)
        ensures
            icpr.is_new(old(store)@, final(store)@),
            icpr.id() == id@,
            icpr.now_gen() == Some(Arc::new(now_gen)),
    {
        Self::with_clock(store, id, Some(Arc::new(now_gen)))
    }

    /// Create a reader that reads stats for an incoming RTP stream.
    pub fn rtp_recv_stats_reader(&self, ssrc: u32) -> (reader: Option<RTPStatsReader>)
        ensures
            match reader {
                Some(r) => self.recv_places().contains_key(ssrc) && r.place()
                    == self.recv_places()[ssrc],
                None => !self.recv_places().contains_key(ssrc),
            },
    {
        match self.recv_streams.get(&ssrc) {
            Some(r) => Some(r.reader()),
            None => None,
        }
    }

    /// Create readers that read stats for several incoming RTP streams: one for each of `ssrcs`
    /// that is bound.
    pub fn rtp_recv_stats_readers(&self, ssrcs: &[u32]) -> (readers: Vec<RTPStatsReader>)
        ensures
            readers@.map_values(|r: RTPStatsReader| r.place()) == bound_places(
                self.recv_places(),
                ssrcs@,
            ),            ({
                let positions = Seq::new(ssrcs@.len(), |i: int| i).filter(
                    |i: int| self.recv_places().contains_key(ssrcs@[i]),
                );
                &&& readers@.len() == positions.len()
                &&& forall|k: int|
                    0 <= k < readers@.len() ==> (#[trigger] readers@[k]).place()
                        == self.recv_places()[ssrcs@[positions[k]]]
            }),
    {
        let mut readers: Vec<RTPStatsReader> = Vec::new();
        let mut i: usize = 0;
        assert(bound_places(self.recv_places(), ssrcs@.take(0)) =~= Seq::<nat>::empty()) by {
            reveal(Seq::filter);
        }
        while i < ssrcs.len()
            invariant
                i <= ssrcs@.len(),
                readers@.map_values(|r: RTPStatsReader| r.place()) =~= bound_places(
                    self.recv_places(),
                    ssrcs@.take(i as int),
                ),
            decreases ssrcs@.len() - i,
        {
            proof {
                lemma_bound_places_step(self.recv_places(), ssrcs@, i as int);
            }
            if let Some(reader) = self.rtp_recv_stats_reader(ssrcs[i]) {
                readers.push(reader);
            }
            i += 1;
        }
        assert(ssrcs@.take(i as int) == ssrcs@);
        proof {
            let places = readers@.map_values(|r: RTPStatsReader| r.place());
            crate::behavior::law_one_reader_for_each_bound_stream(self.recv_places(), ssrcs@);
            assert forall|k: int| 0 <= k < readers@.len() implies (#[trigger] readers@[k]).place()
                == places[k] by {}
        }
        readers
    }

    /// Create a reader that reads stats for an outgoing RTP stream.
    pub fn rtp_send_stats_reader(&self, ssrc: u32) -> (reader: Option<RTPStatsReader>)
        ensures
            match reader {
                Some(r) => self.send_places().contains_key(ssrc) && r.place()
                    == self.send_places()[ssrc],
                None => !self.send_places().contains_key(ssrc),
            },
    {
        match self.send_streams.get(&ssrc) {
            Some(r) => Some(r.reader()),
            None => None,
        }
    }

    /// Create readers that read stats for several outgoing RTP streams: one for each of `ssrcs`
    /// that is bound.
    pub fn rtp_send_stats_readers(&self, ssrcs: &[u32]) -> (readers: Vec<RTPStatsReader>)
        ensures
            readers@.map_values(|r: RTPStatsReader| r.place()) == bound_places(
                self.send_places(),
                ssrcs@,
            ),            ({
                let positions = Seq::new(ssrcs@.len(), |i: int| i).filter(
                    |i: int| self.send_places().contains_key(ssrcs@[i]),
                );
                &&& readers@.len() == positions.len()
                &&& forall|k: int|
                    0 <= k < readers@.len() ==> (#[trigger] readers@[k]).place()
                        == self.send_places()[ssrcs@[positions[k]]]
            }),
    {
        let mut readers: Vec<RTPStatsReader> = Vec::new();
        let mut i: usize = 0;
        assert(bound_places(self.send_places(), ssrcs@.take(0)) =~= Seq::<nat>::empty()) by {
            reveal(Seq::filter);
        }
        while i < ssrcs.len()
            invariant
                i <= ssrcs@.len(),
                readers@.map_values(|r: RTPStatsReader| r.place()) =~= bound_places(
                    self.send_places(),
                    ssrcs@.take(i as int),
                ),
            decreases ssrcs@.len() - i,
        {
            proof {
                lemma_bound_places_step(self.send_places(), ssrcs@, i as int);
            }
            if let Some(reader) = self.rtp_send_stats_reader(ssrcs[i]) {
                readers.push(reader);
            }
            i += 1;
        }
        assert(ssrcs@.take(i as int) == ssrcs@);
        proof {
            let places = readers@.map_values(|r: RTPStatsReader| r.place());
            crate::behavior::law_one_reader_for_each_bound_stream(self.send_places(), ssrcs@);
            assert forall|k: int| 0 <= k < readers@.len() implies (#[trigger] readers@[k]).place()
                == places[k] by {}
        }
        readers
    }

    /// Create a reader that reads incoming RTCP stats.
    ///
    /// Note: This reader reflects incoming RTCP stats which means the resulting stats are
    /// typically relevant to an outgoing RTP stream, e.g. [`RTCPStatsReader::nack_count`] reflects
    /// the number of nacks received for the RTP stream identified by the SSRC in question.
    pub fn rtcp_recv_stats_reader(&self, store: &mut StatsStore, ssrc: u32) -> (reader: Option<
        RTCPStatsReader,
    >)
        requires
            self.rtcp_recv_recorder().in_store(old(store)@),
        ensures
            final(store)@ == old(store)@.get_or_create(self.rtcp_recv_recorder().table(), ssrc),
            reader matches Some(r) && r.table() == self.rtcp_recv_recorder().table() && r.ssrc()
                == ssrc && r.in_store(final(store)@),
    {
        Some(self.rtcp_recv_recorder.get_reader(store, ssrc))
    }

    /// Create readers that read incoming RTCP stats: one for each of `ssrcs`.
    pub fn rtcp_recv_stats_readers(&self, store: &mut StatsStore, ssrcs: &[u32]) -> (readers: Vec<
        RTCPStatsReader,
    >)
        requires
            self.rtcp_recv_recorder().in_store(old(store)@),
        ensures
            final(store)@ == old(store)@.all_created(self.rtcp_recv_recorder().table(), ssrcs@),
            readers@.len() == ssrcs@.len(),
            forall|i: int|
                0 <= i < ssrcs@.len() ==> {
                    let r = #[trigger] readers@[i];
                    r.table() == self.rtcp_recv_recorder().table() && r.ssrc() == ssrcs@[i]
                        && r.in_store(final(store)@)
                },
    {
        let mut readers: Vec<RTCPStatsReader> = Vec::new();
        let mut i: usize = 0;
        assert(ssrcs@.take(0) == Seq::<u32>::empty());
        while i < ssrcs.len()
            invariant
                i == readers@.len() <= ssrcs@.len(),
                self.rtcp_recv_recorder().in_store(store@),
                store@ == old(store)@.all_created(
                    self.rtcp_recv_recorder().table(),
                    ssrcs@.take(i as int),
                ),
                forall|j: int|
                    0 <= j < i ==> {
                        let r = #[trigger] readers@[j];
                        r.table() == self.rtcp_recv_recorder().table() && r.ssrc() == ssrcs@[j]
                            && r.in_store(store@)
                    },
            decreases ssrcs@.len() - i,
        {
            assert(ssrcs@.take(i + 1).drop_last() == ssrcs@.take(i as int));
            readers.push(self.rtcp_recv_recorder.get_reader(store, ssrcs[i]));
            i += 1;
        }
        assert(ssrcs@.take(i as int) == ssrcs@);
        readers
    }

    /// Create a reader that reads outgoing RTCP stats.
    ///
    /// Note: This reader reflects outgoing RTCP stats which means the resulting stats are
    /// typically relevant to an incoming RTP stream, e.g. [`RTCPStatsReader::nack_count`] reflects
    /// the number of nacks sent for the RTP stream identified by the SSRC in question.
    pub fn rtcp_send_stats_reader(&self, store: &mut StatsStore, ssrc: u32) -> (reader: Option<
        RTCPStatsReader,
    >)
        requires
            self.rtcp_send_recorder().in_store(old(store)@),
        ensures
            final(store)@ == old(store)@.get_or_create(self.rtcp_send_recorder().table(), ssrc),
            reader matches Some(r) && r.table() == self.rtcp_send_recorder().table() && r.ssrc()
                == ssrc && r.in_store(final(store)@),
    {
        Some(self.rtcp_send_recorder.get_reader(store, ssrc))
    }

    /// Create readers that read outgoing RTCP stats: one for each of `ssrcs`.
    pub fn rtcp_send_stats_readers(&self, store: &mut StatsStore, ssrcs: &[u32]) -> (readers: Vec<
        RTCPStatsReader,
    >)
        requires
            self.rtcp_send_recorder().in_store(old(store)@),
        ensures
            final(store)@ == old(store)@.all_created(self.rtcp_send_recorder().table(), ssrcs@),
            readers@.len() == ssrcs@.len(),
            forall|i: int|
                0 <= i < ssrcs@.len() ==> {
                    let r = #[trigger] readers@[i];
                    r.table() == self.rtcp_send_recorder().table() && r.ssrc() == ssrcs@[i]
                        && r.in_store(final(store)@)
                },
    {
        let mut readers: Vec<RTCPStatsReader> = Vec::new();
        let mut i: usize = 0;
        assert(ssrcs@.take(0) == Seq::<u32>::empty());
        while i < ssrcs.len()
            invariant
                i == readers@.len() <= ssrcs@.len(),
                self.rtcp_send_recorder().in_store(store@),
                store@ == old(store)@.all_created(
                    self.rtcp_send_recorder().table(),
                    ssrcs@.take(i as int),
                ),
                forall|j: int|
                    0 <= j < i ==> {
                        let r = #[trigger] readers@[j];
                        r.table() == self.rtcp_send_recorder().table() && r.ssrc() == ssrcs@[j]
                            && r.in_store(store@)
                    },
            decreases ssrcs@.len() - i,
        {
            assert(ssrcs@.take(i + 1).drop_last() == ssrcs@.take(i as int));
            readers.push(self.rtcp_send_recorder.get_reader(store, ssrcs[i]));
            i += 1;
        }
        assert(ssrcs@.take(i as int) == ssrcs@);
        readers
    }

    /// Puts a recorder in front of an incoming stream, and returns it. For a stream that has a
    /// recorder already, that one stays.
    pub fn bind_remote_stream(&mut self, store: &mut StatsStore, ssrc: u32, reader: R) -> (recorder:
        Arc<RTPReadRecorder<R>>)
        requires
            old(self).wf(old(store)@),
        ensures
            final(self).wf(final(store)@),
            final(self).same_but_recv_streams(*old(self)),
            final(self).recv_streams() == old(self).recv_streams().insert(ssrc, recorder),
            if old(self).recv_streams().contains_key(ssrc) {
                &&& recorder == old(self).recv_streams()[ssrc]
                &&& final(store)@ == old(store)@
            } else {
                &&& recorder.rtp_reader == reader
                &&& recorder.stats.place() == old(store)@.rtp.len()
                &&& final(store)@ == old(store)@.add_rtp()
            },
    {
        if let Some(e) = self.recv_streams.get(&ssrc) {
            let recorder = e.clone();
            assert(self.recv_streams() =~= self.recv_streams().insert(ssrc, recorder));
            return recorder;
        }
        let recorder = Arc::new(RTPReadRecorder::new(store, reader));
        self.recv_streams.insert(ssrc, recorder.clone());
        assert(self.recv_places() =~= old(self).recv_places().insert(
            ssrc,
            recorder.stats.place(),
        ));
        assert(self.send_places() == old(self).send_places());
        recorder
    }

    /// Takes the recorder of an incoming stream away.
    pub fn unbind_remote_stream(&mut self, ssrc: u32)
        ensures
            final(self).same_but_recv_streams(*old(self)),
            final(self).recv_streams() == old(self).recv_streams().remove(ssrc),
            forall|store: StoreView| old(self).wf(store) ==> #[trigger] final(self).wf(store),
    {
        self.recv_streams.remove(&ssrc);
        assert(self.recv_places() =~= old(self).recv_places().remove(ssrc));
        assert(self.send_places() == old(self).send_places());
    }

    /// Puts a recorder in front of an outgoing stream, and returns it. For a stream that has a
    /// recorder already, that one stays.
    pub fn bind_local_stream(&mut self, store: &mut StatsStore, ssrc: u32, writer: W) -> (recorder:
        Arc<RTPWriteRecorder<W>>)
        requires
            old(self).wf(old(store)@),
        ensures
            final(self).wf(final(store)@),
            final(self).same_but_send_streams(*old(self)),
            final(self).send_streams() == old(self).send_streams().insert(ssrc, recorder),
            if old(self).send_streams().contains_key(ssrc) {
                &&& recorder == old(self).send_streams()[ssrc]
                &&& final(store)@ == old(store)@
            } else {
                &&& recorder.rtp_writer == writer
                &&& recorder.stats.place() == old(store)@.rtp.len()
                &&& final(store)@ == old(store)@.add_rtp()
            },
    {
        if let Some(e) = self.send_streams.get(&ssrc) {
            let recorder = e.clone();
            assert(self.send_streams() =~= self.send_streams().insert(ssrc, recorder));
            return recorder;
        }
        let recorder = Arc::new(RTPWriteRecorder::new(store, writer));
        self.send_streams.insert(ssrc, recorder.clone());
        assert(self.send_places() =~= old(self).send_places().insert(
            ssrc,
            recorder.stats.place(),
        ));
        assert(self.recv_places() == old(self).recv_places());
        recorder
    }

    /// Takes the recorder of an outgoing stream away.
    pub fn unbind_local_stream(&mut self, ssrc: u32)
        ensures
            final(self).same_but_send_streams(*old(self)),
            final(self).send_streams() == old(self).send_streams().remove(ssrc),
            forall|store: StoreView| old(self).wf(store) ==> #[trigger] final(self).wf(store),
    {
        self.send_streams.remove(&ssrc);
        assert(self.send_places() =~= old(self).send_places().remove(ssrc));
        assert(self.recv_places() == old(self).recv_places());
    }

    /// Puts a recorder in front of `writer`, to which RTCP packets are written.
    pub fn bind_rtcp_writer<T>(&self, writer: T) -> (icpr: Arc<RTCPWriteInterceptor<T, F>>)
        ensures
            icpr.rtcp_writer == writer,
            icpr.recorder == self.rtcp_send_recorder(),
            icpr.now_gen == self.clock(),
    {
        Arc::new(
            RTCPWriteInterceptor {
                rtcp_writer: writer,
                recorder: self.rtcp_send_recorder.clone(),
                now_gen: self.read_clock(),
            },
        )
    }

    /// Puts a recorder in front of `reader`, from which RTCP packets are read.
    pub fn bind_rtcp_reader<T>(&self, reader: T) -> (icpr: Arc<RTCPReadInterceptor<T, F>>)
        ensures
            icpr.rtcp_reader == reader,
            icpr.recorder == self.rtcp_recv_recorder(),
            icpr.now_gen == self.clock(),
    {
        Arc::new(
            RTCPReadInterceptor {
                rtcp_reader: reader,
                recorder: self.rtcp_recv_recorder.clone(),
                now_gen: self.read_clock(),
            },
        )
    }

    fn read_clock(&self) -> (clock: Clock<F>)
        ensures
            clock == self.clock(),
    {
        match &self.now_gen {
            Some(now) => Clock::Custom(now.clone()),
            None => Clock::System,
        }
    }

    /// Closing the interceptor always succeeds.
    pub fn close(&self) -> (result: Result<(), PacketError>)
        ensures
            result is Ok,
    {
        Ok(())
    }
}

/// An interceptor with no streams and no feedback seen, by the system's clock.
pub fn make_stats_interceptor<R, W, F>(store: &mut StatsStore, id: &str) -> (icpr: StatsInterceptor<
    R,
    W,
    F,
>)
    ensures
        icpr.is_new(old(store)@, final(store)@),
        icpr.id() == id@,
        icpr.now_gen() is None,
{
    StatsInterceptor::new(store, id.to_owned())
}

} // verus!
