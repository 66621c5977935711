//! What the operations do, in terms of the bytes, numbers, lists and maps that go in and come out.

use vstd::prelude::*;

use crate::interceptor::{RTCPReadInterceptor, StatsInterceptor};
use crate::laws::{law_received_feedback_adds_up, law_sent_feedback_adds_up};
use crate::packet::{NackPair, ReceptionReport, RtcpPacket, RtcpPacketView};
use crate::recorder::{RTCPReadRecorder, RTCPWriteRecorder};
use crate::rtt::RttMs;
use crate::stats::{RTCPStats, RTCPStatsReader, RTPStats, RTPStatsReader};
use crate::store::{RtcpCounts, RtpCounts, StoreView};
use crate::time::{Clock, UnixTime};
use crate::wire::{PacketError, RtpExtension, RtpHeader};

verus! {

/// A list that is flattened ends with what its last element gives.
proof fn lemma_flat_map_step<A, B>(s: Seq<A>, f: spec_fn(A) -> Seq<B>)
    ensures
        s.len() == 0 ==> s.flat_map(f) == Seq::<B>::empty(),
        s.len() > 0 ==> s.flat_map(f) == s.drop_last().flat_map(f) + f(s.last()),
{
    if s.len() == 0 {
        assert(s.map_values(f) =~= Seq::<Seq<B>>::empty());
    } else {
        assert(s.map_values(f) =~= s.drop_last().map_values(f).push(f(s.last())));
        s.drop_last().map_values(f).lemma_flatten_push(f(s.last()));
    }
}

/// To flatten two lists put together is to flatten each.
proof fn lemma_flat_map_add<A, B>(a: Seq<A>, b: Seq<A>, f: spec_fn(A) -> Seq<B>)
    ensures
        (a + b).flat_map(f) == a.flat_map(f) + b.flat_map(f),
{
    assert((a + b).map_values(f) =~= a.map_values(f) + b.map_values(f));
    vstd::seq_lib::lemma_flatten_concat(a.map_values(f), b.map_values(f));
}

/// The nanoseconds of a time are those of its seconds and those beside them, and its milliseconds
/// are the whole millions in that number.
pub proof fn law_time_since_the_epoch(t: UnixTime)
    ensures
        t.total_nanos() == t.secs * 1_000_000_000 + t.nanos,
        t.total_millis() * 1_000_000 <= t.secs * 1_000_000_000 + t.nanos,
        t.secs * 1_000_000_000 + t.nanos < (t.total_millis() + 1) * 1_000_000,
{
}

/// The upper half of an NTP timestamp counts seconds since 1900, modulo 2^32; the lower half is the
/// largest number of units of 2^-32 s that fit into the rest of the time. The nanoseconds since the
/// Unix epoch count modulo 2^64; a clock before the epoch reads as the epoch.
pub proof fn law_ntp_timestamp(now: Option<UnixTime>)
    ensures
        ({
            let nanos = match now {
                Some(t) => (t.secs * 1_000_000_000 + t.nanos) % 0x1_0000_0000_0000_0000,
                None => 0,
            };
            let ntp = crate::time::ntp_timestamp(now) as int;
            let fraction = ntp % 0x1_0000_0000;
            let rest = (nanos % 1_000_000_000) * 0x1_0000_0000;
            &&& ntp / 0x1_0000_0000 == (nanos / 1_000_000_000 + 0x83AA7E80) % 0x1_0000_0000
            &&& fraction * 1_000_000_000 <= rest < (fraction + 1) * 1_000_000_000
        }),
{
}

/// The middle of an NTP timestamp is the time since 1900 in whole units of 2^-16 s, modulo 2^32.
pub proof fn law_ntp_middle_bits(now: Option<UnixTime>)
    ensures
        ({
            let nanos = match now {
                Some(t) => (t.secs * 1_000_000_000 + t.nanos) % 0x1_0000_0000_0000_0000,
                None => 0,
            };
            crate::time::ntp_middle_bits(now) == (nanos * 0x1_0000 / 1_000_000_000 + 0x83AA7E80
                * 0x1_0000) % 0x1_0000_0000
        }),
{
    let u: int = match now {
        Some(t) => (t.secs * 1_000_000_000 + t.nanos) % 0x1_0000_0000_0000_0000,
        None => 0,
    };
    let f = (u % 1_000_000_000) * 0x1_0000_0000 / 1_000_000_000;
    crate::laws::lemma_units_of_parts(u);
    assert(0 <= f < 0x1_0000_0000);
    crate::laws::lemma_middle_of_halves(u / 1_000_000_000 + 0x83AA7E80, f);
}

/// A clock that was given reads what its function returns and can be read where that may be
/// called; the system's clock can always be read, and gives readings of the system.
pub proof fn law_clock_readings<F: Fn() -> Option<UnixTime>>(
    clock: Clock<F>,
    now: Option<UnixTime>,
)
    ensures
        match clock {
            Clock::Custom(f) => {
                &&& clock.readable() <==> call_requires(*f, ())
                &&& clock.may_read(now) ==> call_ensures(*f, (), now)
            },
            Clock::System => {
                &&& clock.readable()
                &&& clock.may_read(now) ==> crate::time::system_reading(now)
            },
        },
{
}

/// The round trip time, in units of 2^-16 s, is what is left of the time of arrival after the
/// delay and the time of the sender report, modulo 2^32.
pub proof fn law_round_trip_time(now: u32, delay: u32, last_sender_report: u32)
    ensures
        ({
            let rtt = RttMs::between(now, delay, last_sender_report);
            &&& rtt.seconds * 0x1_0000 + rtt.fraction == (now - delay - last_sender_report)
                % 0x1_0000_0000
            &&& rtt.fixed_point() == rtt.seconds * 0x1_0000 + rtt.fraction
        }),
{
}

proof fn lemma_lost_after_is_filtered(packet_id: u16, mask: u16, from: nat)
    requires
        from <= 16,
    ensures
        crate::packet::lost_after(packet_id, mask, from) == Seq::new(
            (16 - from) as nat,
            |j: int| from + j,
        ).filter(|k: int| (mask >> (k as u16)) & 1 == 1).map_values(
            |k: int| ((packet_id + k + 1) % 0x1_0000) as u16,
        ),
    decreases 16 - from,
{
    let set = |k: int| (mask >> (k as u16)) & 1 == 1;
    let number = |k: int| ((packet_id + k + 1) % 0x1_0000) as u16;
    let all = Seq::new((16 - from) as nat, |j: int| from + j);
    if from == 16 {
        reveal(Seq::filter);
        assert(all.filter(set).map_values(number) =~= Seq::<u16>::empty());
    } else {
        let rest = Seq::new((16 - (from + 1)) as nat, |j: int| (from + 1) as nat + j);
        lemma_lost_after_is_filtered(packet_id, mask, from + 1);
        assert(all =~= seq![from as int] + rest);
        rest.lemma_filter_prepend(from as int, set);
        assert(crate::packet::lost_after(packet_id, mask, from) =~= all.filter(set).map_values(
            number,
        ));
    }
}

/// A NACK pair reports its own packet, and then, for each bit of the mask that is set, from the
/// lowest up, the packet that lies one more than the bit's position behind it, modulo 2^16.
pub proof fn law_lost_packets_of_a_pair(pair: NackPair)
    ensures
        pair.lost() == seq![pair.packet_id] + Seq::new(16, |k: int| k).filter(
            |k: int| (pair.lost_packets >> (k as u16)) & 1 == 1,
        ).map_values(|k: int| ((pair.packet_id + k + 1) % 0x1_0000) as u16),
        pair.lost_count() == pair.lost().len(),
{
    lemma_lost_after_is_filtered(pair.packet_id, pair.lost_packets, 0);
    assert(Seq::new(16, |k: int| k) =~= Seq::new((16 - 0nat) as nat, |j: int| 0nat + j));
    pair.lemma_lost_count();
}

/// As many packets are lost as there are in the lists of all the pairs, one list after the other.
pub proof fn law_lost_packets_are_counted(nacks: Seq<NackPair>)
    ensures
        crate::packet::total_lost(nacks) == nacks.flat_map(|n: NackPair| n.lost()).len(),
    decreases nacks.len(),
{
    let lost = |n: NackPair| n.lost();
    lemma_flat_map_step(nacks, lost);
    if nacks.len() > 0 {
        law_lost_packets_are_counted(nacks.drop_last());
        nacks.last().lemma_lost_count();
    }
}

/// The packets lost in two lists of pairs add up; none is lost in an empty list, and in a list of
/// one pair those of that pair are.
pub proof fn law_lost_packets_add_up(first: Seq<NackPair>, second: Seq<NackPair>, pair: NackPair)
    ensures
        crate::packet::total_lost(first + second) == crate::packet::total_lost(first)
            + crate::packet::total_lost(second),
        crate::packet::total_lost(Seq::<NackPair>::empty()) == 0,
        crate::packet::total_lost(seq![pair]) == pair.lost().len(),
{
    let lost = |n: NackPair| n.lost();
    law_lost_packets_are_counted(first + second);
    law_lost_packets_are_counted(first);
    law_lost_packets_are_counted(second);
    lemma_flat_map_add(first, second, lost);
    law_lost_packets_are_counted(seq![pair]);
    lemma_flat_map_step(seq![pair], lost);
    assert(seq![pair].drop_last() =~= Seq::<NackPair>::empty());
    lemma_flat_map_step(Seq::<NackPair>::empty(), lost);
}

/// A packet has the streams, pairs and report blocks that were put into it.
pub proof fn law_packet_contents(
    reports: Vec<ReceptionReport>,
    ssrcs: Vec<u32>,
    media_ssrc: u32,
    nacks: Vec<NackPair>,
)
    ensures
        (RtcpPacket::ReceiverReport { reports })@ == (RtcpPacketView::ReceiverReport {
            reports: reports@,
        }),
        (RtcpPacket::FullIntraRequest { ssrcs })@ == (RtcpPacketView::FullIntraRequest {
            ssrcs: ssrcs@,
        }),
        (RtcpPacket::PictureLossIndication { media_ssrc })@ == (
        RtcpPacketView::PictureLossIndication { media_ssrc }),
        (RtcpPacket::TransportLayerNack { media_ssrc, nacks })@ == (
        RtcpPacketView::TransportLayerNack { media_ssrc, nacks: nacks@ }),
        RtcpPacket::Other@ == RtcpPacketView::Other,
{
}

/// A batch has as many packets as the list, each with the contents of the one in its position.
pub proof fn law_batch_contents(packets: Seq<RtcpPacket>)
    ensures
        crate::packet::batch_view(packets).len() == packets.len(),
        forall|i: int|
            0 <= i < packets.len() ==> #[trigger] crate::packet::batch_view(packets)[i]
                == packets[i]@,
{
}

/// A new store is empty; new RTP counters and a new table are put behind those that are there, the
/// counters all at zero and the table with no entry; to set counters or an entry changes that one
/// and nothing else.
pub proof fn law_store_operations(
    store: StoreView,
    place: nat,
    rtp: RtpCounts,
    table: nat,
    ssrc: u32,
    rtcp: RtcpCounts,
)
    requires
        place < store.rtp.len(),
        table < store.rtcp.len(),
    ensures
        StoreView::empty().rtp.len() == 0,
        StoreView::empty().rtcp.len() == 0,
        store.add_rtp().rtp == store.rtp.push(
            RtpCounts { packets: 0, payload_bytes: 0, header_bytes: 0, last_packet_timestamp: 0 },
        ),
        store.add_rtp().rtcp == store.rtcp,
        store.add_rtcp().rtcp == store.rtcp.push(Map::<u32, RtcpCounts>::empty()),
        store.add_rtcp().rtp == store.rtp,
        store.set_rtp(place, rtp).rtp == store.rtp.update(place as int, rtp),
        store.set_rtp(place, rtp).rtcp == store.rtcp,
        store.set_feedback(table, ssrc, rtcp).rtcp == store.rtcp.update(
            table as int,
            store.rtcp[table as int].insert(ssrc, rtcp),
        ),
        store.set_feedback(table, ssrc, rtcp).rtp == store.rtp,
{
}

/// The feedback about a stream is what its entry holds; about a stream without an entry it is a
/// round trip time and a loss of zero, and no requests, indications or lost packets. The entry that
/// is created for such a stream holds just that; where there is an entry none is created.
pub proof fn law_unknown_streams_read_zero(store: StoreView, table: nat, ssrc: u32)
    requires
        table < store.rtcp.len(),
    ensures
        ({
            let zero = RtcpCounts {
                rtt_ms: RttMs { seconds: 0, fraction: 0 },
                loss: 0,
                fir_count: 0,
                pli_count: 0,
                nack_count: 0,
            };
            let entries = store.rtcp[table as int];
            let after = store.get_or_create(table, ssrc);
            &&& after.rtp == store.rtp
            &&& after.rtcp.len() == store.rtcp.len()
            &&& forall|t: int|
                0 <= t < store.rtcp.len() && t != table ==> #[trigger] after.rtcp[t]
                    == store.rtcp[t]
            &&& if entries.contains_key(ssrc) {
                &&& store.feedback(table, ssrc) == entries[ssrc]
                &&& after.rtcp[table as int] == entries
            } else {
                &&& store.feedback(table, ssrc) == zero
                &&& after.rtcp[table as int] == entries.insert(ssrc, zero)
            }
        }),
{
    let entries = store.rtcp[table as int];
    if entries.contains_key(ssrc) {
        assert(entries.insert(ssrc, entries[ssrc]) =~= entries);
    }
}

/// Taking readers creates the entries that are asked for and no others, with zero in them; those
/// that were there keep what they hold.
pub proof fn law_readers_create_entries(store: StoreView, table: nat, ssrcs: Seq<u32>)
    requires
        table < store.rtcp.len(),
    ensures
        ({
            let zero = RtcpCounts {
                rtt_ms: RttMs { seconds: 0, fraction: 0 },
                loss: 0,
                fir_count: 0,
                pli_count: 0,
                nack_count: 0,
            };
            let before = store.rtcp[table as int];
            let after = store.all_created(table, ssrcs);
            let entries = after.rtcp[table as int];
            &&& after.rtp == store.rtp
            &&& after.rtcp.len() == store.rtcp.len()
            &&& forall|t: int|
                0 <= t < store.rtcp.len() && t != table ==> #[trigger] after.rtcp[t]
                    == store.rtcp[t]
            &&& forall|s: u32| #[trigger]
                entries.contains_key(s) <==> before.contains_key(s) || ssrcs.contains(s)
            &&& forall|s: u32|
                entries.contains_key(s) ==> #[trigger] entries[s] == if before.contains_key(s) {
                    before[s]
                } else {
                    zero
                }
        }),
    decreases ssrcs.len(),
{
    if ssrcs.len() > 0 {
        let rest = ssrcs.drop_last();
        law_readers_create_entries(store, table, rest);
        law_unknown_streams_read_zero(store.all_created(table, rest), table, ssrcs.last());
        assert forall|s: u32| ssrcs.contains(s) <==> rest.contains(s) || s == ssrcs.last() by {
            if ssrcs.contains(s) && s != ssrcs.last() {
                let i = choose|i: int| 0 <= i < ssrcs.len() && ssrcs[i] == s;
                assert(rest[i] == s);
            }
            if rest.contains(s) {
                let i = choose|i: int| 0 <= i < rest.len() && rest[i] == s;
                assert(ssrcs[i] == s);
            }
            assert(ssrcs[ssrcs.len() - 1] == ssrcs.last());
        }
    }
}

/// An update adds to each counter, modulo 2^64, and sets the timestamp to the whole milliseconds
/// since the epoch, modulo 2^64 as well, unless the clock stands before the epoch.
pub proof fn law_update_adds(
    counts: RtpCounts,
    header_bytes: u64,
    payload_bytes: u64,
    packets: u64,
    now: Option<UnixTime>,
)
    ensures
        ({
            let after = counts.updated(header_bytes, payload_bytes, packets, now);
            &&& after.packets == (counts.packets + packets) % 0x1_0000_0000_0000_0000
            &&& after.header_bytes == (counts.header_bytes + header_bytes)
                % 0x1_0000_0000_0000_0000
            &&& after.payload_bytes == (counts.payload_bytes + payload_bytes)
                % 0x1_0000_0000_0000_0000
            &&& after.last_packet_timestamp == match now {
                Some(t) => (t.secs * 1_000_000_000 + t.nanos) / 1_000_000
                    % 0x1_0000_0000_0000_0000,
                None => counts.last_packet_timestamp as int,
            }
        }),
{
}

/// An update changes the counters at the place of the stream, as told by their contents before, and
/// nothing else in the store.
pub proof fn law_update_changes_one_place(
    stats: RTPStats,
    store: StoreView,
    header_bytes: u64,
    payload_bytes: u64,
    packets: u64,
    now: Option<UnixTime>,
)
    requires
        stats.place() < store.rtp.len(),
    ensures
        ({
            let after = stats.after_update(store, header_bytes, payload_bytes, packets, now);
            let place = stats.place() as int;
            &&& after.rtcp == store.rtcp
            &&& after.rtp.len() == store.rtp.len()
            &&& forall|i: int|
                0 <= i < store.rtp.len() && i != place ==> #[trigger] after.rtp[i] == store.rtp[i]
            &&& after.rtp[place] == store.rtp[place].updated(
                header_bytes,
                payload_bytes,
                packets,
                now,
            )
        }),
{
}

/// Handles to RTP counters are valid where the store has their place, and stand for what is there.
pub proof fn law_rtp_handles(stats: RTPStats, reader: RTPStatsReader, store: StoreView)
    ensures
        stats.in_store(store) <==> stats.place() < store.rtp.len(),
        stats.counts(store) == store.rtp[stats.place() as int],
        reader.in_store(store) <==> reader.place() < store.rtp.len(),
        reader.counts(store) == store.rtp[reader.place() as int],
{
}

/// Handles to RTCP feedback are valid where the store has their entry, and stand for what is there.
pub proof fn law_rtcp_handles(
    stats: RTCPStats,
    reader: RTCPStatsReader,
    store: StoreView,
    counts: RtcpCounts,
)
    ensures
        stats.in_store(store) <==> stats.table() < store.rtcp.len()
            && store.rtcp[stats.table() as int].contains_key(stats.ssrc()),
        stats.in_store(store) ==> stats.counts(store)
            == store.rtcp[stats.table() as int][stats.ssrc()],
        stats.in_store(store) ==> stats.set(store, counts).rtp == store.rtp,
        stats.in_store(store) ==> stats.set(store, counts).rtcp == store.rtcp.update(
            stats.table() as int,
            store.rtcp[stats.table() as int].insert(stats.ssrc(), counts),
        ),
        reader.in_store(store) <==> reader.table() < store.rtcp.len()
            && store.rtcp[reader.table() as int].contains_key(reader.ssrc()),
        reader.in_store(store) ==> reader.counts(store)
            == store.rtcp[reader.table() as int][reader.ssrc()],
{
}

/// Recorders of RTCP packets are valid where the store has their table.
pub proof fn law_rtcp_recorders(
    incoming: RTCPReadRecorder,
    outgoing: RTCPWriteRecorder,
    store: StoreView,
)
    ensures
        incoming.in_store(store) <==> incoming.table() < store.rtcp.len(),
        outgoing.in_store(store) <==> outgoing.table() < store.rtcp.len(),
{
}

/// To write a round trip time or a loss sets that field; to write a count adds to that count, modulo
/// 2^64. The other fields stay as they are.
pub proof fn law_feedback_writes(counts: RtcpCounts, rtt: RttMs, loss: u8, n: u64)
    ensures
        counts.with_rtt_ms(rtt) == (RtcpCounts { rtt_ms: rtt, ..counts }),
        counts.with_loss(loss) == (RtcpCounts { loss, ..counts }),
        counts.with_fir(n as int) == (RtcpCounts {
            fir_count: ((counts.fir_count + n) % 0x1_0000_0000_0000_0000) as u64,
            ..counts
        }),
        counts.with_pli(n as int) == (RtcpCounts {
            pli_count: ((counts.pli_count + n) % 0x1_0000_0000_0000_0000) as u64,
            ..counts
        }),
        counts.with_nack(n as int) == (RtcpCounts {
            nack_count: ((counts.nack_count + n) % 0x1_0000_0000_0000_0000) as u64,
            ..counts
        }),
{
}

proof fn lemma_occurrences_are_filtered(ssrcs: Seq<u32>, ssrc: u32)
    ensures
        crate::laws::occurrences(ssrcs, ssrc) == ssrcs.filter(|s: u32| s == ssrc).len(),
    decreases ssrcs.len(),
{
    reveal(Seq::filter);
    if ssrcs.len() > 0 {
        lemma_occurrences_are_filtered(ssrcs.drop_last(), ssrc);
    }
}

proof fn lemma_last_report_is_filtered(reports: Seq<ReceptionReport>, ssrc: u32)
    ensures
        ({
            let about = reports.filter(|r: ReceptionReport| r.ssrc == ssrc);
            crate::laws::last_report(reports, ssrc) == if about.len() == 0 {
                None
            } else {
                Some(about.last())
            }
        }),
    decreases reports.len(),
{
    reveal(Seq::filter);
    if reports.len() > 0 {
        lemma_last_report_is_filtered(reports.drop_last(), ssrc);
    }
}

proof fn lemma_batch_is_flattened(packets: Seq<RtcpPacketView>, ssrc: u32)
    ensures
        crate::laws::batch_total(packets, |p: RtcpPacketView| crate::laws::fir_in(p, ssrc))
            == packets.flat_map(
            |p: RtcpPacketView|
                match p {
                    RtcpPacketView::FullIntraRequest { ssrcs } => ssrcs,
                    _ => Seq::<u32>::empty(),
                },
        ).filter(|s: u32| s == ssrc).len(),
        crate::laws::batch_total(packets, |p: RtcpPacketView| crate::laws::pli_in(p, ssrc))
            == packets.filter(
            |p: RtcpPacketView|
                p == (RtcpPacketView::PictureLossIndication { media_ssrc: ssrc }),
        ).len(),
        crate::laws::batch_total(packets, |p: RtcpPacketView| crate::laws::nack_in(p, ssrc))
            == packets.flat_map(
            |p: RtcpPacketView|
                match p {
                    RtcpPacketView::TransportLayerNack { media_ssrc, nacks } => if media_ssrc
                        == ssrc {
                        nacks
                    } else {
                        Seq::<NackPair>::empty()
                    },
                    _ => Seq::<NackPair>::empty(),
                },
        ).flat_map(|n: NackPair| n.lost()).len(),
        ({
            let about = packets.flat_map(
                |p: RtcpPacketView|
                    match p {
                        RtcpPacketView::ReceiverReport { reports } => reports,
                        _ => Seq::<ReceptionReport>::empty(),
                    },
            ).filter(|r: ReceptionReport| r.ssrc == ssrc);
            crate::laws::last_report_in(packets, ssrc) == if about.len() == 0 {
                None
            } else {
                Some(about.last())
            }
        }),
    decreases packets.len(),
{
    let requests = |p: RtcpPacketView|
        match p {
            RtcpPacketView::FullIntraRequest { ssrcs } => ssrcs,
            _ => Seq::<u32>::empty(),
        };
    let pairs = |p: RtcpPacketView|
        match p {
            RtcpPacketView::TransportLayerNack { media_ssrc, nacks } => if media_ssrc == ssrc {
                nacks
            } else {
                Seq::<NackPair>::empty()
            },
            _ => Seq::<NackPair>::empty(),
        };
    let blocks = |p: RtcpPacketView|
        match p {
            RtcpPacketView::ReceiverReport { reports } => reports,
            _ => Seq::<ReceptionReport>::empty(),
        };
    let same = |s: u32| s == ssrc;
    let about = |r: ReceptionReport| r.ssrc == ssrc;
    let lost = |n: NackPair| n.lost();
    lemma_flat_map_step(packets, requests);
    lemma_flat_map_step(packets, pairs);
    lemma_flat_map_step(packets, blocks);
    reveal(Seq::filter);
    if packets.len() == 0 {
        lemma_flat_map_step(Seq::<NackPair>::empty(), lost);
    } else {
        let rest = packets.drop_last();
        let last = packets.last();
        lemma_batch_is_flattened(rest, ssrc);
        Seq::filter_distributes_over_add(rest.flat_map(requests), requests(last), same);
        Seq::filter_distributes_over_add(rest.flat_map(blocks), blocks(last), about);
        lemma_flat_map_add(rest.flat_map(pairs), pairs(last), lost);
        lemma_occurrences_are_filtered(requests(last), ssrc);
        lemma_last_report_is_filtered(blocks(last), ssrc);
        law_lost_packets_are_counted(pairs(last));
    }
}

/// What incoming packets leave behind of each stream: as many more intra requests as the requests
/// in the batch name the stream, as many more indications as there are for it, as many more lost
/// packets as the NACKs for it list, each modulo 2^64; and the loss and the round trip time of the
/// last report block about it. RTP counters and other tables stay as they are.
pub proof fn law_received_batch(
    store: StoreView,
    table: nat,
    now: u32,
    packets: Seq<RtcpPacketView>,
    ssrc: u32,
)
    requires
        table < store.rtcp.len(),
    ensures
        ({
            let requests = packets.flat_map(
                |p: RtcpPacketView|
                    match p {
                        RtcpPacketView::FullIntraRequest { ssrcs } => ssrcs,
                        _ => Seq::<u32>::empty(),
                    },
            ).filter(|s: u32| s == ssrc);
            let indications = packets.filter(
                |p: RtcpPacketView|
                    p == (RtcpPacketView::PictureLossIndication { media_ssrc: ssrc }),
            );
            let lost = packets.flat_map(
                |p: RtcpPacketView|
                    match p {
                        RtcpPacketView::TransportLayerNack { media_ssrc, nacks } => if media_ssrc
                            == ssrc {
                            nacks
                        } else {
                            Seq::<NackPair>::empty()
                        },
                        _ => Seq::<NackPair>::empty(),
                    },
            ).flat_map(|n: NackPair| n.lost());
            let blocks = packets.flat_map(
                |p: RtcpPacketView|
                    match p {
                        RtcpPacketView::ReceiverReport { reports } => reports,
                        _ => Seq::<ReceptionReport>::empty(),
                    },
            ).filter(|r: ReceptionReport| r.ssrc == ssrc);
            let all = store.all_received(table, now, packets);
            let before = store.feedback(table, ssrc);
            let after = all.feedback(table, ssrc);
            &&& after.fir_count == (before.fir_count + requests.len()) % 0x1_0000_0000_0000_0000
            &&& after.pli_count == (before.pli_count + indications.len())
                % 0x1_0000_0000_0000_0000
            &&& after.nack_count == (before.nack_count + lost.len()) % 0x1_0000_0000_0000_0000
            &&& blocks.len() == 0 ==> after.rtt_ms == before.rtt_ms && after.loss == before.loss
            &&& blocks.len() > 0 ==> {
                let b = blocks.last();
                &&& after.loss == b.fraction_lost
                &&& after.rtt_ms.seconds * 0x1_0000 + after.rtt_ms.fraction == (now - b.delay
                    - b.last_sender_report) % 0x1_0000_0000
            }
            &&& all.rtp == store.rtp
            &&& all.rtcp.len() == store.rtcp.len()
            &&& forall|t: int|
                0 <= t < store.rtcp.len() && t != table ==> #[trigger] all.rtcp[t]
                    == store.rtcp[t]
        }),
{
    law_received_feedback_adds_up(store, table, now, packets, ssrc);
    lemma_batch_is_flattened(packets, ssrc);
    store.lemma_all_received_frame(table, now, packets);
}

/// What outgoing packets leave behind of each stream: as many more intra requests as the requests
/// in the batch name the stream, as many more indications as there are for it, and as many more
/// lost packets as the NACKs for it list, each modulo 2^64. Round trip time and loss, RTP counters
/// and other tables stay as they are.
pub proof fn law_sent_batch(
    store: StoreView,
    table: nat,
    packets: Seq<RtcpPacketView>,
    ssrc: u32,
)
    requires
        table < store.rtcp.len(),
    ensures
        ({
            let requests = packets.flat_map(
                |p: RtcpPacketView|
                    match p {
                        RtcpPacketView::FullIntraRequest { ssrcs } => ssrcs,
                        _ => Seq::<u32>::empty(),
                    },
            ).filter(|s: u32| s == ssrc);
            let indications = packets.filter(
                |p: RtcpPacketView|
                    p == (RtcpPacketView::PictureLossIndication { media_ssrc: ssrc }),
            );
            let lost = packets.flat_map(
                |p: RtcpPacketView|
                    match p {
                        RtcpPacketView::TransportLayerNack { media_ssrc, nacks } => if media_ssrc
                            == ssrc {
                            nacks
                        } else {
                            Seq::<NackPair>::empty()
                        },
                        _ => Seq::<NackPair>::empty(),
                    },
            ).flat_map(|n: NackPair| n.lost());
            let all = store.all_sent(table, packets);
            let before = store.feedback(table, ssrc);
            let after = all.feedback(table, ssrc);
            &&& after.fir_count == (before.fir_count + requests.len()) % 0x1_0000_0000_0000_0000
            &&& after.pli_count == (before.pli_count + indications.len())
                % 0x1_0000_0000_0000_0000
            &&& after.nack_count == (before.nack_count + lost.len()) % 0x1_0000_0000_0000_0000
            &&& after.rtt_ms == before.rtt_ms
            &&& after.loss == before.loss
            &&& all.rtp == store.rtp
            &&& all.rtcp.len() == store.rtcp.len()
            &&& forall|t: int|
                0 <= t < store.rtcp.len() && t != table ==> #[trigger] all.rtcp[t]
                    == store.rtcp[t]
        }),
{
    law_sent_feedback_adds_up(store, table, packets, ssrc);
    lemma_batch_is_flattened(packets, ssrc);
    store.lemma_all_sent_frame(table, packets);
}

/// Incoming packets are timed by the clock at full resolution: the time in whole units of 2^-16 s
/// since 1900, modulo 2^32, at a reading that the clock gives.
pub proof fn law_packets_are_timed_by_the_clock<R, F: Fn() -> Option<UnixTime>>(
    icpr: RTCPReadInterceptor<R, F>,
    now: u32,
)
    ensures
        icpr.may_receive_at(now) ==> exists|time: Option<UnixTime>| #[trigger]
            icpr.now_gen.may_read(time) && ({
                let nanos = match time {
                    Some(t) => (t.secs * 1_000_000_000 + t.nanos) % 0x1_0000_0000_0000_0000,
                    None => 0,
                };
                now == (nanos * 0x1_0000 / 1_000_000_000 + 0x83AA7E80 * 0x1_0000) % 0x1_0000_0000
            }),
{
    if icpr.may_receive_at(now) {
        let time = choose|time: Option<UnixTime>|
            icpr.now_gen.may_read(time) && now == #[trigger] crate::time::ntp_middle_bits(time);
        law_ntp_middle_bits(time);
        assert(icpr.now_gen.may_read(time));
    }
}

/// With a clock that stands at `t`, incoming packets are timed at `t`, in whole units of 2^-16 s
/// since 1900, modulo 2^32.
pub proof fn law_packets_are_timed_at_the_reading<R, F: Fn() -> Option<UnixTime>>(
    icpr: RTCPReadInterceptor<R, F>,
    t: UnixTime,
    now: u32,
)
    requires
        forall|time: Option<UnixTime>| #[trigger] icpr.now_gen.may_read(time) ==> time == Some(t),
        t.secs * 1_000_000_000 + t.nanos <= u64::MAX,
    ensures
        icpr.may_receive_at(now) ==> now == ((t.secs * 1_000_000_000 + t.nanos) * 0x1_0000
            / 1_000_000_000 + 0x83AA7E80 * 0x1_0000) % 0x1_0000_0000,
{
    law_packets_are_timed_by_the_clock(icpr, now);
}

/// Receiving a datagram gives as many packets as there are in it, each with the contents of the one
/// in its position, and a time at which packets may be received; receiving a malformed one gives
/// the error of the `rtcp` crate.
pub proof fn law_receiving_gives_every_packet<R, F: Fn() -> Option<UnixTime>>(
    icpr: RTCPReadInterceptor<R, F>,
    datagram: Seq<u8>,
    result: Result<(Vec<RtcpPacket>, u32), PacketError>,
)
    ensures
        icpr.may_receive(datagram, result) ==> match crate::wire::rtcp_packets(datagram) {
            Some(packets) => {
                &&& result is Ok
                &&& result->Ok_0.0@.len() == packets.len()
                &&& forall|i: int|
                    0 <= i < packets.len() ==> (#[trigger] result->Ok_0.0@[i])@ == packets[i]
                &&& icpr.may_receive_at(result->Ok_0.1)
            },
            None => match result {
                Err(PacketError::Rtcp(e)) => crate::wire::rtcp_error(datagram, e),
                _ => false,
            },
        },
{
    if icpr.may_receive(datagram, result) {
        if let Ok((received, _)) = result {
            law_batch_contents(received@);
            assert forall|i: int| 0 <= i < received@.len() implies (#[trigger] received@[i])@
                == crate::packet::batch_view(received@)[i] by {}
        }
    }
}

proof fn lemma_difference_of_remainder(x: int, a: int, b: int)
    ensures
        (x % 0x1_0000_0000 - a - b) % 0x1_0000_0000 == (x - a - b) % 0x1_0000_0000,
{
}

/// What reading a datagram leaves behind of each stream, for all packets of the datagram together:
/// as many more intra requests as they name the stream, as many more indications as there are for
/// it, as many more lost packets as the NACKs for it list, and the loss and the round trip time of
/// the last report block about it, by a reading of the clock. A malformed datagram leaves
/// everything as it is and gives the error of the `rtcp` crate.
pub proof fn law_reading_records_every_packet<R, F: Fn() -> Option<UnixTime>>(
    icpr: RTCPReadInterceptor<R, F>,
    datagram: Seq<u8>,
    before: StoreView,
    after: StoreView,
    result: Result<usize, PacketError>,
    ssrc: u32,
)
    requires
        icpr.recorder.table() < before.rtcp.len(),
    ensures
        icpr.may_yield(datagram, before, after, result) ==> match crate::wire::rtcp_packets(
            datagram,
        ) {
            Some(packets) => {
                let requests = packets.flat_map(
                    |p: RtcpPacketView|
                        match p {
                            RtcpPacketView::FullIntraRequest { ssrcs } => ssrcs,
                            _ => Seq::<u32>::empty(),
                        },
                ).filter(|s: u32| s == ssrc);
                let indications = packets.filter(
                    |p: RtcpPacketView|
                        p == (RtcpPacketView::PictureLossIndication { media_ssrc: ssrc }),
                );
                let lost = packets.flat_map(
                    |p: RtcpPacketView|
                        match p {
                            RtcpPacketView::TransportLayerNack { media_ssrc, nacks } =>
                                if media_ssrc == ssrc {
                                nacks
                            } else {
                                Seq::<NackPair>::empty()
                            },
                            _ => Seq::<NackPair>::empty(),
                        },
                ).flat_map(|n: NackPair| n.lost());
                let blocks = packets.flat_map(
                    |p: RtcpPacketView|
                        match p {
                            RtcpPacketView::ReceiverReport { reports } => reports,
                            _ => Seq::<ReceptionReport>::empty(),
                        },
                ).filter(|r: ReceptionReport| r.ssrc == ssrc);
                let table = icpr.recorder.table();
                let old = before.feedback(table, ssrc);
                let new = after.feedback(table, ssrc);
                &&& result is Ok && result->Ok_0 == datagram.len()
                &&& new.fir_count == (old.fir_count + requests.len()) % 0x1_0000_0000_0000_0000
                &&& new.pli_count == (old.pli_count + indications.len())
                    % 0x1_0000_0000_0000_0000
                &&& new.nack_count == (old.nack_count + lost.len()) % 0x1_0000_0000_0000_0000
                &&& blocks.len() == 0 ==> new.rtt_ms == old.rtt_ms && new.loss == old.loss
                &&& blocks.len() > 0 ==> new.loss == blocks.last().fraction_lost
                &&& blocks.len() > 0 ==> exists|time: Option<UnixTime>| #[trigger]
                    icpr.now_gen.may_read(time) && ({
                        let nanos = match time {
                            Some(t) => (t.secs * 1_000_000_000 + t.nanos)
                                % 0x1_0000_0000_0000_0000,
                            None => 0,
                        };
                        new.rtt_ms.seconds * 0x1_0000 + new.rtt_ms.fraction == (nanos * 0x1_0000
                            / 1_000_000_000 + 0x83AA7E80 * 0x1_0000 - blocks.last().delay
                            - blocks.last().last_sender_report) % 0x1_0000_0000
                    })
                &&& after.rtp == before.rtp
                &&& after.rtcp.len() == before.rtcp.len()
                &&& forall|t: int|
                    0 <= t < before.rtcp.len() && t != table ==> #[trigger] after.rtcp[t]
                        == before.rtcp[t]
            },
            None => {
                &&& after == before
                &&& match result {
                    Err(PacketError::Rtcp(e)) => crate::wire::rtcp_error(datagram, e),
                    _ => false,
                }
            },
        },
{
    if icpr.may_yield(datagram, before, after, result) {
        if let Some(packets) = crate::wire::rtcp_packets(datagram) {
            let table = icpr.recorder.table();
            let now = choose|now: u32|
                #[trigger] icpr.may_receive_at(now) && after == before.all_received(
                    table,
                    now,
                    packets,
                );
            law_received_batch(before, table, now, packets, ssrc);
            law_packets_are_timed_by_the_clock(icpr, now);
            let time = choose|time: Option<UnixTime>| #[trigger]
                icpr.now_gen.may_read(time) && ({
                    let nanos = match time {
                        Some(t) => (t.secs * 1_000_000_000 + t.nanos) % 0x1_0000_0000_0000_0000,
                        None => 0,
                    };
                    now == (nanos * 0x1_0000 / 1_000_000_000 + 0x83AA7E80 * 0x1_0000)
                        % 0x1_0000_0000
                });
            let nanos: int = match time {
                Some(t) => (t.secs * 1_000_000_000 + t.nanos) % 0x1_0000_0000_0000_0000,
                None => 0,
            };
            let blocks = packets.flat_map(
                |p: RtcpPacketView|
                    match p {
                        RtcpPacketView::ReceiverReport { reports } => reports,
                        _ => Seq::<ReceptionReport>::empty(),
                    },
            ).filter(|r: ReceptionReport| r.ssrc == ssrc);
            lemma_difference_of_remainder(
                nanos * 0x1_0000 / 1_000_000_000 + 0x83AA7E80 * 0x1_0000,
                blocks.last().delay as int,
                blocks.last().last_sender_report as int,
            );
        }
    }
}

proof fn lemma_bound_places_are_filtered(streams: Map<u32, nat>, ssrcs: Seq<u32>, n: nat)
    requires
        n <= ssrcs.len(),
    ensures
        crate::interceptor::bound_places(streams, ssrcs.take(n as int)) == Seq::new(
            n,
            |i: int| i,
        ).filter(|i: int| streams.contains_key(ssrcs[i])).map_values(
            |i: int| streams[ssrcs[i]],
        ),
    decreases n,
{
    let all = Seq::new(n, |i: int| i);
    let bound = |i: int| streams.contains_key(ssrcs[i]);
    let place = |i: int| streams[ssrcs[i]];
    reveal(Seq::filter);
    if n == 0 {
        assert(ssrcs.take(0) =~= Seq::<u32>::empty());
        assert(crate::interceptor::bound_places(streams, ssrcs.take(0)) =~= all.filter(
            bound,
        ).map_values(place));
    } else {
        let m = (n - 1) as nat;
        lemma_bound_places_are_filtered(streams, ssrcs, m);
        crate::interceptor::lemma_bound_places_step(streams, ssrcs, m as int);
        assert(all.drop_last() =~= Seq::new(m, |i: int| i));
        assert(crate::interceptor::bound_places(streams, ssrcs.take(n as int)) =~= all.filter(
            bound,
        ).map_values(place));
    }
}

/// There are as many readers as there are positions at which a bound stream is asked for, and each
/// is of the stream at its position.
pub proof fn law_one_reader_for_each_bound_stream(streams: Map<u32, nat>, ssrcs: Seq<u32>)
    ensures
        ({
            let places = crate::interceptor::bound_places(streams, ssrcs);
            let positions = Seq::new(ssrcs.len(), |i: int| i).filter(
                |i: int| streams.contains_key(ssrcs[i]),
            );
            &&& places.len() == positions.len()
            &&& forall|k: int|
                0 <= k < places.len() ==> #[trigger] places[k] == streams[ssrcs[positions[k]]]
        }),
{
    lemma_bound_places_are_filtered(streams, ssrcs, ssrcs.len());
    assert(ssrcs.take(ssrcs.len() as int) =~= ssrcs);
}

/// No streams asked for give no readers; one stream gives one reader if it is bound and none
/// otherwise; two lists asked for together give the readers of the one and then of the other.
pub proof fn law_readers_are_taken_one_by_one(
    streams: Map<u32, nat>,
    ssrc: u32,
    first: Seq<u32>,
    second: Seq<u32>,
)
    ensures
        crate::interceptor::bound_places(streams, Seq::<u32>::empty()).len() == 0,
        crate::interceptor::bound_places(streams, seq![ssrc]) == if streams.contains_key(ssrc) {
            seq![streams[ssrc]]
        } else {
            Seq::<nat>::empty()
        },
        crate::interceptor::bound_places(streams, first + second)
            == crate::interceptor::bound_places(streams, first)
            + crate::interceptor::bound_places(streams, second),
{
    let bound = |s: u32| streams.contains_key(s);
    reveal_with_fuel(Seq::filter, 2);
    assert(seq![ssrc].drop_last() =~= Seq::<u32>::empty());
    assert(crate::interceptor::bound_places(streams, seq![ssrc]) =~= if streams.contains_key(ssrc) {
        seq![streams[ssrc]]
    } else {
        Seq::<nat>::empty()
    });
    Seq::filter_distributes_over_add(first, second, bound);
    assert(crate::interceptor::bound_places(streams, first + second)
        =~= crate::interceptor::bound_places(streams, first) + crate::interceptor::bound_places(
        streams,
        second,
    ));
}

/// The streams of an interceptor are those that have a recorder, and their counters are those of
/// the recorder.
pub proof fn law_places_are_those_of_the_recorders<R, W, F>(
    icpr: StatsInterceptor<R, W, F>,
    ssrc: u32,
)
    ensures
        icpr.recv_places().contains_key(ssrc) <==> icpr.recv_streams().contains_key(ssrc),
        icpr.recv_streams().contains_key(ssrc) ==> icpr.recv_places()[ssrc]
            == icpr.recv_streams()[ssrc].stats.place(),
        icpr.send_places().contains_key(ssrc) <==> icpr.send_streams().contains_key(ssrc),
        icpr.send_streams().contains_key(ssrc) ==> icpr.send_places()[ssrc]
            == icpr.send_streams()[ssrc].stats.place(),
{
}

/// A new interceptor has two tables of its own, both empty, behind those that were there, and no
/// streams; readers of feedback about any stream read zero.
pub proof fn law_new_interceptor<R, W, F>(
    icpr: StatsInterceptor<R, W, F>,
    before: StoreView,
    after: StoreView,
    ssrc: u32,
)
    ensures
        icpr.is_new(before, after) ==> {
            let zero = RtcpCounts {
                rtt_ms: RttMs { seconds: 0, fraction: 0 },
                loss: 0,
                fir_count: 0,
                pli_count: 0,
                nack_count: 0,
            };
            let incoming = icpr.rtcp_recv_recorder().table();
            let outgoing = icpr.rtcp_send_recorder().table();
            &&& after.rtp == before.rtp
            &&& after.rtcp == before.rtcp.push(Map::empty()).push(Map::empty())
            &&& incoming == before.rtcp.len()
            &&& outgoing == before.rtcp.len() + 1
            &&& !icpr.recv_streams().contains_key(ssrc)
            &&& !icpr.send_streams().contains_key(ssrc)
            &&& after.feedback(incoming, ssrc) == zero
            &&& after.feedback(outgoing, ssrc) == zero
            &&& icpr.wf(after)
        },
{
}

/// An interceptor is timed by the function that it was given, and by the system where it was given
/// none.
pub proof fn law_clock_of_an_interceptor<R, W, F>(icpr: StatsInterceptor<R, W, F>)
    ensures
        match icpr.now_gen() {
            Some(f) => icpr.clock() == Clock::Custom(f),
            None => icpr.clock() == Clock::<F>::System,
        },
{
}

/// Interceptors that differ at most in the streams of one direction have the streams of the other,
/// the recorders of RTCP packets, the name and the clock in common.
pub proof fn law_what_binding_leaves_alone<R, W, F>(
    one: StatsInterceptor<R, W, F>,
    other: StatsInterceptor<R, W, F>,
)
    ensures
        one.same_but_recv_streams(other) ==> one.send_streams() == other.send_streams(),
        one.same_but_send_streams(other) ==> one.recv_streams() == other.recv_streams(),
        one.same_but_recv_streams(other) || one.same_but_send_streams(other) ==> {
            &&& one.rtcp_recv_recorder() == other.rtcp_recv_recorder()
            &&& one.rtcp_send_recorder() == other.rtcp_send_recorder()
            &&& one.id() == other.id()
            &&& one.now_gen() == other.now_gen()
        },
{
}

/// An interceptor is well formed where the store has its two tables, which are not the same, and a
/// place for each of its streams, no two of them the same.
pub proof fn law_well_formed<R, W, F>(icpr: StatsInterceptor<R, W, F>, store: StoreView)
    ensures
        icpr.wf(store) <==> {
            let recv = icpr.recv_places();
            let send = icpr.send_places();
            &&& icpr.rtcp_recv_recorder().table() < store.rtcp.len()
            &&& icpr.rtcp_send_recorder().table() < store.rtcp.len()
            &&& icpr.rtcp_recv_recorder().table() != icpr.rtcp_send_recorder().table()
            &&& forall|s: u32| recv.contains_key(s) ==> #[trigger] recv[s] < store.rtp.len()
            &&& forall|s: u32| send.contains_key(s) ==> #[trigger] send[s] < store.rtp.len()
            &&& forall|s: u32, t: u32|
                recv.contains_key(s) && recv.contains_key(t) && #[trigger] recv[s]
                    == #[trigger] recv[t] ==> s == t
            &&& forall|s: u32, t: u32|
                send.contains_key(s) && send.contains_key(t) && #[trigger] send[s]
                    == #[trigger] send[t] ==> s == t
            &&& forall|s: u32, t: u32|
                recv.contains_key(s) && send.contains_key(t) ==> #[trigger] recv[s]
                    != #[trigger] send[t]
        },
{
}

/// A header takes 12 bytes, and four for each contributing source. An extension takes four more,
/// and its elements, each with one byte or two in front where the profile asks for them, filled up
/// to the next multiple of four.
pub proof fn law_header_size(header: RtpHeader)
    ensures
        ({
            let base = 12 + 4 * header.csrc@.len();
            let payloads = header.extensions@.flat_map(|e: RtpExtension| e.payload@).len();
            let per_element: int = if header.extension_profile == 0xBEDE {
                1
            } else if header.extension_profile == 0x1000 {
                2
            } else {
                0
            };
            let elements = payloads + header.extensions@.len() * per_element;
            if header.extension {
                let filled = header.wire_size() - base - 4;
                &&& filled % 4 == 0
                &&& elements <= filled < elements + 4
            } else {
                header.wire_size() == base
            }
        }),
{
    lemma_extension_payloads(header.extensions@);
}

proof fn lemma_extension_payloads(extensions: Seq<RtpExtension>)
    ensures
        crate::wire::extension_payload_bytes(extensions) == extensions.flat_map(
            |e: RtpExtension| e.payload@,
        ).len(),
    decreases extensions.len(),
{
    let payload = |e: RtpExtension| e.payload@;
    lemma_flat_map_step(extensions, payload);
    if extensions.len() > 0 {
        lemma_extension_payloads(extensions.drop_last());
    }
}

/// Elements of a header extension with one byte in front are in order where each begins with a
/// byte whose lower half is one less than the length of what follows, and all of that is there. A
/// zero byte is skipped, and behind one that begins with 15 nothing matters.
pub proof fn law_one_byte_elements(packet: Seq<u8>, at: int, end: int)
    requires
        0 <= at,
    ensures
        ({
            let fit = crate::wire::one_byte_elements_fit(packet, at, end);
            let next = at + 2 + packet[at] % 16;
            &&& at >= end || at >= packet.len() ==> fit
            &&& at < end && at < packet.len() ==> {
                &&& packet[at] == 0 ==> fit == crate::wire::one_byte_elements_fit(
                    packet,
                    at + 1,
                    end,
                )
                &&& packet[at] >= 0xF0 ==> fit
                &&& 0 < packet[at] < 0xF0 && next > packet.len() ==> !fit
                &&& 0 < packet[at] < 0xF0 && next <= packet.len() ==> fit
                    == crate::wire::one_byte_elements_fit(packet, next, end)
            }
        }),
{
}

/// Elements of a header extension with two bytes in front are in order where the second byte is the
/// length of what follows, and all of that is there. A zero byte is skipped.
pub proof fn law_two_byte_elements(packet: Seq<u8>, at: int, end: int)
    requires
        0 <= at,
    ensures
        ({
            let fit = crate::wire::two_byte_elements_fit(packet, at, end);
            let next = at + 2 + packet[at + 1];
            &&& at >= end || at >= packet.len() ==> fit
            &&& at < end && at < packet.len() ==> {
                &&& packet[at] == 0 ==> fit == crate::wire::two_byte_elements_fit(
                    packet,
                    at + 1,
                    end,
                )
                &&& packet[at] != 0 && (at + 1 == packet.len() || next > packet.len()) ==> !fit
                &&& packet[at] != 0 && at + 1 < packet.len() && next <= packet.len() ==> fit
                    == crate::wire::two_byte_elements_fit(packet, next, end)
            }
        }),
{
}

/// An RTP packet can be read unless it has a header extension of which all of the declared length is
/// there, of one of the two profiles with elements, and its elements are not in order.
pub proof fn law_rtp_packets_that_fit(packet: Seq<u8>)
    ensures
        ({
            let fits = crate::wire::rtp_extension_fits(packet);
            let at = 12 + 4 * (packet[0] % 16);
            let end = at + 4 + 4 * (packet[at + 2] * 256 + packet[at + 3]);
            let profile = packet[at] * 256 + packet[at + 1];
            let complete = packet.len() >= 4 && packet[0] % 32 >= 16 && at + 4 <= packet.len()
                && end <= packet.len();
            &&& !complete ==> fits
            &&& complete && profile == 0xBEDE ==> fits == crate::wire::one_byte_elements_fit(
                packet,
                at + 4,
                end,
            )
            &&& complete && profile == 0x1000 ==> fits == crate::wire::two_byte_elements_fit(
                packet,
                at + 4,
                end,
            )
            &&& complete && profile != 0xBEDE && profile != 0x1000 ==> fits
        }),
{
    if packet.len() >= 4 {
        let b = packet[0];
        assert((b / 16) % 2 == 0 <==> b % 32 < 16) by (bit_vector);
    }
}

/// Which blocks of an extended report are rejected for their length in words.
pub proof fn law_rejected_blocks(block_type: u8, words: nat)
    ensures
        crate::wire::xr_block_rejected(block_type, words) <==> {
            ||| (block_type == 1 || block_type == 2 || block_type == 3) && words < 2
            ||| block_type == 4 && words != 2
            ||| block_type == 5 && words % 3 != 0
            ||| block_type == 6 && words != 9
            ||| block_type == 7 && words != 8
        },
{
}

/// The blocks of an extended report are in order where each declares less than 2^14 words. Behind a
/// block that is rejected or incomplete nothing matters.
pub proof fn law_extended_report_blocks(datagram: Seq<u8>, at: int, end: int)
    ensures
        ({
            let fit = crate::wire::xr_blocks_fit(datagram, at, end);
            let words = datagram[at + 2] * 256 + datagram[at + 3];
            let next = at + 4 + 4 * words;
            let read = !crate::wire::xr_block_rejected(datagram[at], words as nat) && next <= end;
            &&& end < at + 4 ==> fit
            &&& at + 4 <= end && words >= 0x4000 ==> !fit
            &&& at + 4 <= end && words < 0x4000 && !read ==> fit
            &&& at + 4 <= end && words < 0x4000 && read ==> fit == crate::wire::xr_blocks_fit(
                datagram,
                next,
                end,
            )
        }),
{
}

/// The status chunks of a transport wide feedback are in order where the count of states, which a
/// run takes up to at most the total, and a vector by fourteen or by seven, stays below 2^16 until
/// the total is reached or the chunks end.
pub proof fn law_status_chunks(datagram: Seq<u8>, at: int, end: int, seen: int, total: int)
    ensures
        ({
            let fit = crate::wire::tcc_chunks_fit(datagram, at, end, seen, total);
            let run = (datagram[at] % 32) * 256 + datagram[at + 1];
            let more = seen < total && at + 2 < end;
            &&& !more ==> fit
            &&& more && datagram[at] < 0x80 && seen + run < total ==> fit
                == crate::wire::tcc_chunks_fit(datagram, at + 2, end, seen + run, total)
            &&& more && datagram[at] < 0x80 && seen + run >= total ==> fit
            &&& more && 0x80 <= datagram[at] < 0xC0 ==> fit == (seen + 14 < 0x1_0000
                && crate::wire::tcc_chunks_fit(datagram, at + 2, end, seen + 14, total))
            &&& more && 0xC0 <= datagram[at] ==> fit == (seen + 7 < 0x1_0000
                && crate::wire::tcc_chunks_fit(datagram, at + 2, end, seen + 7, total))
        }),
{
    assert(crate::wire::tcc_chunks_fit(datagram, at + 2, end, total, total));
}

/// Which RTCP packets, by type and format, are in order. All but NACKs, transport wide feedback,
/// intra requests, bandwidth estimates and extended reports are.
pub proof fn law_rtcp_packets_that_fit(datagram: Seq<u8>, at: int, words: nat)
    ensures
        ({
            let fits = crate::wire::rtcp_packet_fits(datagram, at, words);
            let end = at + 4 + 4 * words;
            let kind = datagram[at + 1];
            let format = datagram[at] % 32;
            let remb = datagram[at + 8] == 0 && datagram[at + 9] == 0 && datagram[at + 10] == 0
                && datagram[at + 11] == 0 && datagram[at + 12] == 0x52 && datagram[at + 13] == 0x45
                && datagram[at + 14] == 0x4D && datagram[at + 15] == 0x42;
            let states = datagram[at + 14] * 256 + datagram[at + 15];
            &&& kind == 205 && format == 1 ==> fits == (words != 1 && words < 0x4000)
            &&& kind == 205 && format == 15 && words < 4 ==> fits
            &&& kind == 205 && format == 15 && words >= 4 ==> fits == (words < 0xFFFF
                && crate::wire::tcc_chunks_fit(datagram, at + 20, end, 0, states))
            &&& kind == 206 && format == 4 ==> fits == (words % 2 == 0 && words < 0x4000)
            &&& kind == 206 && format == 15 && words < 4 ==> fits
            &&& kind == 206 && format == 15 && words >= 4 ==> fits == (remb ==> 4 + datagram[at
                + 16] <= words)
            &&& kind == 207 && words == 0 ==> fits
            &&& kind == 207 && words > 0 ==> fits == crate::wire::xr_blocks_fit(
                datagram,
                at + 8,
                end,
            )
            &&& kind == 205 && format != 1 && format != 15 ==> fits
            &&& kind == 206 && format != 4 && format != 15 ==> fits
            &&& kind < 205 || kind > 207 ==> fits
        }),
{
}

/// The first packet of a datagram that is not in order is the first one, where that is complete and
/// of version 2; otherwise it is the first such packet behind it. Behind an incomplete packet, or
/// one of another version, there is none.
pub proof fn law_first_misfit(datagram: Seq<u8>, at: int)
    ensures
        ({
            let first = crate::wire::first_misfit(datagram, at);
            let words = datagram[at + 2] * 256 + datagram[at + 3];
            let next = at + 4 + 4 * words;
            let complete = at + 4 <= datagram.len() && next <= datagram.len() && 0x80
                <= datagram[at] < 0xC0;
            let fits = crate::wire::rtcp_packet_fits(datagram, at, words as nat);
            &&& !complete ==> first is None
            &&& complete && !fits ==> first == Some(at)
            &&& complete && fits ==> first == crate::wire::first_misfit(datagram, next)
        }),
{
}

/// A datagram can be read where all its packets are in order, and where the packets in front of the
/// first that is not are rejected; it cannot be read where they are valid or there are none.
pub proof fn law_datagrams_that_fit(datagram: Seq<u8>)
    ensures
        match crate::wire::first_misfit(datagram, 0) {
            None => crate::wire::rtcp_datagram_fits(datagram),
            Some(at) => crate::wire::rtcp_datagram_fits(datagram) <==> at != 0
                && crate::wire::rtcp_packets(datagram.take(at)) is None,
        },
{
    crate::wire::lemma_no_misfit_before_first(datagram, 0);
}

} // verus!
