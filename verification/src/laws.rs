//! What holds of the stats as a whole.

use std::sync::Arc;

use vstd::prelude::*;

use crate::interceptor::StatsInterceptor;
use crate::packet::{NackPair, ReceptionReport, RtcpPacketView};
use crate::recorder::{RTPReadRecorder, RTPWriteRecorder};
use crate::rtt::RttMs;
use crate::stats::{RTCPStats, RTCPStatsReader, RTPStats, RTPStatsReader};
use crate::store::{RtcpCounts, RtpCounts, StoreView};
use crate::time::UnixTime;

verus! {

/// A reader sees an update that is made through the counters that it was taken from.
pub proof fn law_reader_sees_update(
    stats: RTPStats,
    reader: RTPStatsReader,
    store: StoreView,
    header_bytes: u64,
    payload_bytes: u64,
    packets: u64,
    now: Option<UnixTime>,
)
    requires
        stats.in_store(store),
        reader.place() == stats.place(),
    ensures
        ({
            let after = stats.after_update(store, header_bytes, payload_bytes, packets, now);
            &&& reader.in_store(after)
            &&& reader.counts(after) == reader.counts(store).updated(
                header_bytes,
                payload_bytes,
                packets,
                now,
            )
        }),
{
}

/// An update of one stream leaves the counters of every other stream, and all RTCP feedback, as
/// they are.
pub proof fn law_update_leaves_the_rest(
    stats: RTPStats,
    other: RTPStatsReader,
    store: StoreView,
    header_bytes: u64,
    payload_bytes: u64,
    packets: u64,
    now: Option<UnixTime>,
)
    requires
        stats.in_store(store),
        other.in_store(store),
        other.place() != stats.place(),
    ensures
        ({
            let after = stats.after_update(store, header_bytes, payload_bytes, packets, now);
            &&& other.in_store(after)
            &&& other.counts(after) == other.counts(store)
            &&& after.rtcp == store.rtcp
        }),
{
}

/// One update of RTP counters.
pub struct RtpUpdate {
    pub header_bytes: u64,
    pub payload_bytes: u64,
    pub packets: u64,
    pub now: Option<UnixTime>,
}

/// The counters after a series of updates.
pub open spec fn all_updated(counts: RtpCounts, updates: Seq<RtpUpdate>) -> RtpCounts
    decreases updates.len(),
{
    if updates.len() == 0 {
        counts
    } else {
        let u = updates.last();
        all_updated(counts, updates.drop_last()).updated(
            u.header_bytes,
            u.payload_bytes,
            u.packets,
            u.now,
        )
    }
}

/// The sum of what `amount` says of each update.
pub open spec fn update_total(updates: Seq<RtpUpdate>, amount: spec_fn(RtpUpdate) -> u64) -> nat
    decreases updates.len(),
{
    if updates.len() == 0 {
        0
    } else {
        update_total(updates.drop_last(), amount) + amount(updates.last()) as nat
    }
}

/// The last time that an update gives; `before` where none gives one.
pub open spec fn last_millis(before: u64, updates: Seq<RtpUpdate>) -> u64
    decreases updates.len(),
{
    if updates.len() == 0 {
        before
    } else {
        match updates.last().now {
            Some(t) => crate::store::wrap64(t.total_millis() as int),
            None => last_millis(before, updates.drop_last()),
        }
    }
}

pub(crate) proof fn lemma_wrap64_add(a: int, b: int)
    ensures
        crate::store::wrap64(crate::store::wrap64(a) + b) == crate::store::wrap64(a + b),
{
}

/// After any series of updates each counter has grown by the sum of what the updates gave,
/// modulo 2^64, and the timestamp is the last one given.
pub proof fn law_updates_add_up(counts: RtpCounts, updates: Seq<RtpUpdate>)
    ensures
        ({
            let after = all_updated(counts, updates);
            let headers = update_total(updates, |u: RtpUpdate| u.header_bytes);
            let payloads = update_total(updates, |u: RtpUpdate| u.payload_bytes);
            let packets = update_total(updates, |u: RtpUpdate| u.packets);
            &&& after.header_bytes == crate::store::wrap64(counts.header_bytes + headers)
            &&& after.payload_bytes == crate::store::wrap64(counts.payload_bytes + payloads)
            &&& after.packets == crate::store::wrap64(counts.packets + packets)
            &&& after.last_packet_timestamp == last_millis(counts.last_packet_timestamp, updates)
        }),
    decreases updates.len(),
{
    if updates.len() > 0 {
        let rest = updates.drop_last();
        let u = updates.last();
        law_updates_add_up(counts, rest);
        let headers = |u: RtpUpdate| u.header_bytes;
        let payloads = |u: RtpUpdate| u.payload_bytes;
        let packets = |u: RtpUpdate| u.packets;
        lemma_wrap64_add(counts.header_bytes + update_total(rest, headers), u.header_bytes as int);
        lemma_wrap64_add(
            counts.payload_bytes + update_total(rest, payloads),
            u.payload_bytes as int,
        );
        lemma_wrap64_add(counts.packets + update_total(rest, packets), u.packets as int);
    }
}

/// The time that a reader gives is the time of the last update, to the millisecond.
pub proof fn law_timestamp_reads_back(
    counts: RtpCounts,
    header_bytes: u64,
    payload_bytes: u64,
    packets: u64,
    now: UnixTime,
    read: UnixTime,
)
    requires
        now.total_millis() <= u64::MAX,
        read.total_nanos() == counts.updated(
            header_bytes,
            payload_bytes,
            packets,
            Some(now),
        ).last_packet_timestamp * 1_000_000,
    ensures
        read.total_millis() == now.total_millis(),
        read.total_nanos() <= now.total_nanos() < read.total_nanos() + 1_000_000,
{
}

/// Every byte of a packet that is read counts once, as header or as payload.
pub proof fn law_bytes_read_all_count(
    counts: RtpCounts,
    bytes_read: u64,
    payload_len: u64,
    now: Option<UnixTime>,
)
    requires
        payload_len <= bytes_read,
    ensures
        ({
            let after = counts.updated((bytes_read - payload_len) as u64, payload_len, 1, now);
            crate::store::wrap64(after.header_bytes + after.payload_bytes) == crate::store::wrap64(
                counts.header_bytes + counts.payload_bytes + bytes_read,
            )
        }),
{
    let after = counts.updated((bytes_read - payload_len) as u64, payload_len, 1, now);
    let headers = counts.header_bytes + (bytes_read - payload_len);
    lemma_wrap64_add(headers, after.payload_bytes as int);
    lemma_wrap64_add(counts.payload_bytes + payload_len, headers);
}

/// A reader of RTCP feedback sees what is written to the entry that it was taken from.
pub proof fn law_feedback_reader_sees_write(
    stats: RTCPStats,
    reader: RTCPStatsReader,
    store: StoreView,
    counts: RtcpCounts,
)
    requires
        stats.in_store(store),
        reader.table() == stats.table(),
        reader.ssrc() == stats.ssrc(),
    ensures
        reader.in_store(stats.set(store, counts)),
        reader.counts(stats.set(store, counts)) == counts,
{
}

/// What is written to one entry leaves the entry of every other stream, every other table and all
/// RTP counters as they are.
pub proof fn law_feedback_write_leaves_the_rest(
    stats: RTCPStats,
    other: RTCPStatsReader,
    store: StoreView,
    counts: RtcpCounts,
)
    requires
        stats.in_store(store),
        other.in_store(store),
        other.table() != stats.table() || other.ssrc() != stats.ssrc(),
    ensures
        other.in_store(stats.set(store, counts)),
        other.counts(stats.set(store, counts)) == other.counts(store),
        stats.set(store, counts).rtp == store.rtp,
{
}

/// Taking readers of RTCP feedback, for streams already known or not, changes no value that any
/// reader gives.
pub proof fn law_taking_readers_changes_nothing(store: StoreView, table: nat, ssrcs: Seq<u32>)
    requires
        table < store.rtcp.len(),
    ensures
        store.all_created(table, ssrcs).rtp == store.rtp,
        store.all_created(table, ssrcs).rtcp.len() == store.rtcp.len(),
        forall|t: nat, s: u32|
            t < store.rtcp.len() ==> #[trigger] store.all_created(table, ssrcs).feedback(t, s)
                == store.feedback(t, s),
    decreases ssrcs.len(),
{
    if ssrcs.len() > 0 {
        law_taking_readers_changes_nothing(store, table, ssrcs.drop_last());
        let before = store.all_created(table, ssrcs.drop_last());
        assert forall|t: nat, s: u32| t < store.rtcp.len() implies #[trigger] store.all_created(
            table,
            ssrcs,
        ).feedback(t, s) == store.feedback(t, s) by {
            assert(before.feedback(t, s) == store.feedback(t, s));
        }
    }
}

/// Asking for an entry a second time gives the same entry and leaves the store as it is.
pub proof fn law_get_or_create_twice(store: StoreView, table: nat, ssrc: u32)
    requires
        table < store.rtcp.len(),
    ensures
        store.get_or_create(table, ssrc).get_or_create(table, ssrc) == store.get_or_create(
            table,
            ssrc,
        ),
{
    let once = store.get_or_create(table, ssrc);
    assert(once.rtcp[table as int].insert(ssrc, once.feedback(table, ssrc))
        =~= once.rtcp[table as int]);
    assert(once.get_or_create(table, ssrc) =~= once);
}

/// Whether `after` has all the places and entries that `store` has.
pub open spec fn grows_to(store: StoreView, after: StoreView) -> bool {
    &&& store.rtp.len() <= after.rtp.len()
    &&& store.rtcp.len() <= after.rtcp.len()
    &&& forall|t: int, s: u32|
        0 <= t < store.rtcp.len() && store.rtcp[t].contains_key(s)
            ==> #[trigger] after.rtcp[t].contains_key(s)
}

/// A reader stays valid as the store grows.
pub proof fn law_readers_stay_valid(
    store: StoreView,
    after: StoreView,
    rtp_reader: RTPStatsReader,
    rtcp_reader: RTCPStatsReader,
)
    requires
        grows_to(store, after),
    ensures
        rtp_reader.in_store(store) ==> rtp_reader.in_store(after),
        rtcp_reader.in_store(store) ==> rtcp_reader.in_store(after),
{
}

proof fn lemma_intra_requests_grow(store: StoreView, table: nat, ssrcs: Seq<u32>)
    requires
        table < store.rtcp.len(),
    ensures
        grows_to(store, store.all_intra_requested(table, ssrcs)),
    decreases ssrcs.len(),
{
    if ssrcs.len() > 0 {
        lemma_intra_requests_grow(store, table, ssrcs.drop_last());
    }
}

proof fn lemma_reports_grow(
    store: StoreView,
    table: nat,
    now: u32,
    reports: Seq<ReceptionReport>,
)
    requires
        table < store.rtcp.len(),
    ensures
        grows_to(store, store.all_reported(table, now, reports)),
    decreases reports.len(),
{
    if reports.len() > 0 {
        lemma_reports_grow(store, table, now, reports.drop_last());
    }
}

/// New counters and tables, updates and writes to an entry take no place and no entry away.
pub proof fn law_writing_grows_the_store(
    store: StoreView,
    place: nat,
    rtp: RtpCounts,
    table: nat,
    ssrc: u32,
    rtcp: RtcpCounts,
)
    requires
        place < store.rtp.len(),
        table < store.rtcp.len(),
    ensures
        grows_to(store, store.add_rtp()),
        grows_to(store, store.add_rtcp()),
        grows_to(store, store.set_rtp(place, rtp)),
        grows_to(store, store.set_feedback(table, ssrc, rtcp)),
{
}

/// Taking readers takes no place and no entry away.
pub proof fn law_taking_readers_grows_the_store(store: StoreView, table: nat, ssrcs: Seq<u32>)
    requires
        table < store.rtcp.len(),
    ensures
        grows_to(store, store.all_created(table, ssrcs)),
    decreases ssrcs.len(),
{
    if ssrcs.len() > 0 {
        law_taking_readers_grows_the_store(store, table, ssrcs.drop_last());
    }
}

/// A batch of outgoing packets takes no place and no entry away.
pub proof fn law_sending_grows_the_store(
    store: StoreView,
    table: nat,
    packets: Seq<RtcpPacketView>,
)
    requires
        table < store.rtcp.len(),
    ensures
        grows_to(store, store.all_sent(table, packets)),
    decreases packets.len(),
{
    if packets.len() > 0 {
        law_sending_grows_the_store(store, table, packets.drop_last());
        if let RtcpPacketView::FullIntraRequest { ssrcs } = packets.last() {
            lemma_intra_requests_grow(
                store.all_sent(table, packets.drop_last()),
                table,
                ssrcs,
            );
        }
    }
}

/// A batch of incoming packets takes no place and no entry away.
pub proof fn law_receiving_grows_the_store(
    store: StoreView,
    table: nat,
    now: u32,
    packets: Seq<RtcpPacketView>,
)
    requires
        table < store.rtcp.len(),
    ensures
        grows_to(store, store.all_received(table, now, packets)),
    decreases packets.len(),
{
    if packets.len() > 0 {
        law_receiving_grows_the_store(store, table, now, packets.drop_last());
        let before = store.all_received(table, now, packets.drop_last());
        match packets.last() {
            RtcpPacketView::ReceiverReport { reports } => {
                lemma_reports_grow(before, table, now, reports);
            },
            RtcpPacketView::FullIntraRequest { ssrcs } => {
                lemma_intra_requests_grow(before, table, ssrcs);
            },
            _ => {},
        }
    }
}

/// How often `ssrc` occurs in `ssrcs`.
pub open spec fn occurrences(ssrcs: Seq<u32>, ssrc: u32) -> nat
    decreases ssrcs.len(),
{
    if ssrcs.len() == 0 {
        0
    } else {
        occurrences(ssrcs.drop_last(), ssrc) + if ssrcs.last() == ssrc {
            1nat
        } else {
            0
        }
    }
}

/// The last of `reports` that is about `ssrc`.
pub open spec fn last_report(reports: Seq<ReceptionReport>, ssrc: u32) -> Option<ReceptionReport>
    decreases reports.len(),
{
    if reports.len() == 0 {
        None
    } else if reports.last().ssrc == ssrc {
        Some(reports.last())
    } else {
        last_report(reports.drop_last(), ssrc)
    }
}

/// How many intra requests for `ssrc` a packet holds.
pub open spec fn fir_in(packet: RtcpPacketView, ssrc: u32) -> nat {
    match packet {
        RtcpPacketView::FullIntraRequest { ssrcs } => occurrences(ssrcs, ssrc),
        _ => 0,
    }
}

/// How many picture loss indications for `ssrc` a packet holds.
pub open spec fn pli_in(packet: RtcpPacketView, ssrc: u32) -> nat {
    match packet {
        RtcpPacketView::PictureLossIndication { media_ssrc } if media_ssrc == ssrc => 1,
        _ => 0,
    }
}

/// How many packets of `ssrc` a packet reports as lost.
pub open spec fn nack_in(packet: RtcpPacketView, ssrc: u32) -> nat {
    match packet {
        RtcpPacketView::TransportLayerNack { media_ssrc, nacks } if media_ssrc == ssrc =>
            crate::packet::total_lost(nacks),
        _ => 0,
    }
}

/// The last report block about `ssrc` in a packet.
pub open spec fn report_in(packet: RtcpPacketView, ssrc: u32) -> Option<ReceptionReport> {
    match packet {
        RtcpPacketView::ReceiverReport { reports } => last_report(reports, ssrc),
        _ => None,
    }
}

/// The sum of what `amount` says of each packet.
pub open spec fn batch_total(
    packets: Seq<RtcpPacketView>,
    amount: spec_fn(RtcpPacketView) -> nat,
) -> nat
    decreases packets.len(),
{
    if packets.len() == 0 {
        0
    } else {
        batch_total(packets.drop_last(), amount) + amount(packets.last())
    }
}

/// The last report block about `ssrc` in a batch.
pub open spec fn last_report_in(packets: Seq<RtcpPacketView>, ssrc: u32) -> Option<ReceptionReport>
    decreases packets.len(),
{
    if packets.len() == 0 {
        None
    } else if report_in(packets.last(), ssrc) is Some {
        report_in(packets.last(), ssrc)
    } else {
        last_report_in(packets.drop_last(), ssrc)
    }
}

/// What `before` becomes when these many requests, indications and lost packets are added, and a
/// report block, where there is one, gives the round trip time and the loss.
pub open spec fn tallied(
    before: RtcpCounts,
    now: u32,
    fir: nat,
    pli: nat,
    nack: nat,
    report: Option<ReceptionReport>,
) -> RtcpCounts {
    RtcpCounts {
        rtt_ms: match report {
            Some(r) => RttMs::between(now, r.delay, r.last_sender_report),
            None => before.rtt_ms,
        },
        loss: match report {
            Some(r) => r.fraction_lost,
            None => before.loss,
        },
        fir_count: crate::store::wrap64(before.fir_count + fir),
        pli_count: crate::store::wrap64(before.pli_count + pli),
        nack_count: crate::store::wrap64(before.nack_count + nack),
    }
}

proof fn lemma_tallied_twice(
    before: RtcpCounts,
    now: u32,
    fir: (nat, nat),
    pli: (nat, nat),
    nack: (nat, nat),
    report: (Option<ReceptionReport>, Option<ReceptionReport>),
)
    ensures
        tallied(
            tallied(before, now, fir.0, pli.0, nack.0, report.0),
            now,
            fir.1,
            pli.1,
            nack.1,
            report.1,
        ) == tallied(
            before,
            now,
            fir.0 + fir.1,
            pli.0 + pli.1,
            nack.0 + nack.1,
            if report.1 is Some {
                report.1
            } else {
                report.0
            },
        ),
{
    lemma_wrap64_add(before.fir_count + fir.0, fir.1 as int);
    lemma_wrap64_add(before.pli_count + pli.0, pli.1 as int);
    lemma_wrap64_add(before.nack_count + nack.0, nack.1 as int);
}

proof fn lemma_intra_requests_add_up(store: StoreView, table: nat, ssrcs: Seq<u32>, ssrc: u32)
    requires
        table < store.rtcp.len(),
    ensures
        store.all_intra_requested(table, ssrcs).feedback(table, ssrc) == store.feedback(
            table,
            ssrc,
        ).with_fir(occurrences(ssrcs, ssrc) as int),
    decreases ssrcs.len(),
{
    if ssrcs.len() > 0 {
        lemma_intra_requests_add_up(store, table, ssrcs.drop_last(), ssrc);
        store.lemma_all_intra_requested_frame(table, ssrcs.drop_last());
        lemma_wrap64_add(
            store.feedback(table, ssrc).fir_count + occurrences(ssrcs.drop_last(), ssrc),
            1,
        );
    }
}

proof fn lemma_last_report_counts(
    store: StoreView,
    table: nat,
    now: u32,
    reports: Seq<ReceptionReport>,
    ssrc: u32,
)
    requires
        table < store.rtcp.len(),
    ensures
        store.all_reported(table, now, reports).feedback(table, ssrc) == tallied(
            store.feedback(table, ssrc),
            now,
            0,
            0,
            0,
            last_report(reports, ssrc),
        ),
    decreases reports.len(),
{
    if reports.len() > 0 {
        lemma_last_report_counts(store, table, now, reports.drop_last(), ssrc);
        store.lemma_all_reported_frame(table, now, reports.drop_last());
    }
}

proof fn lemma_received_adds_up(
    store: StoreView,
    table: nat,
    now: u32,
    packet: RtcpPacketView,
    ssrc: u32,
)
    requires
        table < store.rtcp.len(),
    ensures
        store.received(table, now, packet).feedback(table, ssrc) == tallied(
            store.feedback(table, ssrc),
            now,
            fir_in(packet, ssrc),
            pli_in(packet, ssrc),
            nack_in(packet, ssrc),
            report_in(packet, ssrc),
        ),
{
    match packet {
        RtcpPacketView::ReceiverReport { reports } => {
            lemma_last_report_counts(store, table, now, reports, ssrc);
        },
        RtcpPacketView::FullIntraRequest { ssrcs } => {
            lemma_intra_requests_add_up(store, table, ssrcs, ssrc);
        },
        _ => {},
    }
}

proof fn lemma_sent_adds_up(store: StoreView, table: nat, packet: RtcpPacketView, ssrc: u32)
    requires
        table < store.rtcp.len(),
    ensures
        store.sent(table, packet).feedback(table, ssrc) == tallied(
            store.feedback(table, ssrc),
            0,
            fir_in(packet, ssrc),
            pli_in(packet, ssrc),
            nack_in(packet, ssrc),
            None,
        ),
{
    if !(packet is ReceiverReport) {
        lemma_received_adds_up(store, table, 0, packet, ssrc);
    }
}

/// After a batch of incoming packets, the entry of each stream has grown by the intra requests,
/// the picture loss indications and the lost packets that the batch holds for that stream, modulo
/// 2^64, and its round trip time and loss are those of the last report block about it, if there is
/// one. Packets about other streams do not matter.
pub proof fn law_received_feedback_adds_up(
    store: StoreView,
    table: nat,
    now: u32,
    packets: Seq<RtcpPacketView>,
    ssrc: u32,
)
    requires
        table < store.rtcp.len(),
    ensures
        store.all_received(table, now, packets).feedback(table, ssrc) == tallied(
            store.feedback(table, ssrc),
            now,
            batch_total(packets, |p: RtcpPacketView| fir_in(p, ssrc)),
            batch_total(packets, |p: RtcpPacketView| pli_in(p, ssrc)),
            batch_total(packets, |p: RtcpPacketView| nack_in(p, ssrc)),
            last_report_in(packets, ssrc),
        ),
    decreases packets.len(),
{
    if packets.len() > 0 {
        law_received_feedback_adds_up(store, table, now, packets.drop_last(), ssrc);
        store.lemma_all_received_frame(table, now, packets.drop_last());
        let rest = packets.drop_last();
        let last = packets.last();
        lemma_received_adds_up(store.all_received(table, now, rest), table, now, last, ssrc);
        lemma_tallied_twice(
            store.feedback(table, ssrc),
            now,
            (batch_total(rest, |p: RtcpPacketView| fir_in(p, ssrc)), fir_in(last, ssrc)),
            (batch_total(rest, |p: RtcpPacketView| pli_in(p, ssrc)), pli_in(last, ssrc)),
            (batch_total(rest, |p: RtcpPacketView| nack_in(p, ssrc)), nack_in(last, ssrc)),
            (last_report_in(rest, ssrc), report_in(last, ssrc)),
        );
    }
}

/// After a batch of outgoing packets, the entry of each stream has grown by the intra requests,
/// the picture loss indications and the lost packets that the batch holds for that stream, modulo
/// 2^64. Report blocks, and packets about other streams, do not matter.
pub proof fn law_sent_feedback_adds_up(
    store: StoreView,
    table: nat,
    packets: Seq<RtcpPacketView>,
    ssrc: u32,
)
    requires
        table < store.rtcp.len(),
    ensures
        store.all_sent(table, packets).feedback(table, ssrc) == tallied(
            store.feedback(table, ssrc),
            0,
            batch_total(packets, |p: RtcpPacketView| fir_in(p, ssrc)),
            batch_total(packets, |p: RtcpPacketView| pli_in(p, ssrc)),
            batch_total(packets, |p: RtcpPacketView| nack_in(p, ssrc)),
            None,
        ),
    decreases packets.len(),
{
    if packets.len() > 0 {
        law_sent_feedback_adds_up(store, table, packets.drop_last(), ssrc);
        store.lemma_all_sent_frame(table, packets.drop_last());
        let rest = packets.drop_last();
        let last = packets.last();
        lemma_sent_adds_up(store.all_sent(table, rest), table, last, ssrc);
        lemma_tallied_twice(
            store.feedback(table, ssrc),
            0,
            (batch_total(rest, |p: RtcpPacketView| fir_in(p, ssrc)), fir_in(last, ssrc)),
            (batch_total(rest, |p: RtcpPacketView| pli_in(p, ssrc)), pli_in(last, ssrc)),
            (batch_total(rest, |p: RtcpPacketView| nack_in(p, ssrc)), nack_in(last, ssrc)),
            (None, None),
        );
    }
}

/// Incoming packets leave all RTP counters, and the stats of outgoing packets, as they are.
pub proof fn law_received_leaves_the_rest<R, W, F>(
    icpr: StatsInterceptor<R, W, F>,
    store: StoreView,
    now: u32,
    packets: Seq<RtcpPacketView>,
)
    requires
        icpr.wf(store),
    ensures
        ({
            let after = store.all_received(icpr.rtcp_recv_recorder().table(), now, packets);
            let send = icpr.rtcp_send_recorder().table() as int;
            &&& icpr.wf(after)
            &&& after.rtp == store.rtp
            &&& after.rtcp[send] == store.rtcp[send]
        }),
{
    store.lemma_all_received_frame(icpr.rtcp_recv_recorder().table(), now, packets);
}

/// Outgoing packets leave all RTP counters, and the stats of incoming packets, as they are.
pub proof fn law_sent_leaves_the_rest<R, W, F>(
    icpr: StatsInterceptor<R, W, F>,
    store: StoreView,
    packets: Seq<RtcpPacketView>,
)
    requires
        icpr.wf(store),
    ensures
        ({
            let after = store.all_sent(icpr.rtcp_send_recorder().table(), packets);
            let recv = icpr.rtcp_recv_recorder().table() as int;
            &&& icpr.wf(after)
            &&& after.rtp == store.rtp
            &&& after.rtcp[recv] == store.rtcp[recv]
        }),
{
    store.lemma_all_sent_frame(icpr.rtcp_send_recorder().table(), packets);
}

/// An interceptor stays well formed as the store grows.
pub proof fn law_stays_well_formed<R, W, F>(
    icpr: StatsInterceptor<R, W, F>,
    store: StoreView,
    after: StoreView,
)
    requires
        icpr.wf(store),
        store.rtp.len() <= after.rtp.len(),
        store.rtcp.len() <= after.rtcp.len(),
    ensures
        icpr.wf(after),
{
}

/// An update of an incoming stream leaves the counters of every other bound stream, incoming or
/// outgoing, as they are.
pub proof fn law_incoming_streams_do_not_interfere<R, W, F>(
    icpr: StatsInterceptor<R, W, F>,
    store: StoreView,
    stats: RTPStats,
    ssrc: u32,
    header_bytes: u64,
    payload_bytes: u64,
    packets: u64,
    now: Option<UnixTime>,
)
    requires
        icpr.wf(store),
        icpr.recv_places().contains_key(ssrc),
        stats.place() == icpr.recv_places()[ssrc],
    ensures
        ({
            let after = stats.after_update(store, header_bytes, payload_bytes, packets, now);
            let same = icpr.recv_places();
            let opposite = icpr.send_places();
            &&& icpr.wf(after)
            &&& forall|s: u32|
                same.contains_key(s) && s != ssrc ==> after.rtp[#[trigger] same[s] as int]
                    == store.rtp[same[s] as int]
            &&& forall|s: u32|
                opposite.contains_key(s) ==> after.rtp[#[trigger] opposite[s] as int]
                    == store.rtp[opposite[s] as int]
        }),
{
}

/// An update of an outgoing stream leaves the counters of every other bound stream, incoming or
/// outgoing, as they are.
pub proof fn law_outgoing_streams_do_not_interfere<R, W, F>(
    icpr: StatsInterceptor<R, W, F>,
    store: StoreView,
    stats: RTPStats,
    ssrc: u32,
    header_bytes: u64,
    payload_bytes: u64,
    packets: u64,
    now: Option<UnixTime>,
)
    requires
        icpr.wf(store),
        icpr.send_places().contains_key(ssrc),
        stats.place() == icpr.send_places()[ssrc],
    ensures
        ({
            let after = stats.after_update(store, header_bytes, payload_bytes, packets, now);
            let same = icpr.send_places();
            let opposite = icpr.recv_places();
            &&& icpr.wf(after)
            &&& forall|s: u32|
                same.contains_key(s) && s != ssrc ==> after.rtp[#[trigger] same[s] as int]
                    == store.rtp[same[s] as int]
            &&& forall|s: u32|
                opposite.contains_key(s) ==> after.rtp[#[trigger] opposite[s] as int]
                    == store.rtp[opposite[s] as int]
        }),
{
}

/// Once an incoming stream is bound there is a reader for it, of the counters of its recorder;
/// the readers of the other streams stay the same.
pub proof fn law_bound_incoming_stream_has_reader<R, W, F>(
    before: StatsInterceptor<R, W, F>,
    after: StatsInterceptor<R, W, F>,
    ssrc: u32,
    recorder: Arc<RTPReadRecorder<R>>,
)
    requires
        after.recv_streams() == before.recv_streams().insert(ssrc, recorder),
    ensures
        after.recv_places() == before.recv_places().insert(ssrc, recorder.stats.place()),
{
    assert(after.recv_places() =~= before.recv_places().insert(ssrc, recorder.stats.place()));
}

/// Once an incoming stream is unbound there is no reader for it; the readers of the other streams
/// stay the same.
pub proof fn law_unbound_incoming_stream_has_no_reader<R, W, F>(
    before: StatsInterceptor<R, W, F>,
    after: StatsInterceptor<R, W, F>,
    ssrc: u32,
)
    requires
        after.recv_streams() == before.recv_streams().remove(ssrc),
    ensures
        after.recv_places() == before.recv_places().remove(ssrc),
{
    assert(after.recv_places() =~= before.recv_places().remove(ssrc));
}

/// Once an outgoing stream is bound there is a reader for it, of the counters of its recorder;
/// the readers of the other streams stay the same.
pub proof fn law_bound_outgoing_stream_has_reader<R, W, F>(
    before: StatsInterceptor<R, W, F>,
    after: StatsInterceptor<R, W, F>,
    ssrc: u32,
    recorder: Arc<RTPWriteRecorder<W>>,
)
    requires
        after.send_streams() == before.send_streams().insert(ssrc, recorder),
    ensures
        after.send_places() == before.send_places().insert(ssrc, recorder.stats.place()),
{
    assert(after.send_places() =~= before.send_places().insert(ssrc, recorder.stats.place()));
}

/// Once an outgoing stream is unbound there is no reader for it; the readers of the other streams
/// stay the same.
pub proof fn law_unbound_outgoing_stream_has_no_reader<R, W, F>(
    before: StatsInterceptor<R, W, F>,
    after: StatsInterceptor<R, W, F>,
    ssrc: u32,
)
    requires
        after.send_streams() == before.send_streams().remove(ssrc),
    ensures
        after.send_places() == before.send_places().remove(ssrc),
{
    assert(after.send_places() =~= before.send_places().remove(ssrc));
}

/// A stream that is bound anew starts at zero, and a reader that was taken before, of any stream,
/// keeps the counters that it had.
pub proof fn law_new_streams_start_at_zero(store: StoreView, earlier: RTPStatsReader)
    requires
        earlier.in_store(store),
    ensures
        store.add_rtp().rtp[store.rtp.len() as int] == RtpCounts::zero(),
        earlier.place() != store.rtp.len(),
        earlier.in_store(store.add_rtp()),
        earlier.counts(store.add_rtp()) == earlier.counts(store),
{
}

/// The time that went by on the way is what is left of `now` after the delay at the remote and
/// the time of the report, as long as those come before.
pub proof fn law_rtt_is_the_remainder(now: u32, delay: u32, last_sender_report: u32)
    ensures
        ({
            let rtt = RttMs::between(now, delay, last_sender_report).fixed_point();
            &&& (last_sender_report + delay + rtt) % 0x1_0000_0000 == now
            &&& delay + last_sender_report <= now ==> rtt == now - delay - last_sender_report
        }),
{
}

/// Nanoseconds since the epoch in units of 2^-16 s, rounded down.
pub open spec fn in_ntp_units(nanos: nat) -> nat {
    nanos * 0x1_0000 / 1_000_000_000
}

pub(crate) proof fn lemma_units_of_parts(nanos: int)
    requires
        0 <= nanos,
    ensures
        nanos * 0x1_0000 / 1_000_000_000 == (nanos / 1_000_000_000) * 0x1_0000 + (nanos
            % 1_000_000_000) * 0x1_0000_0000 / 1_000_000_000 / 0x1_0000,
{
    let s = nanos / 1_000_000_000;
    let f = nanos % 1_000_000_000;
    vstd::arithmetic::div_mod::lemma_hoist_over_denominator(
        f * 0x1_0000,
        s * 0x1_0000,
        1_000_000_000,
    );
    vstd::arithmetic::div_mod::lemma_div_denominator(f * 0x1_0000_0000, 1_000_000_000, 0x1_0000);
    vstd::arithmetic::div_mod::lemma_div_multiples_vanish_quotient(
        0x1_0000,
        f * 0x1_0000,
        1_000_000_000,
    );
}

pub(crate) proof fn lemma_middle_of_halves(upper: int, lower: int)
    requires
        0 <= upper,
        0 <= lower < 0x1_0000_0000,
    ensures
        ((upper % 0x1_0000_0000) * 0x1_0000_0000 + lower) / 0x1_0000 % 0x1_0000_0000 == (upper
            * 0x1_0000 + lower / 0x1_0000) % 0x1_0000_0000,
{
    let u = upper % 0x1_0000_0000;
    assert((u * 0x1_0000_0000 + lower) / 0x1_0000 == u * 0x1_0000 + lower / 0x1_0000);
}

proof fn lemma_middle_bits(t: UnixTime)
    requires
        t.total_nanos() <= u64::MAX,
    ensures
        crate::time::ntp_middle_bits(Some(t)) == (in_ntp_units(t.total_nanos())
            + crate::time::NTP_UNIX_OFFSET * 0x1_0000) % 0x1_0000_0000,
{
    let u = t.total_nanos() as int;
    let s = u / 1_000_000_000;
    let f = (u % 1_000_000_000) * 0x1_0000_0000 / 1_000_000_000;
    lemma_units_of_parts(u);
    assert(0 <= f < 0x1_0000_0000);
    lemma_middle_of_halves(s + crate::time::NTP_UNIX_OFFSET, f);
}

proof fn lemma_units_add(x: nat, y: nat)
    ensures
        in_ntp_units(x) + in_ntp_units(y) <= in_ntp_units(x + y) <= in_ntp_units(x)
            + in_ntp_units(y) + 1,
{
}

proof fn lemma_difference_of_wrapped(a: int, b: int, c: int, d: int)
    requires
        0 <= b - a - d < 0x1_0000_0000,
    ensures
        ((b + c) % 0x1_0000_0000 - d - (a + c) % 0x1_0000_0000) % 0x1_0000_0000 == b - a - d,
{
}

/// The round trip time that a report yields is the time between the sender report and the arrival
/// of the report that answers it, less the delay at the remote, to within one unit of 2^-16 s.
pub proof fn law_rtt_measures_the_trip(sent: UnixTime, arrived: UnixTime, delay: u32)
    requires
        sent.total_nanos() <= arrived.total_nanos() <= u64::MAX,
        0 <= in_ntp_units((arrived.total_nanos() - sent.total_nanos()) as nat) - delay < u32::MAX,
    ensures
        ({
            let elapsed = in_ntp_units((arrived.total_nanos() - sent.total_nanos()) as nat);
            let rtt = RttMs::between(
                crate::time::ntp_middle_bits(Some(arrived)),
                delay,
                crate::time::ntp_middle_bits(Some(sent)),
            );
            elapsed - delay <= rtt.fixed_point() <= elapsed - delay + 1
        }),
{
    lemma_middle_bits(sent);
    lemma_middle_bits(arrived);
    lemma_units_add(
        sent.total_nanos(),
        (arrived.total_nanos() - sent.total_nanos()) as nat,
    );
    lemma_difference_of_wrapped(
        in_ntp_units(sent.total_nanos()) as int,
        in_ntp_units(arrived.total_nanos()) as int,
        crate::time::NTP_UNIX_OFFSET * 0x1_0000,
        delay as int,
    );
}

/// A batch may be taken in two parts: what came in together counts as if it had come in one part
/// after the other, at the same time.
pub proof fn law_received_in_parts(
    store: StoreView,
    table: nat,
    now: u32,
    first: Seq<RtcpPacketView>,
    second: Seq<RtcpPacketView>,
)
    ensures
        store.all_received(table, now, first + second) == store.all_received(
            table,
            now,
            first,
        ).all_received(table, now, second),
    decreases second.len(),
{
    if second.len() == 0 {
        assert(first + second == first);
    } else {
        law_received_in_parts(store, table, now, first, second.drop_last());
        assert((first + second).drop_last() == first + second.drop_last());
    }
}

/// A batch may be written in two parts: what goes out together counts as if it had gone out one
/// part after the other.
pub proof fn law_sent_in_parts(
    store: StoreView,
    table: nat,
    first: Seq<RtcpPacketView>,
    second: Seq<RtcpPacketView>,
)
    ensures
        store.all_sent(table, first + second) == store.all_sent(table, first).all_sent(
            table,
            second,
        ),
    decreases second.len(),
{
    if second.len() == 0 {
        assert(first + second == first);
    } else {
        law_sent_in_parts(store, table, first, second.drop_last());
        assert((first + second).drop_last() == first + second.drop_last());
    }
}

proof fn lemma_set_bits_bound(mask: u16, from: nat)
    requires
        from <= 16,
    ensures
        crate::packet::set_bits(mask, from) <= 16 - from,
    decreases 16 - from,
{
    if from < 16 {
        lemma_set_bits_bound(mask, from + 1);
    }
}

/// A NACK pair reports at least one packet and at most seventeen, its own first.
pub proof fn law_nack_pair_reports(pair: NackPair)
    ensures
        pair.lost().len() == pair.lost_count(),
        1 <= pair.lost_count() <= 17,
        pair.lost()[0] == pair.packet_id,
{
    pair.lemma_lost_count();
    lemma_set_bits_bound(pair.lost_packets, 0);
}

} // verus!
