//! What RTCP packets do to the stats.

use vstd::prelude::*;

use crate::packet::{ReceptionReport, RtcpPacketView};
use crate::rtt::RttMs;
use crate::store::{RtcpCounts, StoreView};

verus! {

impl StoreView {
    /// The store after a report block has come in at the NTP time `now` (its middle 32 bits): the
    /// entry of the stream that it reports on has the round trip time and the loss of the block.
    pub open spec fn reported(self, table: nat, now: u32, report: ReceptionReport) -> StoreView {
        let rtt_ms = RttMs::between(now, report.delay, report.last_sender_report);
        self.set_feedback(
            table,
            report.ssrc,
            self.feedback(table, report.ssrc).with_rtt_ms(rtt_ms).with_loss(report.fraction_lost),
        )
    }

    /// The store after the blocks of a receiver report, in their order.
    pub open spec fn all_reported(
        self,
        table: nat,
        now: u32,
        reports: Seq<ReceptionReport>,
    ) -> StoreView
        decreases reports.len(),
    {
        if reports.len() == 0 {
            self
        } else {
            self.all_reported(table, now, reports.drop_last()).reported(table, now, reports.last())
        }
    }

    /// The store after one more intra request for `ssrc`.
    pub open spec fn intra_requested(self, table: nat, ssrc: u32) -> StoreView {
        self.set_feedback(table, ssrc, self.feedback(table, ssrc).with_fir(1))
    }

    /// The store after one more intra request for each of `ssrcs`.
    pub open spec fn all_intra_requested(self, table: nat, ssrcs: Seq<u32>) -> StoreView
        decreases ssrcs.len(),
    {
        if ssrcs.len() == 0 {
            self
        } else {
            self.all_intra_requested(table, ssrcs.drop_last()).intra_requested(table, ssrcs.last())
        }
    }

    /// The store after an RTCP packet has gone out. Intra requests, picture loss indications and
    /// NACKs count; of other packets no note is taken.
    pub open spec fn sent(self, table: nat, packet: RtcpPacketView) -> StoreView {
        match packet {
            RtcpPacketView::FullIntraRequest { ssrcs } => self.all_intra_requested(table, ssrcs),
            RtcpPacketView::PictureLossIndication { media_ssrc } => self.set_feedback(
                table,
                media_ssrc,
                self.feedback(table, media_ssrc).with_pli(1),
            ),
            RtcpPacketView::TransportLayerNack { media_ssrc, nacks } => self.set_feedback(
                table,
                media_ssrc,
                self.feedback(table, media_ssrc).with_nack(
                    crate::packet::total_lost(nacks) as int,
                ),
            ),
            _ => self,
        }
    }

    /// The store after an RTCP packet has come in at the NTP time `now` (its middle 32 bits).
    pub open spec fn received(self, table: nat, now: u32, packet: RtcpPacketView) -> StoreView {
        match packet {
            RtcpPacketView::ReceiverReport { reports } => self.all_reported(table, now, reports),
            _ => self.sent(table, packet),
        }
    }

    /// The store after a batch of RTCP packets has gone out.
    pub open spec fn all_sent(self, table: nat, packets: Seq<RtcpPacketView>) -> StoreView
        decreases packets.len(),
    {
        if packets.len() == 0 {
            self
        } else {
            self.all_sent(table, packets.drop_last()).sent(table, packets.last())
        }
    }

    /// The store after a batch of RTCP packets has come in at the NTP time `now` (its middle 32
    /// bits).
    pub open spec fn all_received(
        self,
        table: nat,
        now: u32,
        packets: Seq<RtcpPacketView>,
    ) -> StoreView
        decreases packets.len(),
    {
        if packets.len() == 0 {
            self
        } else {
            self.all_received(table, now, packets.drop_last()).received(table, now, packets.last())
        }
    }

    /// Whether `after` has the same RTP counters, and the same feedback in every table but one.
    pub open spec fn differs_in_table_only(self, after: StoreView, table: nat) -> bool {
        &&& after.rtp == self.rtp
        &&& after.rtcp.len() == self.rtcp.len()
        &&& forall|t: int|
            0 <= t < self.rtcp.len() && t != table ==> #[trigger] after.rtcp[t] == self.rtcp[t]
    }

    /// Only the last of several writes to one entry stays.
    pub(crate) proof fn lemma_set_feedback_twice(
        self,
        table: nat,
        ssrc: u32,
        first: RtcpCounts,
        second: RtcpCounts,
    )
        requires
            table < self.rtcp.len(),
        ensures
            self.set_feedback(table, ssrc, first).feedback(table, ssrc) == first,
            self.set_feedback(table, ssrc, first).set_feedback(table, ssrc, second)
                == self.set_feedback(table, ssrc, second),
    {
        assert(self.rtcp[table as int].insert(ssrc, first).insert(ssrc, second)
            =~= self.rtcp[table as int].insert(ssrc, second));
        assert(self.set_feedback(table, ssrc, first).set_feedback(table, ssrc, second)
            =~= self.set_feedback(table, ssrc, second));
    }

    /// To create an entry and then set it is to set it, and to create it changes no value.
    pub(crate) proof fn lemma_created_then_set(self, table: nat, ssrc: u32)
        requires
            table < self.rtcp.len(),
        ensures
            self.get_or_create(table, ssrc).feedback(table, ssrc) == self.feedback(table, ssrc),
            forall|counts: RtcpCounts| #[trigger]
                self.get_or_create(table, ssrc).set_feedback(table, ssrc, counts)
                    == self.set_feedback(table, ssrc, counts),
    {
        assert forall|counts: RtcpCounts| #[trigger]
            self.get_or_create(table, ssrc).set_feedback(table, ssrc, counts) == self.set_feedback(
                table,
                ssrc,
                counts,
            ) by {
            self.lemma_set_feedback_twice(table, ssrc, self.feedback(table, ssrc), counts);
        }
    }

    pub(crate) proof fn lemma_all_reported_frame(
        self,
        table: nat,
        now: u32,
        reports: Seq<ReceptionReport>,
    )
        requires
            table < self.rtcp.len(),
        ensures
            self.differs_in_table_only(self.all_reported(table, now, reports), table),
        decreases reports.len(),
    {
        if reports.len() > 0 {
            self.lemma_all_reported_frame(table, now, reports.drop_last());
        }
    }

    pub(crate) proof fn lemma_all_intra_requested_frame(self, table: nat, ssrcs: Seq<u32>)
        requires
            table < self.rtcp.len(),
        ensures
            self.differs_in_table_only(self.all_intra_requested(table, ssrcs), table),
        decreases ssrcs.len(),
    {
        if ssrcs.len() > 0 {
            self.lemma_all_intra_requested_frame(table, ssrcs.drop_last());
        }
    }

    pub(crate) proof fn lemma_all_sent_frame(self, table: nat, packets: Seq<RtcpPacketView>)
        requires
            table < self.rtcp.len(),
        ensures
            self.differs_in_table_only(self.all_sent(table, packets), table),
        decreases packets.len(),
    {
        if packets.len() > 0 {
            self.lemma_all_sent_frame(table, packets.drop_last());
            let before = self.all_sent(table, packets.drop_last());
            if let RtcpPacketView::FullIntraRequest { ssrcs } = packets.last() {
                before.lemma_all_intra_requested_frame(table, ssrcs);
            }
        }
    }

    pub(crate) proof fn lemma_all_received_frame(
        self,
        table: nat,
        now: u32,
        packets: Seq<RtcpPacketView>,
    )
        requires
            table < self.rtcp.len(),
        ensures
            self.differs_in_table_only(self.all_received(table, now, packets), table),
        decreases packets.len(),
    {
        if packets.len() > 0 {
            self.lemma_all_received_frame(table, now, packets.drop_last());
            let before = self.all_received(table, now, packets.drop_last());
            match packets.last() {
                RtcpPacketView::ReceiverReport { reports } => {
                    before.lemma_all_reported_frame(table, now, reports);
                },
                RtcpPacketView::FullIntraRequest { ssrcs } => {
                    before.lemma_all_intra_requested_frame(table, ssrcs);
                },
                _ => {},
            }
        }
    }
}

} // verus!
