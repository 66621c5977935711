//! The parts of RTP and RTCP packets that the counters look at.

use vstd::prelude::*;

verus! {

/// One report block of an RTCP receiver report.
#[derive(Clone, Copy, Debug, PartialEq, Eq, Structural)]
pub struct ReceptionReport {
    /// The stream that the block reports on.
    pub ssrc: u32,
    /// The fraction of packets lost since the previous report, in units of 1/256.
    pub fraction_lost: u8,
    /// The middle 32 bits of the NTP timestamp of the last sender report (LSR).
    pub last_sender_report: u32,
    /// The delay since that report (DLSR), in units of 1/65536 s.
    pub delay: u32,
}

/// A lost packet and a bitmask of the sixteen that follow it.
#[derive(Clone, Copy, Debug, PartialEq, Eq, Structural)]
pub struct NackPair {
    pub packet_id: u16,
    pub lost_packets: u16,
}

/// The number of bits set in `mask` at position `from` and above.
pub open spec fn set_bits(mask: u16, from: nat) -> nat
    decreases 16 - from,
{
    if from >= 16 {
        0
    } else if (mask >> (from as u16)) & 1 == 1 {
        1 + set_bits(mask, from + 1)
    } else {
        set_bits(mask, from + 1)
    }
}

/// The sequence numbers that follow `packet_id` by one more than the position of a bit of `mask`
/// that is set, for the positions from `from` on, in ascending order.
pub open spec fn lost_after(packet_id: u16, mask: u16, from: nat) -> Seq<u16>
    decreases 16 - from,
{
    if from >= 16 {
        Seq::empty()
    } else if (mask >> (from as u16)) & 1 == 1 {
        seq![((packet_id + from + 1) % 0x1_0000) as u16] + lost_after(packet_id, mask, from + 1)
    } else {
        lost_after(packet_id, mask, from + 1)
    }
}

proof fn lemma_lost_after_len(packet_id: u16, mask: u16, from: nat)
    ensures
        lost_after(packet_id, mask, from).len() == set_bits(mask, from),
    decreases 16 - from,
{
    if from < 16 {
        lemma_lost_after_len(packet_id, mask, from + 1);
    }
}

impl NackPair {
    /// The sequence numbers that the pair reports as lost.
    pub open spec fn lost(self) -> Seq<u16> {
        seq![self.packet_id] + lost_after(self.packet_id, self.lost_packets, 0)
    }

    /// How many packets the pair reports as lost.
    pub open spec fn lost_count(self) -> nat {
        1 + set_bits(self.lost_packets, 0)
    }

    /// The list of lost packets has one entry for the pair's own packet and one for each bit of
    /// its mask that is set.
    pub proof fn lemma_lost_count(self)
        ensures
            self.lost().len() == self.lost_count(),
    {
        lemma_lost_after_len(self.packet_id, self.lost_packets, 0);
    }
}

/// How many packets a list of pairs reports as lost.
pub open spec fn total_lost(nacks: Seq<NackPair>) -> nat
    decreases nacks.len(),
{
    if nacks.len() == 0 {
        0
    } else {
        total_lost(nacks.drop_last()) + nacks.last().lost_count()
    }
}

/// `NackPair::packet_list` of the `rtcp` crate: the pair's own packet first, then, for each bit
/// of the mask that is set, from the lowest up, the packet that lies one more than the bit's
/// position behind it, modulo 2^16.
#[verifier::external_body]
pub(crate) fn packet_list(pair: NackPair) -> (list: Vec<u16>)
    ensures
        list@ == pair.lost(),
{
    rtcp::transport_feedbacks::transport_layer_nack::NackPair {
        packet_id: pair.packet_id,
        lost_packets: pair.lost_packets,
    }.packet_list()
}

/// Counts the packets that `nacks` reports as lost, modulo 2^64.
pub fn count_lost(nacks: &[NackPair]) -> (count: u64)
    ensures
        count == total_lost(nacks@) % 0x1_0000_0000_0000_0000,
        count == nacks@.flat_map(|n: NackPair| n.lost()).len() % 0x1_0000_0000_0000_0000,
{
    let mut count: u64 = 0;
    let mut i: usize = 0;
    while i < nacks.len()
        invariant
            i <= nacks@.len(),
            count == total_lost(nacks@.take(i as int)) % 0x1_0000_0000_0000_0000,
        decreases nacks@.len() - i,
    {
        let list = packet_list(nacks[i]);
        proof {
            nacks@[i as int].lemma_lost_count();
            assert(nacks@.take(i + 1).drop_last() == nacks@.take(i as int));
        }
        count = count.wrapping_add(list.len() as u64);
        i += 1;
    }
    assert(nacks@.take(i as int) == nacks@);
    proof {
        crate::behavior::law_lost_packets_are_counted(nacks@);
    }
    count
}

/// An RTCP packet, as far as the counters tell packets apart.
#[derive(Debug)]
pub enum RtcpPacket {
    ReceiverReport { reports: Vec<ReceptionReport> },
    /// The streams of which an intra frame is requested, one for each entry of the request.
    FullIntraRequest { ssrcs: Vec<u32> },
    PictureLossIndication { media_ssrc: u32 },
    TransportLayerNack { media_ssrc: u32, nacks: Vec<NackPair> },
    /// A packet of any other type.
    Other,
}

/// What an [`RtcpPacket`] holds.
pub enum RtcpPacketView {
    ReceiverReport { reports: Seq<ReceptionReport> },
    FullIntraRequest { ssrcs: Seq<u32> },
    PictureLossIndication { media_ssrc: u32 },
    TransportLayerNack { media_ssrc: u32, nacks: Seq<NackPair> },
    Other,
}

impl View for RtcpPacket {
    type V = RtcpPacketView;

    open spec fn view(&self) -> RtcpPacketView {
        match self {
            RtcpPacket::ReceiverReport { reports } => RtcpPacketView::ReceiverReport {
                reports: reports@,
            },
            RtcpPacket::FullIntraRequest { ssrcs } => RtcpPacketView::FullIntraRequest {
                ssrcs: ssrcs@,
            },
            RtcpPacket::PictureLossIndication { media_ssrc } =>
                RtcpPacketView::PictureLossIndication { media_ssrc: *media_ssrc },
            RtcpPacket::TransportLayerNack { media_ssrc, nacks } =>
                RtcpPacketView::TransportLayerNack { media_ssrc: *media_ssrc, nacks: nacks@ },
            RtcpPacket::Other => RtcpPacketView::Other,
        }
    }
}

/// What each packet of a batch holds.
pub open spec fn batch_view(packets: Seq<RtcpPacket>) -> Seq<RtcpPacketView> {
    packets.map_values(|p: RtcpPacket| p@)
}

} // verus!
