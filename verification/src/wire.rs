//! Packets on the wire: what the `rtp` and `rtcp` crates read out of them, and which bytes those
//! crates can be given.

use bytes::Bytes;
use rtcp::payload_feedbacks::full_intra_request::FullIntraRequest;
use rtcp::payload_feedbacks::picture_loss_indication::PictureLossIndication;
use rtcp::receiver_report::ReceiverReport;
use rtcp::transport_feedbacks::transport_layer_nack::TransportLayerNack;
use vstd::prelude::*;
use webrtc_util::marshal::MarshalSize;
use webrtc_util::marshal::Unmarshal;

use crate::packet::{NackPair, ReceptionReport, RtcpPacket, RtcpPacketView};

verus! {

/// The error of the `rtcp` crate.
#[verifier::external_type_specification]
#[verifier::external_body]
pub struct ExRtcpError(rtcp::Error);

/// The error of the `webrtc-util` crate, with which the `rtp` crate reports a malformed packet.
#[verifier::external_type_specification]
#[verifier::external_body]
pub struct ExUtilError(webrtc_util::Error);

/// Why a packet could not be read.
#[derive(Debug)]
pub enum PacketError {
    /// The datagram is not a valid sequence of RTCP packets.
    Rtcp(rtcp::Error),
    /// The packet is not a valid RTP packet.
    Util(webrtc_util::Error),
}

/// The big endian number in the two bytes at `at`.
pub open spec fn be16(bytes: Seq<u8>, at: int) -> nat {
    (bytes[at] * 256 + bytes[at + 1]) as nat
}

fn read_be16(bytes: &[u8], at: usize) -> (n: usize)
    requires
        at + 1 < bytes@.len(),
    ensures
        n == be16(bytes@, at as int),
{
    bytes[at] as usize * 256 + bytes[at + 1] as usize
}

/// Whether no element of a one byte header extension that begins before `end` runs past the end
/// of the packet, for the elements from `at` on.
pub open spec fn one_byte_elements_fit(packet: Seq<u8>, at: int, end: int) -> bool
    decreases packet.len() - at,
{
    if at >= end || at >= packet.len() {
        true
    } else if packet[at] == 0 {
        one_byte_elements_fit(packet, at + 1, end)
    } else if packet[at] / 16 == 15 {
        true
    } else {
        let next = at + 2 + packet[at] % 16;
        if next > packet.len() {
            false
        } else {
            one_byte_elements_fit(packet, next, end)
        }
    }
}

/// Whether no element of a two byte header extension that begins before `end` runs past the end
/// of the packet, for the elements from `at` on.
pub open spec fn two_byte_elements_fit(packet: Seq<u8>, at: int, end: int) -> bool
    decreases packet.len() - at,
{
    if at >= end || at >= packet.len() {
        true
    } else if packet[at] == 0 {
        two_byte_elements_fit(packet, at + 1, end)
    } else if at + 1 >= packet.len() {
        false
    } else {
        let next = at + 2 + packet[at + 1];
        if next > packet.len() {
            false
        } else {
            two_byte_elements_fit(packet, next, end)
        }
    }
}

/// Whether the header extension of an RTP packet, where it has one and all of its declared
/// length is there, holds no element that runs past the end of the packet. The `rtp` crate
/// panics on such an element.
pub open spec fn rtp_extension_fits(packet: Seq<u8>) -> bool {
    let at = 12 + 4 * (packet[0] % 16);
    let end = at + 4 + 4 * be16(packet, at + 2);
    if packet.len() < 4 || (packet[0] / 16) % 2 == 0 || packet.len() < at + 4 || packet.len() < end {
        true
    } else if be16(packet, at) == 0xBEDE {
        one_byte_elements_fit(packet, at + 4, end)
    } else if be16(packet, at) == 0x1000 {
        two_byte_elements_fit(packet, at + 4, end)
    } else {
        true
    }
}

fn check_one_byte_elements(packet: &[u8], start: usize, end: usize) -> (fit: bool)
    requires
        start <= end <= packet@.len(),
    ensures
        fit == one_byte_elements_fit(packet@, start as int, end as int),
{
    let len: usize = packet.len();
    let mut at: usize = start;
    while at < end
        invariant
            start <= end <= packet@.len() == len,
            at <= len,
            one_byte_elements_fit(packet@, at as int, end as int) == one_byte_elements_fit(
                packet@,
                start as int,
                end as int,
            ),
        decreases len - at,
    {
        if packet[at] == 0 {
            at += 1;
        } else if packet[at] / 16 == 15 {
            return true;
        } else {
            let size: usize = 2 + (packet[at] % 16) as usize;
            if len - at < size {
                return false;
            }
            at += size;
        }
    }
    true
}

fn check_two_byte_elements(packet: &[u8], start: usize, end: usize) -> (fit: bool)
    requires
        start <= end <= packet@.len(),
    ensures
        fit == two_byte_elements_fit(packet@, start as int, end as int),
{
    let len: usize = packet.len();
    let mut at: usize = start;
    while at < end
        invariant
            start <= end <= packet@.len() == len,
            at <= len,
            two_byte_elements_fit(packet@, at as int, end as int) == two_byte_elements_fit(
                packet@,
                start as int,
                end as int,
            ),
        decreases len - at,
    {
        if packet[at] == 0 {
            at += 1;
        } else {
            if len - at < 2 {
                return false;
            }
            let size: usize = 2 + packet[at + 1] as usize;
            if len - at < size {
                return false;
            }
            at += size;
        }
    }
    true
}

/// Tests whether the `rtp` crate can be given `packet`.
pub fn check_rtp_extension(packet: &[u8]) -> (fits: bool)
    ensures
        fits == rtp_extension_fits(packet@),
{
    let len: usize = packet.len();
    if len < 4 || (packet[0] / 16) % 2 == 0 {
        return true;
    }
    let at: usize = 12 + 4 * (packet[0] % 16) as usize;
    if len < at + 4 {
        return true;
    }
    let words: usize = read_be16(packet, at + 2);
    if len - at - 4 < 4 * words {
        return true;
    }
    let end: usize = at + 4 + 4 * words;
    let profile: usize = read_be16(packet, at);
    if profile == 0xBEDE {
        check_one_byte_elements(packet, at + 4, end)
    } else if profile == 0x1000 {
        check_two_byte_elements(packet, at + 4, end)
    } else {
        true
    }
}

/// The number of payload bytes of an RTP packet; `None` where the packet is malformed.
pub uninterp spec fn rtp_payload_len(packet: Seq<u8>) -> Option<nat>;

/// `Packet::unmarshal` of the `rtp` crate, of whose result only the length of the payload is
/// kept. The result depends on the bytes alone; the payload, which follows a header of at least
/// 12 bytes, is that much shorter than the packet.
#[verifier::external_body]
fn unmarshal_rtp(packet: &[u8]) -> (result: Result<usize, webrtc_util::Error>)
    requires
        rtp_extension_fits(packet@),
    ensures
        match result {
            Ok(len) => rtp_payload_len(packet@) == Some(len as nat) && len + 12 <= packet@.len(),
            Err(_) => rtp_payload_len(packet@) is None,
        },
{
    let mut raw: &[u8] = packet;
    rtp::packet::Packet::unmarshal(&mut raw).map(|p| p.payload.len())
}

/// Whether `e` is an error with which `Packet::unmarshal` of the `rtp` crate answers `packet`.
pub closed spec fn rtp_error(packet: Seq<u8>, e: webrtc_util::Error) -> bool {
    exists|p: &[u8]|
        p@ == packet && #[trigger] call_ensures(unmarshal_rtp, (p,), Err::<usize, _>(e))
}

/// An error that is handed on is one that `Packet::unmarshal` has returned for these bytes.
proof fn law_rtp_errors_are_handed_on(packet: Seq<u8>, e: webrtc_util::Error)
    ensures
        rtp_error(packet, e) ==> exists|p: &[u8]|
            p@ == packet && #[trigger] call_ensures(unmarshal_rtp, (p,), Err::<usize, _>(e)),
{
}

/// Reads an RTP packet and returns the number of its payload bytes.
pub(crate) fn read_rtp(packet: &[u8]) -> (result: Result<usize, PacketError>)
    requires
        rtp_extension_fits(packet@),
    ensures
        match result {
            Ok(len) => rtp_payload_len(packet@) == Some(len as nat) && len + 12 <= packet@.len(),
            Err(PacketError::Util(e)) => rtp_payload_len(packet@) is None && rtp_error(packet@, e),
            Err(PacketError::Rtcp(_)) => false,
        },
{
    match unmarshal_rtp(packet) {
        Ok(len) => Ok(len),
        Err(e) => Err(PacketError::Util(e)),
    }
}

/// One element of an RTP header extension.
#[derive(Debug)]
pub struct RtpExtension {
    pub id: u8,
    pub payload: Vec<u8>,
}

/// The parts of an RTP header that vary in size.
#[derive(Debug)]
pub struct RtpHeader {
    pub csrc: Vec<u32>,
    pub extension: bool,
    pub extension_profile: u16,
    pub extensions: Vec<RtpExtension>,
}

/// The number of payload bytes in a list of extension elements.
pub open spec fn extension_payload_bytes(extensions: Seq<RtpExtension>) -> nat
    decreases extensions.len(),
{
    if extensions.len() == 0 {
        0
    } else {
        extension_payload_bytes(extensions.drop_last()) + extensions.last().payload@.len()
    }
}

impl RtpHeader {
    /// The number of bytes of the extension's elements: their payloads, and in front of each
    /// payload as many bytes as the profile asks for.
    pub open spec fn extension_len(self) -> nat {
        let per_element: nat = if self.extension_profile == 0xBEDE {
            1
        } else if self.extension_profile == 0x1000 {
            2
        } else {
            0
        };
        extension_payload_bytes(self.extensions@) + self.extensions@.len() * per_element
    }

    /// The number of bytes of the header on the wire: 12, four for each contributing source, and,
    /// where there is an extension, four more and its elements, rounded up to a multiple of four.
    pub open spec fn wire_size(self) -> nat {
        12 + 4 * self.csrc@.len() + if self.extension {
            4 + (self.extension_len() + 3) / 4 * 4
        } else {
            0
        }
    }
}

/// `Header::marshal_size` of the `rtp` crate, which counts the header's bytes on the wire. The
/// count has to fit in a `usize`.
#[verifier::external_body]
pub(crate) fn header_marshal_size(header: &RtpHeader) -> (size: usize)
    requires
        header.wire_size() <= usize::MAX,
    ensures
        size == header.wire_size(),
{
    rtp::header::Header {
        csrc: header.csrc.clone(),
        extension: header.extension,
        extension_profile: header.extension_profile,
        extensions: header.extensions.iter().map(
            |e| rtp::header::Extension { id: e.id, payload: Bytes::copy_from_slice(&e.payload) },
        ).collect(),
        ..Default::default()
    }.marshal_size()
}

/// Whether the `rtcp` crate rejects a block of this type in an extended report for its length:
/// run length blocks and receipt times (1 to 3) have two words or more, a reference time (4) two,
/// delays (5) three for each stream, a summary (6) nine, and VoIP metrics (7) eight.
pub open spec fn xr_block_rejected(block_type: u8, words: nat) -> bool {
    if 1 <= block_type <= 3 {
        words < 2
    } else if block_type == 4 {
        words != 2
    } else if block_type == 5 {
        words % 3 != 0
    } else if block_type == 6 {
        words != 9
    } else if block_type == 7 {
        words != 8
    } else {
        false
    }
}

/// Whether no block of an RTCP extended report, up to the first that is incomplete or rejected,
/// declares a length of 2^14 words or more, for the blocks from `at` on of the report that ends
/// at `end`.
pub open spec fn xr_blocks_fit(datagram: Seq<u8>, at: int, end: int) -> bool
    decreases end - at,
{
    if end - at < 4 {
        true
    } else {
        let words = be16(datagram, at + 2);
        if words >= 0x4000 {
            false
        } else if xr_block_rejected(datagram[at], words) || end - at < 4 + 4 * words {
            true
        } else {
            xr_blocks_fit(datagram, at + 4 + 4 * words, end)
        }
    }
}

/// Whether the running count of packet states in a transport wide congestion control feedback
/// stays below 2^16, for the status chunks from `at` on of the packet that ends at `end`, when
/// `seen` of the `total` states precede them.
pub open spec fn tcc_chunks_fit(
    datagram: Seq<u8>,
    at: int,
    end: int,
    seen: int,
    total: int,
) -> bool
    decreases end - at,
{
    if seen >= total || at + 2 >= end {
        true
    } else if datagram[at] < 0x80 {
        let run = (datagram[at] % 32) * 256 + datagram[at + 1];
        let step = if run < total - seen { run } else { total - seen };
        tcc_chunks_fit(datagram, at + 2, end, seen + step, total)
    } else {
        let step: int = if datagram[at] < 0xC0 { 14 } else { 7 };
        &&& seen + step < 0x1_0000
        &&& tcc_chunks_fit(datagram, at + 2, end, seen + step, total)
    }
}

/// Whether the RTCP packet in the `4 + 4 * words` bytes at `at` declares no length or count that
/// its bytes do not bear out:
/// - a NACK (type 205, format 1) and an intra request (206, 4) have room for both stream
///   identifiers, an intra request for whole entries, and their length in bytes is below 2^16;
/// - a transport wide feedback (205, 15) counts its states within 16 bits;
/// - a bandwidth estimate (206, 15) holds as many streams as it says;
/// - an extended report (207) has blocks whose length in bytes is below 2^16, as far as they are
///   read.
pub open spec fn rtcp_packet_fits(datagram: Seq<u8>, at: int, words: nat) -> bool {
    let end = at + 4 + 4 * words;
    let kind = datagram[at + 1];
    let format = datagram[at] % 32;
    if kind == 205 && format == 1 {
        words != 1 && words < 0x4000
    } else if kind == 205 && format == 15 {
        &&& words < 0xFFFF
        &&& words < 4 || tcc_chunks_fit(datagram, at + 20, end, 0, be16(datagram, at + 14) as int)
    } else if kind == 206 && format == 4 {
        words % 2 == 0 && words < 0x4000
    } else if kind == 206 && format == 15 {
        ||| words < 4
        ||| be16(datagram, at + 8) != 0 || be16(datagram, at + 10) != 0
        ||| be16(datagram, at + 12) != 0x5245 || be16(datagram, at + 14) != 0x4D42
        ||| 4 + datagram[at + 16] <= words
    } else if kind == 207 {
        words < 1 || xr_blocks_fit(datagram, at + 8, end)
    } else {
        true
    }
}

/// Where the first RTCP packet of a datagram, from `at` on, begins that declares a length or count
/// that its bytes do not bear out; `None` where there is none up to the first packet that is
/// incomplete or not of version 2.
pub open spec fn first_misfit(datagram: Seq<u8>, at: int) -> Option<int>
    decreases datagram.len() - at,
{
    let words = be16(datagram, at + 2);
    if datagram.len() - at < 4 || datagram[at] / 64 != 2 || datagram.len() - at < 4 + 4 * words {
        None
    } else if !rtcp_packet_fits(datagram, at, words) {
        Some(at)
    } else {
        first_misfit(datagram, at + 4 + 4 * words)
    }
}

/// Whether the `rtcp` crate can be given a datagram. It panics on a packet that declares a length
/// or count that its bytes do not bear out, unless it has rejected one of the packets before.
pub open spec fn rtcp_datagram_fits(datagram: Seq<u8>) -> bool {
    match first_misfit(datagram, 0) {
        Some(at) => at > 0 && rtcp_packets(datagram.take(at)) is None,
        None => true,
    }
}

proof fn lemma_xr_blocks_fit_in_prefix(datagram: Seq<u8>, at: int, end: int, len: int)
    requires
        0 <= at,
        end <= len <= datagram.len(),
    ensures
        xr_blocks_fit(datagram.take(len), at, end) == xr_blocks_fit(datagram, at, end),
    decreases end - at,
{
    if end - at >= 4 {
        let words = be16(datagram, at + 2);
        if end - at >= 4 + 4 * words {
            lemma_xr_blocks_fit_in_prefix(datagram, at + 4 + 4 * words, end, len);
        }
    }
}

proof fn lemma_tcc_chunks_fit_in_prefix(
    datagram: Seq<u8>,
    at: int,
    end: int,
    seen: int,
    total: int,
    len: int,
)
    requires
        0 <= at,
        end <= len <= datagram.len(),
    ensures
        tcc_chunks_fit(datagram.take(len), at, end, seen, total) == tcc_chunks_fit(
            datagram,
            at,
            end,
            seen,
            total,
        ),
    decreases end - at,
{
    if seen < total && at + 2 < end {
        let run = (datagram[at] % 32) * 256 + datagram[at + 1];
        let step: int = if datagram[at] >= 0xC0 {
            7
        } else if datagram[at] >= 0x80 {
            14
        } else if run < total - seen {
            run
        } else {
            total - seen
        };
        lemma_tcc_chunks_fit_in_prefix(datagram, at + 2, end, seen + step, total, len);
    }
}

/// The packets in front of the first misfit are in order.
pub(crate) proof fn lemma_no_misfit_before_first(datagram: Seq<u8>, at: int)
    requires
        0 <= at <= datagram.len(),
    ensures
        first_misfit(datagram, at) matches Some(first) ==> {
            &&& at <= first <= datagram.len()
            &&& first_misfit(datagram.take(first), at) is None
        },
    decreases datagram.len() - at,
{
    if let Some(first) = first_misfit(datagram, at) {
        let words = be16(datagram, at + 2);
        let next = at + 4 + 4 * words;
        if rtcp_packet_fits(datagram, at, words) {
            lemma_no_misfit_before_first(datagram, next);
            lemma_xr_blocks_fit_in_prefix(datagram, at + 8, next, first);
            lemma_tcc_chunks_fit_in_prefix(
                datagram,
                at + 20,
                next,
                0,
                be16(datagram, at + 14) as int,
                first,
            );
        }
    }
}

fn check_xr_block_rejected(block_type: u8, words: usize) -> (rejected: bool)
    ensures
        rejected == xr_block_rejected(block_type, words as nat),
{
    if 1 <= block_type && block_type <= 3 {
        words < 2
    } else if block_type == 4 {
        words != 2
    } else if block_type == 5 {
        words % 3 != 0
    } else if block_type == 6 {
        words != 9
    } else if block_type == 7 {
        words != 8
    } else {
        false
    }
}

fn check_xr_blocks(datagram: &[u8], start: usize, end: usize) -> (fit: bool)
    requires
        start <= end <= datagram@.len(),
    ensures
        fit == xr_blocks_fit(datagram@, start as int, end as int),
{
    let mut at: usize = start;
    while end - at >= 4
        invariant
            start <= at <= end <= datagram@.len(),
            xr_blocks_fit(datagram@, at as int, end as int) == xr_blocks_fit(
                datagram@,
                start as int,
                end as int,
            ),
        decreases end - at,
    {
        let words: usize = read_be16(datagram, at + 2);
        if words >= 0x4000 {
            return false;
        }
        if check_xr_block_rejected(datagram[at], words) || end - at - 4 < 4 * words {
            return true;
        }
        at += 4 + 4 * words;
    }
    true
}

fn check_tcc_chunks(datagram: &[u8], start: usize, end: usize, total: usize) -> (fit: bool)
    requires
        start <= end <= datagram@.len(),
        total < 0x1_0000,
    ensures
        fit == tcc_chunks_fit(datagram@, start as int, end as int, 0, total as int),
{
    let mut at: usize = start;
    let mut seen: usize = 0;
    while seen < total && end - at > 2
        invariant
            start <= at <= end <= datagram@.len(),
            seen < 0x1_0000,
            total < 0x1_0000,
            tcc_chunks_fit(datagram@, at as int, end as int, seen as int, total as int)
                == tcc_chunks_fit(datagram@, start as int, end as int, 0, total as int),
        decreases end - at,
    {
        if datagram[at] < 0x80 {
            let run: usize = (datagram[at] % 32) as usize * 256 + datagram[at + 1] as usize;
            if run < total - seen {
                seen += run;
            } else {
                seen = total;
            }
        } else {
            let step: usize = if datagram[at] < 0xC0 {
                14
            } else {
                7
            };
            if seen + step >= 0x1_0000 {
                return false;
            }
            seen += step;
        }
        at += 2;
    }
    true
}

fn check_rtcp_packet(datagram: &[u8], at: usize, words: usize) -> (fits: bool)
    requires
        at + 4 + 4 * words <= datagram@.len(),
    ensures
        fits == rtcp_packet_fits(datagram@, at as int, words as nat),
{
    let len: usize = datagram.len();
    assert(4 * words <= len);
    let end: usize = at + 4 + 4 * words;
    let kind: u8 = datagram[at + 1];
    let format: u8 = datagram[at] % 32;
    if kind == 205 && format == 1 {
        words != 1 && words < 0x4000
    } else if kind == 205 && format == 15 {
        words < 0xFFFF && (words < 4 || check_tcc_chunks(
            datagram,
            at + 20,
            end,
            read_be16(datagram, at + 14),
        ))
    } else if kind == 206 && format == 4 {
        words % 2 == 0 && words < 0x4000
    } else if kind == 206 && format == 15 {
        words < 4 || read_be16(datagram, at + 8) != 0 || read_be16(datagram, at + 10) != 0
            || read_be16(datagram, at + 12) != 0x5245 || read_be16(datagram, at + 14) != 0x4D42
            || 4 + datagram[at + 16] as usize <= words
    } else if kind == 207 {
        words < 1 || check_xr_blocks(datagram, at + 8, end)
    } else {
        true
    }
}

fn find_misfit(datagram: &[u8]) -> (first: Option<usize>)
    ensures
        match first {
            Some(at) => first_misfit(datagram@, 0) == Some(at as int),
            None => first_misfit(datagram@, 0) is None,
        },
{
    let len: usize = datagram.len();
    let mut at: usize = 0;
    while len - at >= 4
        invariant
            at <= len == datagram@.len(),
            first_misfit(datagram@, at as int) == first_misfit(datagram@, 0),
        decreases len - at,
    {
        let words: usize = read_be16(datagram, at + 2);
        if datagram[at] / 64 != 2 || len - at - 4 < 4 * words {
            return None;
        }
        if !check_rtcp_packet(datagram, at, words) {
            return Some(at);
        }
        at += 4 + 4 * words;
    }
    None
}

/// A list of RTCP packets as objects of the `rtcp` crate's `Packet` trait. What is said of a batch
/// is said of packets whose `as_any` returns the packet itself, each time, as that of every type
/// of the `rtcp` crate does. A type from elsewhere might panic there or answer differently from
/// one time to the next; of such a packet nothing is known.
#[verifier::external_body]
pub struct RtcpBatch {
    pub packets: Vec<Box<dyn rtcp::packet::Packet + Send + Sync>>,
}

/// What the packets of a batch hold, in their order.
pub uninterp spec fn batch_packets(batch: RtcpBatch) -> Seq<RtcpPacketView>;

/// The packets in a datagram; `None` where it is not a valid sequence of RTCP packets.
pub uninterp spec fn rtcp_packets(datagram: Seq<u8>) -> Option<Seq<RtcpPacketView>>;

/// `rtcp::packet::unmarshal`, which reads a datagram as a sequence of RTCP packets or fails. The
/// result depends on the bytes alone. The packets are read in turn, and the first that is rejected
/// makes the whole fail; so fails a datagram with a misfit behind such a packet.
#[verifier::external_body]
fn unmarshal_rtcp(datagram: &[u8]) -> (result: Result<RtcpBatch, rtcp::Error>)
    requires
        rtcp_datagram_fits(datagram@),
    ensures
        match result {
            Ok(batch) => rtcp_packets(datagram@) == Some(batch_packets(batch)),
            Err(_) => rtcp_packets(datagram@) is None,
        },
        first_misfit(datagram@, 0) is Some ==> result is Err,
{
    let mut raw: &[u8] = datagram;
    Ok(RtcpBatch { packets: rtcp::packet::unmarshal(&mut raw)? })
}

impl RtcpBatch {
    /// The number of packets in the list of objects of the `rtcp` crate.
    #[verifier::external_body]
    pub(crate) fn len(&self) -> (len: usize)
        ensures
            len == batch_packets(*self).len(),
    {
        self.packets.len()
    }

    /// `Packet::as_any` and `downcast_ref` to the `rtcp` crate's `ReceiverReport`: the blocks of
    /// the packet at `i` where it is of that type, and nothing otherwise.
    #[verifier::external_body]
    pub(crate) fn receiver_report(&self, i: usize) -> (reports: Option<Vec<ReceptionReport>>)
        requires
            i < batch_packets(*self).len(),
        ensures
            match batch_packets(*self)[i as int] {
                RtcpPacketView::ReceiverReport { reports: r } => reports matches Some(v) && v@ == r,
                _ => reports is None,
            },
    {
        let packet = self.packets[i].as_any().downcast_ref::<ReceiverReport>();
        packet.map(|rr| rr.reports.iter().map(|r| ReceptionReport {
            ssrc: r.ssrc,
            fraction_lost: r.fraction_lost,
            last_sender_report: r.last_sender_report,
            delay: r.delay,
        }).collect())
    }

    /// `Packet::as_any` and `downcast_ref` to the `rtcp` crate's `FullIntraRequest`: the stream of
    /// each entry of the packet at `i` where it is of that type, and nothing otherwise.
    #[verifier::external_body]
    pub(crate) fn full_intra_request(&self, i: usize) -> (ssrcs: Option<Vec<u32>>)
        requires
            i < batch_packets(*self).len(),
        ensures
            match batch_packets(*self)[i as int] {
                RtcpPacketView::FullIntraRequest { ssrcs: s } => ssrcs matches Some(v) && v@ == s,
                _ => ssrcs is None,
            },
    {
        let packet = self.packets[i].as_any().downcast_ref::<FullIntraRequest>();
        packet.map(|fir| fir.fir.iter().map(|entry| entry.ssrc).collect())
    }

    /// `Packet::as_any` and `downcast_ref` to the `rtcp` crate's `PictureLossIndication`: the
    /// stream of the packet at `i` where it is of that type, and nothing otherwise.
    #[verifier::external_body]
    pub(crate) fn picture_loss_indication(&self, i: usize) -> (media_ssrc: Option<u32>)
        requires
            i < batch_packets(*self).len(),
        ensures
            match batch_packets(*self)[i as int] {
                RtcpPacketView::PictureLossIndication { media_ssrc: s } => media_ssrc == Some(s),
                _ => media_ssrc is None,
            },
    {
        let packet = self.packets[i].as_any().downcast_ref::<PictureLossIndication>();
        packet.map(|pli| pli.media_ssrc)
    }

    /// `Packet::as_any` and `downcast_ref` to the `rtcp` crate's `TransportLayerNack`: the stream
    /// and the pairs of the packet at `i` where it is of that type, and nothing otherwise.
    #[verifier::external_body]
    pub(crate) fn transport_layer_nack(&self, i: usize) -> (nack: Option<(u32, Vec<NackPair>)>)
        requires
            i < batch_packets(*self).len(),
        ensures
            match batch_packets(*self)[i as int] {
                RtcpPacketView::TransportLayerNack { media_ssrc, nacks } => nack matches Some((s, v))
                    && s == media_ssrc && v@ == nacks,
                _ => nack is None,
            },
    {
        let packet = self.packets[i].as_any().downcast_ref::<TransportLayerNack>();
        packet.map(|nack| (nack.media_ssrc, nack.nacks.iter().map(
            |n| NackPair { packet_id: n.packet_id, lost_packets: n.lost_packets },
        ).collect()))
    }

    /// The packet at `i`, with the parts that the counters look at.
    fn packet(&self, i: usize) -> (packet: RtcpPacket)
        requires
            i < batch_packets(*self).len(),
        ensures
            packet@ == batch_packets(*self)[i as int],
    {
        if let Some(reports) = self.receiver_report(i) {
            RtcpPacket::ReceiverReport { reports }
        } else if let Some(ssrcs) = self.full_intra_request(i) {
            RtcpPacket::FullIntraRequest { ssrcs }
        } else if let Some(media_ssrc) = self.picture_loss_indication(i) {
            RtcpPacket::PictureLossIndication { media_ssrc }
        } else if let Some((media_ssrc, nacks)) = self.transport_layer_nack(i) {
            RtcpPacket::TransportLayerNack { media_ssrc, nacks }
        } else {
            RtcpPacket::Other
        }
    }

    /// The packets in their order, each with the parts that the counters look at.
    pub fn to_packets(&self) -> (packets: Vec<RtcpPacket>)
        ensures
            crate::packet::batch_view(packets@) == batch_packets(*self),
    {
        let mut packets: Vec<RtcpPacket> = Vec::new();
        let mut i: usize = 0;
        while i < self.len()
            invariant
                packets@.len() == i <= batch_packets(*self).len(),
                forall|j: int| 0 <= j < i ==> (#[trigger] packets@[j])@ == batch_packets(*self)[j],
            decreases batch_packets(*self).len() - i,
        {
            packets.push(self.packet(i));
            i += 1;
        }
        packets
    }
}

/// Whether `e` is an error with which `rtcp::packet::unmarshal` answers `datagram`.
pub closed spec fn rtcp_error(datagram: Seq<u8>, e: rtcp::Error) -> bool {
    exists|d: &[u8]|
        d@ == datagram && #[trigger] call_ensures(unmarshal_rtcp, (d,), Err::<RtcpBatch, _>(e))
}

/// An error that is handed on is one that `rtcp::packet::unmarshal` has returned for these bytes.
proof fn law_rtcp_errors_are_handed_on(datagram: Seq<u8>, e: rtcp::Error)
    ensures
        rtcp_error(datagram, e) ==> exists|d: &[u8]|
            d@ == datagram && #[trigger] call_ensures(unmarshal_rtcp, (d,), Err::<RtcpBatch, _>(e)),
{
}

/// Tests whether the `rtcp` crate can be given `datagram`.
pub fn check_rtcp_datagram(datagram: &[u8]) -> (fits: bool)
    ensures
        fits == rtcp_datagram_fits(datagram@),
{
    match find_misfit(datagram) {
        Some(at) => {
            proof {
                lemma_no_misfit_before_first(datagram@, 0);
            }
            let before = vstd::slice::slice_subrange(datagram, 0, at);
            assert(before@ == datagram@.take(at as int));
            at > 0 && unmarshal_rtcp(before).is_err()
        },
        None => true,
    }
}

/// Reads a datagram as a sequence of RTCP packets.
pub fn read_rtcp(datagram: &[u8]) -> (result: Result<Vec<RtcpPacket>, PacketError>)
    requires
        rtcp_datagram_fits(datagram@),
    ensures
        match result {
            Ok(packets) => {
                &&& rtcp_packets(datagram@) == Some(crate::packet::batch_view(packets@))
                &&& rtcp_packets(datagram@)->Some_0.len() == packets@.len()
                &&& forall|i: int|
                    0 <= i < packets@.len() ==> (#[trigger] packets@[i])@ == rtcp_packets(
                        datagram@,
                    )->Some_0[i]
            },
            Err(PacketError::Rtcp(e)) => rtcp_packets(datagram@) is None && rtcp_error(
                datagram@,
                e,
            ),
            Err(PacketError::Util(_)) => false,
        },
        first_misfit(datagram@, 0) is Some ==> result is Err,
{
    match unmarshal_rtcp(datagram) {
        Ok(batch) => {
            let packets = batch.to_packets();
            proof {
                crate::behavior::law_batch_contents(packets@);
                assert forall|i: int| 0 <= i < packets@.len() implies (#[trigger] packets@[i])@
                    == crate::packet::batch_view(packets@)[i] by {}
            }
            Ok(packets)
        },
        Err(e) => Err(PacketError::Rtcp(e)),
    }
}

} // verus!
