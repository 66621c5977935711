//! Counters for RTP streams and the RTCP feedback about them.
//!
//! Counters live in a [`store::StatsStore`]. Recorders in the path of the packets write to them,
//! and readers, which can be handed out at any time, see what is written.

pub mod behavior;
pub mod feedback;
pub mod interceptor;
pub mod laws;
pub mod packet;
pub mod recorder;
pub mod rtt;
pub mod stats;
pub mod store;
pub mod time;
pub mod wire;

pub use crate::interceptor::{
    make_stats_interceptor, RTCPReadInterceptor, RTCPWriteInterceptor, StatsInterceptor,
};
pub use crate::packet::{NackPair, ReceptionReport, RtcpPacket};
pub use crate::recorder::{
    RTCPReadRecorder, RTCPWriteRecorder, RTPReadRecorder, RTPWriteRecorder,
};
pub use crate::rtt::{calculate_rtt_ms, RttMs};
pub use crate::stats::{RTCPStats, RTCPStatsReader, RTPStats, RTPStatsReader};
pub use crate::store::StatsStore;
pub use crate::time::{Clock, UnixTime};
pub use crate::wire::{PacketError, RtcpBatch, RtpExtension, RtpHeader};
