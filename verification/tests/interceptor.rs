use bytes::Bytes;
use rtcp::payload_feedbacks::full_intra_request::{FirEntry, FullIntraRequest};
use rtcp::payload_feedbacks::picture_loss_indication::PictureLossIndication;
use rtcp::receiver_report::ReceiverReport;
use rtcp::reception_report::ReceptionReport;
use rtcp::transport_feedbacks::transport_layer_nack::{NackPair, TransportLayerNack};
use stats::{
    make_stats_interceptor, PacketError, RTCPReadRecorder, RTCPWriteRecorder, RtcpBatch,
    RtcpPacket, RtpHeader, RttMs, StatsInterceptor, StatsStore, UnixTime,
};
use webrtc_util::marshal::Marshal;

type Icpr<F> = StatsInterceptor<&'static str, &'static str, F>;
type SystemClock = fn() -> Option<UnixTime>;

fn plain_header() -> RtpHeader {
    RtpHeader { csrc: vec![], extension: false, extension_profile: 0, extensions: vec![] }
}

fn milliseconds(rtt: RttMs) -> f64 {
    rtt.seconds as f64 * 1000.0 + (rtt.fraction as f64 / 65536.0) * 1000.0
}

#[test]
fn test_stats_interceptor_rtp() {
    let mut store = StatsStore::new();
    let mut icpr: Icpr<SystemClock> = StatsInterceptor::new(&mut store, "Hello".to_owned());

    let recv_stream = icpr.bind_remote_stream(&mut store, 123456, "remote");
    let send_stream = icpr.bind_local_stream(&mut store, 234567, "local");

    let recv_reader = icpr
        .rtp_recv_stats_reader(123456)
        .expect("After binding recv_stats_reader should return Some");

    let send_reader = icpr
        .rtp_send_stats_reader(234567)
        .expect("After binding send_stats_reader should return Some");

    let packet = rtp::packet::Packet {
        header: rtp::header::Header {
            ..Default::default()
        },
        payload: Bytes::from_static(b"\xde\xad\xbe\xef"),
    };
    let bytes = packet.marshal().unwrap();
    let n = recv_stream
        .read(&mut store, &bytes, bytes.len())
        .expect("After calling receive_rtp read_rtp should return Some");
    assert_eq!(n, 16);

    send_stream.write(&mut store, &plain_header(), b"\xde\xad\xbe\xef\xde\xad\xbe\xef".len());
    send_stream.write(&mut store, &plain_header(), [0x13, 0x37].len());

    assert_eq!(recv_reader.packets(&store), 1);
    assert_eq!(recv_reader.header_bytes(&store), 12);
    assert_eq!(recv_reader.payload_bytes(&store), 4);

    assert_eq!(send_reader.packets(&store), 2);
    assert_eq!(send_reader.header_bytes(&store), 24);
    assert_eq!(send_reader.payload_bytes(&store), 10);
}

#[test]
fn test_stats_interceptor_rtcp() {
    let mut store = StatsStore::new();
    let icpr: Icpr<_> = StatsInterceptor::with_time_gen(&mut store, "Hello".to_owned(), || {
        // 10 Nov 1995 11:33:36.5 UTC
        Some(UnixTime { secs: 816003216, nanos: 500_000_000 })
    });

    let rtcp_recv_reader = icpr
        .rtcp_recv_stats_reader(&mut store, 234567)
        .expect("After binding rtcp_recv_stats_reader should return Some");

    let rtcp_send_reader = icpr
        .rtcp_send_stats_reader(&mut store, 123456)
        .expect("After binding rtcp_recv_stats_reader should return Some");

    let send_stream = icpr.bind_rtcp_reader("remote");
    let recv_stream = icpr.bind_rtcp_writer("remote");

    let datagram = rtcp::packet::marshal(&[
        Box::new(ReceiverReport {
            reports: vec![ReceptionReport {
                ssrc: 234567,
                last_sender_report: 0xb705_2000,
                delay: 0x0005_4000,
                ..Default::default()
            }],
            ..Default::default()
        }),
        Box::new(TransportLayerNack {
            sender_ssrc: 0,
            media_ssrc: 234567,
            nacks: vec![NackPair {
                packet_id: 5,
                lost_packets: 0b0011_0110,
            }],
        }),
        Box::new(TransportLayerNack {
            sender_ssrc: 0,
            // NB: Different SSRC
            media_ssrc: 999999,
            nacks: vec![NackPair {
                packet_id: 5,
                lost_packets: 0b0011_0110,
            }],
        }),
        Box::new(PictureLossIndication {
            sender_ssrc: 0,
            media_ssrc: 234567,
        }),
        Box::new(PictureLossIndication {
            sender_ssrc: 0,
            media_ssrc: 234567,
        }),
        Box::new(FullIntraRequest {
            sender_ssrc: 0,
            media_ssrc: 234567,
            fir: vec![
                FirEntry {
                    ssrc: 234567,
                    sequence_number: 132,
                },
                FirEntry {
                    ssrc: 234567,
                    sequence_number: 135,
                },
            ],
        }),
    ])
    .unwrap();

    let n = send_stream
        .read(&mut store, &datagram, datagram.len())
        .expect("After calling `receive_rtcp`, `read_rtcp` should return some packets");
    assert_eq!(n, datagram.len());

    recv_stream.write(
        &mut store,
        &RtcpBatch {
            packets: vec![
                Box::new(TransportLayerNack {
                    sender_ssrc: 0,
                    media_ssrc: 123456,
                    nacks: vec![NackPair {
                        packet_id: 5,
                        lost_packets: 0b0011_0111,
                    }],
                }),
                Box::new(TransportLayerNack {
                    sender_ssrc: 0,
                    // NB: Different SSRC
                    media_ssrc: 999999,
                    nacks: vec![NackPair {
                        packet_id: 5,
                        lost_packets: 0b1111_0110,
                    }],
                }),
                Box::new(PictureLossIndication {
                    sender_ssrc: 0,
                    media_ssrc: 123456,
                }),
                Box::new(PictureLossIndication {
                    sender_ssrc: 0,
                    media_ssrc: 123456,
                }),
                Box::new(PictureLossIndication {
                    sender_ssrc: 0,
                    media_ssrc: 123456,
                }),
                Box::new(FullIntraRequest {
                    sender_ssrc: 0,
                    media_ssrc: 123456,
                    fir: vec![FirEntry {
                        ssrc: 123456,
                        sequence_number: 132,
                    }],
                }),
            ],
        },
    );

    let rtt_ms = milliseconds(rtcp_recv_reader.rtt_ms(&store));
    assert!(rtt_ms > 6124.99 && rtt_ms < 6125.01);

    assert_eq!(rtcp_recv_reader.nack_count(&store), 5);
    assert_eq!(rtcp_recv_reader.pli_count(&store), 2);
    assert_eq!(rtcp_recv_reader.fir_count(&store), 2);

    assert_eq!(rtcp_send_reader.fir_count(&store), 1);
    assert_eq!(rtcp_send_reader.nack_count(&store), 6);
    assert_eq!(rtcp_send_reader.pli_count(&store), 3);
}

#[test]
fn readers_exist_while_a_stream_is_bound() {
    let mut store = StatsStore::new();
    let mut icpr: Icpr<SystemClock> = make_stats_interceptor(&mut store, "id");
    assert!(icpr.rtp_recv_stats_reader(1).is_none());
    assert!(icpr.rtp_send_stats_reader(1).is_none());

    icpr.bind_remote_stream(&mut store, 1, "remote");
    assert!(icpr.rtp_recv_stats_reader(1).is_some());
    assert!(icpr.rtp_send_stats_reader(1).is_none());

    icpr.bind_local_stream(&mut store, 2, "local");
    assert!(icpr.rtp_send_stats_reader(2).is_some());

    icpr.unbind_remote_stream(1);
    icpr.unbind_remote_stream(77);
    assert!(icpr.rtp_recv_stats_reader(1).is_none());
    assert!(icpr.rtp_send_stats_reader(2).is_some());
    icpr.unbind_local_stream(2);
    assert!(icpr.rtp_send_stats_reader(2).is_none());
    assert!(icpr.close().is_ok());
}

#[test]
fn binding_twice_keeps_the_first_recorder() {
    let mut store = StatsStore::new();
    let mut icpr: Icpr<SystemClock> = StatsInterceptor::new(&mut store, "id".to_owned());
    let first = icpr.bind_remote_stream(&mut store, 1, "first");
    first.record_at(&mut store, 30, 20, None);
    let second = icpr.bind_remote_stream(&mut store, 1, "second");
    assert_eq!(second.rtp_reader, "first");
    second.record_at(&mut store, 30, 20, None);
    assert_eq!(first.reader().packets(&store), 2);
    assert_eq!(icpr.rtp_recv_stats_reader(1).unwrap().payload_bytes(&store), 40);

    let first = icpr.bind_local_stream(&mut store, 1, "first");
    let second = icpr.bind_local_stream(&mut store, 1, "second");
    assert_eq!(second.rtp_writer, "first");
    second.write(&mut store, &plain_header(), 5);
    assert_eq!(first.reader().payload_bytes(&store), 5);
}

#[test]
fn a_reader_outlives_its_stream() {
    let mut store = StatsStore::new();
    let mut icpr: Icpr<SystemClock> = StatsInterceptor::new(&mut store, "id".to_owned());
    let recorder = icpr.bind_remote_stream(&mut store, 1, "first");
    recorder.record_at(&mut store, 30, 20, None);
    let earlier = icpr.rtp_recv_stats_reader(1).unwrap();
    icpr.unbind_remote_stream(1);
    assert_eq!(earlier.packets(&store), 1);

    let recorder = icpr.bind_remote_stream(&mut store, 1, "second");
    assert_eq!(recorder.rtp_reader, "second");
    let later = icpr.rtp_recv_stats_reader(1).unwrap();
    assert_eq!(later.packets(&store), 0);
    recorder.record_at(&mut store, 100, 80, None);
    assert_eq!(later.payload_bytes(&store), 80);
    assert_eq!(earlier.payload_bytes(&store), 20);
}

#[test]
fn readers_for_several_streams() {
    let mut store = StatsStore::new();
    let mut icpr: Icpr<SystemClock> = StatsInterceptor::new(&mut store, "id".to_owned());
    for ssrc in [3u32, 4, 5] {
        let recorder = icpr.bind_remote_stream(&mut store, ssrc, "remote");
        recorder.record_at(&mut store, 12 + ssrc as usize, ssrc as usize, None);
        let recorder = icpr.bind_local_stream(&mut store, 10 * ssrc, "local");
        recorder.write(&mut store, &plain_header(), 10 * ssrc as usize);
    }
    let read: Vec<u64> = icpr
        .rtp_recv_stats_readers(&[5, 9, 3, 5, 30])
        .iter()
        .map(|r| r.payload_bytes(&store))
        .collect();
    assert_eq!(read, vec![5, 3, 5]);
    let read: Vec<u64> = icpr
        .rtp_send_stats_readers(&[50, 9, 30, 3])
        .iter()
        .map(|r| r.payload_bytes(&store))
        .collect();
    assert_eq!(read, vec![50, 30]);
    assert!(icpr.rtp_recv_stats_readers(&[]).is_empty());

    let readers = icpr.rtcp_recv_stats_readers(&mut store, &[8, 9, 8]);
    assert_eq!(readers.len(), 3);
    let recorder = icpr.bind_rtcp_reader(());
    recorder.recorder.write_pli(&mut store, 8, 6);
    let read: Vec<u64> = readers.iter().map(|r| r.pli_count(&store)).collect();
    assert_eq!(read, vec![6, 0, 6]);

    let readers = icpr.rtcp_send_stats_readers(&mut store, &[8, 9]);
    let recorder = icpr.bind_rtcp_writer(());
    recorder.recorder.write_nack(&mut store, 9, 2);
    let read: Vec<u64> = readers.iter().map(|r| r.nack_count(&store)).collect();
    assert_eq!(read, vec![0, 2]);
}

#[test]
fn incoming_reports_set_the_round_trip_time() {
    let mut store = StatsStore::new();
    let icpr: Icpr<_> = StatsInterceptor::with_time_gen(&mut store, "id".to_owned(), || {
        Some(UnixTime { secs: 816003216, nanos: 500_000_000 })
    });
    let reader = icpr.rtcp_recv_stats_reader(&mut store, 1).unwrap();
    let sent = icpr.rtcp_send_stats_reader(&mut store, 1).unwrap();
    let block = |ssrc: u32, last_sender_report: u32| ReceptionReport {
        ssrc,
        last_sender_report,
        delay: 0x0001_0000,
        fraction_lost: 3,
        ..Default::default()
    };
    let datagram = rtcp::packet::marshal(&[Box::new(ReceiverReport {
        reports: vec![block(1, 0xb700_0000), block(1, 0xb70e_0000), block(2, 0xb701_0000)],
        ..Default::default()
    })])
    .unwrap();
    icpr.bind_rtcp_reader(()).read(&mut store, &datagram, datagram.len()).unwrap();
    // The last block about the stream counts.
    assert_eq!(reader.rtt_ms(&store), RttMs { seconds: 1, fraction: 0x8000 });
    let other = icpr.rtcp_recv_stats_reader(&mut store, 2).unwrap();
    assert_eq!(other.rtt_ms(&store), RttMs { seconds: 14, fraction: 0x8000 });
    assert_eq!(sent.rtt_ms(&store), RttMs { seconds: 0, fraction: 0 });

    // Outgoing reports are not looked at.
    icpr.bind_rtcp_writer(()).write(
        &mut store,
        &RtcpBatch {
            packets: vec![Box::new(ReceiverReport {
                reports: vec![block(1, 1)],
                ..Default::default()
            })],
        },
    );
    assert_eq!(sent.rtt_ms(&store), RttMs { seconds: 0, fraction: 0 });
    assert_eq!(sent.fir_count(&store), 0);
}

#[test]
fn a_clock_before_the_epoch_reads_as_the_epoch() {
    let mut store = StatsStore::new();
    let icpr: Icpr<_> = StatsInterceptor::with_time_gen(&mut store, "id".to_owned(), || None);
    let datagram = rtcp::packet::marshal(&[Box::new(ReceiverReport {
        reports: vec![ReceptionReport {
            ssrc: 1,
            last_sender_report: 0x7e7f_0000,
            ..Default::default()
        }],
        ..Default::default()
    })])
    .unwrap();
    icpr.bind_rtcp_reader(()).read(&mut store, &datagram, datagram.len()).unwrap();
    let reader = icpr.rtcp_recv_stats_reader(&mut store, 1).unwrap();
    assert_eq!(reader.rtt_ms(&store), RttMs { seconds: 1, fraction: 0 });
}

#[test]
fn the_system_clock_is_read_where_no_other_is_given() {
    let mut store = StatsStore::new();
    let icpr: Icpr<SystemClock> = StatsInterceptor::new(&mut store, "id".to_owned());
    let datagram = rtcp::packet::marshal(&[Box::new(ReceiverReport {
        reports: vec![ReceptionReport { ssrc: 1, ..Default::default() }],
        ..Default::default()
    })])
    .unwrap();
    let seconds = || {
        let now = std::time::SystemTime::now()
            .duration_since(std::time::SystemTime::UNIX_EPOCH)
            .unwrap();
        ((now.as_secs() + 0x83AA7E80) % 0x1_0000) as u16
    };
    let before = seconds();
    icpr.bind_rtcp_reader(()).read(&mut store, &datagram, datagram.len()).unwrap();
    let after = seconds();
    let reader = icpr.rtcp_recv_stats_reader(&mut store, 1).unwrap();
    let read = reader.rtt_ms(&store).seconds;
    assert!(read.wrapping_sub(before) <= after.wrapping_sub(before));
}

#[test]
fn a_malformed_datagram_counts_nothing() {
    let mut store = StatsStore::new();
    let icpr: Icpr<SystemClock> = StatsInterceptor::new(&mut store, "id".to_owned());
    let reader = icpr.rtcp_recv_stats_reader(&mut store, 0x11).unwrap();
    // A picture loss indication, then a packet that is cut short.
    let datagram = [0x81, 0xce, 0, 2, 0, 0, 0, 0, 0, 0, 0, 0x11, 0x81, 0xc9, 0, 7];
    let rtcp_reader = icpr.bind_rtcp_reader(());
    assert!(matches!(
        rtcp_reader.read(&mut store, &datagram, 16),
        Err(PacketError::Rtcp(_))
    ));
    assert_eq!(reader.pli_count(&store), 0);
    // Only the bytes that were read count.
    assert_eq!(rtcp_reader.read(&mut store, &datagram, 12).unwrap(), 12);
    assert_eq!(reader.pli_count(&store), 1);
}

#[test]
fn reading_any_datagram() {
    let mut store = StatsStore::new();
    let icpr: Icpr<SystemClock> = StatsInterceptor::new(&mut store, "id".to_owned());
    let reader = icpr.rtcp_recv_stats_reader(&mut store, 0x11).unwrap();
    // A picture loss indication, then a NACK without room for the stream that it is about.
    let datagram = [0x81, 0xce, 0, 2, 0, 0, 0, 0, 0, 0, 0, 0x11, 0x81, 205, 0, 1, 0, 0, 0, 1];
    let rtcp_reader = icpr.bind_rtcp_reader(());
    assert!(rtcp_reader.try_read(&mut store, &datagram, 20).is_none());
    assert!(rtcp_reader.try_receive(&datagram, 20).is_none());
    assert_eq!(reader.pli_count(&store), 0);
    assert!(matches!(
        rtcp_reader.try_read(&mut store, &datagram, 16),
        Some(Err(PacketError::Rtcp(_)))
    ));
    assert_eq!(reader.pli_count(&store), 0);
    assert!(matches!(rtcp_reader.try_read(&mut store, &datagram, 12), Some(Ok(12))));
    assert_eq!(reader.pli_count(&store), 1);
}

#[test]
fn receiving_gives_the_packets_and_the_time() {
    let mut store = StatsStore::new();
    let icpr: Icpr<_> = StatsInterceptor::with_time_gen(&mut store, "id".to_owned(), || {
        // 10 Nov 1995 11:33:36.5 UTC
        Some(UnixTime { secs: 816003216, nanos: 500_000_000 })
    });
    let datagram = [0x81, 0xce, 0, 2, 0, 0, 0, 0, 0, 0, 0, 0x11, 0x81, 0xc9, 0, 7];
    let rtcp_reader = icpr.bind_rtcp_reader(());
    let (packets, now) = rtcp_reader.receive(&datagram, 12).unwrap();
    assert_eq!(packets.len(), 1);
    assert!(matches!(packets[0], RtcpPacket::PictureLossIndication { media_ssrc: 0x11 }));
    assert_eq!(now, 0xb710_8000);
    let (packets, now) = rtcp_reader.try_receive(&datagram, 12).unwrap().unwrap();
    assert_eq!(packets.len(), 1);
    assert_eq!(now, 0xb710_8000);
    assert!(rtcp_reader.receive(&datagram, 16).is_err());

    // Nothing was taken note of.
    let reader = icpr.rtcp_recv_stats_reader(&mut store, 0x11).unwrap();
    assert_eq!(reader.pli_count(&store), 0);
}

#[test]
fn a_batch_may_be_taken_in_parts() {
    let packets = || {
        vec![
            RtcpPacket::PictureLossIndication { media_ssrc: 7 },
            RtcpPacket::FullIntraRequest { ssrcs: vec![7, 8, 7] },
            RtcpPacket::TransportLayerNack {
                media_ssrc: 7,
                nacks: vec![stats::NackPair { packet_id: 1, lost_packets: 0x8001 }],
            },
            RtcpPacket::ReceiverReport {
                reports: vec![stats::ReceptionReport {
                    ssrc: 7,
                    fraction_lost: 1,
                    last_sender_report: 0x10_0000,
                    delay: 0x2_0000,
                }],
            },
            RtcpPacket::Other,
        ]
    };
    for cut in 0..6 {
        let mut store = StatsStore::new();
        let incoming = RTCPReadRecorder::new(&mut store);
        let outgoing = RTCPWriteRecorder::new(&mut store);
        let all = packets();
        let (first, second) = all.split_at(cut);
        incoming.record(&mut store, first, 0x15_8000);
        incoming.record(&mut store, second, 0x15_8000);
        outgoing.record(&mut store, first);
        outgoing.record(&mut store, second);

        let reader = incoming.get_reader(&mut store, 7);
        assert_eq!(reader.rtt_ms(&store), RttMs { seconds: 3, fraction: 0x8000 });
        assert_eq!(reader.pli_count(&store), 1);
        assert_eq!(reader.fir_count(&store), 2);
        assert_eq!(reader.nack_count(&store), 3);
        let reader = outgoing.get_reader(&mut store, 7);
        assert_eq!(reader.rtt_ms(&store), RttMs { seconds: 0, fraction: 0 });
        assert_eq!(reader.pli_count(&store), 1);
        assert_eq!(reader.fir_count(&store), 2);
        assert_eq!(reader.nack_count(&store), 3);
        let other = outgoing.get_reader(&mut store, 8);
        assert_eq!(other.fir_count(&store), 1);
        assert_eq!(other.nack_count(&store), 0);
    }
}
