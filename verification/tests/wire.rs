use std::time::{Duration, SystemTime};

use bytes::Bytes;
use rtp::extension::abs_send_time_extension::unix2ntp as rtp_unix2ntp;
use stats::packet::count_lost;
use stats::time::{ntp_middle, unix2ntp};
use stats::wire::{check_rtcp_datagram, check_rtp_extension, read_rtcp};
use stats::{
    NackPair, PacketError, RTPReadRecorder, RTPWriteRecorder, ReceptionReport, RtcpPacket,
    RtpExtension, RtpHeader, StatsStore, UnixTime,
};
use webrtc_util::marshal::{MarshalSize, Unmarshal};

#[test]
fn ntp_time_of_known_instants() {
    // 10 Nov 1995 11:33:36.5 UTC
    let t = Some(UnixTime { secs: 816_003_216, nanos: 500_000_000 });
    assert_eq!(unix2ntp(t), 0xb44d_b710_8000_0000);
    assert_eq!(ntp_middle(t), 0xb710_8000);
    assert_eq!(unix2ntp(None), 0x83aa_7e80_0000_0000);
    assert_eq!(unix2ntp(Some(UnixTime { secs: 0, nanos: 0 })), 0x83aa_7e80_0000_0000);
}

#[test]
fn ntp_time_agrees_with_the_rtp_crate() {
    let samples: [(u64, u32); 9] = [
        (0, 0),
        (0, 1),
        (0, 999_999_999),
        (1, 1),
        (816_003_216, 500_000_000),
        (1_700_000_000, 123_456_789),
        (2_085_978_496, 0),
        (18_446_744_073, 709_551_615),
        (18_446_744_073, 709_551_616),
    ];
    for (secs, nanos) in samples {
        let there = SystemTime::UNIX_EPOCH + Duration::new(secs, nanos);
        assert_eq!(unix2ntp(Some(UnixTime { secs, nanos })), rtp_unix2ntp(there));
    }
    assert_eq!(
        unix2ntp(None),
        rtp_unix2ntp(SystemTime::UNIX_EPOCH - Duration::from_secs(5))
    );
}

#[test]
fn lost_packets_are_counted() {
    assert_eq!(count_lost(&[]), 0);
    assert_eq!(count_lost(&[NackPair { packet_id: 5, lost_packets: 0 }]), 1);
    assert_eq!(count_lost(&[NackPair { packet_id: 5, lost_packets: 0b0011_0110 }]), 5);
    assert_eq!(
        count_lost(&[
            NackPair { packet_id: 65535, lost_packets: 0xffff },
            NackPair { packet_id: 9, lost_packets: 0x8001 },
        ]),
        20
    );
}

fn header(csrc: usize, extension: bool, profile: u16, payloads: &[usize]) -> RtpHeader {
    RtpHeader {
        csrc: vec![7; csrc],
        extension,
        extension_profile: profile,
        extensions: payloads
            .iter()
            .map(|n| RtpExtension { id: 1, payload: vec![0xab; *n] })
            .collect(),
    }
}

fn recorded_header_bytes(header: &RtpHeader) -> u64 {
    let mut store = StatsStore::new();
    let recorder = RTPWriteRecorder::new(&mut store, ());
    recorder.write(&mut store, header, 3);
    let reader = recorder.reader();
    assert_eq!(reader.payload_bytes(&store), 3);
    assert_eq!(reader.packets(&store), 1);
    reader.header_bytes(&store)
}

#[test]
fn header_sizes() {
    assert_eq!(recorded_header_bytes(&header(0, false, 0, &[])), 12);
    assert_eq!(recorded_header_bytes(&header(3, false, 0, &[])), 24);
    assert_eq!(recorded_header_bytes(&header(0, false, 0xBEDE, &[3, 3])), 12);
    assert_eq!(recorded_header_bytes(&header(0, true, 0xBEDE, &[3, 3])), 24);
    assert_eq!(recorded_header_bytes(&header(1, true, 0xBEDE, &[1, 2])), 28);
    assert_eq!(recorded_header_bytes(&header(0, true, 0x1000, &[3, 0])), 24);
    assert_eq!(recorded_header_bytes(&header(0, true, 0x1234, &[8])), 24);
    assert_eq!(recorded_header_bytes(&header(0, true, 0xBEDE, &[])), 16);
}

#[test]
fn header_sizes_agree_with_the_rtp_crate() {
    for csrc in 0..3usize {
        for profile in [0xBEDEu16, 0x1000, 0] {
            for payloads in [vec![], vec![0usize], vec![1, 2], vec![16, 5, 9], vec![4]] {
                let theirs = rtp::header::Header {
                    csrc: vec![7; csrc],
                    extension: true,
                    extension_profile: profile,
                    extensions: payloads
                        .iter()
                        .map(|n| rtp::header::Extension {
                            id: 1,
                            payload: Bytes::from(vec![0u8; *n]),
                        })
                        .collect(),
                    ..Default::default()
                };
                let ours = header(csrc, true, profile, &payloads);
                assert_eq!(recorded_header_bytes(&ours), theirs.marshal_size() as u64);
            }
        }
    }
}

#[test]
fn reading_an_rtp_packet() {
    let mut store = StatsStore::new();
    let recorder = RTPReadRecorder::new(&mut store, "source");
    assert_eq!(recorder.rtp_reader, "source");
    let reader = recorder.reader();

    // One contributing source, a one byte extension, four bytes of payload, four of padding, and
    // bytes in the buffer behind the packet.
    let buf = [
        0xb1, 0x60, 0, 1, 0, 0, 0, 0, 0, 0, 0, 9, 1, 1, 1, 1, 0xBE, 0xDE, 0, 1, 0x10, 0xaa, 0, 0,
        1, 2, 3, 4, 0, 0, 0, 4, 99, 99,
    ];
    assert_eq!(recorder.read(&mut store, &buf, 32).unwrap(), 32);
    assert_eq!(reader.packets(&store), 1);
    assert_eq!(reader.payload_bytes(&store), 4);
    assert_eq!(reader.header_bytes(&store), 28);

    recorder.record_at(&mut store, 100, 60, None);
    assert_eq!(reader.packets(&store), 2);
    assert_eq!(reader.payload_bytes(&store), 64);
    assert_eq!(reader.header_bytes(&store), 68);
}

#[test]
fn a_malformed_rtp_packet_counts_nothing() {
    let mut store = StatsStore::new();
    let recorder = RTPReadRecorder::new(&mut store, ());
    let buf = [0x80, 0, 0];
    assert!(matches!(recorder.read(&mut store, &buf, 3), Err(PacketError::Util(_))));
    assert!(matches!(recorder.read(&mut store, &buf, 0), Err(PacketError::Util(_))));
    assert_eq!(recorder.reader().packets(&store), 0);
    assert_eq!(recorder.reader().header_bytes(&store), 0);
}

#[test]
fn rtp_extensions_that_run_over() {
    let mut packet = vec![0x90, 0, 0, 1, 0, 0, 0, 0, 0, 0, 0, 9, 0xBE, 0xDE, 0, 1, 0, 0, 0, 0x12];
    // The last element wants three bytes behind the end.
    assert!(!check_rtp_extension(&packet));
    packet.extend_from_slice(&[1, 2]);
    assert!(!check_rtp_extension(&packet));
    packet.push(3);
    assert!(check_rtp_extension(&packet));

    let mut packet = vec![0x90, 0, 0, 1, 0, 0, 0, 0, 0, 0, 0, 9, 0x10, 0, 0, 1, 0, 0, 0, 5];
    assert!(!check_rtp_extension(&packet));
    packet.extend_from_slice(&[1]);
    assert!(!check_rtp_extension(&packet));
    packet.push(3);
    assert!(check_rtp_extension(&packet));
    // A reserved element ends a one byte extension.
    let packet = [0x90, 0, 0, 1, 0, 0, 0, 0, 0, 0, 0, 9, 0xBE, 0xDE, 0, 1, 0xf0, 0, 0, 0x12];
    assert!(check_rtp_extension(&packet));
    // No extension, and none that is complete.
    assert!(check_rtp_extension(&[]));
    assert!(check_rtp_extension(&[0x80; 12]));
    assert!(check_rtp_extension(&[0x90; 12]));
}

#[test]
fn reading_a_compound_rtcp_datagram() {
    let datagram = [
        // Receiver report with one block
        0x81, 0xc9, 0x0, 0x7, 0x90, 0x2f, 0x9e, 0x2e, 0xbc, 0x5e, 0x9a, 0x40, 0x21, 0x0, 0x0, 0x0,
        0x0, 0x0, 0x46, 0xe1, 0x0, 0x0, 0x1, 0x11, 0x9, 0xf3, 0x64, 0x32, 0x0, 0x2, 0x4a, 0x79,
        // Goodbye
        0x81, 0xcb, 0x0, 0x1, 0x90, 0x2f, 0x9e, 0x2e,
        // Picture loss indication
        0x81, 0xce, 0x0, 0x2, 0x90, 0x2f, 0x9e, 0x2e, 0x0, 0x0, 0x0, 0x11,
        // Intra request with two entries
        0x84, 0xce, 0x0, 0x6, 0, 0, 0, 1, 0, 0, 0, 2, 0, 0, 0, 3, 7, 0, 0, 0, 0, 0, 0, 4, 8, 0, 0,
        0,
        // NACK with two pairs
        0x81, 0xcd, 0x0, 0x4, 0, 0, 0, 1, 0, 0, 0, 5, 0, 6, 0, 7, 0, 8, 0, 9,
    ];
    assert!(check_rtcp_datagram(&datagram));
    let packets = read_rtcp(&datagram).unwrap();
    assert_eq!(packets.len(), 5);
    match &packets[0] {
        RtcpPacket::ReceiverReport { reports } => assert_eq!(
            reports,
            &vec![ReceptionReport {
                ssrc: 0xbc5e9a40,
                fraction_lost: 0x21,
                last_sender_report: 0x9f36432,
                delay: 150137,
            }]
        ),
        _ => panic!("not a receiver report"),
    }
    assert!(matches!(packets[1], RtcpPacket::Other));
    assert!(matches!(packets[2], RtcpPacket::PictureLossIndication { media_ssrc: 0x11 }));
    match &packets[3] {
        RtcpPacket::FullIntraRequest { ssrcs } => assert_eq!(ssrcs, &vec![3, 4]),
        _ => panic!("not an intra request"),
    }
    match &packets[4] {
        RtcpPacket::TransportLayerNack { media_ssrc, nacks } => {
            assert_eq!(*media_ssrc, 5);
            assert_eq!(
                nacks,
                &vec![
                    NackPair { packet_id: 6, lost_packets: 7 },
                    NackPair { packet_id: 8, lost_packets: 9 },
                ]
            );
        }
        _ => panic!("not a nack"),
    }
}

#[test]
fn malformed_rtcp_datagrams() {
    assert!(matches!(read_rtcp(&[]), Err(PacketError::Rtcp(_))));
    assert!(matches!(read_rtcp(&[0x81, 0xc9]), Err(PacketError::Rtcp(_))));
    assert!(matches!(read_rtcp(&[0x41, 0xc9, 0, 0]), Err(PacketError::Rtcp(_))));
    assert!(matches!(read_rtcp(&[0x81, 0xcb, 0, 0x64]), Err(PacketError::Rtcp(_))));
}

#[test]
fn errors_are_those_of_the_crates() {
    let datagrams: [&[u8]; 4] =
        [&[], &[0x81, 0xc9], &[0x41, 0xc9, 0, 0], &[0x81, 203, 0, 0, 0x81, 205, 0, 1, 0, 0, 0, 1]];
    for datagram in datagrams {
        let mut raw = datagram;
        let theirs = rtcp::packet::unmarshal(&mut raw).unwrap_err();
        match read_rtcp(datagram) {
            Err(PacketError::Rtcp(e)) => assert_eq!(e.to_string(), theirs.to_string()),
            other => panic!("{:?}", other),
        }
    }

    let mut store = StatsStore::new();
    let recorder = RTPReadRecorder::new(&mut store, ());
    let packets: [&[u8]; 3] =
        [&[0x80], &[0x90, 0, 0, 0, 0, 0, 0, 0, 0, 0, 0, 0], &[0xa0, 0, 0, 0, 0, 0, 0, 0, 0, 0, 0, 0]];
    for packet in packets {
        let mut raw = packet;
        let theirs = rtp::packet::Packet::unmarshal(&mut raw).unwrap_err();
        match recorder.read(&mut store, packet, packet.len()) {
            Err(PacketError::Util(e)) => assert_eq!(e.to_string(), theirs.to_string()),
            other => panic!("{:?}", other),
        }
    }
}

#[test]
fn rtcp_lengths_that_do_not_fit() {
    // A NACK and an intra request without room for the second stream
    assert!(!check_rtcp_datagram(&[0x81, 205, 0, 1, 0, 0, 0, 1]));
    assert!(!check_rtcp_datagram(&[0x84, 206, 0, 1, 0, 0, 0, 1]));
    // An intra request with half an entry
    assert!(!check_rtcp_datagram(&[
        0x84, 206, 0, 3, 0, 0, 0, 1, 0, 0, 0, 2, 0, 0, 0, 3
    ]));
    // A bandwidth estimate with fewer streams than it says
    let mut remb = vec![0x8f, 206, 0, 4, 0, 0, 0, 1, 0, 0, 0, 0];
    remb.extend_from_slice(b"REMB");
    remb.extend_from_slice(&[1, 0, 0, 1]);
    assert!(!check_rtcp_datagram(&remb));
    remb[3] = 5;
    remb.extend_from_slice(&[0, 0, 0, 9]);
    assert!(check_rtcp_datagram(&remb));
    // An extended report with a block of 2^14 words
    assert!(!check_rtcp_datagram(&[0x80, 207, 0, 2, 0, 0, 0, 1, 1, 0, 0x40, 0]));
    assert!(check_rtcp_datagram(&[0x80, 207, 0, 2, 0, 0, 0, 1, 1, 0, 0x3f, 0]));
    // A feedback whose count of states runs over 16 bits
    let mut tcc = vec![0x8f, 205, 0, 9, 0, 0, 0, 1, 0, 0, 0, 2, 0, 0, 0xff, 0xff, 0, 0, 0, 0];
    for _ in 0..7 {
        tcc.extend_from_slice(&[0x1f, 0xff]);
    }
    tcc.extend_from_slice(&[0x1f, 0xfe]);
    tcc.extend_from_slice(&[0x80, 0, 0, 0]);
    assert_eq!(tcc.len(), 40);
    assert!(!check_rtcp_datagram(&tcc));
    tcc[36] = 0xc0;
    assert!(check_rtcp_datagram(&tcc));
    // Behind a packet that is incomplete nothing matters.
    assert!(check_rtcp_datagram(&[0x81, 201, 0, 9, 0x81, 205, 0, 1, 0, 0, 0, 1]));
    // Nor behind one that is rejected: here a goodbye that lacks its stream.
    let rejected = [0x81, 203, 0, 0, 0x81, 205, 0, 1, 0, 0, 0, 1];
    assert!(check_rtcp_datagram(&rejected));
    assert!(matches!(read_rtcp(&rejected), Err(PacketError::Rtcp(_))));
    // Behind a goodbye of no streams it does.
    assert!(!check_rtcp_datagram(&[0x80, 203, 0, 0, 0x81, 205, 0, 1, 0, 0, 0, 1]));
    // In an extended report, nothing matters behind a block that is rejected.
    for (block_type, words) in [(1u8, 1u8), (2, 0), (3, 1), (4, 1), (5, 1), (6, 1), (7, 1)] {
        let mut xr = vec![0x80, 207, 0, 3 + words, 0, 0, 0, 1, block_type, 0, 0, words];
        xr.resize(12 + 4 * words as usize, 0);
        xr.extend_from_slice(&[9, 0, 0x40, 0]);
        assert!(check_rtcp_datagram(&xr));
        assert!(matches!(read_rtcp(&xr), Err(PacketError::Rtcp(_))));
    }
    for (block_type, words) in [(1u8, 2u8), (2, 3), (3, 2), (4, 2), (5, 3), (6, 9), (7, 8), (0, 1)] {
        let mut xr = vec![0x80, 207, 0, 2 + words, 0, 0, 0, 1, block_type, 0, 0, words];
        xr.resize(12 + 4 * words as usize, 0);
        assert!(check_rtcp_datagram(&xr));
        assert_eq!(read_rtcp(&xr).unwrap().len(), 1);
        xr[3] += 1;
        xr.extend_from_slice(&[9, 0, 0x40, 0]);
        assert!(!check_rtcp_datagram(&xr));
    }
}

struct Lcg(u64);

impl Lcg {
    fn next(&mut self) -> u64 {
        self.0 = self.0.wrapping_mul(6364136223846793005).wrapping_add(1442695040888963407);
        self.0 >> 33
    }
}

#[test]
fn rtcp_datagrams_that_fit_are_read() {
    let mut random = Lcg(1);
    let mut fitting = 0u32;
    for _ in 0..100_000 {
        let mut datagram: Vec<u8> = Vec::new();
        for _ in 0..1 + random.next() % 3 {
            let words = random.next() % 8;
            let kind = 199 + (random.next() % 10) as u8;
            let count = match random.next() % 4 {
                0 => 1,
                1 => 4,
                2 => 15,
                _ => (random.next() % 32) as u8,
            };
            datagram.extend_from_slice(&[0x80 | count, kind, 0, words as u8]);
            for _ in 0..words * 4 {
                let byte = if random.next() % 3 == 0 { random.next() as u8 } else { 0 };
                datagram.push(byte);
            }
        }
        if random.next() % 5 == 0 {
            datagram.truncate(random.next() as usize % (datagram.len() + 1));
        }
        if check_rtcp_datagram(&datagram) {
            fitting += 1;
            let mut raw: &[u8] = &datagram;
            let theirs = rtcp::packet::unmarshal(&mut raw);
            match read_rtcp(&datagram) {
                Ok(packets) => assert_eq!(packets.len(), theirs.unwrap().len()),
                Err(_) => assert!(theirs.is_err()),
            }
        }
    }
    assert!(fitting > 50_000);
}

#[test]
fn rtp_packets_that_fit_are_read() {
    let mut random = Lcg(2);
    let mut store = StatsStore::new();
    let recorder = RTPReadRecorder::new(&mut store, ());
    let reader = recorder.reader();
    for _ in 0..100_000 {
        let csrc = (random.next() % 3) as u8;
        let padding = if random.next() % 4 == 0 { 0x20 } else { 0 };
        let mut packet: Vec<u8> = vec![0x90 | padding | csrc];
        for _ in 0..11 + 4 * csrc {
            packet.push(random.next() as u8);
        }
        match random.next() % 3 {
            0 => packet.extend_from_slice(&[0xBE, 0xDE]),
            1 => packet.extend_from_slice(&[0x10, 0x00]),
            _ => packet.extend_from_slice(&[0x12, 0x34]),
        }
        packet.extend_from_slice(&[0, (random.next() % 4) as u8]);
        for _ in 0..random.next() % 24 {
            packet.push((random.next() % 24) as u8);
        }
        if check_rtp_extension(&packet) {
            let before = (reader.header_bytes(&store), reader.payload_bytes(&store));
            let mut raw: &[u8] = &packet;
            let theirs = rtp::packet::Packet::unmarshal(&mut raw);
            match recorder.read(&mut store, &packet, packet.len()) {
                Ok(n) => {
                    let payload = theirs.unwrap().payload.len();
                    assert_eq!(n, packet.len());
                    assert_eq!(reader.payload_bytes(&store), before.1 + payload as u64);
                    assert_eq!(
                        reader.header_bytes(&store),
                        before.0 + (packet.len() - payload) as u64
                    );
                }
                Err(_) => assert!(theirs.is_err()),
            }
        }
    }
    assert!(reader.packets(&store) > 10_000);
}

#[test]
fn receiving_an_rtp_packet_records_nothing() {
    let mut store = StatsStore::new();
    let recorder = RTPReadRecorder::new(&mut store, ());
    let reader = recorder.reader();
    // One contributing source, five bytes of payload, and three bytes that were not read
    let mut buf = vec![0x81];
    buf.resize(12 + 4 + 5 + 3, 0);
    let before = SystemTime::now().duration_since(SystemTime::UNIX_EPOCH).unwrap();
    let (payload_len, now) = recorder.receive(&buf, 21).unwrap();
    let after = SystemTime::now().duration_since(SystemTime::UNIX_EPOCH).unwrap();
    assert_eq!(payload_len, 5);
    let now = now.unwrap();
    assert!(before.as_millis() <= now.as_millis() && now.as_millis() <= after.as_millis());
    assert_eq!(reader.packets(&store), 0);
    assert!(matches!(recorder.receive(&buf, 11), Err(PacketError::Util(_))));

    recorder.record_at(&mut store, 21, payload_len, Some(UnixTime { secs: 3, nanos: 0 }));
    assert_eq!(reader.header_bytes(&store), 16);
    assert_eq!(reader.payload_bytes(&store), 5);
    assert_eq!(reader.last_packet_timestamp(&store), UnixTime { secs: 3, nanos: 0 });

    let recorder = RTPWriteRecorder::new(&mut store, ());
    let time = Some(UnixTime { secs: 4, nanos: 1_000_000 });
    recorder.record_at(&mut store, &header(2, true, 0xBEDE, &[3, 1]), 9, time);
    let reader = recorder.reader();
    assert_eq!(reader.header_bytes(&store), 12 + 8 + 4 + 8);
    assert_eq!(reader.payload_bytes(&store), 9);
    assert_eq!(reader.last_packet_timestamp(&store), UnixTime { secs: 4, nanos: 1_000_000 });
}
