use stats::{
    calculate_rtt_ms, RTCPReadRecorder, RTPStats, RTPStatsReader, RttMs, StatsStore, UnixTime,
};

fn totals(reader: &RTPStatsReader, store: &StatsStore) -> (u64, u64, u64) {
    (
        reader.header_bytes(store),
        reader.payload_bytes(store),
        reader.packets(store),
    )
}

#[test]
fn test_rtp_stats() {
    let mut store = StatsStore::new();
    let stats = RTPStats::new(&mut store);
    let reader = stats.reader();
    assert_eq!(
        (
            reader.header_bytes(&store),
            reader.payload_bytes(&store),
            reader.packets(&store)
        ),
        (0, 0, 0),
    );

    stats.update(&mut store, 24, 960, 1);

    assert_eq!(
        (
            reader.header_bytes(&store),
            reader.payload_bytes(&store),
            reader.packets(&store)
        ),
        (24, 960, 1),
    );
}

#[test]
fn test_rtp_stats_send_sync() {
    fn test_send_sync<T: Send + Sync>() {}
    test_send_sync::<RTPStats>();
}

#[test]
fn updates_add_up_and_streams_stay_apart() {
    let mut store = StatsStore::new();
    let first = RTPStats::new(&mut store);
    let second = RTPStats::new(&mut store);
    let reader = first.reader();
    let copy = reader.clone();

    first.update(&mut store, 12, 100, 1);
    second.update(&mut store, 16, 7, 2);
    first.update(&mut store, 20, 50, 3);

    assert_eq!(totals(&reader, &store), (32, 150, 4));
    assert_eq!(totals(&copy, &store), (32, 150, 4));
    assert_eq!(totals(&second.reader(), &store), (16, 7, 2));
}

#[test]
fn counters_wrap_around() {
    let mut store = StatsStore::new();
    let stats = RTPStats::new(&mut store);
    stats.update(&mut store, u64::MAX, u64::MAX, u64::MAX);
    stats.update(&mut store, 1, 2, 3);
    assert_eq!(totals(&stats.reader(), &store), (0, 1, 2));
}

#[test]
fn timestamp_is_that_of_the_last_update() {
    let mut store = StatsStore::new();
    let stats = RTPStats::new(&mut store);
    let reader = stats.reader();
    assert_eq!(
        reader.last_packet_timestamp(&store),
        UnixTime { secs: 0, nanos: 0 }
    );

    let noon = UnixTime { secs: 1_700_000_000, nanos: 123_999_999 };
    stats.update_at(&mut store, 1, 1, 1, Some(noon));
    assert_eq!(
        reader.last_packet_timestamp(&store),
        UnixTime { secs: 1_700_000_000, nanos: 123_000_000 }
    );

    // A clock before the epoch still counts the packet.
    stats.update_at(&mut store, 1, 1, 1, None);
    assert_eq!(
        reader.last_packet_timestamp(&store),
        UnixTime { secs: 1_700_000_000, nanos: 123_000_000 }
    );
    assert_eq!(reader.packets(&store), 2);

    // Milliseconds are kept modulo 2^64.
    let far = UnixTime { secs: 18_446_744_073_709_552, nanos: 0 };
    stats.update_at(&mut store, 1, 1, 1, Some(far));
    assert_eq!(
        reader.last_packet_timestamp(&store),
        UnixTime { secs: 0, nanos: 384_000_000 }
    );
}

#[test]
fn update_takes_the_time_from_the_system() {
    let mut store = StatsStore::new();
    let stats = RTPStats::new(&mut store);
    let before = std::time::SystemTime::now()
        .duration_since(std::time::SystemTime::UNIX_EPOCH)
        .unwrap();
    stats.update(&mut store, 1, 1, 1);
    let after = std::time::SystemTime::now()
        .duration_since(std::time::SystemTime::UNIX_EPOCH)
        .unwrap();
    let read = stats.reader().last_packet_timestamp(&store);
    let read = std::time::Duration::new(read.secs, read.nanos);
    assert!(before.as_millis() <= read.as_millis());
    assert!(read.as_millis() <= after.as_millis());
}

#[test]
fn feedback_is_kept_by_stream() {
    let mut store = StatsStore::new();
    let recorder = RTCPReadRecorder::new(&mut store);
    let other = RTCPReadRecorder::new(&mut store);
    let reader = recorder.get_reader(&mut store, 7);
    assert_eq!(reader.rtt_ms(&store), RttMs { seconds: 0, fraction: 0 });
    assert_eq!(reader.fir_count(&store), 0);

    recorder.write_fir(&mut store, 7, 2);
    recorder.write_fir(&mut store, 7, 3);
    recorder.write_pli(&mut store, 7, 4);
    recorder.write_nack(&mut store, 7, 17);
    recorder.write_nack(&mut store, 8, 100);
    other.write_fir(&mut store, 7, 1000);
    recorder.write_rtt_ms(&mut store, 7, RttMs { seconds: 1, fraction: 2 });
    recorder.write_rtt_ms(&mut store, 7, RttMs { seconds: 3, fraction: 4 });
    recorder.write_loss(&mut store, 7, 9);

    assert_eq!(reader.fir_count(&store), 5);
    assert_eq!(reader.pli_count(&store), 4);
    assert_eq!(reader.nack_count(&store), 17);
    assert_eq!(reader.rtt_ms(&store), RttMs { seconds: 3, fraction: 4 });

    let again = recorder.get_reader(&mut store, 7);
    assert_eq!(again.nack_count(&store), 17);
    assert_eq!(reader.clone().pli_count(&store), 4);
}

#[test]
fn feedback_counts_wrap_around() {
    let mut store = StatsStore::new();
    let recorder = RTCPReadRecorder::new(&mut store);
    let reader = recorder.get_reader(&mut store, 1);
    recorder.write_fir(&mut store, 1, u64::MAX);
    recorder.write_fir(&mut store, 1, 2);
    recorder.write_pli(&mut store, 1, u64::MAX);
    recorder.write_pli(&mut store, 1, 1);
    recorder.write_nack(&mut store, 1, u64::MAX);
    recorder.write_nack(&mut store, 1, 3);
    assert_eq!(reader.fir_count(&store), 1);
    assert_eq!(reader.pli_count(&store), 0);
    assert_eq!(reader.nack_count(&store), 2);
}

#[test]
fn round_trip_time_of_the_rfc_example() {
    let rtt = calculate_rtt_ms(0xb710_8000, 0x0005_4000, 0xb705_2000);
    assert_eq!(rtt, RttMs { seconds: 6, fraction: 0x2000 });
    // 6.125 s
    assert_eq!(rtt.seconds as f64 * 1000.0 + rtt.fraction as f64 / 65536.0 * 1000.0, 6125.0);
}

#[test]
fn round_trip_time_wraps_around() {
    // The clock's middle bits went past zero since the sender report.
    assert_eq!(
        calculate_rtt_ms(0x0001_0000, 0x0000_8000, 0xffff_0000),
        RttMs { seconds: 1, fraction: 0x8000 }
    );
    assert_eq!(calculate_rtt_ms(0, 0, 1), RttMs { seconds: 0xffff, fraction: 0xffff });
}

#[test]
fn snapshots_print_the_counters() {
    let mut store = StatsStore::new();
    let stats = RTPStats::new(&mut store);
    let reader = stats.reader();
    stats.update_at(&mut store, 24, 960, 1, Some(UnixTime { secs: 2, nanos: 5_000_000 }));
    assert_eq!(
        format!("{:?}", reader.snapshot(&store)),
        "RtpCounts { packets: 1, payload_bytes: 960, header_bytes: 24, last_packet_timestamp: 2005 }"
    );

    let recorder = RTCPReadRecorder::new(&mut store);
    recorder.write_loss(&mut store, 7, 9);
    recorder.write_pli(&mut store, 7, 3);
    let counts = recorder.get_reader(&mut store, 7).snapshot(&store);
    assert_eq!(counts.loss, 9);
    assert_eq!(counts.rtt_ms, RttMs { seconds: 0, fraction: 0 });
    assert_eq!((counts.fir_count, counts.pli_count, counts.nack_count), (0, 3, 0));
}
