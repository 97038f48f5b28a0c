use std::collections::HashSet;

use iotest::client::{Error, LocalFsClient, TestClient};
use iotest::decimal::decimal;
use iotest::histogram::{bucket_index, bucket_name, edges, LatencyHistogram, BUCKET_COUNT, EDGE_COUNT};
use iotest::pacing::{Dispatch, Pacer};
use iotest::tester::{check_absent, check_done, check_read_back, smoke_value, CampaignStats, Config, SequenceError, Tester};

#[test]
fn decimal_forms() {
    assert_eq!(decimal(0), "0");
    assert_eq!(decimal(7), "7");
    assert_eq!(decimal(10), "10");
    assert_eq!(decimal(1234567890), "1234567890");
    assert_eq!(decimal(u64::MAX), "18446744073709551615");
}

#[test]
fn client_prefix_names_process() {
    let c = LocalFsClient::new(4321);
    assert_eq!(c.prefix(), "/tmp/iotest_4321/");
    assert_eq!(c.issued_count(), 0);
}

#[test]
fn keys_follow_counter() {
    let mut c = LocalFsClient::new(7);
    assert_eq!(c.gen_unique_key(), "/tmp/iotest_7/0");
    assert_eq!(c.gen_unique_key(), "/tmp/iotest_7/1");
    assert_eq!(c.gen_unique_key(), "/tmp/iotest_7/2");
    assert_eq!(c.issued_count(), 3);
}

#[test]
fn keys_pairwise_distinct() {
    let mut c = LocalFsClient::new(1);
    let mut seen = HashSet::new();
    for _ in 0..2000 {
        assert!(seen.insert(c.gen_unique_key()));
    }
    assert_eq!(seen.len(), 2000);
}

#[test]
fn tester_keys_distinct() {
    let mut t = Tester::new(LocalFsClient::new(9), 8);
    let a = t.next_key();
    let b = t.next_key();
    assert_eq!(a, "/tmp/iotest_9/0");
    assert_eq!(b, "/tmp/iotest_9/1");
    assert_eq!(t.client().issued_count(), 2);
}

#[test]
fn payload_is_alphanumeric_of_length() {
    let t = Tester::new(LocalFsClient::new(1), 64);
    assert_eq!(t.payload().len(), 64);
    assert!(t.payload().chars().all(|c| c.is_ascii_alphanumeric()));
    let empty = Tester::new(LocalFsClient::new(1), 0);
    assert_eq!(empty.payload(), "");
}

#[test]
fn error_messages() {
    let e = Error::with_cause("create /tmp/x", "denied");
    assert_eq!(e.msg, "create /tmp/x: denied");
    let e = Error::from_io_error("open k", std::io::Error::new(std::io::ErrorKind::NotFound, "gone"));
    assert_eq!(e.msg, "open k: gone");
    let e = Error::backend("delete", "/tmp/y", std::io::Error::new(std::io::ErrorKind::Other, "busy"));
    assert_eq!(e.msg, "delete /tmp/y: busy");
}

#[test]
fn smoke_value_is_hello_world() {
    assert_eq!(smoke_value(), "Hello World");
}

#[test]
fn read_back_checks() {
    let p = String::from("Hello World");
    assert!(check_read_back(&p, Ok(String::from("Hello World"))).is_ok());
    assert!(matches!(check_read_back(&p, Ok(String::from("Hello"))), Err(SequenceError::Mismatch)));
    match check_read_back(&p, Err(Error::with_cause("open k", "gone"))) {
        Err(SequenceError::Backend(e)) => assert_eq!(e.msg, "open k: gone"),
        _ => panic!("expected a backend error"),
    }
}

#[test]
fn tombstone_checks() {
    assert!(check_absent(Err(Error::with_cause("open k", "not found"))).is_ok());
    assert!(matches!(check_absent(Ok(String::from("x"))), Err(SequenceError::ReadAfterDelete)));
    assert!(check_done(Ok(())).is_ok());
    assert!(matches!(check_done(Err(Error::with_cause("delete k", "not found"))), Err(SequenceError::Backend(_))));
}

#[test]
fn edges_are_increasing() {
    let e = edges();
    assert_eq!(e.len(), EDGE_COUNT);
    assert_eq!(e[0], 32000);
    assert_eq!(e[1], 45254);
    assert_eq!(e[23], 92681900);
    for k in 1..e.len() {
        assert!(e[k - 1] < e[k]);
    }
}

#[test]
fn bucket_of_samples() {
    assert_eq!(bucket_index(0), 0);
    assert_eq!(bucket_index(32), 0);
    assert_eq!(bucket_index(33), 1);
    assert_eq!(bucket_index(45), 1);
    assert_eq!(bucket_index(46), 2);
    assert_eq!(bucket_index(1024), 10);
    assert_eq!(bucket_index(1025), 11);
    assert_eq!(bucket_index(92681), 23);
    assert_eq!(bucket_index(92682), 24);
    assert_eq!(bucket_index(u64::MAX), 24);
}

#[test]
fn bucket_labels() {
    assert_eq!(bucket_name(0), "32.00\u{b5}s");
    assert_eq!(bucket_name(1), "45.25\u{b5}s");
    assert_eq!(bucket_name(3), "90.51\u{b5}s");
    assert_eq!(bucket_name(9), "724.08\u{b5}s");
    assert_eq!(bucket_name(10), "1.02ms");
    assert_eq!(bucket_name(11), "1.45ms");
    assert_eq!(bucket_name(23), "92.68ms");
    assert_eq!(bucket_name(24), "+inf");
    assert_eq!(bucket_name(-1), "+inf");
}

#[test]
fn histogram_conservation() {
    let samples: Vec<u64> = vec![0, 10, 40, 45, 46, 500, 1000, 5000, 92681, 92682, 1_000_000, 77];
    let h = LatencyHistogram::from_samples(&samples);
    assert_eq!(h.count(), 12);
    let mut sum = 0;
    for k in 0..BUCKET_COUNT {
        sum += h.bucket_count(k);
    }
    assert_eq!(sum, 12);
    assert_eq!(h.bucket_count(0), 2);
    assert_eq!(h.bucket_count(1), 2);
    assert_eq!(h.bucket_count(24), 2);
    for k in 1..BUCKET_COUNT {
        assert!(h.cumulative_count(k - 1) <= h.cumulative_count(k));
    }
    assert_eq!(h.cumulative_count(BUCKET_COUNT - 1), 12);
}

#[test]
fn histogram_record() {
    let mut h = LatencyHistogram::new();
    assert_eq!(h.count(), 0);
    h.record(100);
    h.record(100);
    h.record(20);
    assert_eq!(h.count(), 3);
    assert_eq!(h.bucket_count(bucket_index(100)), 2);
    assert_eq!(h.bucket_count(0), 1);
}

#[test]
fn text_report_rows() {
    let samples: Vec<u64> = vec![10, 40, 50, 100, 100];
    let h = LatencyHistogram::from_samples(&samples);
    let rows = h.text_rows();
    assert_eq!(rows.len(), 12);
    assert_eq!(rows[0].edge, 0);
    assert_eq!(rows[0].delta, 1);
    assert_eq!(rows[0].dots, 20);
    assert_eq!(rows[1].edge, 2);
    assert_eq!(rows[1].delta, 2);
    assert_eq!(rows[1].dots, 40);
    assert_eq!(rows[2].edge, 4);
    assert_eq!(rows[2].delta, 2);
    assert_eq!(rows[11].delta, 0);
    let third: Vec<u64> = vec![10, 100, 100];
    assert_eq!(LatencyHistogram::from_samples(&third).text_rows()[0].dots, 34);
    let empty = LatencyHistogram::new();
    assert_eq!(empty.text_rows()[0].dots, 0);
}

#[test]
fn chart_bar_heights() {
    let samples: Vec<u64> = vec![10, 40, 40, 40];
    let h = LatencyHistogram::from_samples(&samples);
    let (bars, max_height) = h.chart_bars();
    assert_eq!(max_height, 7500);
    assert_eq!(bars.len(), EDGE_COUNT);
    assert_eq!(bars[0], 2666);
    assert_eq!(bars[1], 8000);
    assert_eq!(bars[2], 0);
    let over: Vec<u64> = vec![1_000_000];
    assert!(LatencyHistogram::from_samples(&over).chart_bars().0.iter().all(|b| *b == 0));
}

#[test]
fn pacing_spacing_exact() {
    let mut p = Pacer::new(4, 2, 1_000);
    assert_eq!(p.total(), 8);
    assert_eq!(p.interval_us(), 250_000);
    let mut last = None;
    for i in 0..8u64 {
        let due = 1_000 + i * 250_000;
        if let Some(prev) = last {
            assert_eq!(due - prev, 250_000);
        }
        assert_eq!(p.step(0), Dispatch::Wait(due));
        last = Some(due);
    }
    assert!(p.is_done());
    assert_eq!(p.missed(), 0);
}

#[test]
fn scenario_rate_ten_one_second() {
    let start = 5_000_000u64;
    let mut p = Pacer::new(10, 1, start);
    let mut client = LocalFsClient::new(3);
    let mut keys = HashSet::new();
    let mut scheduled = Vec::new();
    let mut now = start - 1;
    let mut writes = Vec::new();
    while !p.is_done() {
        match p.step(now) {
            Dispatch::Wait(us) => now += us,
            Dispatch::Late => {}
        }
        scheduled.push(now - start);
        assert!(keys.insert(client.gen_unique_key()));
        let value = smoke_value();
        assert!(check_read_back(&value, Ok(value.clone())).is_ok());
        assert!(check_absent(Err(Error::with_cause("open", "not found"))).is_ok());
        writes.push(120);
    }
    assert_eq!(scheduled, vec![0, 100_000, 200_000, 300_000, 400_000, 500_000, 600_000, 700_000, 800_000, 900_000]);
    assert_eq!(p.missed(), 0);
    let stats = CampaignStats::from_latencies(&writes, &writes, &writes);
    assert_eq!(stats.write.count(), 10);
}

#[test]
fn scenario_missed_deadline() {
    let mut p = Pacer::new(10, 1, 0);
    assert_eq!(p.step(0), Dispatch::Late);
    let before = p.missed();
    // The dispatch of the first sequence stalls past the second deadline.
    assert_eq!(p.step(150_000), Dispatch::Late);
    assert_eq!(p.missed(), before + 1);
    // The schedule does not move: the third is still due at 200 ms.
    assert_eq!(p.step(150_001), Dispatch::Wait(49_999));
    assert_eq!(p.missed(), before + 1);
}

#[test]
fn standard_config() {
    let c = Config::standard();
    assert_eq!(c.payload_len, 16 * 1024 * 1024);
    assert_eq!(c.rates, vec![10, 20, 50, 100, 200, 500, 1000]);
    assert_eq!(c.duration_s, 30);
}
