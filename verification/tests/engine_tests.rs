use data_service::decimal::Decimal;
use data_service::engine::UpdateError;
use data_service::kline::{KLine, KLineInterval};
use data_service::kline_service::KLineService;
use data_service::query::{KLineQuery, ValidationError};
use data_service::transaction::{TradeSide, Transaction};

const INTERVALS: [KLineInterval; 5] = [
    KLineInterval::OneSecond,
    KLineInterval::OneMinute,
    KLineInterval::FiveMinutes,
    KLineInterval::FifteenMinutes,
    KLineInterval::OneHour,
];

fn trade(id: u128, price: Decimal, volume: Decimal, timestamp_ms: i64) -> Transaction {
    Transaction::from_parts(
        id,
        "DOGE".to_string(),
        price,
        volume,
        timestamp_ms,
        TradeSide::Buy,
    )
}

fn same_kline(a: &KLine, b: &KLine) -> bool {
    a.symbol == b.symbol
        && a.interval == b.interval
        && a.open_time == b.open_time
        && a.close_time == b.close_time
        && a.open == b.open
        && a.high == b.high
        && a.low == b.low
        && a.close == b.close
        && a.volume == b.volume
        && a.is_closed == b.is_closed
}

// Single transaction: immediately after ingest, every interval's open
// bucket carries open = high = low = close = the trade price and its
// volume, and is not closed.
#[test]
fn single_trade_seeds_every_interval() {
    let mut service = KLineService::new();
    let t = trade(1, Decimal::new(100, 0), Decimal::new(1, 0), 4_000_500);
    service.process_transaction(&t).expect("ingest failed");
    for interval in INTERVALS {
        let current = service
            .current_kline("DOGE", interval)
            .expect("missing bucket");
        assert_eq!(current.open, Decimal::new(100, 0));
        assert_eq!(current.high, Decimal::new(100, 0));
        assert_eq!(current.low, Decimal::new(100, 0));
        assert_eq!(current.close, Decimal::new(100, 0));
        assert_eq!(current.volume, Decimal::new(1, 0));
        assert!(!current.is_closed);
        assert_eq!(
            current.open_time % (interval.as_seconds() * 1000),
            0,
            "open time must be bucket aligned"
        );
    }
}

// Rollover on the 1s interval: trades at 10.5s and 11.2s produce exactly
// one closed kline (open time 10s, close = the first price) followed by a
// fresh open kline (open time 11s, open = the second price).
#[test]
fn rollover_closes_bucket_and_reseeds() {
    let mut service = KLineService::new();
    let p1 = Decimal::new(100, 0);
    let p2 = Decimal::new(101, 0);
    service
        .process_transaction(&trade(1, p1, Decimal::new(1, 0), 10_500))
        .expect("ingest failed");
    service
        .process_transaction(&trade(2, p2, Decimal::new(2, 0), 11_200))
        .expect("ingest failed");

    let closed = service.get_klines("DOGE", KLineInterval::OneSecond, 10);
    assert_eq!(closed.len(), 1);
    assert_eq!(closed[0].open_time, 10_000);
    assert_eq!(closed[0].close_time, 11_000);
    assert_eq!(closed[0].close, p1);
    assert_eq!(closed[0].open, p1);
    assert!(closed[0].is_closed);

    let current = service
        .current_kline("DOGE", KLineInterval::OneSecond)
        .expect("missing bucket");
    assert_eq!(current.open_time, 11_000);
    assert_eq!(current.open, p2);
    assert_eq!(current.close, p2);
    assert_eq!(current.volume, Decimal::new(2, 0));
    assert!(!current.is_closed);

    // The longer intervals saw no rollover: both trades share their bucket.
    let minute = service
        .current_kline("DOGE", KLineInterval::OneMinute)
        .expect("missing bucket");
    assert_eq!(minute.volume, Decimal::new(3, 0));
    assert!(service
        .get_klines("DOGE", KLineInterval::OneMinute, 10)
        .is_empty());
}

// Non-decreasing timestamps: the history is strictly ordered by open time,
// holds no duplicate open times, and every open time is a multiple of the
// interval's duration.
#[test]
fn history_is_strictly_ordered_and_aligned() {
    let mut service = KLineService::new();
    let stamps = [0, 500, 1_000, 1_000, 2_500, 3_000, 3_100];
    for (n, ts) in stamps.iter().enumerate() {
        service
            .process_transaction(&trade(n as u128, Decimal::new(100, 0), Decimal::new(1, 0), *ts))
            .expect("ingest failed");
    }
    let closed = service.get_klines("DOGE", KLineInterval::OneSecond, 1000);
    assert!(!closed.is_empty());
    for w in closed.windows(2) {
        assert!(w[0].open_time < w[1].open_time);
    }
    for k in &closed {
        assert_eq!(k.open_time % 1000, 0);
        assert!(k.is_closed);
    }
}

// Read idempotence: two queries with no ingestion in between return
// identical results.
#[test]
fn repeated_queries_are_identical() {
    let mut service = KLineService::new();
    for n in 0..5u32 {
        service
            .process_transaction(&trade(
                n as u128,
                Decimal::new(100 + n as i64, 0),
                Decimal::new(1, 0),
                n as i64 * 1_000,
            ))
            .expect("ingest failed");
    }
    let first = service.get_klines("DOGE", KLineInterval::OneSecond, 3);
    let second = service.get_klines("DOGE", KLineInterval::OneSecond, 3);
    assert_eq!(first.len(), second.len());
    for (a, b) in first.iter().zip(second.iter()) {
        assert!(same_kline(a, b));
    }
}

// Eviction: closing 1001 buckets for one key leaves exactly 1000 history
// entries, the oldest-of-all-time entry dropped first.
#[test]
fn eviction_drops_oldest_beyond_capacity() {
    let mut service = KLineService::new();
    // 1002 trades, one per second: trade n closes bucket n-1, so buckets
    // 0..=1000 close — 1001 closed buckets for the 1s interval.
    for n in 0..=1001i64 {
        service
            .process_transaction(&trade(n as u128, Decimal::new(100, 0), Decimal::new(1, 0), n * 1_000))
            .expect("ingest failed");
    }
    let closed = service.get_klines("DOGE", KLineInterval::OneSecond, 1000);
    assert_eq!(closed.len(), 1000);
    assert_eq!(closed[0].open_time, 1_000, "bucket at 0s must be evicted");
    assert_eq!(closed[999].open_time, 1_000_000);

    // The default limit returns the 100 most recent, still oldest first.
    let query = KLineQuery {
        interval: "1s".to_string(),
        limit: None,
    };
    let recent = service
        .get_klines_query("DOGE", &query)
        .expect("query failed");
    assert_eq!(recent.len(), 100);
    assert_eq!(recent[0].open_time, 901_000);
    assert_eq!(recent[99].open_time, 1_000_000);
}

// Unknown-key query returns an empty sequence, not an error; an unknown
// interval code is a validation error.
#[test]
fn unknown_key_and_unknown_interval() {
    let mut service = KLineService::new();
    service
        .process_transaction(&trade(1, Decimal::new(100, 0), Decimal::new(1, 0), 1_000))
        .expect("ingest failed");
    assert!(service
        .get_klines("SHIB", KLineInterval::OneSecond, 10)
        .is_empty());
    assert!(service.current_kline("SHIB", KLineInterval::OneSecond).is_none());

    let bad = KLineQuery {
        interval: "2x".to_string(),
        limit: Some(10),
    };
    match service.get_klines_query("DOGE", &bad) {
        Err(e) => assert_eq!(e, ValidationError::UnknownInterval),
        Ok(_) => panic!("unknown interval code must be rejected"),
    }
    let clamped = KLineQuery {
        interval: "1s".to_string(),
        limit: Some(5_000),
    };
    assert!(clamped.resolve() == Ok((KLineInterval::OneSecond, 1_000)));
}

// Out-of-order arrival: a trade older than the current bucket's start is
// folded into the existing bucket like any other — it is not rejected and
// opens no bucket of its own.
#[test]
fn out_of_order_trade_folds_into_current_bucket() {
    let mut service = KLineService::new();
    service
        .process_transaction(&trade(1, Decimal::new(100, 0), Decimal::new(1, 0), 5_000))
        .expect("ingest failed");
    service
        .process_transaction(&trade(2, Decimal::new(50, 0), Decimal::new(1, 0), 5_500))
        .expect("ingest failed");
    // Earlier than the bucket's open time, but before its close time.
    service
        .process_transaction(&trade(3, Decimal::new(200, 0), Decimal::new(1, 0), 4_000))
        .expect("ingest failed");

    let current = service
        .current_kline("DOGE", KLineInterval::OneSecond)
        .expect("missing bucket");
    assert_eq!(current.open_time, 5_000);
    assert_eq!(current.high, Decimal::new(200, 0));
    assert_eq!(current.low, Decimal::new(50, 0));
    assert_eq!(current.close, Decimal::new(200, 0));
    assert_eq!(current.volume, Decimal::new(3, 0));
    assert!(service
        .get_klines("DOGE", KLineInterval::OneSecond, 10)
        .is_empty());
}

// A timestamp outside the bucket-math range fails every interval with a
// clock anomaly and changes nothing.
#[test]
fn clock_anomaly_fails_all_intervals() {
    let mut service = KLineService::new();
    let err = service
        .process_transaction(&trade(1, Decimal::new(100, 0), Decimal::new(1, 0), -5))
        .expect_err("negative timestamp must be rejected");
    assert_eq!(err.failures.len(), 5);
    for (interval, e) in err.failures.iter() {
        assert!(INTERVALS.contains(interval));
        assert_eq!(*e, UpdateError::ClockAnomaly);
    }
    assert!(service.current_kline("DOGE", KLineInterval::OneSecond).is_none());
}

// Volume overflow fails only the affected intervals; an interval whose
// bucket rolled over (resetting the volume) is still processed.
#[test]
fn overflow_fails_only_affected_intervals() {
    let mut service = KLineService::new();
    let huge = Decimal { units: i128::MAX };
    service
        .process_transaction(&trade(1, Decimal::new(100, 0), huge, 0))
        .expect("ingest failed");
    let err = service
        .process_transaction(&trade(2, Decimal::new(100, 0), Decimal::new(1, 0), 1_000))
        .expect_err("the longer intervals must overflow");
    // The 1s bucket rolled over, so its volume restarted and it succeeded;
    // the four longer intervals would overflow and were left untouched.
    assert_eq!(err.failures.len(), 4);
    for (interval, e) in err.failures.iter() {
        assert_ne!(*interval, KLineInterval::OneSecond);
        assert_eq!(*e, UpdateError::VolumeOverflow);
    }
    let closed = service.get_klines("DOGE", KLineInterval::OneSecond, 10);
    assert_eq!(closed.len(), 1);
    let minute = service
        .current_kline("DOGE", KLineInterval::OneMinute)
        .expect("missing bucket");
    assert_eq!(minute.volume, huge);
}
