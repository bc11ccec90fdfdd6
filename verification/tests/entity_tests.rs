use data_service::decimal::Decimal;
use data_service::kline::{KLine, KLineInterval};
use data_service::transaction::{TradeSide, Transaction};

#[test]
fn interval_durations() {
    assert_eq!(KLineInterval::OneSecond.as_seconds(), 1);
    assert_eq!(KLineInterval::OneMinute.as_seconds(), 60);
    assert_eq!(KLineInterval::FiveMinutes.as_seconds(), 300);
    assert_eq!(KLineInterval::FifteenMinutes.as_seconds(), 900);
    assert_eq!(KLineInterval::OneHour.as_seconds(), 3600);
    assert_eq!(KLineInterval::OneMinute.as_millis(), 60_000);
}

#[test]
fn interval_codes_parse() {
    assert_eq!(KLineInterval::from_str("1s"), Some(KLineInterval::OneSecond));
    assert_eq!(KLineInterval::from_str("1m"), Some(KLineInterval::OneMinute));
    assert_eq!(KLineInterval::from_str("5m"), Some(KLineInterval::FiveMinutes));
    assert_eq!(
        KLineInterval::from_str("15m"),
        Some(KLineInterval::FifteenMinutes)
    );
    assert_eq!(KLineInterval::from_str("1h"), Some(KLineInterval::OneHour));
    assert_eq!(KLineInterval::from_str("2s"), None);
    assert_eq!(KLineInterval::from_str(""), None);
    assert_eq!(KLineInterval::from_str("1S"), None);
    assert_eq!(KLineInterval::from_str("1m "), None);
}

#[test]
fn decimal_fixed_point_values() {
    assert_eq!(Decimal::new(100, 0).units, 100_000_000_000);
    assert_eq!(Decimal::new(1205, 2).units, 12_050_000_000);
    assert_eq!(Decimal::new(-3, 0).units, -3_000_000_000);
    assert_eq!(Decimal::new(1, 9).units, 1);
    assert_eq!(Decimal::zero().units, 0);
    assert_eq!(Decimal::new(100, 0), Decimal::new(10_000, 2));
}

#[test]
fn decimal_comparisons_and_sum() {
    let a = Decimal::new(3, 0);
    let b = Decimal::new(25, 1);
    assert_eq!(a.max(b), a);
    assert_eq!(a.min(b), b);
    assert_eq!(a.checked_add(b), Some(Decimal::new(55, 1)));
    let huge = Decimal { units: i128::MAX };
    assert_eq!(huge.checked_add(Decimal::new(1, 9)), None);
}

#[test]
fn transaction_total_value() {
    let t = Transaction::from_parts(
        7,
        "DOGE".to_string(),
        Decimal::new(25, 1),
        Decimal::new(4, 0),
        1_000,
        TradeSide::Sell,
    );
    assert_eq!(t.total_value(), Decimal::new(10, 0));
}

#[test]
fn kline_new_and_update() {
    let mut k = KLine::new(
        "DOGE".to_string(),
        KLineInterval::OneMinute,
        120_000,
        Decimal::new(100, 0),
    );
    assert_eq!(k.open_time, 120_000);
    assert_eq!(k.close_time, 180_000);
    assert_eq!(k.open, Decimal::new(100, 0));
    assert_eq!(k.high, Decimal::new(100, 0));
    assert_eq!(k.low, Decimal::new(100, 0));
    assert_eq!(k.close, Decimal::new(100, 0));
    assert_eq!(k.volume, Decimal::zero());
    assert!(!k.is_closed);

    k.update(Decimal::new(101, 0), Decimal::new(2, 0));
    assert_eq!(k.high, Decimal::new(101, 0));
    assert_eq!(k.low, Decimal::new(100, 0));
    assert_eq!(k.close, Decimal::new(101, 0));
    assert_eq!(k.volume, Decimal::new(2, 0));

    k.update(Decimal::new(99, 0), Decimal::new(1, 0));
    assert_eq!(k.high, Decimal::new(101, 0));
    assert_eq!(k.low, Decimal::new(99, 0));
    assert_eq!(k.close, Decimal::new(99, 0));
    assert_eq!(k.volume, Decimal::new(3, 0));
    assert_eq!(k.open, Decimal::new(100, 0));

    k.close();
    assert!(k.is_closed);
    assert_eq!(k.close_time, 180_000);
}
