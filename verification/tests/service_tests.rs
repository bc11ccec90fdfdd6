use data_service::data_service::DataService;
use data_service::decimal::Decimal;
use data_service::hub::RecvOutcome;
use data_service::kline::KLineInterval;
use data_service::kline_service::KLineService;
use data_service::transaction::{TradeSide, Transaction};

#[test]
fn test_data_service() {
    let mut service = DataService::new();
    let symbol = "DOGE".to_string();

    let transaction = Transaction::new(
        symbol.clone(),
        Decimal::new(100, 0),
        Decimal::new(1, 0),
        TradeSide::Buy,
    );

    let transaction_sub = service.subscribe_transactions();
    let kline_sub = service.subscribe();

    service
        .process_transaction(&transaction)
        .expect("ingest failed");

    match service.recv_transaction(transaction_sub) {
        RecvOutcome::Msg(received_transaction) => {
            assert_eq!(received_transaction.symbol, symbol);
            assert_eq!(received_transaction.price, Decimal::new(100, 0));
            assert_eq!(received_transaction.volume, Decimal::new(1, 0));
            assert_eq!(received_transaction.side, TradeSide::Buy);
        }
        _ => panic!("Failed to receive transaction"),
    }

    let mut received_intervals = Vec::new();

    // We expect 5 intervals (1s, 1m, 5m, 15m, 1h)
    for _ in 0..5 {
        match service.recv_kline(kline_sub) {
            RecvOutcome::Msg(kline) => {
                assert_eq!(kline.symbol, symbol);
                assert_eq!(kline.open, Decimal::new(100, 0));
                assert_eq!(kline.high, Decimal::new(100, 0));
                assert_eq!(kline.low, Decimal::new(100, 0));
                assert_eq!(kline.close, Decimal::new(100, 0));
                assert_eq!(kline.volume, Decimal::new(1, 0));
                received_intervals.push(kline.interval);
            }
            _ => panic!("Failed to receive kline"),
        }
    }

    assert!(received_intervals.contains(&KLineInterval::OneSecond));
    assert!(received_intervals.contains(&KLineInterval::OneMinute));
    assert!(received_intervals.contains(&KLineInterval::FiveMinutes));
    assert!(received_intervals.contains(&KLineInterval::FifteenMinutes));
    assert!(received_intervals.contains(&KLineInterval::OneHour));
}

#[test]
fn test_kline_service() {
    let mut service = KLineService::new();
    let symbol = "DOGE".to_string();

    // Create a test transaction
    let transaction = Transaction::new(
        symbol.clone(),
        Decimal::new(100, 0),
        Decimal::new(1, 0),
        TradeSide::Buy,
    );

    // Process the transaction
    service
        .process_transaction(&transaction)
        .expect("ingest failed");

    // A single transaction opens a bucket but closes none, so the history
    // is still empty and the open bucket carries the trade.
    let klines = service.get_klines(&symbol, KLineInterval::OneMinute, 1);
    assert!(klines.is_empty());

    let current = service
        .current_kline(&symbol, KLineInterval::OneMinute)
        .expect("current bucket missing");
    assert_eq!(current.close, Decimal::new(100, 0));
    assert_eq!(current.volume, Decimal::new(1, 0));
    assert!(!current.is_closed);
}
