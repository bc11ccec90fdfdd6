//! Kline entities: the closed set of bucketing intervals and the OHLCV
//! aggregate over one time bucket of one symbol.
//!
//! Timestamps are milliseconds since the Unix epoch. A bucket's `open_time`
//! is always an exact multiple of the interval's duration, and `close_time`
//! is `open_time` plus that duration.

use vstd::prelude::*;

use crate::decimal::{spec_max, spec_min, Decimal};

verus! {

/// The closed set of supported bucket durations.
#[derive(Clone, Copy, Debug, PartialEq, Eq, Hash, Structural)]
pub enum KLineInterval {
    OneSecond,
    OneMinute,
    FiveMinutes,
    FifteenMinutes,
    OneHour,
}

/// Duration of the interval in whole seconds.
pub open spec fn spec_interval_seconds(i: KLineInterval) -> int {
    match i {
        KLineInterval::OneSecond => 1,
        KLineInterval::OneMinute => 60,
        KLineInterval::FiveMinutes => 300,
        KLineInterval::FifteenMinutes => 900,
        KLineInterval::OneHour => 3600,
    }
}

/// Duration of the interval in milliseconds.
pub open spec fn spec_interval_ms(i: KLineInterval) -> int {
    spec_interval_seconds(i) * 1000
}

/// The query code that names the interval.
pub open spec fn spec_interval_code(i: KLineInterval) -> Seq<char> {
    match i {
        KLineInterval::OneSecond => seq!['1', 's'],
        KLineInterval::OneMinute => seq!['1', 'm'],
        KLineInterval::FiveMinutes => seq!['5', 'm'],
        KLineInterval::FifteenMinutes => seq!['1', '5', 'm'],
        KLineInterval::OneHour => seq!['1', 'h'],
    }
}

/// The interval named by a query code, or `None` for an unknown code.
pub open spec fn spec_interval_from_code(s: Seq<char>) -> Option<KLineInterval> {
    if s == spec_interval_code(KLineInterval::OneSecond) {
        Some(KLineInterval::OneSecond)
    } else if s == spec_interval_code(KLineInterval::OneMinute) {
        Some(KLineInterval::OneMinute)
    } else if s == spec_interval_code(KLineInterval::FiveMinutes) {
        Some(KLineInterval::FiveMinutes)
    } else if s == spec_interval_code(KLineInterval::FifteenMinutes) {
        Some(KLineInterval::FifteenMinutes)
    } else if s == spec_interval_code(KLineInterval::OneHour) {
        Some(KLineInterval::OneHour)
    } else {
        None
    }
}

impl KLineInterval {
    /// Duration of the interval in whole seconds.
    pub fn as_seconds(&self) -> (r: i64)
        ensures
            r == spec_interval_seconds(*self),
            1 <= r <= 3600,
    {
        match self {
            KLineInterval::OneSecond => 1,
            KLineInterval::OneMinute => 60,
            KLineInterval::FiveMinutes => 300,
            KLineInterval::FifteenMinutes => 900,
            KLineInterval::OneHour => 3600,
        }
    }

    /// Duration of the interval in milliseconds.
    pub fn as_millis(&self) -> (r: i64)
        ensures
            r == spec_interval_ms(*self),
            1000 <= r <= 3_600_000,
    {
        self.as_seconds() * 1000
    }

    /// Parses a query code (`"1s"`, `"1m"`, `"5m"`, `"15m"`, `"1h"`) into the
    /// interval it names; any other string yields `None`.
    pub fn from_str(s: &str) -> (r: Option<KLineInterval>)
        ensures
            r == spec_interval_from_code(s@),
    {
        proof {
            reveal_strlit("1s");
            reveal_strlit("1m");
            reveal_strlit("5m");
            reveal_strlit("15m");
            reveal_strlit("1h");
            assert("1s"@ =~= spec_interval_code(KLineInterval::OneSecond));
            assert("1m"@ =~= spec_interval_code(KLineInterval::OneMinute));
            assert("5m"@ =~= spec_interval_code(KLineInterval::FiveMinutes));
            assert("15m"@ =~= spec_interval_code(KLineInterval::FifteenMinutes));
            assert("1h"@ =~= spec_interval_code(KLineInterval::OneHour));
        }
        let owned = s.to_owned();
        if owned == "1s".to_owned() {
            Some(KLineInterval::OneSecond)
        } else if owned == "1m".to_owned() {
            Some(KLineInterval::OneMinute)
        } else if owned == "5m".to_owned() {
            Some(KLineInterval::FiveMinutes)
        } else if owned == "15m".to_owned() {
            Some(KLineInterval::FifteenMinutes)
        } else if owned == "1h".to_owned() {
            Some(KLineInterval::OneHour)
        } else {
            None
        }
    }
}

/// One OHLCV aggregate over one time bucket of one symbol.
#[derive(Debug)]
pub struct KLine {
    pub symbol: String,
    pub interval: KLineInterval,
    /// Bucket start, inclusive, in ms since the epoch; an exact multiple of
    /// the interval's duration.
    pub open_time: i64,
    /// Bucket end, exclusive: `open_time` plus the interval's duration.
    pub close_time: i64,
    pub open: Decimal,
    pub high: Decimal,
    pub low: Decimal,
    pub close: Decimal,
    pub volume: Decimal,
    pub is_closed: bool,
}

impl KLine {
    /// Well-formedness: the OHLC ordering `low <= {open, close} <= high` and
    /// the bucket alignment of `open_time` / `close_time`.
    pub open spec fn inv(self) -> bool {
        &&& self.low.units <= self.open.units <= self.high.units
        &&& self.low.units <= self.close.units <= self.high.units
        &&& 0 <= self.open_time
        &&& self.close_time == self.open_time + spec_interval_ms(self.interval)
        &&& (self.open_time as int) % spec_interval_ms(self.interval) == 0
    }

    /// A freshly seeded open bucket: all four OHLC fields start at the
    /// seeding price and no volume has been applied yet.
    pub fn new(symbol: String, interval: KLineInterval, open_time: i64, price: Decimal) -> (r:
        KLine)
        requires
            0 <= open_time,
            (open_time as int) % spec_interval_ms(interval) == 0,
            open_time + spec_interval_ms(interval) <= i64::MAX,
        ensures
            r == (KLine {
                symbol,
                interval,
                open_time,
                close_time: (open_time + spec_interval_ms(interval)) as i64,
                open: price,
                high: price,
                low: price,
                close: price,
                volume: Decimal { units: 0 },
                is_closed: false,
            }),
            r.inv(),
    {
        let close_time = open_time + interval.as_millis();
        KLine {
            symbol,
            interval,
            open_time,
            close_time,
            open: price,
            high: price,
            low: price,
            close: price,
            volume: Decimal::zero(),
            is_closed: false,
        }
    }

    /// Folds one trade into the bucket: raises `high`, lowers `low`, moves
    /// `close` to the trade price and accumulates the trade volume.
    pub fn update(&mut self, price: Decimal, volume: Decimal)
        requires
            i128::MIN <= old(self).volume.units + volume.units <= i128::MAX,
        ensures
            *final(self) == (KLine {
                high: spec_max(old(self).high, price),
                low: spec_min(old(self).low, price),
                close: price,
                volume: Decimal { units: (old(self).volume.units + volume.units) as i128 },
                ..*old(self)
            }),
            old(self).inv() ==> final(self).inv(),
    {
        self.high = self.high.max(price);
        self.low = self.low.min(price);
        self.close = price;
        if let Some(v) = self.volume.checked_add(volume) {
            self.volume = v;
        } else {
            proof {
                assert(false);
            }
        }
    }

    /// Marks the bucket finalized; no other field moves.
    pub fn close(&mut self)
        ensures
            *final(self) == (KLine { is_closed: true, ..*old(self) }),
            old(self).inv() ==> final(self).inv(),
    {
        self.is_closed = true;
    }
}

impl Clone for KLine {
    /// An exact copy: every field of the clone equals the original's.
    fn clone(&self) -> (r: Self)
        ensures
            r == *self,
    {
        KLine {
            symbol: self.symbol.clone(),
            interval: self.interval,
            open_time: self.open_time,
            close_time: self.close_time,
            open: self.open,
            high: self.high,
            low: self.low,
            close: self.close,
            volume: self.volume,
            is_closed: self.is_closed,
        }
    }
}

} // verus!
