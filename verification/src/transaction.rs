//! Trade events: one transaction is a single trade (price, volume,
//! timestamp, side) for one symbol, identified by a random 128-bit id.

use vstd::prelude::*;

use crate::decimal::{Decimal, UNITS_PER_WHOLE};

verus! {

/// Which side of the book the trade hit.
#[derive(Clone, Copy, Debug, PartialEq, Eq, Structural)]
pub enum TradeSide {
    Buy,
    Sell,
}

/// One trade event. Immutable once created; the engine only reads it.
#[derive(Debug)]
pub struct Transaction {
    /// Random 128-bit identifier.
    pub id: u128,
    pub symbol: String,
    pub price: Decimal,
    pub volume: Decimal,
    /// Milliseconds since the Unix epoch; monotonicity is not assumed.
    pub timestamp: i64,
    pub side: TradeSide,
}

/// Relies on uuid::Uuid::new_v4 and Uuid::as_u128 for a freshly drawn random
/// identifier. A random value admits no promise, so there is no contract.
#[verifier::external_body]
fn fresh_id() -> u128 {
    uuid::Uuid::new_v4().as_u128()
}

/// Relies on chrono::Utc::now and DateTime::timestamp_millis for the current
/// wall clock in ms since the epoch. The clock admits no promise, so there is
/// no contract.
#[verifier::external_body]
fn current_time_ms() -> i64 {
    chrono::Utc::now().timestamp_millis()
}

impl Transaction {
    /// A trade happening now, under a fresh random id. The id and timestamp
    /// come from the machine, so nothing is promised about them.
    pub fn new(symbol: String, price: Decimal, volume: Decimal, side: TradeSide) -> (r:
        Transaction)
        ensures
            r.symbol == symbol,
            r.price == price,
            r.volume == volume,
            r.side == side,
    {
        Transaction { id: fresh_id(), symbol, price, volume, timestamp: current_time_ms(), side }
    }

    /// A trade with every field spelled out, for replaying known event
    /// sequences.
    pub fn from_parts(
        id: u128,
        symbol: String,
        price: Decimal,
        volume: Decimal,
        timestamp: i64,
        side: TradeSide,
    ) -> (r: Transaction)
        ensures
            r == (Transaction { id, symbol, price, volume, timestamp, side }),
    {
        Transaction { id, symbol, price, volume, timestamp, side }
    }

    /// `price * volume`, exact up to the fixed-point scale: the result is the
    /// mathematical product with its fractional part truncated to nine
    /// digits.
    pub fn total_value(&self) -> (r: Decimal)
        requires
            0 <= self.price.units,
            0 <= self.volume.units,
            self.price.units * self.volume.units <= i128::MAX,
        ensures
            r.units == (self.price.units * self.volume.units) / (UNITS_PER_WHOLE as int),
    {
        let p = self.price.units as u128;
        let v = self.volume.units as u128;
        proof {
            assert(p * v == self.price.units * self.volume.units) by (nonlinear_arith)
                requires
                    0 <= self.price.units,
                    0 <= self.volume.units,
                    p == self.price.units,
                    v == self.volume.units,
            ;
        }
        let prod = p * v;
        let scaled = prod / 1_000_000_000u128;
        proof {
            assert(scaled <= prod);
        }
        Decimal { units: scaled as i128 }
    }
}

impl Clone for Transaction {
    /// An exact copy: every field of the clone equals the original's.
    fn clone(&self) -> (r: Self)
        ensures
            r == *self,
    {
        Transaction {
            id: self.id,
            symbol: self.symbol.clone(),
            price: self.price,
            volume: self.volume,
            timestamp: self.timestamp,
            side: self.side,
        }
    }
}

} // verus!
