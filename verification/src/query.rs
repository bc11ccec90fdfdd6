//! Query-side validation: the interval code and limit of a kline query.

use vstd::prelude::*;

use crate::kline::{spec_interval_from_code, KLineInterval};

verus! {

/// Largest number of klines one query may return.
pub const MAX_QUERY_LIMIT: usize = 1000;

/// Limit applied when a query names none.
pub const DEFAULT_QUERY_LIMIT: usize = 100;

/// A query's parameters as they arrive from a caller: an interval code and
/// an optional limit.
#[derive(Debug)]
pub struct KLineQuery {
    pub interval: String,
    pub limit: Option<usize>,
}

/// A malformed query; surfaced to the caller immediately, no state is
/// touched.
#[derive(Clone, Copy, Debug, PartialEq, Eq, Structural)]
pub enum ValidationError {
    /// The interval code names no known interval.
    UnknownInterval,
}

/// The limit a query resolves to: the given one capped at 1000, or 100 when
/// none was given.
pub open spec fn spec_effective_limit(limit: Option<usize>) -> usize {
    match limit {
        Some(l) => if l < MAX_QUERY_LIMIT {
            l
        } else {
            MAX_QUERY_LIMIT
        },
        None => DEFAULT_QUERY_LIMIT,
    }
}

impl KLineQuery {
    /// Validates the query: an unknown interval code is a validation error;
    /// otherwise the named interval and the effective limit come back.
    pub fn resolve(&self) -> (r: Result<(KLineInterval, usize), ValidationError>)
        ensures
            match spec_interval_from_code(self.interval@) {
                Some(i) => r == Ok::<(KLineInterval, usize), ValidationError>(
                    (i, spec_effective_limit(self.limit)),
                ),
                None => r == Err::<(KLineInterval, usize), ValidationError>(
                    ValidationError::UnknownInterval,
                ),
            },
    {
        let interval = match KLineInterval::from_str(self.interval.as_str()) {
            Some(i) => i,
            None => {
                return Err(ValidationError::UnknownInterval);
            },
        };
        let limit = match self.limit {
            Some(l) => if l < MAX_QUERY_LIMIT {
                l
            } else {
                MAX_QUERY_LIMIT
            },
            None => DEFAULT_QUERY_LIMIT,
        };
        Ok((interval, limit))
    }
}

} // verus!
