//! Bounded per-key log of finalized klines: append-only, oldest first,
//! capacity-capped with oldest-first eviction.

use vstd::prelude::*;

use crate::kline::KLine;

verus! {

/// Capacity of one key's history of closed klines.
pub const MAX_HISTORY: usize = 1000;

/// The ordered log of closed klines of one (symbol, interval) key.
#[derive(Debug)]
pub struct History {
    entries: Vec<KLine>,
}

/// What one append leaves in the log: the new entry at the end, and the
/// oldest entry evicted first whenever the log was already full.
pub open spec fn spec_append(entries: Seq<KLine>, k: KLine) -> Seq<KLine> {
    if entries.len() < MAX_HISTORY {
        entries.push(k)
    } else {
        entries.drop_first().push(k)
    }
}

impl History {
    /// The stored klines, oldest first.
    pub closed spec fn view_seq(self) -> Seq<KLine> {
        self.entries@
    }

    /// The log never exceeds its capacity.
    pub closed spec fn wf(self) -> bool {
        self.entries@.len() <= MAX_HISTORY
    }

    /// An empty log.
    pub fn new() -> (r: History)
        ensures
            r.wf(),
            r.view_seq() =~= Seq::<KLine>::empty(),
    {
        History { entries: Vec::new() }
    }

    pub fn len(&self) -> (r: usize)
        ensures
            r == self.view_seq().len(),
    {
        self.entries.len()
    }

    /// Appends a closed kline, evicting the oldest entry when the log is
    /// full — eviction, never rejection.
    pub fn append(&mut self, k: KLine)
        requires
            old(self).wf(),
        ensures
            final(self).wf(),
            final(self).view_seq() == spec_append(old(self).view_seq(), k),
    {
        if self.entries.len() >= MAX_HISTORY {
            let ghost pre = self.entries@;
            self.entries.remove(0);
            proof {
                assert(self.entries@ =~= pre.drop_first());
            }
        }
        self.entries.push(k);
    }

    /// The `min(len, limit)` most recent entries, still oldest first. The
    /// returned copies equal the stored klines.
    pub fn query(&self, limit: usize) -> (r: Vec<KLine>)
        ensures
            r@ == self.view_seq().subrange(
                self.view_seq().len() - spec_query_count(self.view_seq().len() as int, limit as int),
                self.view_seq().len() as int,
            ),
            r@.len() == spec_query_count(self.view_seq().len() as int, limit as int),
    {
        let len = self.entries.len();
        let count = if limit < len {
            limit
        } else {
            len
        };
        let start = len - count;
        let mut out: Vec<KLine> = Vec::new();
        let mut i = start;
        while i < len
            invariant
                start <= i <= len,
                len == self.entries@.len(),
                out@ =~= self.entries@.subrange(start as int, i as int),
            decreases len - i,
        {
            let item = self.entries[i].clone();
            out.push(item);
            proof {
                assert(out@ =~= self.entries@.subrange(start as int, i as int + 1));
            }
            i = i + 1;
        }
        proof {
            assert(out@ =~= self.view_seq().subrange(
                self.view_seq().len() - spec_query_count(self.view_seq().len() as int, limit as int),
                self.view_seq().len() as int,
            ));
        }
        out
    }
}

/// How many entries a query with the given limit returns from a log of the
/// given length: `min(len, limit)`.
pub open spec fn spec_query_count(len: int, limit: int) -> int {
    if limit < len {
        limit
    } else {
        len
    }
}

} // verus!
