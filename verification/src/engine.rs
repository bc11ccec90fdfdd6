//! The aggregation engine: per-(symbol, interval) bucketing state machine,
//! bounded history retention, and publication of bucket updates.

use vstd::prelude::*;

use vstd::arithmetic::div_mod::{lemma_fundamental_div_mod, lemma_mod_multiples_basic};

use crate::decimal::{spec_max, spec_min, Decimal};
use crate::history::{spec_append, History};
use crate::hub::{
    exact_clone, hub_queues_advanced, spec_len_after, Hub, RecvOutcome, Subscription,
};
use crate::kline::{spec_interval_ms, spec_interval_seconds, KLine, KLineInterval};
use crate::transaction::Transaction;

verus! {

/// Upper bound, in ms since the epoch, on timestamps the bucket arithmetic
/// accepts: beyond it the close-time computation would leave `i64`.
pub const MAX_TIMESTAMP_MS: i64 = 4_000_000_000_000_000_000;

/// The bucket-math range: timestamps outside it raise a clock anomaly for
/// the affected interval whenever a bucket boundary must be computed.
pub open spec fn valid_timestamp(ts: int) -> bool {
    0 <= ts <= MAX_TIMESTAMP_MS
}

/// Start of the bucket containing the timestamp:
/// `floor(ts_seconds / interval_seconds) * interval_seconds`, in ms.
pub open spec fn spec_bucket_start_ms(ts: int, i: KLineInterval) -> int {
    ((ts / 1000) / spec_interval_seconds(i)) * spec_interval_seconds(i) * 1000
}

/// Why one interval's update failed; other intervals are unaffected.
#[derive(Clone, Copy, Debug, PartialEq, Eq, Structural)]
pub enum UpdateError {
    /// The timestamp lies outside the representable bucket-math range and a
    /// bucket boundary had to be computed from it.
    ClockAnomaly,
    /// Folding the trade in would push the bucket's accumulated volume out
    /// of the representable fixed-point range; the bucket is left as it was.
    VolumeOverflow,
}

/// Which intervals an ingest call could not process, and why; every other
/// interval was still processed.
#[derive(Debug)]
pub struct ProcessError {
    pub failures: Vec<(KLineInterval, UpdateError)>,
}

/// The bucket start lies at or before the timestamp, less than one interval
/// behind it, and on an exact multiple of the interval's duration.
pub proof fn lemma_bucket_bounds(ts: int, isecs: int)
    requires
        0 <= ts,
        1 <= isecs,
    ensures
        0 <= ((ts / 1000) / isecs) * isecs * 1000 <= ts,
        ts < ((ts / 1000) / isecs) * isecs * 1000 + isecs * 1000,
        (((ts / 1000) / isecs) * isecs * 1000) % (isecs * 1000) == 0,
{
    let s = ts / 1000;
    let q = s / isecs;
    lemma_fundamental_div_mod(ts, 1000);
    lemma_fundamental_div_mod(s, isecs);
    assert(0 <= q * isecs * 1000 <= ts && ts < q * isecs * 1000 + isecs * 1000)
        by (nonlinear_arith)
        requires
            ts == 1000 * s + ts % 1000,
            s == isecs * q + s % isecs,
            0 <= ts % 1000 < 1000,
            0 <= s % isecs < isecs,
            1 <= isecs,
            0 <= ts,
    ;
    assert(q * isecs * 1000 == q * (isecs * 1000)) by (nonlinear_arith);
    lemma_mod_multiples_basic(q, isecs * 1000);
}

/// Computes the aligned start of the bucket containing `ts`.
pub fn bucket_start_ms(ts: i64, interval: KLineInterval) -> (r: i64)
    requires
        valid_timestamp(ts as int),
    ensures
        r == spec_bucket_start_ms(ts as int, interval),
        0 <= r <= ts,
        ts < r + spec_interval_ms(interval),
        (r as int) % spec_interval_ms(interval) == 0,
        r + spec_interval_ms(interval) <= i64::MAX,
{
    proof {
        lemma_bucket_bounds(ts as int, spec_interval_seconds(interval));
    }
    let tu = ts as u64;
    let s = tu / 1000;
    let isecs = interval.as_seconds() as u64;
    let q = s / isecs;
    let b = q * isecs;
    let bms = b * 1000;
    bms as i64
}

/// The current bucket after folding in the trade (spec mirror of
/// `KLine::update`).
pub open spec fn spec_fold(k: KLine, t: Transaction) -> KLine {
    KLine {
        high: spec_max(k.high, t.price),
        low: spec_min(k.low, t.price),
        close: t.price,
        volume: Decimal { units: (k.volume.units + t.volume.units) as i128 },
        ..k
    }
}

/// A fresh bucket seeded from the trade, before its volume is applied.
pub open spec fn spec_seed(symbol: String, i: KLineInterval, t: Transaction) -> KLine {
    KLine {
        symbol: symbol,
        interval: i,
        open_time: spec_bucket_start_ms(t.timestamp as int, i) as i64,
        close_time: (spec_bucket_start_ms(t.timestamp as int, i) + spec_interval_ms(i)) as i64,
        open: t.price,
        high: t.price,
        low: t.price,
        close: t.price,
        volume: Decimal { units: 0 },
        is_closed: false,
    }
}

/// Whether the trade falls at or past the current bucket's end, so the
/// bucket must be finalized and a fresh one seeded.
pub open spec fn spec_rolls_over(cur: KLine, t: Transaction) -> bool {
    t.timestamp >= cur.close_time
}

/// Why the per-key step would fail for a key that already has a current
/// bucket, or `None` when it succeeds. A timestamp is only rejected when a
/// bucket boundary must be computed from it: an out-of-order trade that
/// still lands before the current bucket's end is folded in like any other.
pub open spec fn spec_key_error(cur: KLine, t: Transaction) -> Option<UpdateError> {
    if spec_rolls_over(cur, t) {
        if !valid_timestamp(t.timestamp as int) {
            Some(UpdateError::ClockAnomaly)
        } else {
            None
        }
    } else {
        if cur.volume.units + t.volume.units > i128::MAX || cur.volume.units + t.volume.units
            < i128::MIN {
            Some(UpdateError::VolumeOverflow)
        } else {
            None
        }
    }
}

/// The key's current bucket after a successful step.
pub open spec fn spec_step_current(cur: KLine, t: Transaction) -> KLine {
    if spec_rolls_over(cur, t) {
        spec_fold(spec_seed(cur.symbol, cur.interval, t), t)
    } else {
        spec_fold(cur, t)
    }
}

/// The finalized copy a successful step emits, if the bucket rolled over.
pub open spec fn spec_step_closed(cur: KLine, t: Transaction) -> Option<KLine> {
    if spec_rolls_over(cur, t) {
        Some(KLine { is_closed: true, ..cur })
    } else {
        None
    }
}

/// The key's history after a successful step.
pub open spec fn spec_step_history(cur: KLine, hist: Seq<KLine>, t: Transaction) -> Seq<KLine> {
    match spec_step_closed(cur, t) {
        Some(c) => spec_append(hist, c),
        None => hist,
    }
}

/// What a successful per-key step hands back for publication: the finalized
/// bucket, if any, then a snapshot of the updated current bucket.
pub struct Applied {
    pub closed: Option<KLine>,
    pub current: KLine,
}

/// The live aggregation state of one (symbol, interval) key: its open
/// bucket and its bounded history of closed buckets.
#[derive(Debug)]
pub struct KeyState {
    pub current: KLine,
    pub history: History,
}

impl KeyState {
    /// Key invariant: the current bucket is open and well formed; history
    /// holds only closed, well-formed buckets of the same key, strictly
    /// ordered by open time, all older than the current bucket.
    pub open spec fn wf(self) -> bool {
        &&& self.current.inv()
        &&& !self.current.is_closed
        &&& self.history.wf()
        &&& forall|i: int|
            0 <= i < self.history.view_seq().len() ==> {
                let e = #[trigger] self.history.view_seq()[i];
                &&& e.is_closed
                &&& e.inv()
                &&& e.symbol@ == self.current.symbol@
                &&& e.interval == self.current.interval
                &&& e.open_time < self.current.open_time
            }
        &&& forall|i: int, j: int|
            0 <= i < j < self.history.view_seq().len()
                ==> #[trigger] self.history.view_seq()[i].open_time
                < #[trigger] self.history.view_seq()[j].open_time
    }

    /// A key seen for the first time: a bucket seeded from the trade, with
    /// the trade itself not yet applied, and an empty history.
    pub fn seed(symbol: &String, interval: KLineInterval, t: &Transaction) -> (r: KeyState)
        requires
            valid_timestamp(t.timestamp as int),
        ensures
            r.wf(),
            r.current == spec_seed(*symbol, interval, *t),
            r.history.view_seq() =~= Seq::<KLine>::empty(),
    {
        let start = bucket_start_ms(t.timestamp, interval);
        let current = KLine::new(symbol.clone(), interval, start, t.price);
        KeyState { current, history: History::new() }
    }

    /// Runs the bucketing state machine of this key on one trade: finalize
    /// and reseed when the trade reaches the bucket's end, then fold the
    /// trade in. On an error nothing changes.
    pub fn apply(&mut self, t: &Transaction) -> (r: Result<Applied, UpdateError>)
        requires
            old(self).wf(),
        ensures
            final(self).wf(),
            final(self).current.symbol@ == old(self).current.symbol@,
            final(self).current.interval == old(self).current.interval,
            match spec_key_error(old(self).current, *t) {
                Some(e) => r == Result::<Applied, UpdateError>::Err(e) && *final(self) == *old(
                    self,
                ),
                None => {
                    &&& r is Ok
                    &&& (r matches Ok(a) ==> {
                        &&& a.closed == spec_step_closed(old(self).current, *t)
                        &&& a.current == spec_step_current(old(self).current, *t)
                        &&& final(self).current == spec_step_current(old(self).current, *t)
                        &&& final(self).history.view_seq() == spec_step_history(
                            old(self).current,
                            old(self).history.view_seq(),
                            *t,
                        )
                    })
                },
            },
    {
        if t.timestamp >= self.current.close_time {
            if t.timestamp < 0 || t.timestamp > MAX_TIMESTAMP_MS {
                return Err(UpdateError::ClockAnomaly);
            }
            self.current.close();
            let closed = self.current.clone();
            self.history.append(closed.clone());
            let start = bucket_start_ms(t.timestamp, self.current.interval);
            let symbol = self.current.symbol.clone();
            let interval = self.current.interval;
            self.current = KLine::new(symbol, interval, start, t.price);
            self.current.update(t.price, t.volume);
            let snapshot = self.current.clone();
            Ok(Applied { closed: Some(closed), current: snapshot })
        } else {
            match self.current.volume.checked_add(t.volume) {
                Some(_) => {
                    self.current.update(t.price, t.volume);
                    let snapshot = self.current.clone();
                    Ok(Applied { closed: None, current: snapshot })
                },
                None => Err(UpdateError::VolumeOverflow),
            }
        }
    }
}

/// The key under which one `KeyState` is aggregated.
pub open spec fn key_of(ks: KeyState) -> (Seq<char>, KLineInterval) {
    (ks.current.symbol@, ks.current.interval)
}

/// The aggregation state of one key as a mathematical value.
pub ghost struct KeyView {
    pub current: KLine,
    pub history: Seq<KLine>,
}

/// The mathematical value of one `KeyState`.
pub open spec fn view_of(ks: KeyState) -> KeyView {
    KeyView { current: ks.current, history: ks.history.view_seq() }
}

/// The mapping from keys to aggregation states that a sequence of key
/// states denotes (later entries shadow earlier ones; the engine keeps the
/// keys distinct).
pub open spec fn entries_map(s: Seq<KeyState>) -> Map<(Seq<char>, KLineInterval), KeyView>
    decreases s.len(),
{
    if s.len() == 0 {
        Map::empty()
    } else {
        entries_map(s.drop_last()).insert(key_of(s.last()), view_of(s.last()))
    }
}

/// No two entries aggregate the same (symbol, interval) key.
pub open spec fn distinct_keys(s: Seq<KeyState>) -> bool {
    forall|i: int, j: int| 0 <= i < j < s.len() ==> key_of(s[i]) != key_of(s[j])
}

/// Each entry is found in the denoted map under its own key.
proof fn lemma_entries_map_index(s: Seq<KeyState>, i: int)
    requires
        distinct_keys(s),
        0 <= i < s.len(),
    ensures
        entries_map(s).contains_key(key_of(s[i])),
        entries_map(s)[key_of(s[i])] == view_of(s[i]),
    decreases s.len(),
{
    if i < s.len() - 1 {
        lemma_entries_map_index(s.drop_last(), i);
        assert(key_of(s[i]) != key_of(s.last()));
    }
}

/// A key under which no entry stands is absent from the denoted map.
proof fn lemma_entries_map_absent(s: Seq<KeyState>, k: (Seq<char>, KLineInterval))
    requires
        forall|i: int| 0 <= i < s.len() ==> key_of(#[trigger] s[i]) != k,
    ensures
        !entries_map(s).contains_key(k),
    decreases s.len(),
{
    if s.len() > 0 {
        lemma_entries_map_absent(s.drop_last(), k);
    }
}

/// Replacing the entry at `i` by one with the same key turns the denoted
/// map into the map with that key re-bound.
proof fn lemma_entries_map_update(s: Seq<KeyState>, i: int, x: KeyState)
    requires
        distinct_keys(s),
        0 <= i < s.len(),
        key_of(x) == key_of(s[i]),
    ensures
        entries_map(s.update(i, x)) =~= entries_map(s).insert(key_of(x), view_of(x)),
        distinct_keys(s.update(i, x)),
    decreases s.len(),
{
    let su = s.update(i, x);
    if i == s.len() - 1 {
        assert(su.drop_last() =~= s.drop_last());
        assert(su.last() == x);
    } else {
        assert(su.drop_last() =~= s.drop_last().update(i, x));
        assert(su.last() == s.last());
        lemma_entries_map_update(s.drop_last(), i, x);
        assert(key_of(x) != key_of(s.last()));
    }
}

/// Appending an entry under a fresh key binds exactly that key.
proof fn lemma_entries_map_push(s: Seq<KeyState>, x: KeyState)
    ensures
        entries_map(s.push(x)) =~= entries_map(s).insert(key_of(x), view_of(x)),
{
    assert(s.push(x).drop_last() =~= s);
    assert(s.push(x).last() == x);
}

/// `KLine::clone` hands back an equal value.
pub proof fn lemma_kline_exact_clone()
    ensures
        exact_clone::<KLine>(),
{
    assert forall|a: KLine, b: KLine| cloned::<KLine>(a, b) implies a == b by {}
}

/// `Transaction::clone` hands back an equal value.
pub proof fn lemma_transaction_exact_clone()
    ensures
        exact_clone::<Transaction>(),
{
    assert forall|a: Transaction, b: Transaction| cloned::<Transaction>(a, b) implies a == b by {}
}

/// Why the engine's update of one interval fails, or `None` when it
/// succeeds, as a function of the engine's key map and the trade. A key not
/// seen before always needs its bucket boundary computed.
pub open spec fn spec_engine_error(
    m: Map<(Seq<char>, KLineInterval), KeyView>,
    t: Transaction,
    i: KLineInterval,
) -> Option<UpdateError> {
    if m.contains_key((t.symbol@, i)) {
        spec_key_error(m[(t.symbol@, i)].current, t)
    } else {
        if !valid_timestamp(t.timestamp as int) {
            Some(UpdateError::ClockAnomaly)
        } else {
            None
        }
    }
}

/// The key's aggregation state after a successful update of one interval.
pub open spec fn spec_new_keyview(
    m: Map<(Seq<char>, KLineInterval), KeyView>,
    t: Transaction,
    i: KLineInterval,
) -> KeyView {
    if m.contains_key((t.symbol@, i)) {
        KeyView {
            current: spec_step_current(m[(t.symbol@, i)].current, t),
            history: spec_step_history(m[(t.symbol@, i)].current, m[(t.symbol@, i)].history, t),
        }
    } else {
        KeyView { current: spec_fold(spec_seed(t.symbol, i, t), t), history: Seq::empty() }
    }
}

/// What a successful update of one interval publishes on the kline topic:
/// the finalized bucket when one rolled over, then the updated current
/// bucket. An update that fails publishes nothing.
pub open spec fn spec_emitted(
    m: Map<(Seq<char>, KLineInterval), KeyView>,
    t: Transaction,
    i: KLineInterval,
) -> Seq<KLine> {
    if spec_engine_error(m, t, i) is Some {
        Seq::empty()
    } else if m.contains_key((t.symbol@, i)) {
        match spec_step_closed(m[(t.symbol@, i)].current, t) {
            Some(c) => seq![c, spec_step_current(m[(t.symbol@, i)].current, t)],
            None => seq![spec_step_current(m[(t.symbol@, i)].current, t)],
        }
    } else {
        seq![spec_fold(spec_seed(t.symbol, i, t), t)]
    }
}

/// The engine's key map after the update of one interval: re-bound on
/// success, untouched on failure.
pub open spec fn spec_after_interval(
    m: Map<(Seq<char>, KLineInterval), KeyView>,
    t: Transaction,
    i: KLineInterval,
) -> Map<(Seq<char>, KLineInterval), KeyView> {
    if spec_engine_error(m, t, i) is Some {
        m
    } else {
        m.insert((t.symbol@, i), spec_new_keyview(m, t, i))
    }
}

/// The aggregation engine: all per-key bucketing state, and the hub that
/// fans finalized and updated buckets out to subscribers.
pub struct Engine {
    entries: Vec<KeyState>,
    hub: Hub<KLine>,
}

impl Engine {
    /// The engine's aggregation state: each seen key's current bucket and
    /// bounded history.
    pub closed spec fn keys(self) -> Map<(Seq<char>, KLineInterval), KeyView> {
        entries_map(self.entries@)
    }

    /// Every kline ever published on the engine's kline topic, oldest
    /// first.
    pub closed spec fn feed(self) -> Seq<KLine> {
        self.hub.published()
    }

    /// The per-subscriber queue bound of the kline topic.
    pub closed spec fn capacity_spec(self) -> int {
        self.hub.capacity_spec()
    }

    /// Whether the handle names a live subscriber of the kline topic.
    pub closed spec fn sub_active(self, s: Subscription) -> bool {
        self.hub.is_active(s)
    }

    /// A subscriber's pending kline messages, oldest first.
    pub closed spec fn sub_queue(self, s: Subscription) -> Seq<KLine> {
        self.hub.queue(s)
    }

    /// Whether a subscriber has lost messages to overflow since it last
    /// received.
    pub closed spec fn sub_lagged(self, s: Subscription) -> bool {
        self.hub.lagged(s)
    }

    /// Engine invariant: the hub is well formed, keys are distinct, and
    /// every key's state machine is well formed.
    pub closed spec fn wf(self) -> bool {
        &&& self.hub.wf()
        &&& distinct_keys(self.entries@)
        &&& forall|i: int| 0 <= i < self.entries@.len() ==> (#[trigger] self.entries@[i]).wf()
    }

    /// A fresh engine with no keys, nothing published, no subscribers.
    pub fn new(capacity: usize) -> (r: Engine)
        requires
            1 <= capacity,
        ensures
            r.wf(),
            r.keys() =~= Map::<(Seq<char>, KLineInterval), KeyView>::empty(),
            r.feed() =~= Seq::<KLine>::empty(),
            r.capacity_spec() == capacity,
            forall|s: Subscription| !r.sub_active(s),
    {
        Engine { entries: Vec::new(), hub: Hub::new(capacity) }
    }

    /// Finds the entry index of a key.
    fn find(&self, symbol: &str, interval: KLineInterval) -> (r: Option<usize>)
        ensures
            match r {
                Some(i) => i < self.entries@.len() && key_of(self.entries@[i as int]) == (
                    symbol@,
                    interval,
                ),
                None => forall|i: int|
                    0 <= i < self.entries@.len() ==> key_of(#[trigger] self.entries@[i]) != (
                        symbol@,
                        interval,
                    ),
            },
    {
        let owned: String = symbol.to_owned();
        let n = self.entries.len();
        let mut j: usize = 0;
        while j < n
            invariant
                j <= n,
                n == self.entries@.len(),
                owned@ == symbol@,
                forall|i: int|
                    0 <= i < j ==> key_of(#[trigger] self.entries@[i]) != (symbol@, interval),
            decreases n - j,
        {
            if self.entries[j].current.symbol == owned && self.entries[j].current.interval
                == interval {
                return Some(j);
            }
            j = j + 1;
        }
        None
    }

    /// Up to `limit` most recent closed klines of the key, oldest first; a
    /// key never seen yields the empty sequence, not an error.
    pub fn get_klines(&self, symbol: &str, interval: KLineInterval, limit: usize) -> (r: Vec<
        KLine,
    >)
        requires
            self.wf(),
        ensures
            r@ == spec_query(self.keys(), symbol@, interval, limit as int),
    {
        match self.find(symbol, interval) {
            Some(i) => {
                proof {
                    lemma_entries_map_index(self.entries@, i as int);
                }
                self.entries[i].history.query(limit)
            },
            None => {
                proof {
                    lemma_entries_map_absent(self.entries@, (symbol@, interval));
                }
                Vec::new()
            },
        }
    }

    /// A copy of the key's open bucket, or `None` for a key never seen.
    pub fn current_kline(&self, symbol: &str, interval: KLineInterval) -> (r: Option<KLine>)
        requires
            self.wf(),
        ensures
            self.keys().contains_key((symbol@, interval)) ==> r == Some(
                self.keys()[(symbol@, interval)].current,
            ),
            !self.keys().contains_key((symbol@, interval)) ==> r is None,
    {
        match self.find(symbol, interval) {
            Some(i) => {
                proof {
                    lemma_entries_map_index(self.entries@, i as int);
                }
                Some(self.entries[i].current.clone())
            },
            None => {
                proof {
                    lemma_entries_map_absent(self.entries@, (symbol@, interval));
                }
                None
            },
        }
    }
}

/// Every subscriber active before saw `k` messages queued: its queue grew
/// by `k` up to the capacity bound, and it is flagged as lagged exactly
/// when something had to be dropped for it (or it already was flagged).
/// `lemma_queues_advanced_effect` spells the consequence out per
/// subscriber.
pub closed spec fn queues_advanced(pre: Engine, post: Engine, k: int) -> bool {
    hub_queues_advanced(pre.hub, post.hub, k)
}

/// What `queues_advanced` means for one subscriber.
pub proof fn lemma_queues_advanced_effect(pre: Engine, post: Engine, k: int, s: Subscription)
    requires
        queues_advanced(pre, post, k),
        pre.sub_active(s),
    ensures
        post.sub_queue(s).len() == spec_len_after(
            pre.sub_queue(s).len() as int,
            k,
            pre.capacity_spec(),
        ),
        post.sub_lagged(s) == (pre.sub_lagged(s) || pre.sub_queue(s).len() + k
            > pre.capacity_spec()),
{
    assert(post.hub.queue(s).len() == spec_len_after(
        pre.hub.queue(s).len() as int,
        k,
        pre.hub.capacity_spec(),
    ) && post.hub.lagged(s) == (pre.hub.lagged(s) || pre.hub.queue(s).len() + k
        > pre.hub.capacity_spec()));
}

/// `queues_advanced` is the hubs' relation, field for field.
proof fn lemma_bridge_queues(pre: Engine, post: Engine, k: int)
    requires
        hub_queues_advanced(pre.hub, post.hub, k),
    ensures
        queues_advanced(pre, post, k),
{
}

impl Engine {
    /// Registers a subscriber on the kline topic; it sees only klines
    /// published after this call.
    pub fn subscribe(&mut self) -> (s: Subscription)
        requires
            old(self).wf(),
        ensures
            final(self).wf(),
            final(self).keys() == old(self).keys(),
            final(self).feed() == old(self).feed(),
            final(self).capacity_spec() == old(self).capacity_spec(),
            !old(self).sub_active(s),
            final(self).sub_active(s),
            final(self).sub_queue(s) =~= Seq::<KLine>::empty(),
            !final(self).sub_lagged(s),
            forall|s2: Subscription|
                s2.id != s.id ==> #[trigger] final(self).sub_active(s2) == old(self).sub_active(
                    s2,
                ),
            forall|s2: Subscription|
                s2.id != s.id && old(self).sub_active(s2) ==> #[trigger] final(self).sub_queue(s2)
                    == old(self).sub_queue(s2) && final(self).sub_lagged(s2) == old(
                    self).sub_lagged(s2),
    {
        self.hub.subscribe()
    }

    /// Retires a kline subscriber and reclaims its queue.
    pub fn unsubscribe(&mut self, s: Subscription)
        requires
            old(self).wf(),
        ensures
            final(self).wf(),
            final(self).keys() == old(self).keys(),
            final(self).feed() == old(self).feed(),
            final(self).capacity_spec() == old(self).capacity_spec(),
            !final(self).sub_active(s),
            forall|s2: Subscription|
                s2.id != s.id ==> #[trigger] final(self).sub_active(s2) == old(self).sub_active(
                    s2,
                ),
            forall|s2: Subscription|
                s2.id != s.id && old(self).sub_active(s2) ==> #[trigger] final(self).sub_queue(s2)
                    == old(self).sub_queue(s2) && final(self).sub_lagged(s2) == old(
                    self).sub_lagged(s2),
    {
        self.hub.unsubscribe(s)
    }

    /// Hands a kline subscriber its oldest unread message, reporting a lag
    /// once before the surviving messages.
    pub fn recv(&mut self, s: Subscription) -> (r: RecvOutcome<KLine>)
        requires
            old(self).wf(),
        ensures
            final(self).wf(),
            final(self).keys() == old(self).keys(),
            final(self).feed() == old(self).feed(),
            final(self).capacity_spec() == old(self).capacity_spec(),
            forall|s2: Subscription| #[trigger]
                final(self).sub_active(s2) == old(self).sub_active(s2),
            forall|s2: Subscription|
                s2.id != s.id && old(self).sub_active(s2) ==> #[trigger] final(self).sub_queue(s2)
                    == old(self).sub_queue(s2) && final(self).sub_lagged(s2) == old(
                    self).sub_lagged(s2),
            !old(self).sub_active(s) ==> r is Gone,
            old(self).sub_active(s) && old(self).sub_lagged(s) ==> r is Lagged && final(
                self).sub_queue(s) == old(self).sub_queue(s) && !final(self).sub_lagged(s),
            old(self).sub_active(s) && !old(self).sub_lagged(s) && old(self).sub_queue(s).len()
                == 0 ==> r is Empty && final(self).sub_queue(s) == old(self).sub_queue(s)
                && !final(self).sub_lagged(s),
            old(self).sub_active(s) && !old(self).sub_lagged(s) && old(self).sub_queue(s).len()
                > 0 ==> (r == RecvOutcome::<KLine>::Msg(old(self).sub_queue(s)[0]) && final(
                self).sub_queue(s) == old(self).sub_queue(s).drop_first() && !final(
                self).sub_lagged(s)),
    {
        self.hub.recv(s)
    }

    /// Runs the bucketing state machine of one interval on one trade and
    /// publishes what it yields on the kline topic: the finalized bucket on
    /// a rollover, then the updated current bucket. On an error nothing
    /// changes and nothing is published.
    #[verifier::rlimit(100)]
    pub fn update_kline(&mut self, t: &Transaction, interval: KLineInterval) -> (r: Result<
        (),
        UpdateError,
    >)
        requires
            old(self).wf(),
        ensures
            final(self).wf(),
            final(self).capacity_spec() == old(self).capacity_spec(),
            forall|s: Subscription| #[trigger]
                final(self).sub_active(s) == old(self).sub_active(s),
            spec_engine_error(old(self).keys(), *t, interval) matches Some(e) ==> r
                == Result::<(), UpdateError>::Err(e),
            spec_engine_error(old(self).keys(), *t, interval) is Some ==> final(self).keys()
                == old(self).keys() && final(self).feed() == old(self).feed(),
            spec_engine_error(old(self).keys(), *t, interval) is Some ==> forall|s: Subscription|
                old(self).sub_active(s) ==> #[trigger] final(self).sub_queue(s) == old(
                    self).sub_queue(s) && final(self).sub_lagged(s) == old(self).sub_lagged(s),
            spec_engine_error(old(self).keys(), *t, interval) is None ==> r is Ok,
            spec_engine_error(old(self).keys(), *t, interval) is None ==> final(self).keys()
                == spec_after_interval(old(self).keys(), *t, interval),
            spec_engine_error(old(self).keys(), *t, interval) is None ==> final(self).feed()
                == old(self).feed() + spec_emitted(old(self).keys(), *t, interval),
            spec_engine_error(old(self).keys(), *t, interval) is None ==> queues_advanced(
                *old(self),
                *final(self),
                spec_emitted(old(self).keys(), *t, interval).len() as int,
            ),
            spec_engine_error(old(self).keys(), *t, interval) is Some ==> queues_advanced(
                *old(self),
                *final(self),
                0,
            ),
    {
        proof {
            lemma_kline_exact_clone();
        }
        let found = self.find(t.symbol.as_str(), interval);
        match found {
            None => {
                proof {
                    lemma_entries_map_absent(self.entries@, (t.symbol@, interval));
                }
                if t.timestamp < 0 || t.timestamp > MAX_TIMESTAMP_MS {
                    proof {
                        self.hub.lemma_hub_advanced_refl();
                        lemma_bridge_queues(*old(self), *self, 0);
                    }
                    return Err(UpdateError::ClockAnomaly);
                }
                let mut ks = KeyState::seed(&t.symbol, interval, t);
                ks.current.update(t.price, t.volume);
                let snapshot = ks.current.clone();
                let ghost preentries = self.entries@;
                self.entries.push(ks);
                proof {
                    assert(self.entries@ == preentries.push(self.entries@.last()));
                    lemma_entries_map_push(preentries, self.entries@.last());
                    assert(key_of(self.entries@.last()) == (t.symbol@, interval));
                    assert(distinct_keys(self.entries@));
                    assert(entries_map(self.entries@) =~= spec_after_interval(
                        entries_map(preentries),
                        *t,
                        interval,
                    ));
                }
                let ghost h0 = self.hub;
                self.hub.publish(&snapshot);
                proof {
                    assert(self.hub.published() =~= h0.published() + spec_emitted(
                        entries_map(preentries),
                        *t,
                        interval,
                    ));
                    assert(spec_engine_error(entries_map(preentries), *t, interval) is None);
                    assert(entries_map(self.entries@) == spec_after_interval(
                        entries_map(preentries),
                        *t,
                        interval,
                    ));
                    assert(self.hub.published() == h0.published() + spec_emitted(
                        entries_map(preentries),
                        *t,
                        interval,
                    ));
                    assert(self.wf());
                    assert(old(self).keys() == entries_map(preentries));
                    assert(spec_emitted(old(self).keys(), *t, interval).len() == 1);
                    assert(old(self).hub == h0);
                    assert(hub_queues_advanced(h0, self.hub, 1));
                    lemma_bridge_queues(*old(self), *self, 1);
                }
                Ok(())
            },
            Some(i) => {
                proof {
                    lemma_entries_map_index(self.entries@, i as int);
                    assert(self.entries@[i as int].wf());
                }
                let ghost preentries = self.entries@;
                let res = self.entries[i].apply(t);
                match res {
                    Err(e) => {
                        proof {
                            assert(self.entries@ =~= preentries);
                            self.hub.lemma_hub_advanced_refl();
                            lemma_bridge_queues(*old(self), *self, 0);
                        }
                        Err(e)
                    },
                    Ok(a) => {
                        proof {
                            lemma_entries_map_update(
                                preentries,
                                i as int,
                                self.entries@[i as int],
                            );
                            assert(entries_map(self.entries@) =~= spec_after_interval(
                                entries_map(preentries),
                                *t,
                                interval,
                            ));
                        }
                        let ghost h0 = self.hub;
                        let ghost emitted = spec_emitted(entries_map(preentries), *t, interval);
                        match &a.closed {
                            Some(c) => {
                                self.hub.publish(c);
                                let ghost h1 = self.hub;
                                self.hub.publish(&a.current);
                                proof {
                                    assert(self.hub.published() =~= h0.published() + emitted);
                                    assert(old(self).keys() == entries_map(preentries));
                                    assert(spec_emitted(old(self).keys(), *t, interval).len()
                                        == 2);
                                    assert(old(self).hub == h0);
                                    assert(hub_queues_advanced(h0, h1, 1));
                                    assert(hub_queues_advanced(h1, self.hub, 1));
                                    Hub::<KLine>::lemma_hub_advanced_trans(
                                        h0,
                                        h1,
                                        self.hub,
                                        1,
                                        1,
                                    );
                                    lemma_bridge_queues(*old(self), *self, 2);
                                }
                            },
                            None => {
                                self.hub.publish(&a.current);
                                proof {
                                    assert(self.hub.published() =~= h0.published() + emitted);
                                    assert(old(self).keys() == entries_map(preentries));
                                    assert(spec_emitted(old(self).keys(), *t, interval).len()
                                        == 1);
                                    assert(old(self).hub == h0);
                                    assert(hub_queues_advanced(h0, self.hub, 1));
                                    lemma_bridge_queues(*old(self), *self, 1);
                                }
                            },
                        }
                        Ok(())
                    },
                }
            },
        }
    }
}

/// A key that the denoted map contains stands at some entry index.
proof fn lemma_entries_map_find(s: Seq<KeyState>, k: (Seq<char>, KLineInterval))
    requires
        entries_map(s).contains_key(k),
    ensures
        exists|i: int| 0 <= i < s.len() && key_of(#[trigger] s[i]) == k,
    decreases s.len(),
{
    if s.len() > 0 {
        if key_of(s.last()) == k {
            assert(key_of(s[s.len() - 1]) == k);
        } else {
            lemma_entries_map_find(s.drop_last(), k);
            let i = choose|i: int|
                0 <= i < s.drop_last().len() && key_of(#[trigger] s.drop_last()[i]) == k;
            assert(key_of(s[i]) == k);
        }
    }
}

/// The one failure entry an interval contributes to the report, or nothing.
pub open spec fn spec_fail_entry(
    m: Map<(Seq<char>, KLineInterval), KeyView>,
    t: Transaction,
    i: KLineInterval,
) -> Seq<(KLineInterval, UpdateError)> {
    match spec_engine_error(m, t, i) {
        Some(e) => seq![(i, e)],
        None => Seq::empty(),
    }
}

/// Two successive engine advances compose.
proof fn lemma_engine_advanced_trans(a: Engine, b: Engine, c: Engine, k1: int, k2: int)
    requires
        0 <= k1,
        0 <= k2,
        queues_advanced(a, b, k1),
        queues_advanced(b, c, k2),
        forall|s: Subscription| #[trigger] b.sub_active(s) == a.sub_active(s),
        b.capacity_spec() == a.capacity_spec(),
    ensures
        queues_advanced(a, c, k1 + k2),
{
    assert forall|s: Subscription| #[trigger] b.hub.is_active(s) == a.hub.is_active(s) by {
        assert(b.sub_active(s) == a.sub_active(s));
    }
    Hub::<KLine>::lemma_hub_advanced_trans(a.hub, b.hub, c.hub, k1, k2);
}

impl Engine {
    /// Runs one trade through every configured interval, independently: a
    /// failure on one interval leaves that key untouched and is reported,
    /// while every other interval is still processed. The returned report
    /// lists exactly the intervals that failed, in interval order.
    #[verifier::rlimit(100)]
    pub fn process_all(&mut self, t: &Transaction) -> (failures: Vec<(KLineInterval, UpdateError)>)
        requires
            old(self).wf(),
        ensures
            final(self).wf(),
            final(self).capacity_spec() == old(self).capacity_spec(),
            forall|s: Subscription| #[trigger]
                final(self).sub_active(s) == old(self).sub_active(s),
            final(self).keys() == spec_after_all(old(self).keys(), *t),
            final(self).feed() == old(self).feed() + spec_emitted_all(old(self).keys(), *t),
            failures@ == spec_failures_all(old(self).keys(), *t),
            queues_advanced(
                *old(self),
                *final(self),
                final(self).feed().len() - old(self).feed().len(),
            ),
            old(self).feed().len() <= final(self).feed().len(),
    {
        let mut failures: Vec<(KLineInterval, UpdateError)> = Vec::new();
        let ghost g0 = *self;
        self.step_interval(t, KLineInterval::OneSecond, &mut failures);
        let ghost g1 = *self;
        self.step_interval(t, KLineInterval::OneMinute, &mut failures);
        proof {
            lemma_engine_advanced_trans(
                g0,
                g1,
                *self,
                g1.feed().len() - g0.feed().len(),
                self.feed().len() - g1.feed().len(),
            );
        }
        let ghost g2 = *self;
        self.step_interval(t, KLineInterval::FiveMinutes, &mut failures);
        proof {
            lemma_engine_advanced_trans(
                g0,
                g2,
                *self,
                g2.feed().len() - g0.feed().len(),
                self.feed().len() - g2.feed().len(),
            );
        }
        let ghost g3 = *self;
        self.step_interval(t, KLineInterval::FifteenMinutes, &mut failures);
        proof {
            lemma_engine_advanced_trans(
                g0,
                g3,
                *self,
                g3.feed().len() - g0.feed().len(),
                self.feed().len() - g3.feed().len(),
            );
        }
        let ghost g4 = *self;
        self.step_interval(t, KLineInterval::OneHour, &mut failures);
        proof {
            lemma_engine_advanced_trans(
                g0,
                g4,
                *self,
                g4.feed().len() - g0.feed().len(),
                self.feed().len() - g4.feed().len(),
            );
        }
        proof {
            assert(self.keys() == spec_after_all(g0.keys(), *t));
            assert(self.feed() =~= g0.feed() + spec_emitted_all(g0.keys(), *t));
            assert(failures@ =~= spec_failures_all(g0.keys(), *t));
        }
        failures
    }

    /// Runs one interval's update and records its failure, if any, in the
    /// report.
    fn step_interval(
        &mut self,
        t: &Transaction,
        interval: KLineInterval,
        failures: &mut Vec<(KLineInterval, UpdateError)>,
    )
        requires
            old(self).wf(),
        ensures
            final(self).wf(),
            final(self).capacity_spec() == old(self).capacity_spec(),
            forall|s: Subscription| #[trigger]
                final(self).sub_active(s) == old(self).sub_active(s),
            final(self).keys() == spec_after_interval(old(self).keys(), *t, interval),
            final(self).feed() == old(self).feed() + spec_emitted(old(self).keys(), *t, interval),
            final(failures)@ == old(failures)@ + spec_fail_entry(old(self).keys(), *t, interval),
            queues_advanced(
                *old(self),
                *final(self),
                final(self).feed().len() - old(self).feed().len(),
            ),
            old(self).feed().len() <= final(self).feed().len(),
    {
        let ghost pre = *self;
        let r = self.update_kline(t, interval);
        if let Err(e) = r {
            failures.push((interval, e));
        }
        proof {
            if spec_engine_error(pre.keys(), *t, interval) is Some {
                assert(self.feed() =~= pre.feed() + spec_emitted(pre.keys(), *t, interval));
            }
            assert(failures@ =~= old(failures)@ + spec_fail_entry(pre.keys(), *t, interval));
        }
    }

    /// For every key the engine holds, the history is strictly ordered by
    /// open time ascending — so no two entries share an open time — and
    /// every entry is a closed, well-formed bucket of this key whose open
    /// time is an exact multiple of the interval's duration.
    pub proof fn lemma_history_ordered(&self, sym: Seq<char>, interval: KLineInterval)
        requires
            self.wf(),
            self.keys().contains_key((sym, interval)),
        ensures
            ({
                let h = self.keys()[(sym, interval)].history;
                &&& forall|a: int, b: int|
                    0 <= a < b < h.len() ==> #[trigger] h[a].open_time < #[trigger] h[b].open_time
                &&& forall|a: int|
                    0 <= a < h.len() ==> ((#[trigger] h[a].open_time) as int) % spec_interval_ms(
                        interval,
                    ) == 0
                &&& forall|a: int| 0 <= a < h.len() ==> (#[trigger] h[a]).is_closed
                &&& forall|a: int| 0 <= a < h.len() ==> (#[trigger] h[a]).symbol@ == sym
            }),
    {
        lemma_entries_map_find(self.entries@, (sym, interval));
        let i = choose|i: int|
            0 <= i < self.entries@.len() && key_of(#[trigger] self.entries@[i]) == (sym, interval);
        lemma_entries_map_index(self.entries@, i);
        assert(self.entries@[i].wf());
    }

    /// Every kline subscriber's pending queue is exactly the most recent
    /// suffix of the published feed: fan-out neither reorders, duplicates
    /// nor invents messages, and what overflow drops is always the oldest
    /// unread part. Subscribers with equally long backlogs therefore hold
    /// identical sequences.
    pub proof fn lemma_sub_queue_is_recent_suffix(&self, s: Subscription)
        requires
            self.wf(),
            self.sub_active(s),
        ensures
            self.sub_queue(s) == self.feed().subrange(
                self.feed().len() - self.sub_queue(s).len(),
                self.feed().len() as int,
            ),
            self.sub_queue(s).len() <= self.capacity_spec(),
    {
        self.hub.lemma_queue_is_recent_suffix(s);
    }

    /// Read idempotence: any two results `get_klines` may return for the
    /// same engine state and the same query are identical.
    pub proof fn lemma_query_idempotent(
        &self,
        symbol: &str,
        interval: KLineInterval,
        limit: usize,
        r1: Vec<KLine>,
        r2: Vec<KLine>,
    )
        requires
            self.wf(),
            call_ensures(Engine::get_klines, (self, symbol, interval, limit), r1),
            call_ensures(Engine::get_klines, (self, symbol, interval, limit), r2),
        ensures
            r1@ == r2@,
    {
    }
}

/// The map an ingest call leaves behind: every interval's key stepped, in
/// interval order.
pub open spec fn spec_after_all(
    m: Map<(Seq<char>, KLineInterval), KeyView>,
    t: Transaction,
) -> Map<(Seq<char>, KLineInterval), KeyView> {
    let m1 = spec_after_interval(m, t, KLineInterval::OneSecond);
    let m2 = spec_after_interval(m1, t, KLineInterval::OneMinute);
    let m3 = spec_after_interval(m2, t, KLineInterval::FiveMinutes);
    let m4 = spec_after_interval(m3, t, KLineInterval::FifteenMinutes);
    spec_after_interval(m4, t, KLineInterval::OneHour)
}

/// What an ingest call publishes on the kline topic, in order: each
/// interval's finalized bucket (if one rolled over) and updated current
/// bucket.
pub open spec fn spec_emitted_all(
    m: Map<(Seq<char>, KLineInterval), KeyView>,
    t: Transaction,
) -> Seq<KLine> {
    let m1 = spec_after_interval(m, t, KLineInterval::OneSecond);
    let m2 = spec_after_interval(m1, t, KLineInterval::OneMinute);
    let m3 = spec_after_interval(m2, t, KLineInterval::FiveMinutes);
    let m4 = spec_after_interval(m3, t, KLineInterval::FifteenMinutes);
    spec_emitted(m, t, KLineInterval::OneSecond) + spec_emitted(m1, t, KLineInterval::OneMinute)
        + spec_emitted(m2, t, KLineInterval::FiveMinutes) + spec_emitted(
        m3,
        t,
        KLineInterval::FifteenMinutes,
    ) + spec_emitted(m4, t, KLineInterval::OneHour)
}

/// The per-interval failures an ingest call reports, in interval order.
pub open spec fn spec_failures_all(
    m: Map<(Seq<char>, KLineInterval), KeyView>,
    t: Transaction,
) -> Seq<(KLineInterval, UpdateError)> {
    let m1 = spec_after_interval(m, t, KLineInterval::OneSecond);
    let m2 = spec_after_interval(m1, t, KLineInterval::OneMinute);
    let m3 = spec_after_interval(m2, t, KLineInterval::FiveMinutes);
    let m4 = spec_after_interval(m3, t, KLineInterval::FifteenMinutes);
    spec_fail_entry(m, t, KLineInterval::OneSecond) + spec_fail_entry(
        m1,
        t,
        KLineInterval::OneMinute,
    ) + spec_fail_entry(m2, t, KLineInterval::FiveMinutes) + spec_fail_entry(
        m3,
        t,
        KLineInterval::FifteenMinutes,
    ) + spec_fail_entry(m4, t, KLineInterval::OneHour)
}

/// What a query returns: the `min(len, limit)` most recent closed klines of
/// the key, oldest first, and nothing for an unknown key.
pub open spec fn spec_query(
    m: Map<(Seq<char>, KLineInterval), KeyView>,
    sym: Seq<char>,
    i: KLineInterval,
    limit: int,
) -> Seq<KLine> {
    if m.contains_key((sym, i)) {
        let h = m[(sym, i)].history;
        h.subrange(h.len() - crate::history::spec_query_count(h.len() as int, limit), h.len() as int)
    } else {
        Seq::empty()
    }
}

} // verus!
