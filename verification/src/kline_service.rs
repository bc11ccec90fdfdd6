//! The kline-only service: an aggregation engine with a narrower
//! distribution hub and no transaction topic.

use vstd::prelude::*;

use crate::engine::{
    spec_after_all, spec_emitted_all, spec_failures_all, spec_query, Engine, KeyView,
    ProcessError,
};
use crate::hub::{RecvOutcome, Subscription};
use crate::kline::{spec_interval_from_code, KLine, KLineInterval};
use crate::query::{spec_effective_limit, KLineQuery, ValidationError};
use crate::transaction::Transaction;

verus! {

/// Queue bound of this service's kline topic: a narrower hub than the
/// primary service's.
pub const KLINE_SERVICE_CAPACITY: usize = 100;

/// A kline aggregation service without a transaction topic.
pub struct KLineService {
    engine: Engine,
}

impl KLineService {
    /// The underlying aggregation engine, as a mathematical value.
    pub closed spec fn inner(self) -> Engine {
        self.engine
    }

    pub open spec fn wf(self) -> bool {
        self.inner().wf()
    }

    /// A fresh service: no keys, nothing published, no subscribers.
    pub fn new() -> (r: KLineService)
        ensures
            r.wf(),
            r.inner().keys() =~= Map::<(Seq<char>, KLineInterval), KeyView>::empty(),
            r.inner().feed() =~= Seq::<KLine>::empty(),
            r.inner().capacity_spec() == KLINE_SERVICE_CAPACITY,
            forall|s: Subscription| !r.inner().sub_active(s),
    {
        KLineService { engine: Engine::new(KLINE_SERVICE_CAPACITY) }
    }

    /// Registers a subscriber on the kline topic; it observes only klines
    /// published after this call.
    pub fn subscribe(&mut self) -> (s: Subscription)
        requires
            old(self).wf(),
        ensures
            final(self).wf(),
            final(self).inner().keys() == old(self).inner().keys(),
            final(self).inner().feed() == old(self).inner().feed(),
            final(self).inner().capacity_spec() == old(self).inner().capacity_spec(),
            !old(self).inner().sub_active(s),
            final(self).inner().sub_active(s),
            final(self).inner().sub_queue(s) =~= Seq::<KLine>::empty(),
            !final(self).inner().sub_lagged(s),
            forall|s2: Subscription|
                s2.id != s.id ==> #[trigger] final(self).inner().sub_active(s2) == old(
                    self).inner().sub_active(s2),
            forall|s2: Subscription|
                s2.id != s.id && old(self).inner().sub_active(s2) ==> #[trigger] final(
                    self).inner().sub_queue(s2) == old(self).inner().sub_queue(s2) && final(
                    self).inner().sub_lagged(s2) == old(self).inner().sub_lagged(s2),
    {
        self.engine.subscribe()
    }

    /// Hands a subscriber its oldest unread kline, reporting a lag once
    /// before the surviving messages.
    pub fn recv(&mut self, s: Subscription) -> (r: RecvOutcome<KLine>)
        requires
            old(self).wf(),
        ensures
            final(self).wf(),
            final(self).inner().keys() == old(self).inner().keys(),
            final(self).inner().feed() == old(self).inner().feed(),
            final(self).inner().capacity_spec() == old(self).inner().capacity_spec(),
            forall|s2: Subscription| #[trigger]
                final(self).inner().sub_active(s2) == old(self).inner().sub_active(s2),
            forall|s2: Subscription|
                s2.id != s.id && old(self).inner().sub_active(s2) ==> #[trigger] final(
                    self).inner().sub_queue(s2) == old(self).inner().sub_queue(s2) && final(
                    self).inner().sub_lagged(s2) == old(self).inner().sub_lagged(s2),
            !old(self).inner().sub_active(s) ==> r is Gone,
            old(self).inner().sub_active(s) && old(self).inner().sub_lagged(s) ==> r is Lagged
                && final(self).inner().sub_queue(s) == old(self).inner().sub_queue(s) && !final(
                self).inner().sub_lagged(s),
            old(self).inner().sub_active(s) && !old(self).inner().sub_lagged(s) && old(
                self).inner().sub_queue(s).len() == 0 ==> r is Empty && final(
                self).inner().sub_queue(s) == old(self).inner().sub_queue(s) && !final(
                self).inner().sub_lagged(s),
            old(self).inner().sub_active(s) && !old(self).inner().sub_lagged(s) && old(
                self).inner().sub_queue(s).len() > 0 ==> (r == RecvOutcome::<KLine>::Msg(
                old(self).inner().sub_queue(s)[0],
            ) && final(self).inner().sub_queue(s) == old(self).inner().sub_queue(s).drop_first()
                && !final(self).inner().sub_lagged(s)),
    {
        self.engine.recv(s)
    }

    /// Up to `limit` most recent closed klines of the key, oldest first; a
    /// key never seen yields the empty sequence, not an error.
    pub fn get_klines(&self, symbol: &str, interval: KLineInterval, limit: usize) -> (r: Vec<
        KLine,
    >)
        requires
            self.wf(),
        ensures
            r@ == spec_query(self.inner().keys(), symbol@, interval, limit as int),
    {
        self.engine.get_klines(symbol, interval, limit)
    }

    /// A copy of the key's open bucket, or `None` for a key never seen.
    pub fn current_kline(&self, symbol: &str, interval: KLineInterval) -> (r: Option<KLine>)
        requires
            self.wf(),
        ensures
            self.inner().keys().contains_key((symbol@, interval)) ==> r == Some(
                self.inner().keys()[(symbol@, interval)].current,
            ),
            !self.inner().keys().contains_key((symbol@, interval)) ==> r is None,
    {
        self.engine.current_kline(symbol, interval)
    }

    /// Validates a query and answers it: an unknown interval code is a
    /// validation error; an unknown symbol is an empty sequence.
    pub fn get_klines_query(&self, symbol: &str, query: &KLineQuery) -> (r: Result<
        Vec<KLine>,
        ValidationError,
    >)
        requires
            self.wf(),
        ensures
            spec_interval_from_code(query.interval@) is None ==> r == Err::<
                Vec<KLine>,
                ValidationError,
            >(ValidationError::UnknownInterval),
            spec_interval_from_code(query.interval@) matches Some(i) ==> r matches Ok(v) && v@
                == spec_query(
                self.inner().keys(),
                symbol@,
                i,
                spec_effective_limit(query.limit) as int,
            ),
    {
        match query.resolve() {
            Ok((interval, limit)) => Ok(self.engine.get_klines(symbol, interval, limit)),
            Err(e) => Err(e),
        }
    }

    /// Ingests one trade: every interval is processed independently, and the
    /// result reports exactly the intervals that failed, in interval order.
    /// No transaction topic exists on this service, so nothing else is
    /// published.
    #[verifier::rlimit(100)]
    pub fn process_transaction(&mut self, t: &Transaction) -> (r: Result<(), ProcessError>)
        requires
            old(self).wf(),
        ensures
            final(self).wf(),
            final(self).inner().capacity_spec() == old(self).inner().capacity_spec(),
            forall|s: Subscription| #[trigger]
                final(self).inner().sub_active(s) == old(self).inner().sub_active(s),
            final(self).inner().keys() == spec_after_all(old(self).inner().keys(), *t),
            final(self).inner().feed() == old(self).inner().feed() + spec_emitted_all(
                old(self).inner().keys(),
                *t,
            ),
            r is Ok <==> spec_failures_all(old(self).inner().keys(), *t).len() == 0,
            r matches Err(p) ==> p.failures@ == spec_failures_all(old(self).inner().keys(), *t),
            crate::engine::queues_advanced(
                old(self).inner(),
                final(self).inner(),
                final(self).inner().feed().len() - old(self).inner().feed().len(),
            ),
    {
        let failures = self.engine.process_all(t);
        if failures.is_empty() {
            proof {
                assert(failures@ =~= spec_failures_all(old(self).inner().keys(), *t));
            }
            Ok(())
        } else {
            proof {
                assert(failures@ =~= spec_failures_all(old(self).inner().keys(), *t));
            }
            Err(ProcessError { failures })
        }
    }
}

} // verus!
