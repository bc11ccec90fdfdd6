//! The primary data service: the aggregation engine plus a second topic
//! that fans every ingested transaction out to its own subscribers.

use vstd::prelude::*;

use crate::engine::{
    lemma_transaction_exact_clone, queues_advanced, spec_after_all, spec_emitted_all,
    spec_failures_all, spec_query, Engine, KeyView, ProcessError,
};
use crate::hub::{hub_queues_advanced, Hub, RecvOutcome, Subscription};
use crate::kline::{spec_interval_from_code, KLine, KLineInterval};
use crate::query::{spec_effective_limit, KLineQuery, ValidationError};
use crate::transaction::Transaction;

verus! {

/// Queue bound of both of this service's topics.
pub const DATA_SERVICE_CAPACITY: usize = 1000;

/// The aggregation engine together with a transaction topic: trades are
/// fanned out to transaction subscribers, then aggregated, with every
/// bucket update fanned out to kline subscribers.
pub struct DataService {
    engine: Engine,
    transactions: Hub<Transaction>,
}

impl DataService {
    /// The underlying aggregation engine, as a mathematical value.
    pub closed spec fn inner(self) -> Engine {
        self.engine
    }

    /// The transaction topic, as a mathematical value.
    pub closed spec fn tx_topic(self) -> Hub<Transaction> {
        self.transactions
    }

    pub open spec fn wf(self) -> bool {
        &&& self.inner().wf()
        &&& self.tx_topic().wf()
    }

    /// A fresh service: no keys, nothing published on either topic, no
    /// subscribers.
    pub fn new() -> (r: DataService)
        ensures
            r.wf(),
            r.inner().keys() =~= Map::<(Seq<char>, KLineInterval), KeyView>::empty(),
            r.inner().feed() =~= Seq::<KLine>::empty(),
            r.inner().capacity_spec() == DATA_SERVICE_CAPACITY,
            r.tx_topic().published() =~= Seq::<Transaction>::empty(),
            r.tx_topic().capacity_spec() == DATA_SERVICE_CAPACITY,
            forall|s: Subscription| !r.inner().sub_active(s),
            forall|s: Subscription| !r.tx_topic().is_active(s),
    {
        DataService {
            engine: Engine::new(DATA_SERVICE_CAPACITY),
            transactions: Hub::new(DATA_SERVICE_CAPACITY),
        }
    }

    /// Registers a subscriber on the kline topic; it observes only klines
    /// published after this call. The transaction topic is untouched.
    pub fn subscribe(&mut self) -> (s: Subscription)
        requires
            old(self).wf(),
        ensures
            final(self).wf(),
            final(self).tx_topic() == old(self).tx_topic(),
            final(self).inner().keys() == old(self).inner().keys(),
            final(self).inner().feed() == old(self).inner().feed(),
            final(self).inner().capacity_spec() == old(self).inner().capacity_spec(),
            !old(self).inner().sub_active(s),
            final(self).inner().sub_active(s),
            final(self).inner().sub_queue(s) =~= Seq::<KLine>::empty(),
            !final(self).inner().sub_lagged(s),
            forall|s2: Subscription|
                s2.id != s.id ==> #[trigger] final(self).inner().sub_active(s2) == old(
                    self).inner().sub_active(s2),
            forall|s2: Subscription|
                s2.id != s.id && old(self).inner().sub_active(s2) ==> #[trigger] final(
                    self).inner().sub_queue(s2) == old(self).inner().sub_queue(s2) && final(
                    self).inner().sub_lagged(s2) == old(self).inner().sub_lagged(s2),
    {
        self.engine.subscribe()
    }

    /// Registers a subscriber on the transaction topic; it observes only
    /// transactions published after this call. The kline topic and the
    /// aggregation state are untouched.
    pub fn subscribe_transactions(&mut self) -> (s: Subscription)
        requires
            old(self).wf(),
        ensures
            final(self).wf(),
            final(self).inner() == old(self).inner(),
            final(self).tx_topic().published() == old(self).tx_topic().published(),
            final(self).tx_topic().capacity_spec() == old(self).tx_topic().capacity_spec(),
            !old(self).tx_topic().is_active(s),
            final(self).tx_topic().is_active(s),
            final(self).tx_topic().queue(s) =~= Seq::<Transaction>::empty(),
            !final(self).tx_topic().lagged(s),
            forall|s2: Subscription|
                s2.id != s.id ==> #[trigger] final(self).tx_topic().is_active(s2) == old(
                    self).tx_topic().is_active(s2),
            forall|s2: Subscription|
                s2.id != s.id && old(self).tx_topic().is_active(s2) ==> #[trigger] final(
                    self).tx_topic().queue(s2) == old(self).tx_topic().queue(s2) && final(
                    self).tx_topic().lagged(s2) == old(self).tx_topic().lagged(s2),
    {
        self.transactions.subscribe()
    }

    /// Hands a kline subscriber its oldest unread message, reporting a lag
    /// once before the surviving messages.
    pub fn recv_kline(&mut self, s: Subscription) -> (r: RecvOutcome<KLine>)
        requires
            old(self).wf(),
        ensures
            final(self).wf(),
            final(self).tx_topic() == old(self).tx_topic(),
            final(self).inner().keys() == old(self).inner().keys(),
            final(self).inner().feed() == old(self).inner().feed(),
            final(self).inner().capacity_spec() == old(self).inner().capacity_spec(),
            forall|s2: Subscription| #[trigger]
                final(self).inner().sub_active(s2) == old(self).inner().sub_active(s2),
            forall|s2: Subscription|
                s2.id != s.id && old(self).inner().sub_active(s2) ==> #[trigger] final(
                    self).inner().sub_queue(s2) == old(self).inner().sub_queue(s2) && final(
                    self).inner().sub_lagged(s2) == old(self).inner().sub_lagged(s2),
            !old(self).inner().sub_active(s) ==> r is Gone,
            old(self).inner().sub_active(s) && old(self).inner().sub_lagged(s) ==> r is Lagged
                && final(self).inner().sub_queue(s) == old(self).inner().sub_queue(s) && !final(
                self).inner().sub_lagged(s),
            old(self).inner().sub_active(s) && !old(self).inner().sub_lagged(s) && old(
                self).inner().sub_queue(s).len() == 0 ==> r is Empty && final(
                self).inner().sub_queue(s) == old(self).inner().sub_queue(s) && !final(
                self).inner().sub_lagged(s),
            old(self).inner().sub_active(s) && !old(self).inner().sub_lagged(s) && old(
                self).inner().sub_queue(s).len() > 0 ==> (r == RecvOutcome::<KLine>::Msg(
                old(self).inner().sub_queue(s)[0],
            ) && final(self).inner().sub_queue(s) == old(self).inner().sub_queue(s).drop_first()
                && !final(self).inner().sub_lagged(s)),
    {
        self.engine.recv(s)
    }

    /// Hands a transaction subscriber its oldest unread message, reporting a
    /// lag once before the surviving messages.
    pub fn recv_transaction(&mut self, s: Subscription) -> (r: RecvOutcome<Transaction>)
        requires
            old(self).wf(),
        ensures
            final(self).wf(),
            final(self).inner() == old(self).inner(),
            final(self).tx_topic().published() == old(self).tx_topic().published(),
            final(self).tx_topic().capacity_spec() == old(self).tx_topic().capacity_spec(),
            forall|s2: Subscription| #[trigger]
                final(self).tx_topic().is_active(s2) == old(self).tx_topic().is_active(s2),
            forall|s2: Subscription|
                s2.id != s.id && old(self).tx_topic().is_active(s2) ==> #[trigger] final(
                    self).tx_topic().queue(s2) == old(self).tx_topic().queue(s2) && final(
                    self).tx_topic().lagged(s2) == old(self).tx_topic().lagged(s2),
            !old(self).tx_topic().is_active(s) ==> r is Gone,
            old(self).tx_topic().is_active(s) && old(self).tx_topic().lagged(s) ==> r is Lagged
                && final(self).tx_topic().queue(s) == old(self).tx_topic().queue(s) && !final(
                self).tx_topic().lagged(s),
            old(self).tx_topic().is_active(s) && !old(self).tx_topic().lagged(s) && old(
                self).tx_topic().queue(s).len() == 0 ==> r is Empty && final(
                self).tx_topic().queue(s) == old(self).tx_topic().queue(s) && !final(
                self).tx_topic().lagged(s),
            old(self).tx_topic().is_active(s) && !old(self).tx_topic().lagged(s) && old(
                self).tx_topic().queue(s).len() > 0 ==> (r == RecvOutcome::<Transaction>::Msg(
                old(self).tx_topic().queue(s)[0],
            ) && final(self).tx_topic().queue(s) == old(self).tx_topic().queue(s).drop_first()
                && !final(self).tx_topic().lagged(s)),
    {
        self.transactions.recv(s)
    }

    /// Retires a kline subscriber and reclaims its queue.
    pub fn unsubscribe(&mut self, s: Subscription)
        requires
            old(self).wf(),
        ensures
            final(self).wf(),
            final(self).tx_topic() == old(self).tx_topic(),
            final(self).inner().keys() == old(self).inner().keys(),
            final(self).inner().feed() == old(self).inner().feed(),
            final(self).inner().capacity_spec() == old(self).inner().capacity_spec(),
            !final(self).inner().sub_active(s),
            forall|s2: Subscription|
                s2.id != s.id ==> #[trigger] final(self).inner().sub_active(s2) == old(
                    self).inner().sub_active(s2),
            forall|s2: Subscription|
                s2.id != s.id && old(self).inner().sub_active(s2) ==> #[trigger] final(
                    self).inner().sub_queue(s2) == old(self).inner().sub_queue(s2) && final(
                    self).inner().sub_lagged(s2) == old(self).inner().sub_lagged(s2),
    {
        self.engine.unsubscribe(s)
    }

    /// Retires a transaction subscriber and reclaims its queue.
    pub fn unsubscribe_transactions(&mut self, s: Subscription)
        requires
            old(self).wf(),
        ensures
            final(self).wf(),
            final(self).inner() == old(self).inner(),
            final(self).tx_topic().published() == old(self).tx_topic().published(),
            final(self).tx_topic().capacity_spec() == old(self).tx_topic().capacity_spec(),
            !final(self).tx_topic().is_active(s),
            forall|s2: Subscription|
                s2.id != s.id ==> #[trigger] final(self).tx_topic().is_active(s2) == old(
                    self).tx_topic().is_active(s2),
            forall|s2: Subscription|
                s2.id != s.id && old(self).tx_topic().is_active(s2) ==> #[trigger] final(
                    self).tx_topic().queue(s2) == old(self).tx_topic().queue(s2) && final(
                    self).tx_topic().lagged(s2) == old(self).tx_topic().lagged(s2),
    {
        self.transactions.unsubscribe(s)
    }

    /// Up to `limit` most recent closed klines of the key, oldest first; a
    /// key never seen yields the empty sequence, not an error.
    pub fn get_klines(&self, symbol: &str, interval: KLineInterval, limit: usize) -> (r: Vec<
        KLine,
    >)
        requires
            self.wf(),
        ensures
            r@ == spec_query(self.inner().keys(), symbol@, interval, limit as int),
    {
        self.engine.get_klines(symbol, interval, limit)
    }

    /// A copy of the key's open bucket, or `None` for a key never seen.
    pub fn current_kline(&self, symbol: &str, interval: KLineInterval) -> (r: Option<KLine>)
        requires
            self.wf(),
        ensures
            self.inner().keys().contains_key((symbol@, interval)) ==> r == Some(
                self.inner().keys()[(symbol@, interval)].current,
            ),
            !self.inner().keys().contains_key((symbol@, interval)) ==> r is None,
    {
        self.engine.current_kline(symbol, interval)
    }

    /// Validates a query and answers it: an unknown interval code is a
    /// validation error; an unknown symbol is an empty sequence.
    pub fn get_klines_query(&self, symbol: &str, query: &KLineQuery) -> (r: Result<
        Vec<KLine>,
        ValidationError,
    >)
        requires
            self.wf(),
        ensures
            spec_interval_from_code(query.interval@) is None ==> r == Err::<
                Vec<KLine>,
                ValidationError,
            >(ValidationError::UnknownInterval),
            spec_interval_from_code(query.interval@) matches Some(i) ==> r matches Ok(v) && v@
                == spec_query(
                self.inner().keys(),
                symbol@,
                i,
                spec_effective_limit(query.limit) as int,
            ),
    {
        match query.resolve() {
            Ok((interval, limit)) => Ok(self.engine.get_klines(symbol, interval, limit)),
            Err(e) => Err(e),
        }
    }

    /// Ingests one trade: first the transaction is fanned out on the
    /// transaction topic (best effort, never blocking), then every interval
    /// is aggregated independently. The result reports exactly the
    /// intervals that failed; the others were still processed.
    pub fn process_transaction(&mut self, t: &Transaction) -> (r: Result<(), ProcessError>)
        requires
            old(self).wf(),
        ensures
            final(self).wf(),
            final(self).tx_topic().published() == old(self).tx_topic().published().push(*t),
            final(self).tx_topic().capacity_spec() == old(self).tx_topic().capacity_spec(),
            forall|s: Subscription| #[trigger]
                final(self).tx_topic().is_active(s) == old(self).tx_topic().is_active(s),
            hub_queues_advanced(old(self).tx_topic(), final(self).tx_topic(), 1),
            final(self).inner().capacity_spec() == old(self).inner().capacity_spec(),
            forall|s: Subscription| #[trigger]
                final(self).inner().sub_active(s) == old(self).inner().sub_active(s),
            final(self).inner().keys() == spec_after_all(old(self).inner().keys(), *t),
            final(self).inner().feed() == old(self).inner().feed() + spec_emitted_all(
                old(self).inner().keys(),
                *t,
            ),
            r is Ok <==> spec_failures_all(old(self).inner().keys(), *t).len() == 0,
            r matches Err(p) ==> p.failures@ == spec_failures_all(old(self).inner().keys(), *t),
            queues_advanced(
                old(self).inner(),
                final(self).inner(),
                final(self).inner().feed().len() - old(self).inner().feed().len(),
            ),
    {
        proof {
            lemma_transaction_exact_clone();
        }
        self.transactions.publish(t);
        let failures = self.engine.process_all(t);
        if failures.is_empty() {
            Ok(())
        } else {
            Err(ProcessError { failures })
        }
    }
}

} // verus!
