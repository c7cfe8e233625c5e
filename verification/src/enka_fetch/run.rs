//! One run of the worker pool as a state machine: the workers claim the
//! identifiers of the batch one by one, each claim is fetched through a
//! proxy or over the paced direct path, and every record that a fetch
//! gives passes through the delivery queue to the sink.
//!
//! The steps of the machine are the short moments in which the workers
//! touch what they share. Waiting and fetching happen between two steps,
//! outside the machine.
use std::collections::VecDeque;
use vstd::multiset::Multiset;
use vstd::prelude::*;
use crate::enka_fetch::breaker::{direct_delay, Breaker, DirectPace};
use crate::enka_fetch::pool::{
    clamped_threshold, picked, saturating_sum, succeeds, wait_until, ProxyPool,
};
use crate::enka_fetch::protocol::FetchResult;
use crate::enka_fetch::{jitter_within, worker_count, worker_total, Settings};

verus! {

broadcast use vstd::multiset::group_multiset_axioms;

/// What a worker is doing.
#[derive(Debug, Clone, Copy, PartialEq, Eq)]
pub enum WorkerState {
    /// Between two fetches.
    Idle,
    /// Fetching `uid`, through the pool entry `proxy` where there is one.
    Busy { uid: u64, proxy: Option<usize> },
    /// Done for this run.
    Exited,
}

/// One worker of a run.
#[derive(Debug, Clone, Copy, PartialEq, Eq)]
pub struct Worker {
    /// Where this worker's next scan of the pool begins.
    pub hint: usize,
    pub state: WorkerState,
}

/// What a worker has to do next.
#[derive(Debug, Clone, PartialEq, Eq)]
pub enum Step {
    /// Wait `wait_ms`, then fetch `uid`, through the proxy where one is
    /// named and directly where none is.
    Dispatch {
        uid: u64,
        proxy: Option<usize>,
        proxy_url: Option<String>,
        wait_ms: u64,
        /// The slack that was drawn for the window after this dispatch.
        jitter_ms: u64,
    },
    /// Leave the run.
    Exit,
}

/// The state that the workers and the sink of one run share.
pub struct Run {
    /// The batch.
    pub uids: Vec<u64>,
    /// How many identifiers of the batch have been claimed.
    pub cursor: usize,
    /// The proxies; empty on the direct path.
    pub pool: ProxyPool,
    pub pace: DirectPace,
    pub breaker: Breaker,
    pub workers: Vec<Worker>,
    /// The records on their way to the sink, oldest first.
    pub queue: VecDeque<FetchResult>,
    /// The identifiers of the records that the sink has emitted, in the
    /// order of emission.
    pub emitted: Ghost<Seq<u64>>,
    /// The identifiers that were claimed when no proxy was left.
    pub dropped: Ghost<Seq<u64>>,
}

/// The identifiers that the workers are fetching.
pub open spec fn in_flight(workers: Seq<Worker>) -> Multiset<u64>
    decreases workers.len(),
{
    if workers.len() == 0 {
        Multiset::empty()
    } else {
        in_flight(workers.drop_last()).add(claim_of(workers.last()))
    }
}

/// The identifier that one worker is fetching, if any.
pub open spec fn claim_of(worker: Worker) -> Multiset<u64> {
    match worker.state {
        WorkerState::Busy { uid, .. } => Multiset::singleton(uid),
        _ => Multiset::empty(),
    }
}

/// The identifiers of a sequence of records.
pub open spec fn uids_in(records: Seq<FetchResult>) -> Seq<u64> {
    records.map_values(|r: FetchResult| r.uid)
}

/// The hint after the entry `index` of a pool of `n` was selected: the
/// entry after it, round the pool.
pub open spec fn hint_after(index: int, n: int) -> int {
    if index + 1 < n {
        index + 1
    } else {
        0
    }
}

/// The worker `w` with another state.
pub open spec fn in_state(w: Worker, state: WorkerState) -> Worker {
    Worker { state, ..w }
}

impl Run {
    /// Whether the run goes through proxies.
    pub open spec fn pooled(&self) -> bool {
        self.pool.entries.len() > 0
    }

    /// Every identifier claimed so far is in exactly one place: emitted,
    /// in the queue, being fetched, or dropped for want of a proxy.
    pub open spec fn accounted(&self) -> bool {
        self.emitted@.to_multiset().add(uids_in(self.queue@).to_multiset()).add(
            in_flight(self.workers@),
        ).add(self.dropped@.to_multiset()) == self.uids@.take(self.cursor as int).to_multiset()
    }

    /// What holds of a run from its start on: the cursor stays within the
    /// batch, the pool is well formed, the direct path has one worker,
    /// every worker that is out on a fetch went through an entry of the
    /// pool or over the direct path, and every claim is accounted for.
    pub open spec fn wf(&self) -> bool {
        &&& self.cursor <= self.uids.len()
        &&& self.pool.wf()
        &&& !self.pooled() ==> self.workers.len() == 1
        &&& forall|w: int|
            0 <= w < self.workers.len() ==> match (#[trigger] self.workers[w]).state {
                WorkerState::Busy { uid, proxy: Some(i) } => i < self.pool.entries.len(),
                WorkerState::Busy { uid, proxy: None } => !self.pooled(),
                _ => true,
            }
        &&& self.accounted()
    }

    /// Whether the worker leaves without a claim: it has left before, the
    /// breaker has tripped, or the batch is used up.
    pub open spec fn halted(&self, worker: int) -> bool {
        self.workers[worker].state is Exited || self.breaker.stop || self.cursor
            >= self.uids.len()
    }

    /// Whether `worker` is a worker of the run that is not out on a fetch,
    /// so that its next step may be taken.
    pub open spec fn idle(&self, worker: usize) -> bool {
        worker < self.workers.len() && !(self.workers[worker as int].state is Busy)
    }

    /// Whether `worker` is out on the fetch of `uid`, through a proxy of
    /// the pool or over the direct path.
    pub open spec fn awaits(&self, worker: usize, uid: u64) -> bool {
        &&& worker < self.workers.len()
        &&& match self.workers[worker as int].state {
            WorkerState::Busy { uid: claimed, proxy: Some(i) } => claimed == uid && i
                < self.pool.entries.len(),
            WorkerState::Busy { uid: claimed, proxy: None } => claimed == uid,
            _ => false,
        }
    }

    /// No worker is fetching and the queue is empty.
    pub open spec fn quiet(&self) -> bool {
        &&& self.queue@.len() == 0
        &&& forall|w: int| 0 <= w < self.workers.len() ==> !((#[trigger] self.workers[w]).state is Busy)
    }

    /// A run over `uids` that starts at `now`, with nothing claimed yet.
    /// It has one worker where the settings name no proxy.
    pub fn new(settings: &Settings, uids: Vec<u64>, now: u64) -> (r: Run)
        ensures
            r.wf(),
            r.uids == uids,
            r.cursor == 0,
            r.pool.entries.len() == settings.proxy_urls.len(),
            forall|i: int|
                0 <= i < settings.proxy_urls.len() ==> (#[trigger] r.pool.entries[i]).url@
                    == settings.proxy_urls[i]@ && !r.pool.entries[i].disabled
                    && r.pool.entries[i].consecutive_fails == 0 && r.pool.entries[i].next_at == now,
            r.pool.delay_ms == settings.delay_ms,
            r.pool.jitter_ms == settings.jitter_ms,
            r.pool.max_consecutive_fails == clamped_threshold(settings.proxy_max_consecutive_fails),
            r.pace == (DirectPace {
                next_at: now,
                delay_ms: direct_delay(settings.no_proxy_delay_ms, settings.delay_ms),
                jitter_ms: settings.jitter_ms,
            }),
            r.breaker == (Breaker {
                consecutive_fails: 0,
                stop: false,
                max_consecutive_fails: clamped_threshold(settings.breaker_max_consecutive_fails),
                on_429: settings.breaker_on_429,
            }),
            r.workers.len() == worker_total(settings.concurrency, settings.proxy_urls.len() as nat),
            settings.proxy_urls.len() == 0 ==> r.workers.len() == 1,
            forall|w: int|
                0 <= w < r.workers.len() ==> #[trigger] r.workers[w] == (Worker {
                    hint: w as usize,
                    state: WorkerState::Idle,
                }),
            r.queue@.len() == 0,
            r.emitted@.len() == 0,
            r.dropped@.len() == 0,
    {
        let pool = ProxyPool::new(
            &settings.proxy_urls,
            now,
            settings.delay_ms,
            settings.jitter_ms,
            settings.proxy_max_consecutive_fails,
        );
        let total = worker_count(settings.concurrency, settings.proxy_urls.len());
        let mut workers: Vec<Worker> = Vec::new();
        let mut w: usize = 0;
        while w < total
            invariant
                w <= total,
                workers.len() == w,
                forall|k: int|
                    0 <= k < w ==> #[trigger] workers[k] == (Worker {
                        hint: k as usize,
                        state: WorkerState::Idle,
                    }),
                in_flight(workers@) == Multiset::<u64>::empty(),
            decreases total - w,
        {
            let ghost before = workers@;
            workers.push(Worker { hint: w, state: WorkerState::Idle });
            w += 1;
            proof {
                assert(workers@.drop_last() =~= before);
                assert(in_flight(workers@) =~= Multiset::<u64>::empty());
            }
        }
        let r = Run {
            uids,
            cursor: 0,
            pool,
            pace: DirectPace::new(now, settings.no_proxy_delay_ms, settings.delay_ms, settings.jitter_ms),
            breaker: Breaker::new(settings.breaker_max_consecutive_fails, settings.breaker_on_429),
            workers,
            queue: VecDeque::new(),
            emitted: Ghost(Seq::empty()),
            dropped: Ghost(Seq::empty()),
        };
        proof {
            broadcast use vstd::seq_lib::group_to_multiset_ensures;

            assert(uids_in(r.queue@) =~= Seq::<u64>::empty());
            assert(r.uids@.take(0) =~= Seq::<u64>::empty());
            assert(r.emitted@.to_multiset().add(uids_in(r.queue@).to_multiset()).add(
                in_flight(r.workers@),
            ).add(r.dropped@.to_multiset()) =~= r.uids@.take(0).to_multiset());
        }
        r
    }
}

/// Giving one worker another state changes what is in flight by that
/// worker's claim alone.
pub proof fn lemma_in_flight_update(workers: Seq<Worker>, i: int, w: Worker)
    requires
        0 <= i < workers.len(),
    ensures
        forall|uid: u64|
            #[trigger] in_flight(workers.update(i, w)).count(uid) + claim_of(workers[i]).count(uid)
                == in_flight(workers).count(uid) + claim_of(w).count(uid),
    decreases workers.len(),
{
    let changed = workers.update(i, w);
    assert(in_flight(changed) == in_flight(changed.drop_last()).add(claim_of(changed.last())));
    assert(in_flight(workers) == in_flight(workers.drop_last()).add(claim_of(workers.last())));
    if i == workers.len() - 1 {
        assert(changed.drop_last() =~= workers.drop_last());
    } else {
        assert(changed.drop_last() =~= workers.drop_last().update(i, w));
        lemma_in_flight_update(workers.drop_last(), i, w);
        assert(workers.drop_last()[i] == workers[i]);
    }
}

/// Where no worker is fetching, nothing is in flight.
pub proof fn lemma_in_flight_none(workers: Seq<Worker>)
    requires
        forall|w: int| 0 <= w < workers.len() ==> !((#[trigger] workers[w]).state is Busy),
    ensures
        in_flight(workers) == Multiset::<u64>::empty(),
    decreases workers.len(),
{
    if workers.len() > 0 {
        let init = workers.drop_last();
        assert forall|w: int| 0 <= w < init.len() implies !((#[trigger] init[w]).state is Busy) by {
            assert(init[w] == workers[w]);
        }
        lemma_in_flight_none(init);
        assert(in_flight(workers) =~= Multiset::<u64>::empty());
    }
}

proof fn lemma_take_next(uids: Seq<u64>, cursor: int)
    requires
        0 <= cursor < uids.len(),
    ensures
        uids.take(cursor + 1).to_multiset() == uids.take(cursor).to_multiset().insert(uids[cursor]),
{
    broadcast use vstd::seq_lib::group_to_multiset_ensures;

    assert(uids.take(cursor + 1) =~= uids.take(cursor).push(uids[cursor]));
}

proof fn lemma_queue_push(queue: Seq<FetchResult>, record: FetchResult)
    ensures
        uids_in(queue.push(record)).to_multiset() == uids_in(queue).to_multiset().insert(
            record.uid,
        ),
{
    broadcast use vstd::seq_lib::group_to_multiset_ensures;

    assert(uids_in(queue.push(record)) =~= uids_in(queue).push(record.uid));
}

proof fn lemma_queue_pop(queue: Seq<FetchResult>)
    requires
        queue.len() > 0,
    ensures
        uids_in(queue).to_multiset() == uids_in(queue.subrange(1, queue.len() as int)).to_multiset().insert(
            queue[0].uid,
        ),
{
    broadcast use vstd::seq_lib::group_to_multiset_ensures;

    let ids = uids_in(queue);
    assert(uids_in(queue.subrange(1, queue.len() as int)) =~= ids.remove(0));
    vstd::seq_lib::to_multiset_remove(ids, 0);
    assert(ids.to_multiset() =~= ids.remove(0).to_multiset().insert(ids[0]));
}

impl Run {
    /// The worker's next step, taken at `now`. A worker that finds the
    /// breaker tripped or the batch used up leaves. Otherwise it claims
    /// the next identifier and reserves its dispatch: through the first
    /// proxy in use from its hint on, or over the direct path. A worker
    /// that finds no proxy in use leaves, and its claim is dropped.
    pub fn begin(&mut self, worker: usize, now: u64) -> (step: Step)
        requires
            old(self).idle(worker),
        ensures
            old(self).wf() ==> final(self).wf(),
            final(self).uids == old(self).uids,
            final(self).queue == old(self).queue,
            final(self).emitted == old(self).emitted,
            final(self).breaker == old(self).breaker,
            final(self).workers.len() == old(self).workers.len(),
            forall|w: int|
                0 <= w < old(self).workers.len() && w != worker ==> final(self).workers[w] == old(
                    self,
                ).workers[w],
            final(self).workers[worker as int].state is Busy <==> step is Dispatch,
            step matches Step::Dispatch { proxy: Some(i), .. } ==> i < old(self).pool.entries.len()
                && !old(self).pool.entries[i as int].disabled && (old(self).wf() ==> old(
                self,
            ).pool.entries[i as int].consecutive_fails < old(self).pool.max_consecutive_fails),
            final(self).workers[worker as int].state is Exited <==> step is Exit,
            final(self).pool.delay_ms == old(self).pool.delay_ms,
            final(self).pool.jitter_ms == old(self).pool.jitter_ms,
            final(self).pool.max_consecutive_fails == old(self).pool.max_consecutive_fails,
            succeeds(final(self).pool.entries@, old(self).pool.entries@),
            old(self).halted(worker as int) ==> {
                &&& step is Exit
                &&& final(self).cursor == old(self).cursor
                &&& final(self).pool == old(self).pool
                &&& final(self).pace == old(self).pace
                &&& final(self).dropped == old(self).dropped
                &&& final(self).workers[worker as int].hint == old(self).workers[worker as int].hint
            },
            !old(self).halted(worker as int) ==> final(self).cursor == old(self).cursor + 1,
            !old(self).halted(worker as int) && !old(self).pooled() ==> {
                &&& step matches Step::Dispatch { uid, proxy, proxy_url, wait_ms, jitter_ms }
                &&& uid == old(self).uids[old(self).cursor as int]
                &&& proxy is None
                &&& proxy_url is None
                &&& wait_ms == wait_until(old(self).pace.next_at, now)
                &&& jitter_within(jitter_ms, old(self).pace.jitter_ms)
                &&& final(self).pace == old(self).pace.reserved(now, jitter_ms)
                &&& final(self).pool == old(self).pool
                &&& final(self).dropped == old(self).dropped
                &&& final(self).workers[worker as int] == (Worker {
                    hint: old(self).workers[worker as int].hint,
                    state: WorkerState::Busy { uid, proxy: None },
                })
            },
            !old(self).halted(worker as int) && old(self).pooled() ==> final(self).pace == old(
                self,
            ).pace && match picked(old(self).pool.entries@, old(self).workers[worker as int].hint) {
                None => {
                    &&& step is Exit
                    &&& final(self).pool == old(self).pool
                    &&& final(self).dropped@ == old(self).dropped@.push(
                        old(self).uids[old(self).cursor as int],
                    )
                    &&& final(self).workers[worker as int].hint == old(self).workers[worker as int].hint
                },
                Some(i) => {
                    &&& step matches Step::Dispatch { uid, proxy, proxy_url, wait_ms, jitter_ms }
                    &&& uid == old(self).uids[old(self).cursor as int]
                    &&& proxy == Some(i as usize)
                    &&& proxy_url matches Some(url)
                    &&& url@ == old(self).pool.entries[i].url@
                    &&& wait_ms == wait_until(old(self).pool.entries[i].next_at, now)
                    &&& jitter_within(jitter_ms, old(self).pool.jitter_ms)
                    &&& final(self).pool.entries@ == old(self).pool.entries@.update(
                        i,
                        old(self).pool.entries[i].reserved(
                            now,
                            saturating_sum(old(self).pool.delay_ms, jitter_ms),
                        ),
                    )
                    &&& final(self).dropped == old(self).dropped
                    &&& final(self).workers[worker as int] == (Worker {
                        hint: hint_after(i, old(self).pool.entries.len() as int) as usize,
                        state: WorkerState::Busy { uid, proxy: Some(i as usize) },
                    })
                },
            },
    {
        let ghost before = self.workers@;
        let halted = match self.workers[worker].state {
            WorkerState::Exited => true,
            _ => self.breaker.stop || self.cursor >= self.uids.len(),
        };
        if halted {
            self.workers[worker].state = WorkerState::Exited;
            proof {
                assert(self.workers@ =~= before.update(
                    worker as int,
                    in_state(before[worker as int], WorkerState::Exited),
                ));
                lemma_in_flight_update(
                    before,
                    worker as int,
                    in_state(before[worker as int], WorkerState::Exited),
                );
                assert(in_flight(self.workers@) =~= in_flight(before));
            }
            return Step::Exit;
        }
        let uid = self.uids[self.cursor];
        proof {
            lemma_take_next(self.uids@, self.cursor as int);
        }
        self.cursor = self.cursor + 1;
        if self.pool.entries.len() > 0 {
            let n = self.pool.entries.len();
            let hint = self.workers[worker].hint;
            match self.pool.acquire(hint, now) {
                None => {
                    self.workers[worker].state = WorkerState::Exited;
                    self.dropped = Ghost(self.dropped@.push(uid));
                    proof {
                        broadcast use vstd::seq_lib::group_to_multiset_ensures;

                        let exited = in_state(before[worker as int], WorkerState::Exited);
                        assert(self.workers@ =~= before.update(worker as int, exited));
                        lemma_in_flight_update(before, worker as int, exited);
                        assert(in_flight(self.workers@) =~= in_flight(before));
                        if old(self).wf() {
                            assert(self.emitted@.to_multiset().add(
                                uids_in(self.queue@).to_multiset(),
                            ).add(in_flight(self.workers@)).add(self.dropped@.to_multiset())
                                =~= self.uids@.take(self.cursor as int).to_multiset());
                        }
                    }
                    Step::Exit
                },
                Some(lease) => {
                    let next_hint: usize = if lease.index + 1 < n {
                        lease.index + 1
                    } else {
                        0
                    };
                    self.workers[worker].hint = next_hint;
                    self.workers[worker].state = WorkerState::Busy {
                        uid,
                        proxy: Some(lease.index),
                    };
                    proof {
                        let busy = Worker {
                            hint: next_hint,
                            state: WorkerState::Busy { uid, proxy: Some(lease.index) },
                        };
                        assert(self.workers@ =~= before.update(worker as int, busy));
                        lemma_in_flight_update(before, worker as int, busy);
                        assert(in_flight(self.workers@) =~= in_flight(before).insert(uid));
                        if old(self).wf() {
                            assert(self.emitted@.to_multiset().add(
                                uids_in(self.queue@).to_multiset(),
                            ).add(in_flight(self.workers@)).add(self.dropped@.to_multiset())
                                =~= self.uids@.take(self.cursor as int).to_multiset());
                        }
                    }
                    Step::Dispatch {
                        uid,
                        proxy: Some(lease.index),
                        proxy_url: Some(lease.url),
                        wait_ms: lease.wait_ms,
                        jitter_ms: lease.jitter_ms,
                    }
                },
            }
        } else {
            let (wait_ms, jitter_ms) = self.pace.pace(now);
            self.workers[worker].state = WorkerState::Busy { uid, proxy: None };
            proof {
                let busy = in_state(before[worker as int], WorkerState::Busy { uid, proxy: None });
                assert(self.workers@ =~= before.update(worker as int, busy));
                lemma_in_flight_update(before, worker as int, busy);
                assert(in_flight(self.workers@) =~= in_flight(before).insert(uid));
                if old(self).wf() {
                    assert(self.emitted@.to_multiset().add(uids_in(self.queue@).to_multiset()).add(
                        in_flight(self.workers@),
                    ).add(self.dropped@.to_multiset()) =~= self.uids@.take(
                        self.cursor as int,
                    ).to_multiset());
                }
            }
            Step::Dispatch { uid, proxy: None, proxy_url: None, wait_ms, jitter_ms }
        }
    }
}

/// The record as it is handed to the sink: with the word of the pool on
/// whether the fetch took its proxy out of use.
pub open spec fn delivered(result: FetchResult, proxy_disabled: Option<bool>) -> FetchResult {
    FetchResult { proxy_disabled, ..result }
}

impl Run {
    /// Takes in the record of the fetch that the worker was sent on. The
    /// result is held against the proxy that carried it, or against the
    /// breaker on the direct path, and the record joins the queue whatever
    /// the result was.
    pub fn complete(&mut self, worker: usize, result: FetchResult)
        requires
            old(self).awaits(worker, result.uid),
        ensures
            old(self).wf() ==> final(self).wf(),
            final(self).uids == old(self).uids,
            final(self).cursor == old(self).cursor,
            final(self).pace == old(self).pace,
            final(self).emitted == old(self).emitted,
            final(self).dropped == old(self).dropped,
            final(self).workers@ == old(self).workers@.update(
                worker as int,
                in_state(old(self).workers[worker as int], WorkerState::Idle),
            ),
            final(self).pool.delay_ms == old(self).pool.delay_ms,
            final(self).pool.jitter_ms == old(self).pool.jitter_ms,
            final(self).pool.max_consecutive_fails == old(self).pool.max_consecutive_fails,
            succeeds(final(self).pool.entries@, old(self).pool.entries@),
            old(self).breaker.stop ==> final(self).breaker.stop,
            match old(self).workers[worker as int].state->proxy {
                Some(i) => {
                    &&& final(self).pool.entries@ == old(self).pool.entries@.update(
                        i as int,
                        old(self).pool.entries[i as int].settled(
                            result.ok,
                            result.status,
                            result.is_html,
                            old(self).pool.max_consecutive_fails,
                        ),
                    )
                    &&& final(self).breaker == old(self).breaker
                    &&& final(self).queue@ == old(self).queue@.push(
                        delivered(
                            result,
                            if old(self).pool.entries[i as int].disabling(
                                result.ok,
                                result.status,
                                result.is_html,
                                old(self).pool.max_consecutive_fails,
                            ) {
                                Some(true)
                            } else {
                                None
                            },
                        ),
                    )
                },
                None => {
                    &&& final(self).pool == old(self).pool
                    &&& final(self).breaker == old(self).breaker.recorded(result.ok, result.status)
                    &&& final(self).queue@ == old(self).queue@.push(result)
                },
            },
    {
        let ghost before = self.workers@;
        let ghost queued = self.queue@;
        let mut record = result;
        match self.workers[worker].state {
            WorkerState::Busy { uid, proxy: Some(i) } => {
                record.proxy_disabled = self.pool.settle(
                    i,
                    record.ok,
                    record.status,
                    record.is_html,
                );
            },
            _ => {
                self.breaker.record(record.ok, record.status);
            },
        }
        self.workers[worker].state = WorkerState::Idle;
        proof {
            let idle = in_state(before[worker as int], WorkerState::Idle);
            assert(self.workers@ =~= before.update(worker as int, idle));
            lemma_in_flight_update(before, worker as int, idle);
            lemma_queue_push(queued, record);
            if old(self).wf() {
                assert(self.emitted@.to_multiset().add(uids_in(queued.push(record)).to_multiset()).add(
                    in_flight(self.workers@),
                ).add(self.dropped@.to_multiset()) =~= self.uids@.take(self.cursor as int).to_multiset());
            }
        }
        self.queue.push_back(record);
    }

    /// Hands the oldest record in the queue to the sink; `None` when the
    /// queue is empty.
    pub fn emit(&mut self) -> (r: Option<FetchResult>)
        ensures
            old(self).wf() ==> final(self).wf(),
            final(self).uids == old(self).uids,
            final(self).cursor == old(self).cursor,
            final(self).pool == old(self).pool,
            final(self).pace == old(self).pace,
            final(self).breaker == old(self).breaker,
            final(self).workers == old(self).workers,
            final(self).dropped == old(self).dropped,
            match r {
                Some(record) => {
                    &&& old(self).queue@.len() > 0
                    &&& record == old(self).queue@[0]
                    &&& final(self).queue@ == old(self).queue@.drop_first()
                    &&& final(self).emitted@ == old(self).emitted@.push(record.uid)
                },
                None => {
                    &&& old(self).queue@.len() == 0
                    &&& final(self).queue@ == old(self).queue@
                    &&& final(self).emitted == old(self).emitted
                },
            },
    {
        let ghost queued = self.queue@;
        match self.queue.pop_front() {
            Some(record) => {
                self.emitted = Ghost(self.emitted@.push(record.uid));
                proof {
                    broadcast use vstd::seq_lib::group_to_multiset_ensures;

                    lemma_queue_pop(queued);
                    assert(self.queue@ =~= queued.drop_first());
                    if old(self).wf() {
                        assert(self.emitted@.to_multiset().add(uids_in(self.queue@).to_multiset()).add(
                            in_flight(self.workers@),
                        ).add(self.dropped@.to_multiset()) =~= self.uids@.take(
                            self.cursor as int,
                        ).to_multiset());
                    }
                }
                Some(record)
            },
            None => None,
        }
    }

    /// Whether the run goes through proxies.
    pub fn is_pooled(&self) -> (r: bool)
        ensures
            r == self.pooled(),
    {
        self.pool.entries.len() > 0
    }

    /// How many records wait in the queue.
    pub fn pending(&self) -> (r: usize)
        ensures
            r == self.queue@.len(),
    {
        self.queue.len()
    }

    /// Whether the next step of `worker` may be taken.
    pub fn is_idle(&self, worker: usize) -> (r: bool)
        ensures
            r == self.idle(worker),
    {
        if worker >= self.workers.len() {
            return false;
        }
        match self.workers[worker].state {
            WorkerState::Busy { .. } => false,
            _ => true,
        }
    }

    /// Whether the record of the fetch of `uid` may be taken in from
    /// `worker`.
    pub fn is_awaited(&self, worker: usize, uid: u64) -> (r: bool)
        ensures
            r == self.awaits(worker, uid),
    {
        if worker >= self.workers.len() {
            return false;
        }
        match self.workers[worker].state {
            WorkerState::Busy { uid: claimed, proxy: Some(i) } => claimed == uid && i
                < self.pool.entries.len(),
            WorkerState::Busy { uid: claimed, proxy: None } => claimed == uid,
            _ => false,
        }
    }
}

/// When every identifier of the batch was claimed, none was dropped for
/// want of a proxy, no worker is fetching and the queue is empty, the sink
/// has emitted one record for each identifier of the batch: the emitted
/// identifiers are the batch in some order, each as often as it stands in
/// the batch.
pub proof fn lemma_every_identifier_emitted_once(run: Run)
    requires
        run.wf(),
        run.cursor == run.uids.len(),
        run.dropped@.len() == 0,
        run.quiet(),
    ensures
        run.emitted@.to_multiset() == run.uids@.to_multiset(),
        run.emitted@.len() == run.uids.len(),
        run.uids@.no_duplicates() ==> run.emitted@.no_duplicates(),
{
    broadcast use vstd::seq_lib::group_to_multiset_ensures;

    lemma_in_flight_none(run.workers@);
    assert(uids_in(run.queue@) =~= Seq::<u64>::empty());
    assert(run.dropped@ =~= Seq::<u64>::empty());
    assert(run.uids@.take(run.cursor as int) =~= run.uids@);
    assert(run.emitted@.to_multiset() =~= run.uids@.to_multiset());
    vstd::seq_lib::to_multiset_len(run.emitted@);
    vstd::seq_lib::to_multiset_len(run.uids@);
    if run.uids@.no_duplicates() {
        run.uids@.lemma_multiset_has_no_duplicates();
        run.emitted@.lemma_multiset_has_no_duplicates_conv();
    }
}

/// At every moment of a run, no identifier has been emitted more often
/// than it stands in the batch.
pub proof fn lemma_never_emitted_twice(run: Run, uid: u64)
    requires
        run.wf(),
    ensures
        run.emitted@.to_multiset().count(uid) <= run.uids@.to_multiset().count(uid),
{
    broadcast use vstd::seq_lib::group_to_multiset_ensures;

    let claimed = run.uids@.take(run.cursor as int);
    let rest = run.uids@.skip(run.cursor as int);
    assert(claimed + rest =~= run.uids@);
    vstd::seq_lib::lemma_multiset_commutative(claimed, rest);
    assert(run.emitted@.to_multiset().add(uids_in(run.queue@).to_multiset()).add(
        in_flight(run.workers@),
    ).add(run.dropped@.to_multiset()).count(uid) == claimed.to_multiset().count(uid));
}

} // verus!
