//! The proxy pool: round-robin selection among the entries that are still
//! in use, the pacing of each entry, and the accounting of faults that
//! takes an entry out of use for the rest of the run.
use vstd::prelude::*;
use crate::enka_fetch::{jitter_within, rand_jitter_ms};

verus! {

/// The lowest and the highest fault threshold that a run works with.
pub const MIN_FAULT_THRESHOLD: usize = 1;

/// The highest fault threshold that a run works with.
pub const MAX_FAULT_THRESHOLD: usize = 200;

/// The status with which the data source turns a client away for asking
/// too often.
pub const TOO_MANY_REQUESTS: u16 = 429;

/// A threshold as configured, brought into `[1, 200]`.
pub open spec fn clamped_threshold(n: usize) -> usize {
    if n < MIN_FAULT_THRESHOLD {
        MIN_FAULT_THRESHOLD
    } else if n > MAX_FAULT_THRESHOLD {
        MAX_FAULT_THRESHOLD
    } else {
        n
    }
}

/// Brings a threshold as configured into `[1, 200]`.
pub fn fault_threshold(n: usize) -> (r: usize)
    ensures
        r == clamped_threshold(n),
        MIN_FAULT_THRESHOLD <= r <= MAX_FAULT_THRESHOLD,
{
    if n < MIN_FAULT_THRESHOLD {
        MIN_FAULT_THRESHOLD
    } else if n > MAX_FAULT_THRESHOLD {
        MAX_FAULT_THRESHOLD
    } else {
        n
    }
}

/// `a + b`, held at the end of the clock.
pub open spec fn saturating_sum(a: u64, b: u64) -> u64 {
    if a + b > u64::MAX {
        u64::MAX
    } else {
        (a + b) as u64
    }
}

/// How long a dispatch reserved at `now` has to wait for a window that
/// opens at `next_at`.
pub open spec fn wait_until(next_at: u64, now: u64) -> u64 {
    if next_at > now {
        (next_at - now) as u64
    } else {
        0
    }
}

/// The instant at which a dispatch reserved at `now` goes out.
pub open spec fn dispatch_time(next_at: u64, now: u64) -> u64 {
    if next_at > now {
        next_at
    } else {
        now
    }
}

/// One failure counted, held at the largest count.
pub open spec fn one_more(fails: usize) -> usize {
    if fails < usize::MAX {
        (fails + 1) as usize
    } else {
        fails
    }
}

/// A failed fetch is held against its proxy when nothing came back, when
/// the body was HTML, or when the status was 429.
pub open spec fn proxy_fault(ok: bool, status: Option<u16>, is_html: bool) -> bool {
    !ok && (status is None || is_html || status == Some(TOO_MANY_REQUESTS))
}

/// One proxy endpoint and what the run knows of it.
#[derive(Debug, Clone, PartialEq, Eq)]
pub struct ProxyState {
    pub url: String,
    /// Out of use. Never reverts.
    pub disabled: bool,
    pub consecutive_fails: usize,
    /// When the next dispatch through this proxy may go out, in
    /// milliseconds on the run's clock.
    pub next_at: u64,
}

impl ProxyState {
    /// The entry after a dispatch was reserved at `now`: its window moves
    /// to `now + interval`.
    pub open spec fn reserved(self, now: u64, interval: u64) -> ProxyState {
        ProxyState { next_at: saturating_sum(now, interval), ..self }
    }

    /// Whether a fetch with this result takes the entry out of use: a 429
    /// always does, another fault does once the count reaches `max_fails`.
    pub open spec fn disabling(
        self,
        ok: bool,
        status: Option<u16>,
        is_html: bool,
        max_fails: usize,
    ) -> bool {
        !ok && (status == Some(TOO_MANY_REQUESTS) || (proxy_fault(ok, status, is_html) && one_more(
            self.consecutive_fails,
        ) >= max_fails))
    }

    /// The entry after a fetch through it ended with this result.
    pub open spec fn settled(
        self,
        ok: bool,
        status: Option<u16>,
        is_html: bool,
        max_fails: usize,
    ) -> ProxyState {
        ProxyState {
            consecutive_fails: if ok {
                0
            } else if proxy_fault(ok, status, is_html) {
                one_more(self.consecutive_fails)
            } else {
                self.consecutive_fails
            },
            disabled: self.disabled || self.disabling(ok, status, is_html, max_fails),
            ..self
        }
    }

    /// An entry in use, with no fault held against it, whose window is
    /// open from `now`.
    pub fn new(url: String, now: u64) -> (r: ProxyState)
        ensures
            r == (ProxyState { url, disabled: false, consecutive_fails: 0, next_at: now }),
    {
        ProxyState { url, disabled: false, consecutive_fails: 0, next_at: now }
    }

    /// Reserves the next dispatch at `now` and returns how long it has to
    /// wait. Waiting itself is left to the caller.
    pub fn reserve(&mut self, now: u64, interval: u64) -> (wait_ms: u64)
        ensures
            wait_ms == wait_until(old(self).next_at, now),
            *final(self) == old(self).reserved(now, interval),
    {
        let wait_ms = self.next_at.saturating_sub(now);
        self.next_at = now.saturating_add(interval);
        wait_ms
    }

    /// Accounts for a fetch that ended with this result. Returns
    /// `Some(true)` where the result takes the entry out of use.
    pub fn settle(&mut self, ok: bool, status: Option<u16>, is_html: bool, max_fails: usize) -> (r:
        Option<bool>)
        ensures
            *final(self) == old(self).settled(ok, status, is_html, max_fails),
            r == if old(self).disabling(ok, status, is_html, max_fails) {
                Some(true)
            } else {
                None
            },
    {
        if ok {
            self.consecutive_fails = 0;
            return None;
        }
        let rate_limited = match status {
            Some(code) => code == TOO_MANY_REQUESTS,
            None => false,
        };
        let fault = status.is_none() || is_html || rate_limited;
        if fault && self.consecutive_fails < usize::MAX {
            self.consecutive_fails = self.consecutive_fails + 1;
        }
        if rate_limited || (fault && self.consecutive_fails >= max_fails) {
            self.disabled = true;
            Some(true)
        } else {
            None
        }
    }
}

/// Where a scan that began at `start` stands after `step` moves round a
/// pool of `n` entries.
pub open spec fn circular(n: int, start: int, step: int) -> int {
    if start + step < n {
        start + step
    } else {
        start + step - n
    }
}

/// Where a scan with the hint `start_idx` begins: at the hint, or at the
/// last entry where the hint lies beyond it.
pub open spec fn scan_start(n: int, start_idx: int) -> int {
    if start_idx < n - 1 {
        start_idx
    } else {
        n - 1
    }
}

/// The first entry in use that a scan from `start` meets at step `from` or
/// later, within one round.
pub open spec fn first_in_use(states: Seq<ProxyState>, start: int, from: int) -> Option<int>
    decreases states.len() - from,
{
    if from >= states.len() {
        None
    } else if !states[circular(states.len() as int, start, from)].disabled {
        Some(circular(states.len() as int, start, from))
    } else {
        first_in_use(states, start, from + 1)
    }
}

/// The entry that selection with the hint `start_idx` gives.
pub open spec fn picked(states: Seq<ProxyState>, start_idx: usize) -> Option<int> {
    if states.len() == 0 {
        None
    } else {
        first_in_use(states, scan_start(states.len() as int, start_idx as int), 0)
    }
}

/// True when every entry is out of use.
pub open spec fn exhausted(states: Seq<ProxyState>) -> bool {
    forall|i: int| 0 <= i < states.len() ==> (#[trigger] states[i]).disabled
}

proof fn lemma_first_in_use(states: Seq<ProxyState>, start: int, from: int)
    requires
        0 <= start < states.len(),
        0 <= from <= states.len(),
    ensures
        match first_in_use(states, start, from) {
            Some(i) => 0 <= i < states.len() && !states[i].disabled,
            None => forall|k: int|
                from <= k < states.len() ==> (#[trigger] states[circular(
                    states.len() as int,
                    start,
                    k,
                )]).disabled,
        },
    decreases states.len() - from,
{
    if from < states.len() && states[circular(states.len() as int, start, from)].disabled {
        lemma_first_in_use(states, start, from + 1);
    }
}

/// Selection gives an entry that is in use, and gives none only when every
/// entry is out of use.
pub proof fn lemma_picked(states: Seq<ProxyState>, start_idx: usize)
    ensures
        match picked(states, start_idx) {
            Some(i) => 0 <= i < states.len() && !states[i].disabled,
            None => exhausted(states),
        },
{
    if states.len() > 0 {
        let n = states.len() as int;
        let start = scan_start(n, start_idx as int);
        lemma_first_in_use(states, start, 0);
        if picked(states, start_idx) is None {
            assert forall|i: int| 0 <= i < n implies (#[trigger] states[i]).disabled by {
                let k = if i >= start {
                    i - start
                } else {
                    i - start + n
                };
                assert(circular(n, start, k) == i);
            }
        }
    }
}

/// An index as a place in the pool.
pub open spec fn place(r: Option<usize>) -> Option<int> {
    match r {
        Some(i) => Some(i as int),
        None => None,
    }
}

/// Scans the pool round from the hint and returns the first entry that is
/// in use; `None` when all are out of use.
pub fn pick_proxy_index(states: &Vec<ProxyState>, start_idx: usize) -> (r: Option<usize>)
    ensures
        picked(states@, start_idx) == place(r),
        r matches Some(i) ==> i < states.len() && !states[i as int].disabled,
        r is None <==> exhausted(states@),
{
    proof {
        lemma_picked(states@, start_idx);
    }
    let n = states.len();
    if n == 0 {
        return None;
    }
    let start: usize = if start_idx < n - 1 {
        start_idx
    } else {
        n - 1
    };
    let mut step: usize = 0;
    while step < n
        invariant
            n == states.len(),
            start < n,
            step <= n,
            start == scan_start(n as int, start_idx as int),
            first_in_use(states@, start as int, step as int) == picked(states@, start_idx),
        decreases n - step,
    {
        let idx: usize = if step < n - start {
            start + step
        } else {
            step - (n - start)
        };
        assert(idx == circular(n as int, start as int, step as int));
        if !states[idx].disabled {
            assert(first_in_use(states@, start as int, step as int) == Some(idx as int));
            return Some(idx);
        }
        step += 1;
    }
    assert(first_in_use(states@, start as int, n as int) is None);
    None
}

/// A dispatch that was reserved on a proxy.
#[derive(Debug, Clone, PartialEq, Eq)]
pub struct Lease {
    /// The entry's place in the pool.
    pub index: usize,
    pub url: String,
    /// How long to wait before the request goes out.
    pub wait_ms: u64,
    /// The slack that was drawn for the entry's next window.
    pub jitter_ms: u64,
}

/// The entries of a run and the pacing and fault rules they share.
#[derive(Debug, Clone, PartialEq, Eq)]
pub struct ProxyPool {
    pub entries: Vec<ProxyState>,
    pub delay_ms: u64,
    pub jitter_ms: u64,
    pub max_consecutive_fails: usize,
}

/// What the entries `earlier` may have become: the same proxies, none of
/// them back in use.
pub open spec fn succeeds(later: Seq<ProxyState>, earlier: Seq<ProxyState>) -> bool {
    &&& later.len() == earlier.len()
    &&& forall|i: int|
        0 <= i < earlier.len() ==> (#[trigger] later[i]).url == earlier[i].url && (
        earlier[i].disabled ==> later[i].disabled)
}

impl ProxyPool {
    /// The threshold is within its bounds, and every entry whose faults
    /// have reached it is out of use.
    pub open spec fn wf(&self) -> bool {
        &&& MIN_FAULT_THRESHOLD <= self.max_consecutive_fails <= MAX_FAULT_THRESHOLD
        &&& forall|i: int|
            0 <= i < self.entries.len() ==> ((#[trigger] self.entries[i]).consecutive_fails
                >= self.max_consecutive_fails ==> self.entries[i].disabled)
    }

    /// A pool of the given proxies, all in use and free from `now`. The
    /// threshold is brought into `[1, 200]`.
    pub fn new(
        urls: &Vec<String>,
        now: u64,
        delay_ms: u64,
        jitter_ms: u64,
        max_consecutive_fails: usize,
    ) -> (r: ProxyPool)
        ensures
            r.wf(),
            r.delay_ms == delay_ms,
            r.jitter_ms == jitter_ms,
            r.max_consecutive_fails == clamped_threshold(max_consecutive_fails),
            r.entries.len() == urls.len(),
            forall|i: int|
                0 <= i < urls.len() ==> (#[trigger] r.entries[i]).url@ == urls[i]@
                    && !r.entries[i].disabled && r.entries[i].consecutive_fails == 0
                    && r.entries[i].next_at == now,
    {
        let mut entries: Vec<ProxyState> = Vec::new();
        let mut i: usize = 0;
        while i < urls.len()
            invariant
                i <= urls.len(),
                entries.len() == i,
                forall|k: int|
                    0 <= k < i ==> (#[trigger] entries[k]).url@ == urls[k]@ && !entries[k].disabled
                        && entries[k].consecutive_fails == 0 && entries[k].next_at == now,
            decreases urls.len() - i,
        {
            entries.push(ProxyState::new(urls[i].clone(), now));
            i += 1;
        }
        ProxyPool {
            entries,
            delay_ms,
            jitter_ms,
            max_consecutive_fails: fault_threshold(max_consecutive_fails),
        }
    }

    /// Reserves a dispatch through the entry `idx` at `now`, with the
    /// slack `jitter_ms` added to the base delay for its next window.
    pub fn reserve(&mut self, idx: usize, now: u64, jitter_ms: u64) -> (wait_ms: u64)
        requires
            idx < old(self).entries.len(),
        ensures
            wait_ms == wait_until(old(self).entries[idx as int].next_at, now),
            final(self).entries@ == old(self).entries@.update(
                idx as int,
                old(self).entries[idx as int].reserved(
                    now,
                    saturating_sum(old(self).delay_ms, jitter_ms),
                ),
            ),
            final(self).delay_ms == old(self).delay_ms,
            final(self).jitter_ms == old(self).jitter_ms,
            final(self).max_consecutive_fails == old(self).max_consecutive_fails,
            succeeds(final(self).entries@, old(self).entries@),
            old(self).wf() ==> final(self).wf(),
    {
        let interval = self.delay_ms.saturating_add(jitter_ms);
        let wait_ms = self.entries[idx].reserve(now, interval);
        assert(self.entries@ =~= old(self).entries@.update(
            idx as int,
            old(self).entries[idx as int].reserved(now, interval),
        ));
        wait_ms
    }

    /// Selects an entry from the hint on and reserves a dispatch through
    /// it at `now`, in one step. `None`, with nothing changed, when every
    /// entry is out of use.
    pub fn acquire(&mut self, hint: usize, now: u64) -> (r: Option<Lease>)
        ensures
            final(self).delay_ms == old(self).delay_ms,
            final(self).jitter_ms == old(self).jitter_ms,
            final(self).max_consecutive_fails == old(self).max_consecutive_fails,
            succeeds(final(self).entries@, old(self).entries@),
            old(self).wf() ==> final(self).wf(),
            match picked(old(self).entries@, hint) {
                None => r is None && *final(self) == *old(self),
                Some(i) => {
                    &&& r is Some
                    &&& 0 <= i < old(self).entries.len()
                    &&& !old(self).entries[i].disabled
                    &&& r->0.index == i
                    &&& r->0.url@ == old(self).entries[i].url@
                    &&& r->0.wait_ms == wait_until(old(self).entries[i].next_at, now)
                    &&& jitter_within(r->0.jitter_ms, old(self).jitter_ms)
                    &&& final(self).entries@ == old(self).entries@.update(
                        i,
                        old(self).entries[i].reserved(
                            now,
                            saturating_sum(old(self).delay_ms, r->0.jitter_ms),
                        ),
                    )
                },
            },
    {
        match pick_proxy_index(&self.entries, hint) {
            None => None,
            Some(index) => {
                let jitter_ms = rand_jitter_ms(self.jitter_ms);
                let wait_ms = self.reserve(index, now, jitter_ms);
                let url = self.entries[index].url.clone();
                Some(Lease { index, url, wait_ms, jitter_ms })
            },
        }
    }

    /// Accounts for a fetch through the entry `idx` that ended with the
    /// given result. Returns `Some(true)` where the result takes the entry
    /// out of use.
    pub fn settle(&mut self, idx: usize, ok: bool, status: Option<u16>, is_html: bool) -> (r:
        Option<bool>)
        requires
            idx < old(self).entries.len(),
        ensures
            final(self).entries@ == old(self).entries@.update(
                idx as int,
                old(self).entries[idx as int].settled(
                    ok,
                    status,
                    is_html,
                    old(self).max_consecutive_fails,
                ),
            ),
            r == if old(self).entries[idx as int].disabling(
                ok,
                status,
                is_html,
                old(self).max_consecutive_fails,
            ) {
                Some(true)
            } else {
                None
            },
            final(self).delay_ms == old(self).delay_ms,
            final(self).jitter_ms == old(self).jitter_ms,
            final(self).max_consecutive_fails == old(self).max_consecutive_fails,
            succeeds(final(self).entries@, old(self).entries@),
            old(self).wf() ==> final(self).wf(),
    {
        let max_fails = self.max_consecutive_fails;
        let r = self.entries[idx].settle(ok, status, is_html, max_fails);
        assert(self.entries@ =~= old(self).entries@.update(
            idx as int,
            old(self).entries[idx as int].settled(ok, status, is_html, max_fails),
        ));
        r
    }
}

/// `succeeds` holds of any entries and themselves, and carries over steps.
pub proof fn lemma_succeeds_chain(a: Seq<ProxyState>, b: Seq<ProxyState>, c: Seq<ProxyState>)
    requires
        succeeds(b, a),
        succeeds(c, b),
    ensures
        succeeds(a, a),
        succeeds(c, a),
{
    assert forall|i: int| 0 <= i < a.len() implies (#[trigger] c[i]).url == a[i].url && (
    a[i].disabled ==> c[i].disabled) by {
        assert(b[i].url == a[i].url);
    }
}

/// An entry whose consecutive faults have reached the threshold is out of
/// use, and selection never gives it again, whatever the pool has become
/// since and whatever the hint.
pub proof fn lemma_excluded_never_selected(
    pool: ProxyPool,
    later: Seq<ProxyState>,
    i: int,
    hint: usize,
)
    requires
        pool.wf(),
        0 <= i < pool.entries.len(),
        pool.entries[i].consecutive_fails >= pool.max_consecutive_fails,
        succeeds(later, pool.entries@),
    ensures
        pool.entries[i].disabled,
        later[i].disabled,
        picked(later, hint) != Some(i),
{
    lemma_picked(later, hint);
}

/// A fault that brings the count to the threshold takes the entry out of
/// use, and so does a 429 whatever the count.
pub proof fn lemma_faults_disable(
    entry: ProxyState,
    status: Option<u16>,
    is_html: bool,
    max_fails: usize,
)
    ensures
        proxy_fault(false, status, is_html) && entry.consecutive_fails + 1 >= max_fails
            ==> entry.settled(false, status, is_html, max_fails).disabled,
        entry.settled(false, Some(TOO_MANY_REQUESTS), is_html, max_fails).disabled,
        entry.disabled ==> entry.settled(false, status, is_html, max_fails).disabled
            && entry.settled(true, status, is_html, max_fails).disabled,
{
}

/// A second dispatch through an entry never goes out sooner than the base
/// delay after the first was reserved; the slack only adds to that. The
/// clock must reach that far.
pub proof fn lemma_reservation_spacing(
    entry: ProxyState,
    delay_ms: u64,
    now1: u64,
    jitter1: u64,
    now2: u64,
)
    requires
        now1 <= now2,
        now1 + delay_ms <= u64::MAX,
    ensures
        dispatch_time(entry.reserved(now1, saturating_sum(delay_ms, jitter1)).next_at, now2) >= now1
            + delay_ms,
{
}

/// Two dispatches reserved one after the other through one entry go out at
/// least the base delay apart. This is stated for a first dispatch that
/// waited no longer than its own slack, or a second one reserved a base
/// delay or more after the first went out; and the clock must reach a base
/// delay beyond the first dispatch.
pub proof fn lemma_dispatch_spacing(
    entry: ProxyState,
    delay_ms: u64,
    now1: u64,
    jitter1: u64,
    now2: u64,
)
    requires
        now1 <= now2,
        dispatch_time(entry.next_at, now1) + delay_ms <= u64::MAX,
        wait_until(entry.next_at, now1) <= jitter1 || now2 >= dispatch_time(entry.next_at, now1)
            + delay_ms,
    ensures
        dispatch_time(entry.reserved(now1, saturating_sum(delay_ms, jitter1)).next_at, now2)
            >= dispatch_time(entry.next_at, now1) + delay_ms,
{
}

} // verus!
