use vstd::prelude::*;

use crate::config::{EnginePoolConfig, PoolError, MAX_POOL_SIZE, MIN_POOL_SIZE};

verus! {

/// Abstract state of the engine pool: a target size, one busy flag per live
/// engine, the constructions in flight, and the admission permits held.
pub struct PoolModel {
    pub size: nat,
    pub busy: Seq<bool>,
    pub pending: nat,
    pub outstanding: nat,
    pub total_checkouts: nat,
    pub engine_replacements: nat,
    pub closed: bool,
}

/// What a checkout attempt decided.
#[derive(PartialEq, Eq, Structural, Clone, Copy, Debug)]
pub enum CheckoutStep {
    /// A permit was taken and the idle engine at this index is now bound to the caller.
    Granted(usize),
    /// A permit was taken but no engine is idle: the caller must construct one
    /// and report the outcome through `finish_construct`.
    Construct,
    /// Every permit is held: the caller waits for a release and tries again.
    Wait,
    /// The pool has been shut down.
    Closed,
}

/// Number of busy flags that are set.
pub open spec fn count_busy(s: Seq<bool>) -> nat
    decreases s.len(),
{
    if s.len() == 0 {
        0
    } else {
        count_busy(s.drop_last()) + if s.last() {
            1nat
        } else {
            0nat
        }
    }
}

/// Index of the first idle engine, or the number of engines when all are busy.
pub open spec fn first_idle(s: Seq<bool>) -> nat
    decreases s.len(),
{
    if s.len() == 0 {
        0
    } else if !s[0] {
        0
    } else {
        1 + first_idle(s.drop_first())
    }
}

/// A counter step that stops at the largest value a `u64` holds.
pub open spec fn bump(x: nat) -> nat {
    if x < u64::MAX {
        x + 1
    } else {
        x
    }
}

/// Permits still free for new checkouts.
pub open spec fn available(m: PoolModel) -> int {
    m.size - m.outstanding
}

/// The pool's bookkeeping invariant: every held permit is matched by exactly
/// one busy engine or one construction in flight, and neither the permits
/// nor the engines exceed the target size.
pub open spec fn model_wf(m: PoolModel) -> bool {
    &&& MIN_POOL_SIZE <= m.size <= MAX_POOL_SIZE
    &&& m.outstanding == count_busy(m.busy) + m.pending
    &&& m.outstanding <= m.size
    &&& m.busy.len() + m.pending <= m.size
    &&& m.total_checkouts <= u64::MAX
    &&& m.engine_replacements <= u64::MAX
    &&& (m.closed ==> m.busy.len() == 0)
}

/// A freshly created pool of the given size, before any engine exists.
pub open spec fn empty_model(size: nat) -> PoolModel {
    PoolModel {
        size,
        busy: Seq::empty(),
        pending: 0,
        outstanding: 0,
        total_checkouts: 0,
        engine_replacements: 0,
        closed: false,
    }
}

/// Checkout: take a permit if one is free, then bind the first idle engine,
/// or ask for a new engine when none is idle.
pub open spec fn checkout_spec(m: PoolModel) -> (PoolModel, CheckoutStep) {
    if m.closed {
        (m, CheckoutStep::Closed)
    } else if m.outstanding >= m.size {
        (m, CheckoutStep::Wait)
    } else if first_idle(m.busy) < m.busy.len() {
        let i = first_idle(m.busy);
        (
            PoolModel {
                busy: m.busy.update(i as int, true),
                outstanding: m.outstanding + 1,
                total_checkouts: bump(m.total_checkouts),
                ..m
            },
            CheckoutStep::Granted(i as usize),
        )
    } else {
        (PoolModel { pending: m.pending + 1, outstanding: m.outstanding + 1, ..m }, CheckoutStep::Construct)
    }
}

/// Outcome of a construction started by a `Construct` step: on success the
/// new engine joins the pool bound to the caller; otherwise the permit returns.
pub open spec fn finish_spec(m: PoolModel, loaded: bool) -> (PoolModel, Result<usize, PoolError>) {
    if loaded && !m.closed {
        (
            PoolModel {
                busy: m.busy.push(true),
                pending: (m.pending - 1) as nat,
                total_checkouts: bump(m.total_checkouts),
                ..m
            },
            Ok(m.busy.len() as usize),
        )
    } else {
        (
            PoolModel {
                pending: (m.pending - 1) as nat,
                outstanding: (m.outstanding - 1) as nat,
                ..m
            },
            Err(if m.closed { PoolError::Closed } else { PoolError::EngineLoad }),
        )
    }
}

/// Release of the engine at `idx`: only a busy engine is released, and then
/// exactly one permit returns.
pub open spec fn release_spec(m: PoolModel, idx: int) -> (PoolModel, bool) {
    if 0 <= idx < m.busy.len() && m.busy[idx] {
        (
            PoolModel {
                busy: m.busy.update(idx, false),
                outstanding: (m.outstanding - 1) as nat,
                ..m
            },
            true,
        )
    } else {
        (m, false)
    }
}

/// Adding an idle engine ahead of demand, while the pool is below its size.
pub open spec fn add_engine_spec(m: PoolModel) -> (PoolModel, Option<usize>) {
    if !m.closed && m.busy.len() + m.pending < m.size {
        (PoolModel { busy: m.busy.push(false), ..m }, Some(m.busy.len() as usize))
    } else {
        (m, None)
    }
}

/// Shutdown: the pool closes and drops every engine; only the constructions
/// in flight still hold permits, which they return when they report.
pub open spec fn shutdown_spec(m: PoolModel) -> PoolModel {
    PoolModel { busy: Seq::empty(), outstanding: m.pending, closed: true, ..m }
}

/// What a waiting checkout does next: wait for at most the time left, or give
/// up once the deadline has passed.
pub open spec fn wait_budget_spec(elapsed_ms: u64, timeout_ms: u64) -> Result<u64, PoolError> {
    if elapsed_ms < timeout_ms {
        Ok((timeout_ms - elapsed_ms) as u64)
    } else {
        Err(PoolError::Timeout)
    }
}

/// A pool of `n` engines, all idle, with no permit held: the state after warmup.
pub open spec fn warm_model(n: nat) -> PoolModel {
    PoolModel { busy: Seq::new(n, |j: int| false), ..empty_model(n) }
}

/// The state after `k` checkouts in a row, with no release in between.
pub open spec fn after_checkouts(m: PoolModel, k: nat) -> PoolModel
    decreases k,
{
    if k == 0 {
        m
    } else {
        checkout_spec(after_checkouts(m, (k - 1) as nat)).0
    }
}

/// Appending a flag adds one to the count exactly when the flag is set.
pub proof fn lemma_count_push(s: Seq<bool>, b: bool)
    ensures
        count_busy(s.push(b)) == count_busy(s) + if b {
            1nat
        } else {
            0nat
        },
{
    assert(s.push(b).drop_last() =~= s);
}

/// No more engines are busy than exist.
pub proof fn lemma_count_bound(s: Seq<bool>)
    ensures
        count_busy(s) <= s.len(),
    decreases s.len(),
{
    if s.len() > 0 {
        lemma_count_bound(s.drop_last());
    }
}

/// Overwriting one flag moves the count by the difference of the two flags.
pub proof fn lemma_count_update(s: Seq<bool>, i: int, b: bool)
    requires
        0 <= i < s.len(),
    ensures
        count_busy(s.update(i, b)) + (if s[i] {
            1nat
        } else {
            0nat
        }) == count_busy(s) + (if b {
            1nat
        } else {
            0nat
        }),
    decreases s.len(),
{
    let t = s.update(i, b);
    if i == s.len() - 1 {
        assert(t.drop_last() =~= s.drop_last());
    } else {
        assert(t.drop_last() =~= s.drop_last().update(i, b));
        lemma_count_update(s.drop_last(), i, b);
    }
}

/// When no engine is idle, every engine counts as busy.
pub proof fn lemma_count_all_busy(s: Seq<bool>)
    requires
        forall|j: int| 0 <= j < s.len() ==> s[j],
    ensures
        count_busy(s) == s.len(),
    decreases s.len(),
{
    if s.len() > 0 {
        lemma_count_all_busy(s.drop_last());
    }
}

/// `first_idle` is the least index whose flag is clear.
pub proof fn lemma_first_idle(s: Seq<bool>, i: int)
    requires
        0 <= i <= s.len(),
        forall|j: int| 0 <= j < i ==> s[j],
        i == s.len() || !s[i],
    ensures
        first_idle(s) == i,
    decreases s.len(),
{
    if s.len() > 0 && i > 0 {
        lemma_first_idle(s.drop_first(), i - 1);
    }
}

/// The pool: admission permits, one slot per live engine with its identifier
/// and idle/busy tag, and cumulative counters.
pub struct PoolState {
    size: usize,
    ids: Vec<String>,
    busy: Vec<bool>,
    pending: usize,
    outstanding: usize,
    total_checkouts: u64,
    engine_replacements: u64,
    closed: bool,
}

/// Relies on uuid::Uuid::new_v4 and its `Display` impl: a random identifier
/// written in the hyphenated form of 36 characters.
#[verifier::external_body]
fn new_engine_id() -> (r: String)
    ensures
        r@.len() == 36,
{
    uuid::Uuid::new_v4().to_string()
}

fn bump_u64(x: u64) -> (r: u64)
    ensures
        r == bump(x as nat),
{
    if x < u64::MAX {
        x + 1
    } else {
        x
    }
}

/// Decides whether a checkout that found every permit held may keep waiting;
/// see `wait_budget_spec`.
pub fn checkout_wait_budget(elapsed_ms: u64, timeout_ms: u64) -> (r: Result<u64, PoolError>)
    ensures
        r == wait_budget_spec(elapsed_ms, timeout_ms),
{
    if elapsed_ms < timeout_ms {
        Ok(timeout_ms - elapsed_ms)
    } else {
        Err(PoolError::Timeout)
    }
}

impl PoolState {
    pub closed spec fn view(&self) -> PoolModel {
        PoolModel {
            size: self.size as nat,
            busy: self.busy@,
            pending: self.pending as nat,
            outstanding: self.outstanding as nat,
            total_checkouts: self.total_checkouts as nat,
            engine_replacements: self.engine_replacements as nat,
            closed: self.closed,
        }
    }

    pub closed spec fn ids_match(&self) -> bool {
        self.ids@.len() == self.busy@.len()
    }

    pub open spec fn wf(&self) -> bool {
        model_wf(self@) && self.ids_match()
    }

    /// Identifier of every live engine, in slot order.
    pub closed spec fn engine_ids(&self) -> Seq<Seq<char>> {
        self.ids@.map_values(|s: String| s@)
    }

    /// Creates an empty pool for `config`; the size must lie in 1..=10.
    pub fn new(config: &EnginePoolConfig) -> (r: Result<PoolState, PoolError>)
        ensures
            r.is_ok() <==> MIN_POOL_SIZE <= config.engine_pool_size <= MAX_POOL_SIZE,
            r is Err ==> r == Err::<PoolState, PoolError>(PoolError::InvalidPoolSize),
            r matches Ok(p) ==> p.wf() && p@ == empty_model(config.engine_pool_size as nat),
    {
        let size = config.engine_pool_size;
        if size < MIN_POOL_SIZE || size > MAX_POOL_SIZE {
            return Err(PoolError::InvalidPoolSize);
        }
        let p = PoolState {
            size,
            ids: Vec::new(),
            busy: Vec::new(),
            pending: 0,
            outstanding: 0,
            total_checkouts: 0,
            engine_replacements: 0,
            closed: false,
        };
        assert(p@.busy =~= Seq::<bool>::empty());
        Ok(p)
    }

    /// Attempts a checkout; see `checkout_spec`.
    pub fn checkout(&mut self) -> (r: CheckoutStep)
        requires
            old(self).wf(),
        ensures
            final(self).wf(),
            (final(self)@, r) == checkout_spec(old(self)@),
            final(self).engine_ids() == old(self).engine_ids(),
    {
        proof {
            lemma_count_bound(self.busy@);
        }
        if self.closed {
            return CheckoutStep::Closed;
        }
        if self.outstanding >= self.size {
            return CheckoutStep::Wait;
        }
        let n = self.busy.len();
        let mut i: usize = 0;
        while i < n
            invariant
                n == self.busy@.len(),
                0 <= i <= n,
                forall|j: int| 0 <= j < i ==> self.busy@[j],
                self.wf(),
                !self.closed,
                self.outstanding < self.size,
            ensures
                0 <= i <= n,
                forall|j: int| 0 <= j < i ==> self.busy@[j],
                i == n || !self.busy@[i as int],
            decreases n - i,
        {
            if !self.busy[i] {
                break;
            }
            i = i + 1;
        }
        proof {
            lemma_first_idle(self.busy@, i as int);
        }
        if i < n {
            proof {
                lemma_count_update(self.busy@, i as int, true);
            }
            self.busy.set(i, true);
            self.outstanding = self.outstanding + 1;
            self.total_checkouts = bump_u64(self.total_checkouts);
            CheckoutStep::Granted(i)
        } else {
            proof {
                lemma_count_all_busy(self.busy@);
            }
            self.pending = self.pending + 1;
            self.outstanding = self.outstanding + 1;
            CheckoutStep::Construct
        }
    }

    /// Reports the outcome of the construction that a `Construct` step asked
    /// for; see `finish_spec`.
    pub fn finish_construct(&mut self, loaded: bool) -> (r: Result<usize, PoolError>)
        requires
            old(self).wf(),
            old(self)@.pending > 0,
        ensures
            final(self).wf(),
            (final(self)@, r) == finish_spec(old(self)@, loaded),
            r is Ok ==> final(self).engine_ids().len() == old(self).engine_ids().len() + 1,
    {
        if loaded && !self.closed {
            proof {
                lemma_count_push(self.busy@, true);
            }
            let idx = self.busy.len();
            let id = new_engine_id();
            self.ids.push(id);
            self.busy.push(true);
            self.pending = self.pending - 1;
            self.total_checkouts = bump_u64(self.total_checkouts);
            Ok(idx)
        } else {
            self.pending = self.pending - 1;
            self.outstanding = self.outstanding - 1;
            if self.closed {
                Err(PoolError::Closed)
            } else {
                Err(PoolError::EngineLoad)
            }
        }
    }

    /// Adds an idle engine while the pool is below its size; see `add_engine_spec`.
    pub fn add_engine(&mut self) -> (r: Option<usize>)
        requires
            old(self).wf(),
        ensures
            final(self).wf(),
            (final(self)@, r) == add_engine_spec(old(self)@),
    {
        if !self.closed && self.busy.len() + self.pending < self.size {
            proof {
                lemma_count_push(self.busy@, false);
            }
            let idx = self.busy.len();
            let id = new_engine_id();
            self.ids.push(id);
            self.busy.push(false);
            Some(idx)
        } else {
            None
        }
    }

    /// Releases the engine at `idx`; a second release of the same handle is
    /// refused and returns no permit. See `release_spec`.
    pub fn release(&mut self, idx: usize) -> (r: bool)
        requires
            old(self).wf(),
        ensures
            final(self).wf(),
            (final(self)@, r) == release_spec(old(self)@, idx as int),
            final(self).engine_ids() == old(self).engine_ids(),
    {
        if idx < self.busy.len() && self.busy[idx] {
            proof {
                lemma_count_update(self.busy@, idx as int, false);
            }
            self.busy.set(idx, false);
            self.outstanding = self.outstanding - 1;
            true
        } else {
            false
        }
    }

    /// Closes the pool and drops every engine; returns how many were dropped.
    pub fn shutdown(&mut self) -> (r: usize)
        requires
            old(self).wf(),
        ensures
            final(self).wf(),
            final(self)@ == shutdown_spec(old(self)@),
            r == old(self)@.busy.len(),
    {
        let n = self.busy.len();
        self.ids = Vec::new();
        self.busy = Vec::new();
        self.outstanding = self.pending;
        self.closed = true;
        assert(self.busy@ =~= Seq::<bool>::empty());
        n
    }

    /// Permits that a checkout could take right now.
    pub fn available_permits(&self) -> (r: usize)
        requires
            self.wf(),
        ensures
            r == available(self@),
    {
        self.size - self.outstanding
    }

    /// Number of live engines, idle or busy.
    pub fn total_engines(&self) -> (r: usize)
        ensures
            r == self@.busy.len(),
    {
        self.busy.len()
    }

    /// The configured number of engines.
    pub fn size(&self) -> (r: usize)
        ensures
            r == self@.size,
    {
        self.size
    }

    /// Number of successful checkouts so far.
    pub fn total_checkouts(&self) -> (r: u64)
        ensures
            r == self@.total_checkouts,
    {
        self.total_checkouts
    }

    /// Number of engines replaced so far.
    pub fn engine_replacements(&self) -> (r: u64)
        ensures
            r == self@.engine_replacements,
    {
        self.engine_replacements
    }

    /// Number of constructions asked for and not yet reported.
    pub fn pending_constructions(&self) -> (r: usize)
        ensures
            r == self@.pending,
    {
        self.pending
    }

    /// Whether the engine at `idx` is bound to a handle.
    pub fn is_busy(&self, idx: usize) -> (r: bool)
        requires
            self.wf(),
        ensures
            r == (idx < self@.busy.len() && self@.busy[idx as int]),
    {
        idx < self.busy.len() && self.busy[idx]
    }

    /// Identifier of the engine at `idx`, if there is one.
    pub fn engine_id(&self, idx: usize) -> (r: Option<String>)
        requires
            self.wf(),
        ensures
            r is Some <==> idx < self@.busy.len(),
            r matches Some(id) ==> id@ == self.engine_ids()[idx as int],
    {
        if idx < self.ids.len() {
            Some(self.ids[idx].clone())
        } else {
            None
        }
    }
}

/// A pool of size `n` after warmup admits exactly `n` checkouts in a row: the
/// `k`-th binds the `k`-th engine, every one distinct, and the next one waits.
pub proof fn law_warm_pool_admits_size(n: nat, k: nat)
    requires
        MIN_POOL_SIZE <= n <= MAX_POOL_SIZE,
        k <= n,
    ensures
        after_checkouts(warm_model(n), k) == (PoolModel {
            busy: Seq::new(n, |j: int| j < k),
            outstanding: k,
            total_checkouts: k,
            ..warm_model(n)
        }),
        model_wf(after_checkouts(warm_model(n), k)),
        k < n ==> checkout_spec(after_checkouts(warm_model(n), k)).1 == CheckoutStep::Granted(
            k as usize,
        ),
        k == n ==> checkout_spec(after_checkouts(warm_model(n), k)) == (
            after_checkouts(warm_model(n), k),
            CheckoutStep::Wait,
        ),
    decreases k,
{
    let w = warm_model(n);
    let b = Seq::new(n, |j: int| j < k);
    if k > 0 {
        law_warm_pool_admits_size(n, (k - 1) as nat);
        let prev = Seq::new(n, |j: int| j < k - 1);
        lemma_first_idle(prev, k - 1);
        assert(prev.update(k - 1, true) =~= b);
    } else {
        assert(b =~= w.busy);
    }
    lemma_count_prefix(n, k);
    if k < n {
        lemma_first_idle(b, k as int);
    }
}

/// Busy flags set on exactly the first `k` of `n` engines count `k`.
pub proof fn lemma_count_prefix(n: nat, k: nat)
    requires
        k <= n,
    ensures
        count_busy(Seq::new(n, |j: int| j < k)) == k,
    decreases n,
{
    let b = Seq::new(n, |j: int| j < k);
    if n > 0 {
        if k == n {
            lemma_count_prefix((n - 1) as nat, (k - 1) as nat);
            assert(b.drop_last() =~= Seq::new((n - 1) as nat, |j: int| j < k - 1));
        } else {
            lemma_count_prefix((n - 1) as nat, k);
            assert(b.drop_last() =~= Seq::new((n - 1) as nat, |j: int| j < k));
        }
    }
}

/// Once every permit of a full pool is held, a release lets the next checkout
/// through, on the engine that was released.
pub proof fn law_release_unblocks(n: nat, i: int)
    requires
        MIN_POOL_SIZE <= n <= MAX_POOL_SIZE,
        0 <= i < n,
    ensures
        release_spec(after_checkouts(warm_model(n), n), i).1,
        checkout_spec(release_spec(after_checkouts(warm_model(n), n), i).0).1
            == CheckoutStep::Granted(i as usize),
{
    law_warm_pool_admits_size(n, n);
    let m = after_checkouts(warm_model(n), n);
    let r = release_spec(m, i).0;
    lemma_count_update(m.busy, i, false);
    lemma_first_idle(r.busy, i);
}

/// A release of a busy engine frees exactly that engine and returns exactly one
/// permit; releasing the same handle again changes nothing.
pub proof fn law_release_once(m: PoolModel, idx: int)
    requires
        model_wf(m),
    ensures
        ({
            let (m1, r1) = release_spec(m, idx);
            let (m2, r2) = release_spec(m1, idx);
            &&& model_wf(m1)
            &&& r1 ==> available(m1) == available(m) + 1
            &&& r1 ==> count_busy(m1.busy) + 1 == count_busy(m.busy)
            &&& r1 ==> m1.busy == m.busy.update(idx, false)
            &&& !r1 ==> m1 == m
            &&& !r2
            &&& m2 == m1
        }),
{
    if 0 <= idx < m.busy.len() && m.busy[idx] {
        lemma_count_update(m.busy, idx, false);
    }
}

/// A checkout that finds every permit held changes nothing, and once its
/// deadline has passed it fails with a timeout: the free permits stay as they were.
pub proof fn law_timeout_leaves_pool_unchanged(m: PoolModel, elapsed_ms: u64, timeout_ms: u64)
    requires
        model_wf(m),
        !m.closed,
        available(m) == 0,
        elapsed_ms >= timeout_ms,
    ensures
        checkout_spec(m) == (m, CheckoutStep::Wait),
        wait_budget_spec(elapsed_ms, timeout_ms) == Err::<u64, PoolError>(PoolError::Timeout),
        available(checkout_spec(m).0) == available(m),
{
}

/// Every step of the pool keeps its bookkeeping invariant; in particular the
/// permits held never exceed the pool size.
pub proof fn law_steps_keep_invariant(m: PoolModel, idx: int, loaded: bool)
    requires
        model_wf(m),
    ensures
        model_wf(checkout_spec(m).0),
        m.pending > 0 ==> model_wf(finish_spec(m, loaded).0),
        model_wf(release_spec(m, idx).0),
        model_wf(add_engine_spec(m).0),
        model_wf(shutdown_spec(m)),
{
    lemma_count_bound(m.busy);
    let i = first_idle(m.busy);
    lemma_first_idle_none(m.busy);
    if !m.closed && m.outstanding < m.size {
        if i < m.busy.len() {
            lemma_count_update(m.busy, i as int, true);
        } else {
            lemma_count_all_busy(m.busy);
        }
    }
    lemma_count_push(m.busy, true);
    lemma_count_push(m.busy, false);
    if 0 <= idx < m.busy.len() && m.busy[idx] {
        lemma_count_update(m.busy, idx, false);
    }
}

/// When `first_idle` reaches the end, no engine is idle.
pub proof fn lemma_first_idle_none(s: Seq<bool>)
    ensures
        first_idle(s) <= s.len(),
        first_idle(s) < s.len() ==> !s[first_idle(s) as int],
        first_idle(s) >= s.len() ==> forall|j: int| 0 <= j < s.len() ==> s[j],
    decreases s.len(),
{
    if s.len() > 0 && s[0] {
        lemma_first_idle_none(s.drop_first());
        let t = s.drop_first();
        assert forall|j: int| 0 <= j < s.len() && first_idle(s) >= s.len() implies s[j] by {
            if j > 0 {
                assert(s[j] == t[j - 1]);
            }
        }
    }
}

} // verus!
