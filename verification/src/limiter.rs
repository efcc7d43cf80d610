//! The bookkeeping of the concurrency limiter: how many downloads may run at
//! once (between 1 and 8) and how many hold a permit.
//!
//! Waiting for a permit and waking waiters happen outside; this state says
//! whether a permit is granted and how many waiters a new limit wakes.
use vstd::prelude::*;

verus! {

/// A requested limit brought into `1..=8`.
pub open spec fn clamp_limit(n: usize) -> usize {
    if n < 1 {
        1
    } else if n > 8 {
        8
    } else {
        n
    }
}

pub struct LimiterView {
    pub limit: usize,
    pub active_count: usize,
}

/// The state after asking for a permit, and whether it was granted.
pub open spec fn acquire_spec(v: LimiterView) -> (LimiterView, bool) {
    if v.active_count < v.limit {
        (LimiterView { active_count: (v.active_count + 1) as usize, ..v }, true)
    } else {
        (v, false)
    }
}

/// The state after returning a permit.
pub open spec fn release_spec(v: LimiterView) -> LimiterView {
    LimiterView {
        active_count: if v.active_count > 0 {
            (v.active_count - 1) as usize
        } else {
            0
        },
        ..v
    }
}

/// Concurrency limit and number of permits held.
#[derive(Debug)]
pub struct LimiterState {
    limit: usize,
    active_count: usize,
}

impl View for LimiterState {
    type V = LimiterView;

    closed spec fn view(&self) -> LimiterView {
        LimiterView { limit: self.limit, active_count: self.active_count }
    }
}

fn clamp_to_range(n: usize) -> (r: usize)
    ensures
        r == clamp_limit(n),
{
    if n < 1 {
        1
    } else if n > 8 {
        8
    } else {
        n
    }
}

impl LimiterState {
    #[verifier::type_invariant]
    spec fn inv(self) -> bool {
        1 <= self.limit <= 8
    }

    /// A limiter with the initial limit bounded to `1..=8` and no permit held.
    pub fn new(initial_limit: usize) -> (r: Self)
        ensures
            r@ == (LimiterView { limit: clamp_limit(initial_limit), active_count: 0 }),
    {
        LimiterState { limit: clamp_to_range(initial_limit), active_count: 0 }
    }

    /// Sets a new limit (bounded to `1..=8`); answers how many waiters to
    /// wake: the free permits under the new limit.
    pub fn set_limit(&mut self, new_limit: usize) -> (wake: usize)
        ensures
            final(self)@ == (LimiterView {
                limit: clamp_limit(new_limit),
                active_count: old(self)@.active_count,
            }),
            wake == (if clamp_limit(new_limit) > old(self)@.active_count {
                clamp_limit(new_limit) - old(self)@.active_count
            } else {
                0
            }),
    {
        let clamped = clamp_to_range(new_limit);
        self.limit = clamped;
        clamped.saturating_sub(self.active_count)
    }

    pub fn current_limit(&self) -> (r: usize)
        ensures
            r == self@.limit,
    {
        self.limit
    }

    pub fn active_count(&self) -> (r: usize)
        ensures
            r == self@.active_count,
    {
        self.active_count
    }

    /// Grants a permit when fewer than `limit` are held.
    pub fn try_acquire(&mut self) -> (granted: bool)
        ensures
            (final(self)@, granted) == acquire_spec(old(self)@),
    {
        proof {
            use_type_invariant(&*self);
        }
        if self.active_count < self.limit {
            self.active_count = self.active_count + 1;
            true
        } else {
            false
        }
    }

    /// Returns a permit; one waiter is then woken.
    pub fn release(&mut self)
        ensures
            final(self)@ == release_spec(old(self)@),
    {
        proof {
            use_type_invariant(&*self);
        }
        if self.active_count > 0 {
            self.active_count = self.active_count - 1;
        }
    }
}

/// Granting permits never lets more run than the limit: asking for a permit
/// in a state within the limit leaves the state within the limit.
pub proof fn law_acquire_respects_limit(v: LimiterView)
    requires
        v.active_count <= v.limit,
    ensures
        acquire_spec(v).0.active_count <= acquire_spec(v).0.limit,
        acquire_spec(v).0.limit == v.limit,
{
}

/// Returning a permit just granted gives back the state before.
pub proof fn law_release_undoes_acquire(v: LimiterView)
    requires
        acquire_spec(v).1,
    ensures
        release_spec(acquire_spec(v).0) == v,
{
}

/// Permits are granted up to the limit and no further: from no permit held,
/// `limit` requests are granted and the next is not.
pub proof fn law_grants_up_to_limit(v: LimiterView, k: nat)
    requires
        v.active_count == 0,
        1 <= v.limit,
        k <= v.limit,
    ensures
        acquire_n(v, k).active_count == k,
        acquire_n(v, k).limit == v.limit,
        k < v.limit ==> acquire_spec(acquire_n(v, k)).1,
        k == v.limit ==> !acquire_spec(acquire_n(v, k)).1,
    decreases k,
{
    if k > 0 {
        law_grants_up_to_limit(v, (k - 1) as nat);
    }
}

/// The state after `k` requests for a permit.
pub open spec fn acquire_n(v: LimiterView, k: nat) -> LimiterView
    decreases k,
{
    if k == 0 {
        v
    } else {
        acquire_spec(acquire_n(v, (k - 1) as nat)).0
    }
}

} // verus!
