use vstd::prelude::*;
use crate::error::{VaultError, VaultResult};

verus! {

/// Number of entries of `s` at or after `cutoff`.
pub open spec fn count_since(s: Seq<i64>, cutoff: int) -> nat
    decreases s.len(),
{
    if s.len() == 0 {
        0
    } else {
        count_since(s.drop_last(), cutoff) + if s.last() >= cutoff { 1nat } else { 0nat }
    }
}

/// The entries of `s` at or after `cutoff`, in their order.
pub open spec fn keep_since(s: Seq<i64>, cutoff: int) -> Seq<i64>
    decreases s.len(),
{
    if s.len() == 0 {
        Seq::empty()
    } else if s.last() >= cutoff {
        keep_since(s.drop_last(), cutoff).push(s.last())
    } else {
        keep_since(s.drop_last(), cutoff)
    }
}

/// `a - b`, but never below zero.
pub open spec fn saturating_sub_u32(a: u32, b: u32) -> u32 {
    if a >= b { (a - b) as u32 } else { 0 }
}

/// What the rate limiter has stored: the times of the failed attempts, in the
/// order they were recorded, and the end of the lockout, if one is stored.
pub struct RateLimitModel {
    pub failures: Seq<i64>,
    pub locked_until: Option<i64>,
}

/// The store after a failed attempt at `now`.
pub open spec fn after_failure(m: RateLimitModel, now: i64) -> RateLimitModel {
    RateLimitModel { failures: m.failures.push(now), locked_until: m.locked_until }
}

/// The store after a successful unlock: nothing recorded.
pub open spec fn after_success() -> RateLimitModel {
    RateLimitModel { failures: Seq::empty(), locked_until: None }
}

/// The wait, in seconds, that a refusal names (0 for any other answer).
pub open spec fn retry_after(r: VaultResult<()>) -> int {
    match r {
        Err(VaultError::RateLimited { retry_after_seconds, .. }) => retry_after_seconds as int,
        _ => 0,
    }
}

/// Whether the stored lockout still holds at `now`.
pub open spec fn locked_at(m: RateLimitModel, now: int) -> bool {
    m.locked_until matches Some(u) && u > now
}

/// The store of a rate limiter: failed attempts and the lockout.
pub struct RateLimitState {
    failures: Vec<i64>,
    locked_until: Option<i64>,
}

impl View for RateLimitState {
    type V = RateLimitModel;

    closed spec fn view(&self) -> RateLimitModel {
        RateLimitModel { failures: self.failures@, locked_until: self.locked_until }
    }
}

impl RateLimitState {
    /// An empty store.
    pub fn new() -> (res: RateLimitState)
        ensures
            res@.failures == Seq::<i64>::empty(),
            res@.locked_until is None,
    {
        RateLimitState { failures: Vec::new(), locked_until: None }
    }

    /// A store with the given failure times and lockout.
    pub fn from_parts(failures: Vec<i64>, locked_until: Option<i64>) -> (res: RateLimitState)
        ensures
            res@.failures == failures@,
            res@.locked_until == locked_until,
    {
        RateLimitState { failures, locked_until }
    }

    /// The failure times, in the order they were recorded.
    pub fn failures(&self) -> (res: &Vec<i64>)
        ensures
            res@ == self@.failures,
    {
        &self.failures
    }

    /// The stored end of the lockout.
    pub fn locked_until(&self) -> (res: Option<i64>)
        ensures
            res == self@.locked_until,
    {
        self.locked_until
    }
}

/// Limits failed unlock attempts: after `max_attempts` failures within the
/// window, further attempts are refused for the lockout duration.
pub struct RateLimiter {
    max_attempts: u32,
    window_seconds: i64,
    lockout_seconds: i64,
}

impl RateLimiter {
    /// The number of failures within the window that triggers a lockout.
    pub closed spec fn max_attempts(self) -> u32 {
        self.max_attempts
    }

    /// The window, in seconds, within which failures count.
    pub closed spec fn window_seconds(self) -> i64 {
        self.window_seconds
    }

    /// The duration of a lockout, in seconds.
    pub closed spec fn lockout_seconds(self) -> i64 {
        self.lockout_seconds
    }

    /// The earliest failure time that still counts at `now`.
    pub open spec fn cutoff(self, now: int) -> int {
        now - self.window_seconds()
    }

    /// Failures that count at `now`.
    pub open spec fn failures_in_window(self, m: RateLimitModel, now: int) -> nat {
        count_since(m.failures, self.cutoff(now))
    }

    /// The store after a check at `now`: a running lockout leaves it as it is;
    /// otherwise an ended lockout and the failures outside the window are
    /// dropped, and a lockout until `now + lockout` is stored where the
    /// failures in the window reach the limit.
    pub open spec fn check_state(self, m: RateLimitModel, now: int) -> RateLimitModel {
        if locked_at(m, now) {
            m
        } else {
            RateLimitModel {
                failures: keep_since(m.failures, self.cutoff(now)),
                locked_until: if self.failures_in_window(m, now) >= self.max_attempts() {
                    Some((now + self.lockout_seconds()) as i64)
                } else {
                    None
                },
            }
        }
    }

    /// What a check at `now` answers.
    pub open spec fn check_result(self, m: RateLimitModel, now: int) -> VaultResult<()> {
        if locked_at(m, now) {
            Err(
                VaultError::RateLimited {
                    retry_after_seconds: (m.locked_until.unwrap() - now) as u64,
                    remaining_attempts: 0,
                },
            )
        } else if self.failures_in_window(m, now) >= self.max_attempts() {
            Err(
                VaultError::RateLimited {
                    retry_after_seconds: self.lockout_seconds() as u64,
                    remaining_attempts: 0,
                },
            )
        } else {
            Ok(())
        }
    }

    /// Whether the clock arithmetic of a check at `now` stays within `i64`.
    pub open spec fn check_fits(self, m: RateLimitModel, now: int) -> bool {
        if locked_at(m, now) {
            m.locked_until.unwrap() - now <= i64::MAX
        } else {
            &&& i64::MIN <= self.cutoff(now) <= i64::MAX
            &&& self.failures_in_window(m, now) >= self.max_attempts() ==> i64::MIN <= now
                + self.lockout_seconds() <= i64::MAX
        }
    }

    /// Whether the window arithmetic at `now` stays within `i64`.
    pub open spec fn window_fits(self, now: int) -> bool {
        i64::MIN <= self.cutoff(now) <= i64::MAX
    }

    /// Attempts left at `now`: none during a lockout, otherwise the limit less
    /// the failures in the window (truncated to 32 bits), never below zero.
    pub open spec fn remaining_at(self, m: RateLimitModel, now: int) -> u32 {
        if locked_at(m, now) {
            0
        } else {
            saturating_sub_u32(self.max_attempts(), self.failures_in_window(m, now) as u32)
        }
    }

    /// A limiter allowing `max_attempts` failures per window. The durations are
    /// kept as signed seconds (`as i64`).
    pub fn new(max_attempts: u32, window_seconds: u64, lockout_seconds: u64) -> (res: RateLimiter)
        ensures
            res.max_attempts() == max_attempts,
            res.window_seconds() == window_seconds as i64,
            res.lockout_seconds() == lockout_seconds as i64,
    {
        RateLimiter {
            max_attempts,
            window_seconds: window_seconds as i64,
            lockout_seconds: lockout_seconds as i64,
        }
    }

    /// Counts the failures at or after `cutoff` and keeps only those.
    fn prune_failures(failures: &Vec<i64>, cutoff: i64) -> (res: (Vec<i64>, usize))
        ensures
            res.0@ == keep_since(failures@, cutoff as int),
            res.1 == count_since(failures@, cutoff as int),
    {
        let mut kept: Vec<i64> = Vec::new();
        let mut count: usize = 0;
        let mut i: usize = 0;
        while i < failures.len()
            invariant
                i <= failures@.len(),
                kept@ == keep_since(failures@.take(i as int), cutoff as int),
                count == count_since(failures@.take(i as int), cutoff as int),
                count <= i,
            decreases failures@.len() - i,
        {
            let t = failures[i];
            assert(failures@.take(i + 1).drop_last() =~= failures@.take(i as int));
            assert(failures@.take(i + 1).last() == t);
            if t >= cutoff {
                kept.push(t);
                count = count + 1;
            }
            i = i + 1;
        }
        assert(failures@.take(failures@.len() as int) =~= failures@);
        (kept, count)
    }

    /// Checks whether an attempt may proceed at `now`, as one transaction
    /// whose changes are kept whether the attempt is allowed or refused: a
    /// refusal at the limit keeps the lockout that it announces, so the wait it
    /// names is honoured by every later check.
    pub fn check(&self, state: &mut RateLimitState, now: i64) -> (res: VaultResult<()>)
        requires
            self.check_fits(old(state)@, now as int),
        ensures
            final(state)@ == self.check_state(old(state)@, now as int),
            res == self.check_result(old(state)@, now as int),
    {
        self.check_inner(state, now)
    }

    /// The steps of a check at `now` on the store: refused during a lockout;
    /// otherwise an ended lockout and the failures outside the window are
    /// dropped, and where the failures in the window reach the limit a lockout
    /// is stored and the attempt refused.
    pub fn check_inner(&self, state: &mut RateLimitState, now: i64) -> (res: VaultResult<()>)
        requires
            self.check_fits(old(state)@, now as int),
        ensures
            final(state)@ == self.check_state(old(state)@, now as int),
            res == self.check_result(old(state)@, now as int),
    {
        if let Some(until) = state.locked_until {
            if until > now {
                return Err(VaultError::RateLimited {
                    retry_after_seconds: (until - now) as u64,
                    remaining_attempts: 0,
                });
            }
        }
        state.locked_until = None;
        let cutoff = now - self.window_seconds;
        let (kept, count) = Self::prune_failures(&state.failures, cutoff);
        state.failures = kept;
        if count as u64 >= self.max_attempts as u64 {
            state.locked_until = Some(now + self.lockout_seconds);
            return Err(VaultError::RateLimited {
                retry_after_seconds: self.lockout_seconds as u64,
                remaining_attempts: 0,
            });
        }
        Ok(())
    }

    /// Whether the clock arithmetic of a check at `now` stays within `i64`.
    pub fn check_fits_now(&self, state: &RateLimitState, now: i64) -> (res: bool)
        ensures
            res == self.check_fits(state@, now as int),
    {
        if let Some(until) = state.locked_until {
            if until > now {
                return until as i128 - now as i128 <= i64::MAX as i128;
            }
        }
        let cutoff = now as i128 - self.window_seconds as i128;
        if cutoff < i64::MIN as i128 || cutoff > i64::MAX as i128 {
            return false;
        }
        let (_, count) = Self::prune_failures(&state.failures, cutoff as i64);
        if count as u64 >= self.max_attempts as u64 {
            let end = now as i128 + self.lockout_seconds as i128;
            end >= i64::MIN as i128 && end <= i64::MAX as i128
        } else {
            true
        }
    }

    /// Whether the window arithmetic at `now` stays within `i64`.
    pub fn window_fits_now(&self, now: i64) -> (res: bool)
        ensures
            res == self.window_fits(now as int),
    {
        let cutoff = now as i128 - self.window_seconds as i128;
        cutoff >= i64::MIN as i128 && cutoff <= i64::MAX as i128
    }

    /// Records a failed attempt at `now`.
    pub fn record_failure(&self, state: &mut RateLimitState, now: i64)
        ensures
            final(state)@ == after_failure(old(state)@, now),
            final(state)@.failures.len() == old(state)@.failures.len() + 1,
            final(state)@.failures.last() == now,
            final(state)@.failures.drop_last() == old(state)@.failures,
            final(state)@.locked_until == old(state)@.locked_until,
    {
        state.failures.push(now);
    }

    /// On a successful unlock, clears every attempt and the lockout.
    pub fn record_success(&self, state: &mut RateLimitState)
        ensures
            final(state)@ == after_success(),
    {
        state.failures = Vec::new();
        state.locked_until = None;
    }

    /// Attempts left at `now`.
    pub fn remaining_attempts(&self, state: &RateLimitState, now: i64) -> (res: u32)
        requires
            locked_at(state@, now as int) || self.window_fits(now as int),
        ensures
            res == self.remaining_at(state@, now as int),
    {
        if let Some(until) = state.locked_until {
            if until > now {
                return 0;
            }
        }
        let cutoff = now - self.window_seconds;
        let (_, count) = Self::prune_failures(&state.failures, cutoff);
        let c = count as u32;
        if self.max_attempts >= c {
            self.max_attempts - c
        } else {
            0
        }
    }
}

/// Keeping the entries at or after a cutoff keeps exactly the ones counted.
pub proof fn lemma_keep_since_count(s: Seq<i64>, c: int)
    ensures
        keep_since(s, c).len() == count_since(s, c),
        count_since(keep_since(s, c), c) == count_since(s, c),
    decreases s.len(),
{
    if s.len() > 0 {
        lemma_keep_since_count(s.drop_last(), c);
        if s.last() >= c {
            let k = keep_since(s.drop_last(), c);
            assert(k.push(s.last()).drop_last() =~= k);
        }
    }
}

/// A successful unlock restores every attempt: afterwards the limiter reports
/// the full number of attempts and lets the next attempt through (unless no
/// attempt at all is allowed).
pub proof fn law_success_restores_attempts(rl: RateLimiter, now: i64)
    ensures
        rl.remaining_at(after_success(), now as int) == rl.max_attempts(),
        rl.check_result(after_success(), now as int) is Ok <==> rl.max_attempts() > 0,
        rl.check_result(after_success(), now as int) is Ok ==> rl.check_state(after_success(), now as int)
            == after_success(),
{
    assert(count_since(Seq::<i64>::empty(), rl.cutoff(now as int)) == 0);
    assert(keep_since(Seq::<i64>::empty(), rl.cutoff(now as int)) =~= Seq::<i64>::empty());
}

/// A failed attempt inside the window uses up exactly one remaining attempt.
pub proof fn law_failure_uses_one_attempt(rl: RateLimiter, m: RateLimitModel, now: i64)
    requires
        !locked_at(m, now as int),
        rl.window_seconds() >= 0,
        rl.failures_in_window(m, now as int) < u32::MAX,
    ensures
        rl.remaining_at(after_failure(m, now), now as int) == saturating_sub_u32(rl.remaining_at(m, now as int), 1),
{
    let f = m.failures.push(now);
    assert(f.drop_last() =~= m.failures);
}

/// Recording a failure always keeps it, during a lockout too: the failure
/// times afterwards are those before followed by `now`, the lockout is
/// unchanged, and at any later time whose window still reaches back to `now`
/// the failure counts, one more than before.
pub proof fn law_failure_is_always_recorded(rl: RateLimiter, m: RateLimitModel, now: i64, t: int)
    requires
        rl.cutoff(t) <= now,
    ensures
        after_failure(m, now).failures.len() == m.failures.len() + 1,
        after_failure(m, now).failures.last() == now,
        after_failure(m, now).failures.drop_last() == m.failures,
        after_failure(m, now).locked_until == m.locked_until,
        rl.failures_in_window(after_failure(m, now), t) == rl.failures_in_window(m, t) + 1,
{
    assert(after_failure(m, now).failures.drop_last() =~= m.failures);
}

/// Once the failures in the window reach the limit, the check is refused with
/// the lockout duration as the wait, nothing is left of the attempts, and the
/// check stores a lockout lasting that long.
pub proof fn law_limit_refuses(rl: RateLimiter, m: RateLimitModel, now: i64)
    requires
        !locked_at(m, now as int),
        rl.failures_in_window(m, now as int) >= rl.max_attempts(),
        rl.failures_in_window(m, now as int) <= u32::MAX,
    ensures
        rl.check_result(m, now as int) == Err::<(), VaultError>(
            VaultError::RateLimited { retry_after_seconds: rl.lockout_seconds() as u64, remaining_attempts: 0 },
        ),
        rl.check_state(m, now as int).locked_until == Some((now + rl.lockout_seconds()) as i64),
        rl.remaining_at(m, now as int) == 0,
{
}

/// The wait that a refusal announces is honoured: until it has passed, and
/// as long as no successful unlock clears the store (failures recorded in the
/// meantime change nothing), every check is refused and no attempt is left.
pub proof fn law_refusal_wait_is_kept(rl: RateLimiter, m: RateLimitModel, t0: i64, t1: i64, later: RateLimitModel)
    requires
        rl.check_fits(m, t0 as int),
        rl.lockout_seconds() >= 0,
        rl.check_result(m, t0 as int) is Err,
        t0 <= t1,
        t1 < t0 + retry_after(rl.check_result(m, t0 as int)),
        later.locked_until == rl.check_state(m, t0 as int).locked_until,
    ensures
        locked_at(later, t1 as int),
        rl.check_result(later, t1 as int) is Err,
        rl.check_result(later, t1 as int) matches Err(VaultError::RateLimited { retry_after_seconds, remaining_attempts })
            && remaining_attempts == 0 && t1 + retry_after_seconds == later.locked_until.unwrap(),
        rl.check_state(later, t1 as int) == later,
        rl.remaining_at(later, t1 as int) == 0,
{
}

/// A check that lets an attempt through only forgets failures outside the
/// window and an ended lockout: the attempts left are the same afterwards.
pub proof fn law_allowed_check_keeps_remaining(rl: RateLimiter, m: RateLimitModel, now: i64)
    requires
        rl.check_result(m, now as int) is Ok,
    ensures
        rl.remaining_at(rl.check_state(m, now as int), now as int) == rl.remaining_at(m, now as int),
        rl.check_state(m, now as int).locked_until is None,
        rl.check_state(m, now as int).failures.len() == rl.failures_in_window(m, now as int),
{
    lemma_keep_since_count(m.failures, rl.cutoff(now as int));
}

/// The attempts left never exceed the limit.
pub proof fn law_remaining_at_most_limit(rl: RateLimiter, m: RateLimitModel, now: i64)
    ensures
        rl.remaining_at(m, now as int) <= rl.max_attempts(),
{
}

} // verus!
