//! Rate limiting of login attempts: at most `MAX_ATTEMPTS` within a sliding
//! window of `WINDOW_NANOS`.

use std::time::Instant;
use vstd::prelude::*;

verus! {

/// The length of the sliding window: one minute, in nanoseconds.
pub const WINDOW_NANOS: u128 = 60_000_000_000;

/// How many attempts the window admits.
pub const MAX_ATTEMPTS: usize = 20;

/// Whether an attempt made at `t` still counts at `now` (an attempt dated
/// after `now` counts as made at `now`).
pub open spec fn still_counts(now: u128, t: u128) -> bool {
    (if t <= now {
        now - t
    } else {
        0
    }) < WINDOW_NANOS
}

/// The attempts that still count at `now`, in their order.
pub open spec fn recent(attempts: Seq<u128>, now: u128) -> Seq<u128> {
    attempts.filter(|t: u128| still_counts(now, t))
}

/// Whether an attempt at `now` is admitted.
pub open spec fn admits(attempts: Seq<u128>, now: u128) -> bool {
    recent(attempts, now).len() < MAX_ATTEMPTS
}

/// The recorded attempts after an attempt at `now`: the expired ones are
/// forgotten, and `now` is recorded when the attempt is admitted.
pub open spec fn after_attempt(attempts: Seq<u128>, now: u128) -> Seq<u128> {
    if admits(attempts, now) {
        recent(attempts, now).push(now)
    } else {
        recent(attempts, now)
    }
}


/// The recorded attempts after attempts at `times`, in order, starting from
/// `a`.
pub open spec fn run_attempts(a: Seq<u128>, times: Seq<u128>) -> Seq<u128>
    decreases times.len(),
{
    if times.len() == 0 {
        a
    } else {
        after_attempt(run_attempts(a, times.drop_last()), times.last())
    }
}

/// How many of the attempts at `times`, made in order starting from `a`, are
/// admitted.
pub open spec fn admitted_count(a: Seq<u128>, times: Seq<u128>) -> nat
    decreases times.len(),
{
    if times.len() == 0 {
        0
    } else {
        admitted_count(a, times.drop_last()) + if admits(
            run_attempts(a, times.drop_last()),
            times.last(),
        ) {
            1nat
        } else {
            0nat
        }
    }
}

/// All of `s` lies in the window that starts at `start`.
pub open spec fn within_window(s: Seq<u128>, start: u128) -> bool {
    forall|i: int| 0 <= i < s.len() ==> start <= #[trigger] s[i] && s[i] < start + WINDOW_NANOS
}

proof fn lemma_recent_keeps_all(a: Seq<u128>, now: u128)
    requires
        forall|i: int| 0 <= i < a.len() ==> still_counts(now, #[trigger] a[i]),
    ensures
        recent(a, now) == a,
    decreases a.len(),
{
    reveal(Seq::filter);
    if a.len() > 0 {
        lemma_recent_keeps_all(a.drop_last(), now);
        assert(a.drop_last().push(a.last()) =~= a);
    }
}

proof fn lemma_run_in_window(times: Seq<u128>, start: u128)
    requires
        within_window(times, start),
    ensures
        run_attempts(Seq::empty(), times).len() == admitted_count(Seq::empty(), times),
        admitted_count(Seq::empty(), times) <= MAX_ATTEMPTS,
        within_window(run_attempts(Seq::empty(), times), start),
    decreases times.len(),
{
    if times.len() > 0 {
        let prev = times.drop_last();
        assert(within_window(prev, start)) by {
            assert forall|i: int| 0 <= i < prev.len() implies start <= #[trigger] prev[i] && prev[i]
                < start + WINDOW_NANOS by {
                assert(prev[i] == times[i]);
            }
        }
        lemma_run_in_window(prev, start);
        let a = run_attempts(Seq::empty(), prev);
        let now = times.last();
        assert(start <= now && now < start + WINDOW_NANOS) by {
            assert(now == times[times.len() - 1]);
        }
        assert forall|i: int| 0 <= i < a.len() implies still_counts(now, #[trigger] a[i]) by {
            assert(start <= a[i] && a[i] < start + WINDOW_NANOS);
        }
        lemma_recent_keeps_all(a, now);
    }
}

/// However many attempts are made within one window of `WINDOW_NANOS`, at
/// most `MAX_ATTEMPTS` of them are admitted.
pub proof fn lemma_at_most_max_attempts_per_window(times: Seq<u128>, start: u128)
    requires
        within_window(times, start),
    ensures
        admitted_count(Seq::empty(), times) <= MAX_ATTEMPTS,
{
    lemma_run_in_window(times, start);
}

/// An attempt is refused exactly when `MAX_ATTEMPTS` recorded attempts still
/// count; a refused attempt is not recorded.
pub proof fn lemma_refusal(a: Seq<u128>, now: u128)
    ensures
        !admits(a, now) <==> recent(a, now).len() >= MAX_ATTEMPTS,
        !admits(a, now) ==> after_attempt(a, now) == recent(a, now),
{
}

/// The times are in non-decreasing order.
pub open spec fn in_order(s: Seq<u128>) -> bool {
    forall|i: int, j: int| 0 <= i <= j < s.len() ==> s[i] <= s[j]
}

proof fn lemma_recent_in_order(a: Seq<u128>, now: u128)
    requires
        in_order(a),
    ensures
        in_order(recent(a, now)),
        forall|i: int| 0 <= i < recent(a, now).len() ==> a.contains(#[trigger] recent(a, now)[i]),
    decreases a.len(),
{
    reveal(Seq::filter);
    if a.len() > 0 {
        let prev = a.drop_last();
        assert(in_order(prev)) by {
            assert forall|i: int, j: int| 0 <= i <= j < prev.len() implies prev[i] <= prev[j] by {
                assert(prev[i] == a[i] && prev[j] == a[j]);
            }
        }
        lemma_recent_in_order(prev, now);
        let r = recent(prev, now);
        assert forall|i: int| 0 <= i < r.len() implies #[trigger] r[i] <= a.last() by {
            let k = choose|k: int| 0 <= k < prev.len() && prev[k] == r[i];
            assert(a[k] == prev[k]);
            assert(a.last() == a[a.len() - 1]);
        }
        assert forall|i: int| 0 <= i < r.len() implies a.contains(#[trigger] r[i]) by {
            let k = choose|k: int| 0 <= k < prev.len() && prev[k] == r[i];
            assert(a[k] == prev[k]);
        }
        if still_counts(now, a.last()) {
            assert(recent(a, now) == r.push(a.last()));
            assert(a.contains(a.last())) by {
                assert(a[a.len() - 1] == a.last());
            }
        } else {
            assert(recent(a, now) == r);
        }
    }
}

/// What every attempt keeps, for attempts made at non-decreasing times: the
/// recorded times stay in order, none lies after the latest attempt, all of
/// them still count (lie within the window before it), and there are never
/// more than `MAX_ATTEMPTS`.
pub proof fn lemma_attempt_keeps_order_and_window(a: Seq<u128>, now: u128)
    requires
        in_order(a),
        forall|i: int| 0 <= i < a.len() ==> #[trigger] a[i] <= now,
        a.len() <= MAX_ATTEMPTS,
    ensures
        in_order(after_attempt(a, now)),
        forall|i: int|
            0 <= i < after_attempt(a, now).len() ==> #[trigger] after_attempt(a, now)[i] <= now
                && still_counts(now, after_attempt(a, now)[i]),
        after_attempt(a, now).len() <= MAX_ATTEMPTS,
{
    lemma_recent_in_order(a, now);
    let r = recent(a, now);
    a.filter_lemma(|t: u128| still_counts(now, t));
    assert forall|i: int| 0 <= i < r.len() implies #[trigger] r[i] <= now by {
        assert(a.contains(r[i]));
    }
    if admits(a, now) {
        let b = r.push(now);
        assert forall|i: int, j: int| 0 <= i <= j < b.len() implies b[i] <= b[j] by {
            if j < r.len() {
                assert(b[i] == r[i] && b[j] == r[j]);
            } else if i < r.len() {
                assert(b[i] == r[i] && b[j] == now);
            }
        }
        assert forall|i: int| 0 <= i < b.len() implies #[trigger] b[i] <= now && still_counts(
            now,
            b[i],
        ) by {
            if i < r.len() {
                assert(b[i] == r[i]);
            }
        }
    }
}

#[verifier::external_type_specification]
#[verifier::external_body]
pub struct ExInstant(Instant);

/// Calls `Instant::now`. Nothing is claimed: the result is the time.
#[verifier::external_body]
fn instant_now() -> Instant {
    Instant::now()
}

/// Calls `Instant::elapsed` and gives the duration in nanoseconds. Nothing is
/// claimed: the result depends on the time.
#[verifier::external_body]
fn nanos_since(origin: &Instant) -> u128 {
    origin.elapsed().as_nanos()
}

/// Login attempts within the last minute, as nanoseconds since the limiter
/// was made.
pub struct RateLimiter {
    origin: Instant,
    attempts: Vec<u128>,
}

impl View for RateLimiter {
    type V = Seq<u128>;

    closed spec fn view(&self) -> Seq<u128> {
        self.attempts@
    }
}

impl RateLimiter {
    #[verifier::type_invariant]
    spec fn inv(self) -> bool {
        self.attempts@.len() <= MAX_ATTEMPTS
    }

    /// A limiter that has seen no attempts.
    pub fn new() -> (r: RateLimiter)
        ensures
            r@ == Seq::<u128>::empty(),
    {
        RateLimiter { origin: instant_now(), attempts: Vec::new() }
    }

    /// Never more than `MAX_ATTEMPTS` attempts are on record.
    pub fn recorded(&self) -> (r: usize)
        ensures
            r == self@.len(),
            r <= MAX_ATTEMPTS,
    {
        proof {
            use_type_invariant(self);
        }
        self.attempts.len()
    }

    /// Records an attempt at `now` (nanoseconds since the limiter was made);
    /// `true` when it is admitted, `false` when it is rate-limited.
    pub fn check_and_record_at(&mut self, now: u128) -> (r: bool)
        ensures
            r == admits(old(self)@, now),
            final(self)@ == after_attempt(old(self)@, now),
            final(self)@.len() <= MAX_ATTEMPTS,
    {
        proof {
            use_type_invariant(&*self);
        }
        let ghost old_attempts = self.attempts@;
        let mut kept: Vec<u128> = Vec::new();
        let mut k: usize = 0;
        proof {
            reveal(Seq::filter);
            assert(kept@ =~= recent(old_attempts.take(0), now));
        }
        while k < self.attempts.len()
            invariant
                k <= self.attempts.len(),
                self.attempts@ == old_attempts,
                kept@ == recent(old_attempts.take(k as int), now),
            decreases self.attempts.len() - k,
        {
            let t = self.attempts[k];
            let age: u128 = if t <= now {
                now - t
            } else {
                0
            };
            proof {
                reveal(Seq::filter);
                assert(old_attempts.take(k + 1).drop_last() =~= old_attempts.take(k as int));
            }
            if age < WINDOW_NANOS {
                kept.push(t);
            }
            assert(kept@ =~= recent(old_attempts.take(k + 1), now));
            k = k + 1;
        }
        assert(old_attempts.take(old_attempts.len() as int) =~= old_attempts);
        proof {
            old_attempts.lemma_filter_len(|t: u128| still_counts(now, t));
        }
        if kept.len() >= MAX_ATTEMPTS {
            self.attempts = kept;
            return false;
        }
        kept.push(now);
        self.attempts = kept;
        true
    }

    /// Records a login attempt now; `true` when it is admitted, `false` when
    /// it is rate-limited. Whatever the clock read, the outcome is that of
    /// `check_and_record_at` at that reading.
    pub fn check_and_record(&mut self) -> (r: bool)
        ensures
            exists|now: u128|
                r == admits(old(self)@, now) && final(self)@ == after_attempt(old(self)@, now),
    {
        let now = nanos_since(&self.origin);
        self.check_and_record_at(now)
    }
}

} // verus!
