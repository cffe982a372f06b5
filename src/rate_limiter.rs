//! The global limit on outbound device commands.
use vstd::prelude::*;

verus! {

/// What a rate limiter holds: when it last let a command through, and its rate.
pub ghost struct RateLimiterView {
    pub last_update: u64,
    pub messages_per_second: u64,
}

/// Milliseconds that must pass between two commands at `messages_per_second`.
pub open spec fn send_interval(messages_per_second: u64) -> int {
    1000int / (messages_per_second as int)
}

/// Milliseconds from `last` to `now`, or zero if the clock went back.
pub open spec fn elapsed_ms(last: u64, now: u64) -> int {
    if now >= last {
        now - last
    } else {
        0
    }
}

/// One check of the limiter at time `now`: the new state and whether a command may go.
pub open spec fn limiter_step(r: RateLimiterView, now: u64) -> (RateLimiterView, bool) {
    if elapsed_ms(r.last_update, now) >= send_interval(r.messages_per_second) {
        (RateLimiterView { last_update: now, ..r }, true)
    } else {
        (r, false)
    }
}

/// Number of checks at the times `times`, in order, that the limiter lets through.
pub open spec fn sends(r: RateLimiterView, times: Seq<u64>) -> nat
    decreases times.len(),
{
    if times.len() == 0 {
        0
    } else {
        let (r1, ok) = limiter_step(r, times[0]);
        sends(r1, times.drop_first()) + if ok { 1nat } else { 0nat }
    }
}

/// Lets at most one command through per `1000 / messages_per_second` milliseconds.
pub struct ToyRateLimiter {
    last_update: u64,
    messages_per_second: u64,
}

impl View for ToyRateLimiter {
    type V = RateLimiterView;

    closed spec fn view(&self) -> RateLimiterView {
        RateLimiterView { last_update: self.last_update, messages_per_second: self.messages_per_second }
    }
}

impl ToyRateLimiter {
    #[verifier::type_invariant]
    spec fn inv(&self) -> bool {
        self.messages_per_second >= 1
    }

    /// The rate is at least one message per second.
    pub closed spec fn wf(&self) -> bool {
        self.messages_per_second >= 1
    }

    /// A limiter that has never let a command through.
    pub fn new(messages_per_second: u64) -> (r: Self)
        requires
            messages_per_second >= 1,
        ensures
            r@ == (RateLimiterView { last_update: 0, messages_per_second }),
    {
        ToyRateLimiter { last_update: 0, messages_per_second }
    }

    /// Sets the rate.
    pub fn update_rate(&mut self, messages_per_second: u64)
        requires
            messages_per_second >= 1,
        ensures
            final(self)@ == (RateLimiterView { messages_per_second, ..old(self)@ }),
    {
        self.messages_per_second = messages_per_second;
    }

    /// Whether a command may be sent at `now` (milliseconds); if so, `now` is recorded.
    pub fn can_send(&mut self, now: u64) -> (r: bool)
        ensures
            (final(self)@, r) == limiter_step(old(self)@, now),
            old(self)@.messages_per_second >= 1,
    {
        proof {
            use_type_invariant(&*self);
        }
        let last = self.last_update;
        let interval_ms = 1000 / self.messages_per_second;
        let elapsed = if now >= last { now - last } else { 0 };
        if elapsed >= interval_ms {
            self.last_update = now;
            true
        } else {
            false
        }
    }
}

proof fn lemma_sends_bound(r: RateLimiterView, times: Seq<u64>, lo: int, hi: int)
    requires
        1 <= send_interval(r.messages_per_second),
        forall|i: int| 0 <= i < times.len() ==> lo <= #[trigger] times[i] <= hi,
    ensures
        ({
            let q = send_interval(r.messages_per_second);
            let start = if lo >= r.last_update + q { lo } else { r.last_update + q };
            sends(r, times) <= if start > hi { 0 } else { (hi - start) / q + 1 }
        }),
    decreases times.len(),
{
    if times.len() > 0 {
        let q = send_interval(r.messages_per_second);
        let start = if lo >= r.last_update + q { lo } else { r.last_update + q };
        let t = times[0];
        let rest = times.drop_first();
        assert forall|i: int| 0 <= i < rest.len() implies lo <= #[trigger] rest[i] <= hi by {
            assert(rest[i] == times[i + 1]);
        }
        let (r1, ok) = limiter_step(r, t);
        lemma_sends_bound(r1, rest, lo, hi);
        if ok {
            assert(t >= start);
            let start1 = if lo >= r1.last_update + q { lo } else { r1.last_update + q };
            assert(start1 == t + q);
            if start1 <= hi {
                assert((hi - start1) / q + 1 <= (hi - start) / q) by (nonlinear_arith)
                    requires start1 >= start + q, start1 <= hi, q >= 1;
            }
            assert(0 <= (hi - start) / q) by (nonlinear_arith) requires start <= hi, q >= 1;
        }
    }
}

/// Over any span of one second (checks at times within `[t0, t0 + 999]`), the limiter lets
/// through at most `messages_per_second + 1` commands. This holds whenever the whole-
/// millisecond interval `1000 / messages_per_second` fits into 999 at most
/// `messages_per_second` times, which leaves out fast rates whose interval rounds down far.
pub proof fn lemma_rate_limit_per_second(r: RateLimiterView, times: Seq<u64>, t0: int)
    requires
        1 <= r.messages_per_second <= 1000,
        999int / send_interval(r.messages_per_second) <= r.messages_per_second,
        forall|i: int| 0 <= i < times.len() ==> t0 <= #[trigger] times[i] <= t0 + 999,
    ensures
        sends(r, times) <= r.messages_per_second + 1,
{
    let m = r.messages_per_second as int;
    let q = send_interval(r.messages_per_second);
    assert(q >= 1) by (nonlinear_arith) requires q == 1000int / m, 1 <= m <= 1000;
    lemma_sends_bound(r, times, t0, t0 + 999);
    let start = if t0 >= r.last_update + q { t0 } else { r.last_update + q };
    if start <= t0 + 999 {
        assert((t0 + 999 - start) / q <= 999int / q) by (nonlinear_arith)
            requires start >= t0, start <= t0 + 999, q >= 1;
    }
}

/// When the rate divides 1000, the limiter lets through at most `messages_per_second + 1`
/// commands over any closed window of one second (checks at times within `[t0, t0 + 1000]`).
pub proof fn lemma_rate_limit_closed_second(r: RateLimiterView, times: Seq<u64>, t0: int)
    requires
        1 <= r.messages_per_second <= 1000,
        1000int % (r.messages_per_second as int) == 0,
        forall|i: int| 0 <= i < times.len() ==> t0 <= #[trigger] times[i] <= t0 + 1000,
    ensures
        sends(r, times) <= r.messages_per_second + 1,
{
    let m = r.messages_per_second as int;
    let q = send_interval(r.messages_per_second);
    assert(q * m == 1000 && q >= 1) by (nonlinear_arith) requires q == 1000int / m, 1000int % m == 0, 1 <= m <= 1000;
    lemma_sends_bound(r, times, t0, t0 + 1000);
    let start = if t0 >= r.last_update + q { t0 } else { r.last_update + q };
    if start <= t0 + 1000 {
        assert((t0 + 1000 - start) / q <= m) by (nonlinear_arith)
            requires start >= t0, start <= t0 + 1000, q >= 1, q * m == 1000;
    }
}

} // verus!
