//! Rate limiter using a leaky bucket.

use crate::clock::{is_reading, Clock};
use vstd::prelude::*;

verus! {

/// Parts that a token is counted in. At a rate of `r` tokens per second the bucket gains exactly
/// `r` of these parts per nanosecond.
pub const TOKEN: u64 = 1_000_000_000;

/// Leaky bucket rate limiter for terminal input.
///
/// Limits the rate of input to prevent abuse while allowing bursts. Tokens are counted in
/// billionths, so that refilling is exact.
#[derive(Debug)]
pub struct RateLimiter {
    /// Maximum tokens (burst capacity).
    capacity: u32,
    /// Current level, in billionths of a token.
    level: u64,
    /// Tokens added per second.
    rate: u32,
    /// Reading of the clock at which the level was last brought up to date.
    last_update: u128,
    /// Clock that the limiter reads.
    clock: Clock,
}

/// The mathematical state of a [`RateLimiter`].
pub struct Bucket {
    /// Maximum number of tokens.
    pub capacity: nat,
    /// Current level, in billionths of a token.
    pub level: nat,
    /// Tokens added per second, which is billionths of a token added per nanosecond.
    pub rate: nat,
    /// Time of the last refill, in nanoseconds.
    pub last_update: nat,
}

impl Bucket {
    /// A full bucket at time `now`.
    pub open spec fn full(rate: nat, capacity: nat, now: nat) -> Bucket {
        Bucket { capacity, level: capacity * TOKEN as nat, rate, last_update: now }
    }

    /// The level is within the capacity.
    pub open spec fn valid(self) -> bool {
        self.level <= self.capacity * TOKEN as nat
    }

    /// Nanoseconds that have passed at time `now` since the last refill.
    pub open spec fn elapsed(self, now: nat) -> nat {
        if now >= self.last_update {
            (now - self.last_update) as nat
        } else {
            0
        }
    }

    /// The bucket after tokens for the time until `now` were added, up to the capacity.
    pub open spec fn refilled(self, now: nat) -> Bucket {
        let limit = self.capacity * TOKEN as nat;
        let sum = self.level + self.elapsed(now) * self.rate;
        Bucket {
            level: if sum <= limit {
                sum
            } else {
                limit
            },
            last_update: now,
            ..self
        }
    }

    /// At least one whole token is there.
    pub open spec fn has_token(self) -> bool {
        self.level >= TOKEN
    }

    /// The bucket after one token was taken, if there is one.
    pub open spec fn taken(self) -> Bucket {
        if self.has_token() {
            Bucket { level: (self.level - TOKEN) as nat, ..self }
        } else {
            self
        }
    }

    /// Whether an action at time `now` is allowed.
    pub open spec fn allows(self, now: nat) -> bool {
        self.refilled(now).has_token()
    }

    /// The bucket after an action was asked for at time `now`.
    pub open spec fn checked(self, now: nat) -> Bucket {
        self.refilled(now).taken()
    }

    /// The wait until a whole token is there, in nanoseconds, with nothing added yet for the time
    /// since the last refill: zero with a token at hand, and otherwise what is missing divided by
    /// the rate, rounded to the nearest nanosecond, a half to the even one.
    pub open spec fn wait(self) -> nat {
        if self.has_token() {
            0
        } else {
            rounded_quotient((TOKEN - self.level) as nat, self.rate)
        }
    }
}

/// `dividend / divisor` rounded to the nearest whole number, a half to the even one.
pub open spec fn rounded_quotient(dividend: nat, divisor: nat) -> nat {
    let quotient = dividend / divisor;
    let twice = 2 * (dividend % divisor);
    if twice > divisor || (twice == divisor && quotient % 2 == 1) {
        quotient + 1
    } else {
        quotient
    }
}

impl View for RateLimiter {
    type V = Bucket;

    closed spec fn view(&self) -> Bucket {
        Bucket {
            capacity: self.capacity as nat,
            level: self.level as nat,
            rate: self.rate as nat,
            last_update: self.last_update as nat,
        }
    }
}

impl RateLimiter {
    /// Every limiter holds a valid bucket.
    #[verifier::type_invariant]
    spec fn within_capacity(self) -> bool {
        self.level <= self.capacity * TOKEN
    }

    /// Create a new rate limiter.
    ///
    /// # Arguments
    ///
    /// * `rate` - Tokens added per second (sustained rate)
    /// * `capacity` - Maximum tokens (burst capacity)
    ///
    /// # Example
    ///
    /// ```
    /// use microsandbox_terminal::RateLimiter;
    ///
    /// // Allow 10 inputs/sec with burst of 20
    /// let limiter = RateLimiter::new(10, 20);
    /// ```
    pub fn new(rate: u32, capacity: u32) -> (limiter: Self)
        ensures
            limiter@ == Bucket::full(rate as nat, capacity as nat, 0),
    {
        RateLimiter {
            capacity,
            level: capacity as u64 * TOKEN,
            rate,
            last_update: 0,
            clock: Clock::start(),
        }
    }

    /// Default rate limiter for terminal input.
    ///
    /// - Rate: 10 inputs/second
    /// - Burst: 20 inputs
    pub fn default_terminal() -> (limiter: Self)
        ensures
            limiter@ == Bucket::full(10, 20, 0),
    {
        Self::new(10, 20)
    }

    /// Read the limiter's clock, at or after the last refill.
    pub fn now(&self) -> (nanos: u128)
        ensures
            is_reading(nanos as nat, self@.last_update),
    {
        self.clock.now_after(self.last_update)
    }

    /// Refill tokens for the time until `now`, a reading of the limiter's clock.
    pub fn refill_at(&mut self, now: u128)
        ensures
            final(self)@ == old(self)@.refilled(now as nat),
            final(self)@.valid(),
        no_unwind
    {
        proof {
            use_type_invariant(&*self);
        }
        let limit: u64 = self.capacity as u64 * TOKEN;
        let elapsed: u128 = if now >= self.last_update {
            now - self.last_update
        } else {
            0
        };
        let room: u64 = limit - self.level;
        let rate: u128 = self.rate as u128;
        proof {
            lemma_fits_in_room(elapsed as nat, rate as nat, room as nat);
        }
        // Compared by division, so that a long time cannot overflow the product
        let gained: u64 = if rate == 0 {
            0
        } else if elapsed <= room as u128 / rate {
            (elapsed * rate) as u64
        } else {
            room
        };
        self.level = self.level + gained;
        self.last_update = now;
    }

    /// Check if an action is allowed at `now`, a reading of the limiter's clock, and consume a
    /// token if so.
    pub fn check_at(&mut self, now: u128) -> (allowed: bool)
        ensures
            allowed == old(self)@.allows(now as nat),
            final(self)@ == old(self)@.checked(now as nat),
            final(self)@.valid(),
        no_unwind
    {
        self.refill_at(now);
        if self.level >= TOKEN {
            self.level = self.level - TOKEN;
            true
        } else {
            false
        }
    }

    /// Check if an action is allowed and consume a token if so.
    ///
    /// Returns `true` if the action is allowed, `false` if rate limited. The time is read from the
    /// limiter's clock; a token that is already there is enough whatever the clock says, and with a
    /// rate of zero nothing else is.
    pub fn check(&mut self) -> (allowed: bool)
        ensures
            exists|now: nat|
                {
                    &&& is_reading(now, old(self)@.last_update)
                    &&& final(self)@ == #[trigger] old(self)@.checked(now)
                    &&& allowed == old(self)@.allows(now)
                },
            final(self)@.valid(),
            old(self)@.has_token() ==> allowed,
            old(self)@.rate == 0 ==> allowed == old(self)@.has_token(),
    {
        let now: u128 = self.now();
        proof {
            use_type_invariant(&*self);
            law_refill_keeps_tokens(self@, now as nat);
        }
        self.check_at(now)
    }

    /// Check if an action is allowed at `now`, a reading of the limiter's clock, without consuming
    /// a token.
    pub fn peek_at(&mut self, now: u128) -> (allowed: bool)
        ensures
            allowed == old(self)@.allows(now as nat),
            final(self)@ == old(self)@.refilled(now as nat),
            final(self)@.valid(),
    {
        self.refill_at(now);
        self.level >= TOKEN
    }

    /// Check if an action is allowed without consuming a token.
    pub fn peek(&mut self) -> (allowed: bool)
        ensures
            exists|now: nat|
                {
                    &&& is_reading(now, old(self)@.last_update)
                    &&& final(self)@ == #[trigger] old(self)@.refilled(now)
                    &&& allowed == old(self)@.allows(now)
                },
            final(self)@.valid(),
            old(self)@.has_token() ==> allowed,
            old(self)@.rate == 0 ==> allowed == old(self)@.has_token(),
    {
        let now: u128 = self.now();
        proof {
            use_type_invariant(&*self);
            law_refill_keeps_tokens(self@, now as nat);
        }
        self.peek_at(now)
    }

    /// Get the token count at `now`, a reading of the limiter's clock, in billionths of a token.
    pub fn token_parts_at(&mut self, now: u128) -> (parts: u64)
        ensures
            parts == old(self)@.refilled(now as nat).level,
            final(self)@ == old(self)@.refilled(now as nat),
            final(self)@.valid(),
    {
        self.refill_at(now);
        self.level
    }

    /// Get the current token count, in billionths of a token.
    pub fn token_parts(&mut self) -> (parts: u64)
        ensures
            exists|now: nat|
                {
                    &&& is_reading(now, old(self)@.last_update)
                    &&& final(self)@ == #[trigger] old(self)@.refilled(now)
                },
            parts == final(self)@.level,
            final(self)@.valid(),
    {
        let now: u128 = self.now();
        self.token_parts_at(now)
    }

    /// Get the number of whole tokens at `now`, a reading of the limiter's clock.
    pub fn tokens_at(&mut self, now: u128) -> (count: u32)
        ensures
            count == old(self)@.refilled(now as nat).level / TOKEN as nat,
            final(self)@ == old(self)@.refilled(now as nat),
            final(self)@.valid(),
    {
        self.refill_at(now);
        proof {
            use_type_invariant(&*self);
        }
        (self.level / TOKEN) as u32
    }

    /// Get the current number of whole tokens.
    pub fn tokens(&mut self) -> (count: u32)
        ensures
            exists|now: nat|
                {
                    &&& is_reading(now, old(self)@.last_update)
                    &&& final(self)@ == #[trigger] old(self)@.refilled(now)
                },
            count == final(self)@.level / TOKEN as nat,
            final(self)@.valid(),
    {
        let now: u128 = self.now();
        self.tokens_at(now)
    }

    /// Get the rate (tokens per second).
    pub fn rate(&self) -> (rate: u32)
        ensures
            rate == self@.rate,
    {
        self.rate
    }

    /// Get the capacity (max burst).
    pub fn capacity(&self) -> (capacity: u32)
        ensures
            capacity == self@.capacity,
    {
        self.capacity
    }

    /// Reset the rate limiter to full capacity at `now`, a reading of the limiter's clock.
    pub fn reset_at(&mut self, now: u128)
        ensures
            final(self)@ == Bucket::full(old(self)@.rate, old(self)@.capacity, now as nat),
    {
        self.level = self.capacity as u64 * TOKEN;
        self.last_update = now;
    }

    /// Reset the rate limiter to full capacity.
    pub fn reset(&mut self)
        ensures
            exists|now: nat|
                {
                    &&& is_reading(now, old(self)@.last_update)
                    &&& final(self)@ == #[trigger] Bucket::full(
                        old(self)@.rate,
                        old(self)@.capacity,
                        now,
                    )
                },
    {
        let now: u128 = self.now();
        self.reset_at(now);
    }

    /// Time from `now`, a reading of the limiter's clock, until the next token is available, in
    /// nanoseconds.
    ///
    /// With a rate of zero there is a next token only if one is there already.
    pub fn time_until_available_at(&mut self, now: u128) -> (nanos: u64)
        requires
            old(self)@.rate > 0 || old(self)@.has_token(),
        ensures
            nanos == old(self)@.refilled(now as nat).wait(),
            final(self)@ == old(self)@.refilled(now as nat),
            final(self)@.valid(),
    {
        proof {
            use_type_invariant(&*self);
            law_refill_keeps_tokens(self@, now as nat);
        }
        self.refill_at(now);
        if self.level >= TOKEN {
            0
        } else {
            let missing: u64 = TOKEN - self.level;
            let rate: u64 = self.rate as u64;
            let quotient: u64 = missing / rate;
            let twice: u64 = 2 * (missing % rate);
            proof {
                assert(missing / rate <= missing) by (nonlinear_arith)
                    requires
                        rate > 0,
                ;
            }
            if twice > rate || (twice == rate && quotient % 2 == 1) {
                quotient + 1
            } else {
                quotient
            }
        }
    }

    /// Time until next token is available, in nanoseconds.
    pub fn time_until_available(&mut self) -> (nanos: u64)
        requires
            old(self)@.rate > 0 || old(self)@.has_token(),
        ensures
            exists|now: nat|
                {
                    &&& is_reading(now, old(self)@.last_update)
                    &&& final(self)@ == #[trigger] old(self)@.refilled(now)
                },
            nanos == final(self)@.wait(),
            final(self)@.valid(),
            old(self)@.has_token() ==> nanos == 0,
    {
        let now: u128 = self.now();
        proof {
            use_type_invariant(&*self);
            law_refill_keeps_tokens(self@, now as nat);
        }
        self.time_until_available_at(now)
    }
}

impl Default for RateLimiter {
    fn default() -> (limiter: Self)
        ensures
            limiter@ == Bucket::full(10, 20, 0),
    {
        Self::default_terminal()
    }
}

/// A product is within `room` exactly if one factor is within the quotient by the other.
proof fn lemma_fits_in_room(elapsed: nat, rate: nat, room: nat)
    ensures
        rate == 0 ==> elapsed * rate == 0,
        rate > 0 ==> (elapsed <= room / rate <==> elapsed * rate <= room),
{
    if rate == 0 {
        assert(elapsed * rate == 0) by (nonlinear_arith)
            requires
                rate == 0,
        ;
    } else {
        vstd::arithmetic::div_mod::lemma_fundamental_div_mod(room as int, rate as int);
        let quotient = room / rate;
        assert(room % rate < rate);
        if elapsed <= quotient {
            assert(elapsed * rate <= rate * quotient) by (nonlinear_arith)
                requires
                    elapsed <= quotient,
            ;
        } else {
            assert(elapsed * rate >= rate * quotient + rate) by (nonlinear_arith)
                requires
                    elapsed >= quotient + 1,
            ;
        }
    }
}

/// Refilling never takes tokens away, and adds none at a rate of zero.
pub proof fn law_refill_keeps_tokens(bucket: Bucket, now: nat)
    requires
        bucket.valid(),
    ensures
        bucket.level <= bucket.refilled(now).level,
        bucket.rate == 0 ==> bucket.level == bucket.refilled(now).level,
        bucket.refilled(now).valid(),
{
    let gained = bucket.elapsed(now) * bucket.rate;
    assert(gained >= 0 && (bucket.rate == 0 ==> gained == 0)) by (nonlinear_arith)
        requires
            gained == bucket.elapsed(now) * bucket.rate,
    ;
}

/// What can be asked of a bucket, with the time at which it is asked.
pub enum BucketUse {
    /// An action is asked for.
    Check { now: nat },
    /// The bucket is looked at: its tokens, whether there is one, or the wait for the next one.
    Look { now: nat },
}

impl BucketUse {
    /// The time at which the bucket is used.
    pub open spec fn time(self) -> nat {
        match self {
            BucketUse::Check { now } => now,
            BucketUse::Look { now } => now,
        }
    }
}

impl Bucket {
    /// The bucket after one use.
    pub open spec fn used(self, item: BucketUse) -> Bucket {
        match item {
            BucketUse::Check { now } => self.checked(now),
            BucketUse::Look { now } => self.refilled(now),
        }
    }

    /// How many actions one use lets through: one, for an action that is asked for and allowed.
    pub open spec fn granted(self, item: BucketUse) -> nat {
        match item {
            BucketUse::Check { now } => if self.allows(now) {
                1
            } else {
                0
            },
            BucketUse::Look { .. } => 0,
        }
    }
}

/// The bucket after each of `uses`, in order.
pub open spec fn after_uses(bucket: Bucket, uses: Seq<BucketUse>) -> Bucket
    decreases uses.len(),
{
    if uses.len() == 0 {
        bucket
    } else {
        after_uses(bucket, uses.drop_last()).used(uses.last())
    }
}

/// How many actions are allowed in `uses`, in order.
pub open spec fn allowed_actions(bucket: Bucket, uses: Seq<BucketUse>) -> nat
    decreases uses.len(),
{
    if uses.len() == 0 {
        0
    } else {
        allowed_actions(bucket, uses.drop_last()) + after_uses(bucket, uses.drop_last()).granted(
            uses.last(),
        )
    }
}

/// The times of `uses` never go back, and start no earlier than `start`.
pub open spec fn in_order_from(start: nat, uses: Seq<BucketUse>) -> bool {
    &&& forall|i: int| 0 <= i < uses.len() ==> start <= (#[trigger] uses[i]).time()
    &&& forall|i: int, j: int|
        0 <= i <= j < uses.len() ==> (#[trigger] uses[i]).time() <= (#[trigger] uses[j]).time()
}

/// Uses come in order: one more, at a time that is not before the last refill, goes on with times
/// that never go back.
pub proof fn law_uses_come_in_order(bucket: Bucket, uses: Seq<BucketUse>, next: BucketUse)
    requires
        in_order_from(bucket.last_update, uses),
        after_uses(bucket, uses).last_update <= next.time(),
    ensures
        in_order_from(bucket.last_update, uses.push(next)),
        after_uses(bucket, uses.push(next)) == after_uses(bucket, uses).used(next),
        allowed_actions(bucket, uses.push(next)) == allowed_actions(bucket, uses) + after_uses(
            bucket,
            uses,
        ).granted(next),
{
    assert(uses.push(next).drop_last() =~= uses);
    if uses.len() > 0 {
        assert(after_uses(bucket, uses).last_update == uses[uses.len() - 1].time());
    }
}

/// Over any stretch of time, however the requests are placed in it and however often the bucket is
/// looked at in between, the number of actions allowed is at most the number of tokens at its start
/// plus what the rate adds during it. Starting from any valid bucket, that is at most the burst
/// capacity plus the sustained rate.
pub proof fn law_rate_is_limited(bucket: Bucket, uses: Seq<BucketUse>)
    requires
        bucket.valid(),
        uses.len() > 0,
        in_order_from(bucket.last_update, uses),
    ensures
        allowed_actions(bucket, uses) * TOKEN <= bucket.level + bucket.rate * (uses.last().time()
            - bucket.last_update),
        allowed_actions(bucket, uses) * TOKEN <= bucket.capacity * TOKEN + bucket.rate * (
        uses.last().time() - bucket.last_update),
{
    lemma_tokens_spent(bucket, uses);
}

/// What one use takes out of a bucket and leaves in it is within what was there and what the rate
/// has added since the last refill.
pub(crate) proof fn lemma_use_spends(bucket: Bucket, item: BucketUse)
    requires
        bucket.valid(),
        bucket.last_update <= item.time(),
    ensures
        ({
            let after = bucket.used(item);
            &&& after.valid()
            &&& after.rate == bucket.rate
            &&& after.capacity == bucket.capacity
            &&& after.last_update == item.time()
            &&& after.level + bucket.granted(item) * TOKEN <= bucket.level + bucket.rate * (
            item.time() - bucket.last_update)
        }),
{
    let now = item.time();
    assert(bucket.elapsed(now) * bucket.rate == bucket.rate * (now - bucket.last_update))
        by (nonlinear_arith)
        requires
            bucket.elapsed(now) == now - bucket.last_update,
    ;
}

/// What the rate adds over two stretches is what it adds over both.
pub(crate) proof fn lemma_rate_adds_up(rate: nat, start: nat, middle: nat, end: nat)
    requires
        start <= middle <= end,
    ensures
        rate * (middle - start) + rate * (end - middle) == rate * (end - start),
        0 <= rate * (end - middle),
{
    assert(rate * (middle - start) + rate * (end - middle) == rate * (end - start))
        by (nonlinear_arith);
    assert(0 <= rate * (end - middle)) by (nonlinear_arith)
        requires
            middle <= end,
    ;
}

proof fn lemma_tokens_spent(bucket: Bucket, uses: Seq<BucketUse>)
    requires
        bucket.valid(),
        in_order_from(bucket.last_update, uses),
    ensures
        ({
            let end = after_uses(bucket, uses);
            &&& end.valid()
            &&& end.rate == bucket.rate
            &&& end.capacity == bucket.capacity
            &&& end.last_update == if uses.len() == 0 {
                bucket.last_update
            } else {
                uses.last().time()
            }
            &&& end.level + allowed_actions(bucket, uses) * TOKEN <= bucket.level + bucket.rate * (
            end.last_update - bucket.last_update)
        }),
    decreases uses.len(),
{
    if uses.len() > 0 {
        let earlier = uses.drop_last();
        let now = uses.last().time();
        assert forall|i: int| 0 <= i < earlier.len() implies bucket.last_update <= (
        #[trigger] earlier[i]).time() <= now by {
            assert(earlier[i] == uses[i]);
            assert(uses[i].time() <= uses[uses.len() - 1].time());
        }
        assert forall|i: int, j: int| 0 <= i <= j < earlier.len() implies (
        #[trigger] earlier[i]).time() <= (#[trigger] earlier[j]).time() by {
            assert(uses[i].time() <= uses[j].time());
        }
        assert(bucket.last_update <= uses[uses.len() - 1].time());
        lemma_tokens_spent(bucket, earlier);
        let before = after_uses(bucket, earlier);
        if earlier.len() > 0 {
            assert(earlier.last() == earlier[earlier.len() - 1]);
        }
        lemma_use_spends(before, uses.last());
        lemma_rate_adds_up(bucket.rate, bucket.last_update, before.last_update, now);
    } else {
        assert(bucket.rate * (bucket.last_update - bucket.last_update) == 0) by (nonlinear_arith);
    }
}

/// `requests` actions asked for, all at the same time.
pub open spec fn burst(requests: nat, now: nat) -> Seq<BucketUse> {
    Seq::new(requests, |i: int| BucketUse::Check { now })
}

/// A burst, requests all at the moment of the last refill, gets exactly the whole tokens that are
/// there: a full bucket allows as many as its capacity, and then no more.
pub proof fn law_burst(bucket: Bucket, requests: nat)
    requires
        bucket.valid(),
    ensures
        ({
            let whole = bucket.level / TOKEN as nat;
            allowed_actions(bucket, burst(requests, bucket.last_update)) == if requests <= whole {
                requests
            } else {
                whole
            }
        }),
        bucket.level == bucket.capacity * TOKEN ==> bucket.level / TOKEN as nat == bucket.capacity,
{
    lemma_burst(bucket, requests);
}

proof fn lemma_burst(bucket: Bucket, requests: nat)
    requires
        bucket.valid(),
    ensures
        ({
            let uses = burst(requests, bucket.last_update);
            let whole = bucket.level / TOKEN as nat;
            let allowed = allowed_actions(bucket, uses);
            &&& allowed == if requests <= whole {
                requests
            } else {
                whole
            }
            &&& after_uses(bucket, uses) == Bucket {
                level: (bucket.level - allowed * TOKEN) as nat,
                ..bucket
            }
        }),
    decreases requests,
{
    let uses = burst(requests, bucket.last_update);
    if requests > 0 {
        let fewer = (requests - 1) as nat;
        lemma_burst(bucket, fewer);
        assert(uses.drop_last() =~= burst(fewer, bucket.last_update));
        let before = after_uses(bucket, uses.drop_last());
        assert(before.elapsed(bucket.last_update) * before.rate == 0) by (nonlinear_arith)
            requires
                before.elapsed(bucket.last_update) == 0,
        ;
        assert(before.refilled(bucket.last_update) == before);
    }
}

/// Input at the sustained rate is never limited: an action is allowed whenever the time since the
/// last refill is worth at least one token.
pub proof fn law_sustained_rate_is_allowed(bucket: Bucket, now: nat)
    requires
        bucket.capacity >= 1,
        bucket.elapsed(now) * bucket.rate >= TOKEN,
    ensures
        bucket.allows(now),
{
}

/// Refilling in two steps is the same as refilling once: how often the limiter is looked at does
/// not change what it holds.
pub proof fn law_refill_in_steps(bucket: Bucket, first: nat, second: nat)
    requires
        bucket.valid(),
        bucket.last_update <= first <= second,
    ensures
        bucket.refilled(first).refilled(second) == bucket.refilled(second),
{
    let rate = bucket.rate;
    let one = (first - bucket.last_update) as nat;
    let two = (second - first) as nat;
    assert((one + two) * rate == one * rate + two * rate) by (nonlinear_arith);
    assert(two * rate >= 0 && one * rate >= 0) by (nonlinear_arith);
}

/// Looking does not consume: after any peek in between, a check gives the same answer and leaves
/// the same bucket as without it.
pub proof fn law_peek_does_not_consume(bucket: Bucket, peek: nat, check: nat)
    requires
        bucket.valid(),
        bucket.last_update <= peek <= check,
    ensures
        bucket.refilled(peek).allows(check) == bucket.allows(check),
        bucket.refilled(peek).checked(check) == bucket.checked(check),
{
    law_refill_in_steps(bucket, peek, check);
}

/// The reported wait is right to the nanosecond: an action is allowed one nanosecond after it, and
/// not yet one nanosecond before it.
pub proof fn law_wait_is_right(bucket: Bucket)
    requires
        bucket.capacity >= 1,
        bucket.rate > 0,
        !bucket.has_token(),
    ensures
        bucket.allows(bucket.last_update + bucket.wait() + 1),
        bucket.wait() >= 1 ==> !bucket.allows((bucket.last_update + bucket.wait() - 1) as nat),
{
    lemma_wait(bucket);
}

/// After the reported wait an action is allowed, unless the wait was rounded down to a whole
/// nanosecond.
pub proof fn law_wait_is_enough(bucket: Bucket)
    requires
        bucket.capacity >= 1,
        bucket.rate > 0,
        !bucket.has_token(),
        bucket.wait() * bucket.rate >= TOKEN - bucket.level,
    ensures
        bucket.allows(bucket.last_update + bucket.wait()),
{
}

proof fn lemma_wait(bucket: Bucket)
    requires
        bucket.capacity >= 1,
        bucket.rate > 0,
        !bucket.has_token(),
    ensures
        (bucket.wait() + 1) * bucket.rate >= TOKEN - bucket.level,
        bucket.wait() >= 1 ==> (bucket.wait() - 1) * bucket.rate < TOKEN - bucket.level,
{
    let missing = (TOKEN - bucket.level) as nat;
    let rate = bucket.rate;
    let quotient = missing / rate;
    vstd::arithmetic::div_mod::lemma_fundamental_div_mod(missing as int, rate as int);
    assert(missing % rate < rate);
    assert((quotient + 1) * rate == rate * quotient + rate) by (nonlinear_arith);
    assert((quotient + 2) * rate == rate * quotient + 2 * rate) by (nonlinear_arith);
    assert((quotient - 1) * rate == rate * quotient - rate) by (nonlinear_arith);
    assert(quotient * rate == rate * quotient) by (nonlinear_arith);
}

/// A new bucket holds as many whole tokens as its capacity, a billion parts each, and keeps the rate
/// that it was given.
pub proof fn law_new_bucket_is_full(rate: nat, capacity: nat, now: nat)
    ensures
        Bucket::full(rate, capacity, now).level == capacity * 1_000_000_000,
        Bucket::full(rate, capacity, now).capacity == capacity,
        Bucket::full(rate, capacity, now).rate == rate,
        Bucket::full(rate, capacity, now).last_update == now,
{
}

/// Refilling adds exactly what the elapsed time is worth, up to the capacity: a part per nanosecond
/// for each token per second, a billion of which are a token. Time that goes back adds nothing.
pub proof fn law_refill_is_exact(bucket: Bucket, now: nat)
    ensures
        ({
            let after = bucket.refilled(now);
            let limit = bucket.capacity * 1_000_000_000;
            let worth = if now < bucket.last_update {
                0
            } else {
                bucket.rate * (now - bucket.last_update)
            };
            &&& bucket.level + worth <= limit ==> after.level == bucket.level + worth
            &&& bucket.level + worth >= limit ==> after.level == limit
            &&& after.capacity == bucket.capacity
            &&& after.rate == bucket.rate
            &&& after.last_update == now
        }),
{
    let elapsed = bucket.elapsed(now);
    let worth = if now < bucket.last_update {
        0
    } else {
        bucket.rate * (now - bucket.last_update)
    };
    assert(elapsed * bucket.rate == bucket.rate * elapsed) by (nonlinear_arith);
    assert(0 * bucket.rate == 0) by (nonlinear_arith);
    assert(elapsed * bucket.rate == worth);
}

/// An action is allowed exactly if a whole token is there after refilling, and takes exactly that
/// one; one that is refused takes nothing.
pub proof fn law_check_is_exact(bucket: Bucket, now: nat)
    ensures
        ({
            let there = bucket.refilled(now);
            let after = bucket.checked(now);
            &&& bucket.allows(now) <==> there.level >= 1_000_000_000
            &&& bucket.allows(now) ==> after.level + 1_000_000_000 == there.level
            &&& !bucket.allows(now) ==> after.level == there.level
            &&& after.capacity == bucket.capacity
            &&& after.rate == bucket.rate
            &&& after.last_update == now
            &&& bucket.has_token() <==> bucket.level >= 1_000_000_000
        }),
{
}

/// With enough time a bucket fills up again, however empty it was, and then allows a burst of as
/// many actions as its capacity, and no more.
pub proof fn law_bucket_fills_up(bucket: Bucket, now: nat, requests: nat)
    requires
        bucket.last_update <= now,
        bucket.rate * (now - bucket.last_update) >= bucket.capacity * 1_000_000_000,
    ensures
        bucket.refilled(now).level == bucket.capacity * 1_000_000_000,
        allowed_actions(bucket.refilled(now), Seq::new(requests, |i: int| BucketUse::Check { now }))
            == if requests <= bucket.capacity {
            requests
        } else {
            bucket.capacity
        },
{
    law_refill_is_exact(bucket, now);
    let full = bucket.refilled(now);
    law_burst(full, requests);
    assert(burst(requests, now) =~= Seq::new(requests, |i: int| BucketUse::Check { now }));
    assert(full.level / 1_000_000_000 == bucket.capacity);
}

/// The wait is the time in which the rate makes up for what is missing of a token, to the nearest
/// nanosecond, a half to the even one; with a token at hand there is none.
pub proof fn law_wait_is_nearest(bucket: Bucket)
    ensures
        bucket.level >= 1_000_000_000 ==> bucket.wait() == 0,
        bucket.level < 1_000_000_000 && bucket.rate > 0 ==> {
            let missing = 1_000_000_000 - bucket.level;
            let gained = bucket.wait() * bucket.rate;
            &&& 2 * gained <= 2 * missing + bucket.rate
            &&& 2 * missing <= 2 * gained + bucket.rate
            &&& 2 * gained == 2 * missing + bucket.rate ==> bucket.wait() % 2 == 0
            &&& 2 * missing == 2 * gained + bucket.rate ==> bucket.wait() % 2 == 0
        },
{
    if bucket.level < 1_000_000_000 && bucket.rate > 0 {
        let missing = (TOKEN - bucket.level) as nat;
        let rate = bucket.rate;
        let quotient = missing / rate;
        vstd::arithmetic::div_mod::lemma_fundamental_div_mod(missing as int, rate as int);
        assert(missing % rate < rate);
        assert((quotient + 1) * rate == rate * quotient + rate) by (nonlinear_arith);
        assert(quotient * rate == rate * quotient) by (nonlinear_arith);
        if bucket.wait() == quotient {
            assert(bucket.wait() * rate == quotient * rate);
        } else {
            assert(bucket.wait() * rate == (quotient + 1) * rate);
        }
    }
}

} // verus!
