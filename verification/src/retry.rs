//! Retry policy: whether a finished attempt is followed by another, and
//! how long to wait before it.

use crate::auth::{carried_key, has_authorization, lemma_no_header_no_key};
use crate::headers::{authorization, authorization_text, clone_headers, header_entries, remove};
use crate::outcome::Outcome;
use crate::request::{clone_method, clone_uri, Request};
use crate::span::Span;
use http::header::{HeaderMap, HeaderValue};
use http::{Method, Uri};
use vstd::arithmetic::mul::{lemma_mul_inequality, lemma_mul_is_commutative};
use vstd::arithmetic::power2::{lemma_pow2_strictly_increases, lemma_pow2_unfold, pow2};
use vstd::prelude::*;

verus! {

/// The retries that a request is granted unless configured otherwise.
pub const DEFAULT_ATTEMPTS: u32 = 3;

/// A strategy for spacing attempts. A value is the state of the strategy
/// before a wait; `next` yields the length of that wait and the state after it.
///
/// The wait itself is left to the caller, and so is the drawing of random
/// numbers: a strategy that spreads its waits takes the caller's draw as
/// `jitter` and bounds it.
pub trait Backoff: Sized {
    /// Whether the state can be advanced once more.
    spec fn can_advance(&self) -> bool;

    /// The wait that `next` prescribes for a draw of `jitter`, both as
    /// lengths in nanoseconds.
    spec fn spec_delay(&self, jitter: nat) -> nat;

    /// The state that `next` moves to.
    spec fn spec_next(&self) -> Self;

    /// Whether the state can be advanced once more.
    fn has_room(&self) -> (r: bool)
        ensures
            r == self.can_advance(),
    ;

    /// The coming wait before any jitter.
    fn base(&self) -> (r: Span)
        ensures
            r@ == self.spec_delay(0),
    ;

    /// The length of the coming wait, and the state after it.
    fn next(&self, jitter: Span) -> (r: (Span, Self))
        requires
            self.can_advance(),
        ensures
            r.0@ == self.spec_delay(jitter@),
            r.1 == self.spec_next(),
    ;
}

/// Waits the same configured time before every attempt.
#[derive(Clone, Copy, Debug)]
pub struct LinearBackoff {
    timeout: Span,
}

impl LinearBackoff {
    /// A strategy that always waits `timeout`.
    pub fn new(timeout: Span) -> (r: LinearBackoff)
        ensures
            r.timeout() == timeout,
    {
        LinearBackoff { timeout }
    }

    /// The configured wait.
    pub closed spec fn timeout(&self) -> Span {
        self.timeout
    }
}

impl Backoff for LinearBackoff {
    open spec fn can_advance(&self) -> bool {
        true
    }

    open spec fn spec_delay(&self, jitter: nat) -> nat {
        self.timeout()@
    }

    open spec fn spec_next(&self) -> LinearBackoff {
        *self
    }

    fn has_room(&self) -> (r: bool) {
        true
    }

    fn base(&self) -> (r: Span) {
        self.timeout
    }

    fn next(&self, jitter: Span) -> (r: (Span, LinearBackoff)) {
        (self.timeout, LinearBackoff { timeout: self.timeout })
    }
}

/// The shorter of two lengths.
pub open spec fn shorter(a: nat, b: nat) -> nat {
    if a <= b {
        a
    } else {
        b
    }
}

/// The wait of an exponential strategy before any jitter: `min` doubled
/// once per completed wait, capped at `max`.
pub open spec fn exponential_base(min: nat, max: nat, iterations: nat) -> nat {
    shorter(min * pow2(iterations), max)
}

/// The part of a draw of `jitter` that fits between `base` and `max`.
pub open spec fn clamped_jitter(base: nat, max: nat, jitter: nat) -> nat {
    shorter(jitter, (max - base) as nat)
}

/// Doubles the wait with every attempt, between a minimum and a maximum, and
/// adds the caller's jitter as far as the maximum allows.
#[derive(Clone, Copy, Debug)]
pub struct ExponentialBackoff {
    /// The shortest wait.
    pub min: Span,
    /// The longest wait.
    pub max: Span,
    /// The number of waits completed so far.
    pub iterations: u32,
}

impl ExponentialBackoff {
    /// A strategy that starts at `min` and never waits longer than `max`.
    pub fn new(min: Span, max: Span) -> (r: ExponentialBackoff)
        ensures
            r == (ExponentialBackoff { min, max, iterations: 0 }),
    {
        ExponentialBackoff { min, max, iterations: 0 }
    }

    /// The coming wait before jitter, as a length in nanoseconds.
    pub open spec fn spec_base(&self) -> nat {
        exponential_base(self.min@, self.max@, self.iterations as nat)
    }

    /// The coming wait for a draw of `jitter`: the base and as much of the
    /// jitter as fits under `max`. It lies between `min` and `max` whenever
    /// `min` is no longer than `max`.
    pub fn delay(&self, jitter: Span) -> (r: Span)
        ensures
            r@ == self.spec_delay(jitter@),
            self.spec_base() <= r@ <= self.max@,
            self.min@ <= self.max@ ==> self.min@ <= r@,
            jitter@ == 0 ==> r@ == self.spec_base(),
    {
        let base: Span = self.base();
        let room: Span = self.max.saturating_sub(base);
        let extra: Span = jitter.min(room);
        let cap: u128 = self.max.as_nanos();
        assert(base@ + extra@ <= cap);
        match base.checked_add(extra) {
            Some(sum) => sum,
            None => self.max,
        }
    }
}

/// Doubling never shortens: `min * 2^i` is at most `min * 2^j` for `i <= j`.
pub proof fn lemma_doubling_grows(min: nat, i: nat, j: nat)
    requires
        i <= j,
    ensures
        min * pow2(i) <= min * pow2(j),
{
    if i < j {
        lemma_pow2_strictly_increases(i, j);
    }
    lemma_mul_inequality(pow2(i) as int, pow2(j) as int, min as int);
    lemma_mul_is_commutative(min as int, pow2(i) as int);
    lemma_mul_is_commutative(min as int, pow2(j) as int);
}

impl Default for ExponentialBackoff {
    /// Waits from one second up to one minute.
    fn default() -> (r: ExponentialBackoff)
        ensures
            r.min@ == 1_000_000_000,
            r.max@ == 60_000_000_000,
            r.iterations == 0,
    {
        ExponentialBackoff { min: Span::from_secs(1), max: Span::from_secs(60), iterations: 0 }
    }
}

impl Backoff for ExponentialBackoff {
    open spec fn can_advance(&self) -> bool {
        self.iterations < u32::MAX
    }

    open spec fn spec_delay(&self, jitter: nat) -> nat {
        self.spec_base() + clamped_jitter(self.spec_base(), self.max@, jitter)
    }

    open spec fn spec_next(&self) -> ExponentialBackoff {
        ExponentialBackoff {
            min: self.min,
            max: self.max,
            iterations: (self.iterations + 1) as u32,
        }
    }

    fn has_room(&self) -> (r: bool) {
        self.iterations < u32::MAX
    }

    /// The coming wait before jitter: `min * 2^iterations`, capped at `max`.
    /// It lies between `min` and `max` whenever `min` is no longer than `max`.
    fn base(&self) -> (r: Span)
        ensures
            r@ == self.spec_base(),
            r@ <= self.max@,
            self.min@ <= self.max@ ==> self.min@ <= r@,
    {
        let floor: u128 = self.min.as_nanos();
        let cap: u128 = self.max.as_nanos();
        if floor == 0 {
            assert(0 * pow2((self.iterations as nat)) == 0) by (nonlinear_arith);
            return Span::zero();
        }
        let mut cur: u128 = floor;
        let mut done: u32 = 0;
        proof {
            assert(pow2(0) == 1) by {
                reveal_with_fuel(vstd::arithmetic::power::pow, 1);
                vstd::arithmetic::power2::lemma_pow2(0);
            }
            lemma_doubling_grows(floor as nat, 0, self.iterations as nat);
        }
        while done < self.iterations && cur < cap
            invariant
                done <= self.iterations,
                floor == self.min@,
                cap == self.max@,
                cap <= crate::span::MAX_NANOS,
                cur == floor * pow2(done as nat),
                cur <= 2 * crate::span::MAX_NANOS,
            decreases self.iterations - done,
        {
            proof {
                lemma_pow2_unfold((done + 1) as nat);
                assert(floor * (2 * pow2(done as nat)) == 2 * (floor * pow2(done as nat)))
                    by (nonlinear_arith);
            }
            cur = cur * 2;
            done = done + 1;
        }
        proof {
            lemma_doubling_grows(floor as nat, done as nat, self.iterations as nat);
        }
        if cur < cap {
            match Span::from_nanos(cur) {
                Some(span) => span,
                None => self.max,
            }
        } else {
            self.max
        }
    }

    fn next(&self, jitter: Span) -> (r: (Span, ExponentialBackoff)) {
        let wait: Span = self.delay(jitter);
        (wait, ExponentialBackoff { min: self.min, max: self.max, iterations: self.iterations + 1 })
    }
}

/// A retry policy: a budget of further attempts and the strategy that
/// spaces them.
#[derive(Debug)]
pub struct WithBackoff<B> {
    attempts: u32,
    backoff: B,
}

impl<B: Clone> Clone for WithBackoff<B> {
    /// A policy with the same budget and a copy of the strategy.
    fn clone(&self) -> (copy: WithBackoff<B>)
        ensures
            copy.attempts() == self.attempts(),
            cloned::<B>(self.backoff(), copy.backoff()),
    {
        WithBackoff { attempts: self.attempts, backoff: self.backoff.clone() }
    }
}

impl<B> WithBackoff<B> {
    /// A policy that grants `attempts` retries, spaced by `backoff`.
    pub fn new(attempts: u32, backoff: B) -> (r: WithBackoff<B>)
        ensures
            r.attempts() == attempts,
            r.backoff() == backoff,
    {
        WithBackoff { attempts, backoff }
    }

    /// The retries that are left.
    pub closed spec fn attempts(&self) -> nat {
        self.attempts as nat
    }

    /// The state of the spacing strategy.
    pub closed spec fn backoff(&self) -> B {
        self.backoff
    }

    /// The retries that are left.
    pub fn remaining(&self) -> (n: u32)
        ensures
            n == self.attempts(),
    {
        self.attempts
    }

    /// The state of the spacing strategy.
    pub fn strategy(&self) -> (b: &B)
        ensures
            *b == self.backoff(),
    {
        &self.backoff
    }
}

impl<S> WithBackoff<S> {
    /// A copy of a request for the next attempt: the same method, target
    /// and body, and the same headers but for the credential. The
    /// `authorization` header is left out with all its values, so that the copy
    /// has none and the next attempt takes the credential that is active by
    /// then.
    pub fn clone_request<B: Clone>(
        &self,
        method: &Method,
        uri: &Uri,
        headers: &HeaderMap<HeaderValue>,
        body: &B,
    ) -> (copy: Option<Request<B>>)
        ensures
            copy matches Some(req) && {
                &&& req.method == *method
                &&& req.uri == *uri
                &&& header_entries(req.headers) == header_entries(*headers).remove(
                    authorization_text(),
                )
                &&& cloned::<B>(*body, req.body)
                &&& !has_authorization(header_entries(req.headers))
                &&& carried_key(header_entries(req.headers)) is None
            },
    {
        proof {
            lemma_no_header_no_key(header_entries(*headers));
        }
        let mut kept: HeaderMap<HeaderValue> = clone_headers(headers);
        let name = authorization();
        let _ = remove(&mut kept, &name);
        Some(
            Request {
                method: clone_method(method),
                uri: clone_uri(uri),
                headers: kept,
                body: body.clone(),
            },
        )
    }
}

impl<B: Backoff> WithBackoff<B> {
    /// Whether `outcome` is followed by another attempt: it is not a success
    /// and the budget is not used up.
    pub open spec fn spec_should_retry(&self, outcome: Outcome) -> bool {
        !outcome.is_success() && self.attempts() > 0
    }

    /// Whether `outcome` is followed by another attempt.
    #[verifier::when_used_as_spec(spec_should_retry)]
    pub fn should_retry(&self, outcome: Outcome) -> (r: bool)
        ensures
            r == self.spec_should_retry(outcome),
    {
        !outcome.is_success() && self.attempts > 0
    }

    /// The policy after it has granted a retry: one attempt fewer, the
    /// strategy advanced by one wait.
    pub closed spec fn spec_granted(&self) -> WithBackoff<B> {
        WithBackoff { attempts: (self.attempts - 1) as u32, backoff: self.backoff.spec_next() }
    }

    /// Whether the policy answers each of `outcomes`, one attempt after the
    /// other, with a retry.
    pub open spec fn grants(&self, outcomes: Seq<Outcome>) -> bool
        decreases outcomes.len(),
    {
        outcomes.len() > 0 ==> self.should_retry(outcomes[0]) && self.spec_granted().grants(
            outcomes.skip(1),
        )
    }

    /// Decides what follows an attempt that ended in `outcome`.
    ///
    /// `None` ends the request: the outcome was a success, or no retry is
    /// left. Otherwise the result is the time to wait, for the caller's draw of
    /// `jitter`, and the policy to carry into the next attempt.
    pub fn retry(&self, outcome: Outcome, jitter: Span) -> (r: Option<(Span, WithBackoff<B>)>)
        requires
            self.should_retry(outcome) ==> self.backoff().can_advance(),
        ensures
            r is Some <==> self.should_retry(outcome),
            outcome.is_success() ==> r is None,
            r matches Some((wait, policy)) ==> {
                &&& wait@ == self.backoff().spec_delay(jitter@)
                &&& policy == self.spec_granted()
                &&& policy.attempts() == self.attempts() - 1
                &&& policy.backoff() == self.backoff().spec_next()
            },
    {
        if outcome.is_success() {
            return None;
        }
        if self.attempts == 0 {
            return None;
        }
        let (wait, backoff) = self.backoff.next(jitter);
        Some((wait, WithBackoff { attempts: self.attempts - 1, backoff }))
    }

    /// Granting a retry uses up one attempt of the budget and advances the
    /// strategy by one wait.
    pub proof fn lemma_granted(&self)
        requires
            self.attempts() > 0,
        ensures
            self.spec_granted().attempts() == self.attempts() - 1,
            self.spec_granted().backoff() == self.backoff().spec_next(),
    {
    }

    /// A success ends the request whatever is left of the budget.
    pub proof fn lemma_success_stops(&self, outcome: Outcome)
        requires
            outcome.is_success(),
        ensures
            !self.should_retry(outcome),
    {
    }

    /// A run of failures is retried exactly as often as the budget allows:
    /// a policy answers each of a row of failures, of whatever kind, with a
    /// retry if and only if the row is no longer than its budget. With a budget
    /// of three, the fourth failure is final, after four attempts in all.
    pub proof fn lemma_retry_budget(&self, failures: Seq<Outcome>)
        requires
            forall|i: int| 0 <= i < failures.len() ==> !(#[trigger] failures[i]).is_success(),
        ensures
            self.grants(failures) <==> failures.len() <= self.attempts(),
        decreases failures.len(),
    {
        if failures.len() > 0 {
            assert(!failures[0].is_success());
            if self.attempts() > 0 {
                assert forall|i: int| 0 <= i < failures.skip(1).len() implies !(
                #[trigger] failures.skip(1)[i]).is_success() by {
                    assert(failures.skip(1)[i] == failures[i + 1]);
                }
                self.spec_granted().lemma_retry_budget(failures.skip(1));
            }
        }
    }
}

} // verus!
