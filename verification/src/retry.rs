//! When a failed call to a provider is tried again, and after what delay.

use crate::model::{ProviderError, ProviderErrorModel, Response, StreamItem};
use core::time::Duration;
use vstd::arithmetic::mul::*;
use vstd::arithmetic::power2::*;
use vstd::prelude::*;

verus! {

/// What `Duration::as_nanos` returns: the length of the duration in nanoseconds.
pub uninterp spec fn duration_nanos(duration: Duration) -> u128;

/// `Duration::from_millis` makes a duration of that many milliseconds.
pub assume_specification[ Duration::from_millis ](millis: u64) -> (r: Duration)
    ensures
        duration_nanos(r) == millis * 1_000_000,
;

/// `Duration::as_millis` is the length in whole milliseconds.
pub assume_specification[ Duration::as_millis ](duration: &Duration) -> (r: u128)
    ensures
        r == duration_nanos(*duration) / 1_000_000,
;

/// `Duration::is_zero` tells whether the duration spans no time.
pub assume_specification[ Duration::is_zero ](duration: &Duration) -> (r: bool)
    ensures
        r == (duration_nanos(*duration) == 0),
;

/// Compares two durations by length.
#[verifier::external_body]
fn shorter(a: &Duration, b: &Duration) -> (r: bool)
    ensures
        r == (duration_nanos(*a) < duration_nanos(*b)),
{
    a < b
}

/// How often a call is tried, and how long the waits between tries are.
#[derive(Debug, Clone, Copy)]
pub struct RetryPolicy {
    pub max_attempts: u32,
    pub backoff_base: Duration,
    pub backoff_max: Duration,
}

impl Default for RetryPolicy {
    fn default() -> (r: Self)
        ensures
            r.max_attempts == 3,
            duration_nanos(r.backoff_base) == 250_000_000,
            duration_nanos(r.backoff_max) == 2_000_000_000,
    {
        RetryPolicy {
            max_attempts: 3,
            backoff_base: Duration::from_millis(250),
            backoff_max: Duration::from_millis(2000),
        }
    }
}

/// The wait after the given attempt, in milliseconds: the base, doubled with every
/// further attempt up to the thirty-second, and never over the maximum.
pub open spec fn backoff_millis(base: nat, max: nat, attempt: nat) -> nat {
    let doublings: nat = if attempt <= 1 {
        0
    } else if attempt <= 32 {
        (attempt - 1) as nat
    } else {
        31
    };
    let delay = base * pow2(doublings);
    let capped = if delay <= max {
        delay
    } else {
        max
    };
    if capped <= u64::MAX {
        capped
    } else {
        u64::MAX as nat
    }
}

impl RetryPolicy {
    /// A policy that makes at least one attempt and waits at least its base, which
    /// is not zero.
    pub open spec fn is_normal(self) -> bool {
        &&& self.max_attempts >= 1
        &&& duration_nanos(self.backoff_base) > 0
        &&& duration_nanos(self.backoff_base) <= duration_nanos(self.backoff_max)
    }

    /// The wait after the given attempt, in milliseconds.
    pub open spec fn delay_millis(self, attempt: u32) -> nat {
        backoff_millis(
            (duration_nanos(self.backoff_base) / 1_000_000) as nat,
            (duration_nanos(self.backoff_max) / 1_000_000) as nat,
            attempt as nat,
        )
    }

    /// The nearest policy that makes sense: at least one attempt, a base of at least
    /// a millisecond where it was zero, and a maximum not below the base.
    pub open spec fn becomes(self, normal: Self) -> bool {
        &&& normal.is_normal()
        &&& normal.max_attempts == if self.max_attempts == 0 {
            1
        } else {
            self.max_attempts
        }
        &&& if duration_nanos(self.backoff_base) == 0 {
            duration_nanos(normal.backoff_base) == 1_000_000
        } else {
            normal.backoff_base == self.backoff_base
        }
        &&& if duration_nanos(self.backoff_max) < duration_nanos(normal.backoff_base) {
            normal.backoff_max == normal.backoff_base
        } else {
            normal.backoff_max == self.backoff_max
        }
    }

    /// The nearest policy that makes sense.
    pub fn normalized(self) -> (r: Self)
        ensures
            self.becomes(r),
    {
        let max_attempts: u32 = if self.max_attempts < 1 {
            1
        } else {
            self.max_attempts
        };
        let backoff_base = if self.backoff_base.is_zero() {
            Duration::from_millis(1)
        } else {
            self.backoff_base
        };
        let backoff_max = if shorter(&self.backoff_max, &backoff_base) {
            backoff_base
        } else {
            self.backoff_max
        };
        RetryPolicy { max_attempts, backoff_base, backoff_max }
    }

    /// How long to wait after the given attempt, counted from one.
    pub fn backoff_delay_for_attempt(&self, attempt: u32) -> (r: Duration)
        ensures
            duration_nanos(r) == self.delay_millis(attempt) * 1_000_000,
    {
        let shift: u32 = if attempt <= 1 {
            0
        } else if attempt <= 32 {
            attempt - 1
        } else {
            31
        };
        let mut factor: u128 = 1;
        let mut i: u32 = 0;
        proof {
            lemma2_to64();
        }
        while i < shift
            invariant
                i <= shift <= 31,
                factor == pow2(i as nat),
                factor <= 0x8000_0000,
            decreases shift - i,
        {
            proof {
                lemma_pow2_unfold(i as nat + 1);
                lemma_pow2_strictly_increases_to(i as nat + 1, 31);
                lemma2_to64();
            }
            factor = factor * 2;
            i += 1;
        }
        let base: u128 = self.backoff_base.as_millis();
        let max: u128 = self.backoff_max.as_millis();
        let delay_ms: u128 = match base.checked_mul(factor) {
            Some(product) => if product < max {
                product
            } else {
                max
            },
            None => max,
        };
        let capped: u64 = if delay_ms > 0xffff_ffff_ffff_ffff {
            u64::MAX
        } else {
            delay_ms as u64
        };
        Duration::from_millis(capped)
    }
}

proof fn lemma_pow2_strictly_increases_to(a: nat, b: nat)
    requires
        a <= b,
    ensures
        pow2(a) <= pow2(b),
{
    if a < b {
        lemma_pow2_strictly_increases(a, b);
    }
}

/// A provider whose failed calls are repeated.
#[derive(Debug)]
pub struct ReliableProvider<P> {
    pub inner: P,
    pub retry_policy: RetryPolicy,
}

impl<P> ReliableProvider<P> {
    pub open spec fn well_formed(self) -> bool {
        self.retry_policy.is_normal()
    }

    /// A provider whose calls are repeated as is usual.
    pub fn with_defaults(inner: P) -> (r: Self)
        ensures
            r.well_formed(),
            r.inner == inner,
            r.retry_policy.max_attempts == 3,
            duration_nanos(r.retry_policy.backoff_base) == 250_000_000,
            duration_nanos(r.retry_policy.backoff_max) == 2_000_000_000,
    {
        Self::new(inner, RetryPolicy::default())
    }

    /// A provider whose calls are repeated by that policy, or by the nearest one that
    /// makes sense.
    pub fn new(inner: P, retry_policy: RetryPolicy) -> (r: Self)
        ensures
            r.well_formed(),
            r.inner == inner,
            retry_policy.becomes(r.retry_policy),
    {
        ReliableProvider { inner, retry_policy: retry_policy.normalized() }
    }

    pub fn retry_policy(&self) -> (r: RetryPolicy)
        ensures
            r == self.retry_policy,
    {
        self.retry_policy
    }
}

/// What to do after a failed attempt.
#[derive(Debug, PartialEq, Eq)]
pub enum RetryDecision {
    /// Hand the failure on.
    GiveUp,
    /// Wait, then make the next attempt.
    Retry { delay: Duration, next_attempt: u32 },
}

/// Whether an error may go away by itself.
pub open spec fn is_retriable(error: ProviderErrorModel) -> bool {
    match error {
        ProviderErrorModel::Transport { .. } => true,
        ProviderErrorModel::HttpStatus { status, .. } => status == 429 || status >= 500,
        _ => false,
    }
}

/// Whether an error may go away by itself: a transport failure, a status of 429 or
/// one of 500 and above.
pub fn is_retriable_provider_error(error: &ProviderError) -> (r: bool)
    ensures
        r == is_retriable(error.deep_view()),
{
    match error {
        ProviderError::Transport { .. } => true,
        ProviderError::HttpStatus { status, .. } => *status == 429 || *status >= 500,
        _ => false,
    }
}

/// The decision after a failure that may or may not go away by itself.
pub open spec fn decides(
    policy: RetryPolicy,
    attempt: u32,
    retriable: bool,
    decision: RetryDecision,
) -> bool {
    match decision {
        RetryDecision::GiveUp => !retriable || attempt >= policy.max_attempts,
        RetryDecision::Retry { delay, next_attempt } => {
            &&& retriable
            &&& attempt < policy.max_attempts
            &&& next_attempt == attempt + 1
            &&& duration_nanos(delay) == policy.delay_millis(attempt) * 1_000_000
        },
    }
}

/// What to do after the given attempt failed with an error.
pub fn after_error(policy: &RetryPolicy, attempt: u32, error: &ProviderError) -> (r: RetryDecision)
    ensures
        decides(*policy, attempt, is_retriable(error.deep_view()), r),
{
    if !is_retriable_provider_error(error) || attempt >= policy.max_attempts {
        RetryDecision::GiveUp
    } else {
        RetryDecision::Retry {
            delay: policy.backoff_delay_for_attempt(attempt),
            next_attempt: attempt + 1,
        }
    }
}

/// What a call that is retried does next.
#[derive(Debug, PartialEq)]
pub enum CompletionStep {
    /// Return this outcome to the caller.
    Return(Result<Response, ProviderError>),
    /// Wait, then call the provider again.
    Retry { delay: Duration, next_attempt: u32 },
}

/// What to do once the provider has answered the given attempt: an answer and a
/// final failure are returned, any other failure leads to the next attempt.
pub fn complete_step(
    policy: &RetryPolicy,
    attempt: u32,
    outcome: Result<Response, ProviderError>,
) -> (r: CompletionStep)
    ensures
        match (outcome, r) {
            (Ok(response), CompletionStep::Return(Ok(returned))) => returned == response,
            (Err(error), CompletionStep::Return(Err(returned))) => returned == error && decides(
                *policy,
                attempt,
                is_retriable(error.deep_view()),
                RetryDecision::GiveUp,
            ),
            (Err(error), CompletionStep::Retry { delay, next_attempt }) => decides(
                *policy,
                attempt,
                is_retriable(error.deep_view()),
                RetryDecision::Retry { delay, next_attempt },
            ),
            _ => false,
        },
{
    match outcome {
        Ok(response) => CompletionStep::Return(Ok(response)),
        Err(error) => match after_error(policy, attempt, &error) {
            RetryDecision::GiveUp => CompletionStep::Return(Err(error)),
            RetryDecision::Retry { delay, next_attempt } => {
                CompletionStep::Retry { delay, next_attempt }
            },
        },
    }
}

/// What a stream that is retried meets.
#[derive(Debug, PartialEq)]
pub enum StreamEvent {
    /// The provider did not start the stream.
    SetupFailed(ProviderError),
    /// The stream handed out an item.
    Item(Result<StreamItem, ProviderError>),
    /// The stream is over.
    Ended,
}

/// What a stream that is retried does next.
#[derive(Debug, PartialEq)]
pub enum StreamStep {
    /// Hand the item on and read the next one.
    Forward(Result<StreamItem, ProviderError>),
    /// Hand the item on and end the stream.
    Finish(Result<StreamItem, ProviderError>),
    /// End the stream.
    End,
    /// Drop the stream, wait, then start it anew.
    Restart { delay: Duration, next_attempt: u32 },
}

/// The step that a stream takes on its given attempt.
pub open spec fn stream_steps(
    policy: RetryPolicy,
    attempt: u32,
    event: StreamEvent,
    step: StreamStep,
) -> bool {
    match event {
        StreamEvent::Ended => step is End,
        StreamEvent::SetupFailed(error) => match step {
            StreamStep::Finish(item) => item == Err::<StreamItem, ProviderError>(error) && decides(
                policy,
                attempt,
                is_retriable(error.deep_view()),
                RetryDecision::GiveUp,
            ),
            StreamStep::Restart { delay, next_attempt } => decides(
                policy,
                attempt,
                is_retriable(error.deep_view()),
                RetryDecision::Retry { delay, next_attempt },
            ),
            _ => false,
        },
        StreamEvent::Item(item) => match item {
            Ok(StreamItem::ConnectionLost(_)) => match step {
                StreamStep::Finish(last) => last == item && decides(
                    policy,
                    attempt,
                    true,
                    RetryDecision::GiveUp,
                ),
                StreamStep::Restart { delay, next_attempt } => decides(
                    policy,
                    attempt,
                    true,
                    RetryDecision::Retry { delay, next_attempt },
                ),
                _ => false,
            },
            _ => step == StreamStep::Forward(item),
        },
    }
}

/// What a retried stream does on its given attempt. A lost connection counts as a
/// failure that may go away; every other item is handed on as it is.
pub fn stream_step(policy: &RetryPolicy, attempt: u32, event: StreamEvent) -> (r: StreamStep)
    ensures
        stream_steps(*policy, attempt, event, r),
{
    match event {
        StreamEvent::Ended => StreamStep::End,
        StreamEvent::SetupFailed(error) => match after_error(policy, attempt, &error) {
            RetryDecision::GiveUp => StreamStep::Finish(Err(error)),
            RetryDecision::Retry { delay, next_attempt } => {
                StreamStep::Restart { delay, next_attempt }
            },
        },
        StreamEvent::Item(Ok(StreamItem::ConnectionLost(message))) => {
            if attempt >= policy.max_attempts {
                StreamStep::Finish(Ok(StreamItem::ConnectionLost(message)))
            } else {
                StreamStep::Restart {
                    delay: policy.backoff_delay_for_attempt(attempt),
                    next_attempt: attempt + 1,
                }
            }
        },
        StreamEvent::Item(item) => StreamStep::Forward(item),
    }
}

/// The waits never shrink from one attempt to the next, and none is over the
/// maximum of the policy.
pub proof fn law_backoff_grows_to_its_maximum(policy: RetryPolicy, earlier: u32, later: u32)
    requires
        earlier <= later,
    ensures
        policy.delay_millis(earlier) <= policy.delay_millis(later),
        policy.delay_millis(later) <= duration_nanos(policy.backoff_max) / 1_000_000,
{
    let doublings = |attempt: u32|
        if attempt <= 1 {
            0nat
        } else if attempt <= 32 {
            (attempt - 1) as nat
        } else {
            31nat
        };
    let base = (duration_nanos(policy.backoff_base) / 1_000_000) as nat;
    lemma_pow2_strictly_increases_to(doublings(earlier), doublings(later));
    lemma_mul_inequality(
        pow2(doublings(earlier)) as int,
        pow2(doublings(later)) as int,
        base as int,
    );
    lemma_mul_is_commutative(base as int, pow2(doublings(earlier)) as int);
    lemma_mul_is_commutative(base as int, pow2(doublings(later)) as int);
}

/// The first wait of a normal policy is its base, in whole milliseconds.
pub proof fn law_first_wait_is_the_base(policy: RetryPolicy)
    requires
        policy.is_normal(),
        duration_nanos(policy.backoff_base) / 1_000_000 <= u64::MAX,
    ensures
        policy.delay_millis(1) == duration_nanos(policy.backoff_base) / 1_000_000,
{
    lemma2_to64();
}

/// A call is attempted at most as often as the policy says: the attempt that a
/// retry leads to is within the bound, and the last attempt is never retried.
pub proof fn law_attempts_are_bounded(
    policy: RetryPolicy,
    attempt: u32,
    retriable: bool,
    decision: RetryDecision,
)
    requires
        decides(policy, attempt, retriable, decision),
    ensures
        decision matches RetryDecision::Retry { next_attempt, .. } ==> attempt < next_attempt
            <= policy.max_attempts,
        attempt >= policy.max_attempts ==> decision is GiveUp,
        !retriable ==> decision is GiveUp,
        retriable && attempt < policy.max_attempts ==> decision is Retry,
{
}

/// What comes of an attempt: an answer is handed on as it is; a failure that may go away
/// leads to the next attempt while the policy has one left, and every other failure is
/// handed on as it is. A failure may go away where the transport failed, the provider was
/// asked too often, or the fault is its own.
pub proof fn law_only_passing_failures_are_retried(
    policy: RetryPolicy,
    attempt: u32,
    outcome: Result<Response, ProviderError>,
    step: CompletionStep,
)
    requires
        call_ensures(complete_step, (&policy, attempt, outcome), step),
    ensures
        outcome matches Ok(response) ==> step == CompletionStep::Return(Ok(response)),
        outcome matches Err(error) ==> {
            let passing = match error {
                ProviderError::Transport { .. } => true,
                ProviderError::HttpStatus { status, .. } => status == 429 || status >= 500,
                _ => false,
            };
            &&& passing && attempt < policy.max_attempts ==> (step matches CompletionStep::Retry {
                next_attempt,
                ..
            } && next_attempt == attempt + 1)
            &&& !passing || attempt >= policy.max_attempts ==> step == CompletionStep::Return(
                Err(error),
            )
        },
{
}

/// A stream that is read hands its items on until it is over; one that did not start or
/// lost its connection starts anew while the policy has an attempt left, where the
/// failure may go away, and otherwise hands the failure on and ends.
pub proof fn law_streams_start_anew(
    policy: RetryPolicy,
    attempt: u32,
    event: StreamEvent,
    step: StreamStep,
)
    requires
        call_ensures(stream_step, (&policy, attempt, event), step),
    ensures
        event is Ended ==> step is End,
        event matches StreamEvent::Item(item) ==> {
            let lost = item matches Ok(StreamItem::ConnectionLost(_));
            &&& !lost ==> step == StreamStep::Forward(item)
            &&& lost && attempt < policy.max_attempts ==> (step matches StreamStep::Restart {
                next_attempt,
                ..
            } && next_attempt == attempt + 1)
            &&& lost && attempt >= policy.max_attempts ==> step == StreamStep::Finish(item)
        },
        event matches StreamEvent::SetupFailed(error) ==> {
            let passing = match error {
                ProviderError::Transport { .. } => true,
                ProviderError::HttpStatus { status, .. } => status == 429 || status >= 500,
                _ => false,
            };
            &&& passing && attempt < policy.max_attempts ==> (step matches StreamStep::Restart {
                next_attempt,
                ..
            } && next_attempt == attempt + 1)
            &&& !passing || attempt >= policy.max_attempts ==> step == StreamStep::Finish(
                Err(error),
            )
        },
{
}

/// The wait before a further attempt is the one that the policy has behind the attempt
/// that failed, for calls and for streams.
pub proof fn law_retry_waits_as_the_policy_says(
    policy: RetryPolicy,
    attempt: u32,
    outcome: Result<Response, ProviderError>,
    step: CompletionStep,
    event: StreamEvent,
    streamed: StreamStep,
    delay: Duration,
)
    requires
        call_ensures(RetryPolicy::backoff_delay_for_attempt, (&policy, attempt), delay),
        call_ensures(complete_step, (&policy, attempt, outcome), step),
        call_ensures(stream_step, (&policy, attempt, event), streamed),
    ensures
        step matches CompletionStep::Retry { delay: waited, .. } ==> duration_nanos(waited)
            == duration_nanos(delay),
        streamed matches StreamStep::Restart { delay: waited, .. } ==> duration_nanos(waited)
            == duration_nanos(delay),
{
}

/// Behind the first attempt the wait is the base of the policy, and behind every further
/// one, up to the thirty-second, it is twice the wait before, as long as that is not over
/// the maximum, and then it is the maximum; all in whole milliseconds.
pub proof fn law_waits_double(
    policy: RetryPolicy,
    attempt: u32,
    first: Duration,
    wait: Duration,
    next: Duration,
)
    requires
        call_ensures(RetryPolicy::backoff_delay_for_attempt, (&policy, 1u32), first),
        call_ensures(RetryPolicy::backoff_delay_for_attempt, (&policy, attempt), wait),
        call_ensures(
            RetryPolicy::backoff_delay_for_attempt,
            (&policy, (attempt + 1) as u32),
            next,
        ),
        1 <= attempt < 32,
        duration_nanos(policy.backoff_base) <= duration_nanos(policy.backoff_max),
        duration_nanos(policy.backoff_max) / 1_000_000 <= u64::MAX,
    ensures
        ({
            let base = duration_nanos(policy.backoff_base) / 1_000_000;
            let max = duration_nanos(policy.backoff_max) / 1_000_000;
            &&& duration_nanos(first) == base * 1_000_000
            &&& 2 * duration_nanos(wait) <= max * 1_000_000 ==> duration_nanos(next) == 2
                * duration_nanos(wait)
            &&& 2 * duration_nanos(wait) > max * 1_000_000 ==> duration_nanos(next) == max
                * 1_000_000
        }),
{
    let base = (duration_nanos(policy.backoff_base) / 1_000_000) as nat;
    let max = (duration_nanos(policy.backoff_max) / 1_000_000) as nat;
    assert(base <= max);
    lemma2_to64();
    let doublings = (attempt - 1) as nat;
    lemma_pow2_unfold((doublings + 1) as nat);
    let one = base * pow2(doublings);
    let two = base * pow2((doublings + 1) as nat);
    assert(two == 2 * one) by (nonlinear_arith)
        requires
            one == base * pow2(doublings),
            two == base * pow2((doublings + 1) as nat),
            pow2((doublings + 1) as nat) == 2 * pow2(doublings),
    ;
    assert(base * pow2(0) == base) by (nonlinear_arith)
        requires
            pow2(0) == 1,
    ;
    assert(backoff_millis(base, max, 1) == base);
    assert(backoff_millis(base, max, attempt as nat) == if one <= max {
        one
    } else {
        max
    });
    assert(backoff_millis(base, max, (attempt + 1) as nat) == if two <= max {
        two
    } else {
        max
    });
}

/// A policy that makes sense is kept as it is; of any other only what makes no sense is
/// changed: no attempt becomes one, no base becomes a millisecond, and a maximum below
/// the base becomes the base.
pub proof fn law_sensible_policies_are_kept(policy: RetryPolicy, normal: RetryPolicy)
    requires
        call_ensures(RetryPolicy::normalized, (policy,), normal),
    ensures
        normal.max_attempts >= 1,
        policy.max_attempts >= 1 ==> normal.max_attempts == policy.max_attempts,
        policy.max_attempts == 0 ==> normal.max_attempts == 1,
        duration_nanos(policy.backoff_base) > 0 ==> normal.backoff_base == policy.backoff_base,
        duration_nanos(policy.backoff_base) == 0 ==> duration_nanos(normal.backoff_base)
            == 1_000_000,
        duration_nanos(normal.backoff_base) <= duration_nanos(normal.backoff_max),
        duration_nanos(policy.backoff_max) >= duration_nanos(normal.backoff_base)
            ==> normal.backoff_max == policy.backoff_max,
        duration_nanos(policy.backoff_max) < duration_nanos(normal.backoff_base)
            ==> normal.backoff_max == normal.backoff_base,
{
}

/// A failure is passing where the provider could not be reached, was asked too often or
/// failed itself. It is tried again until the attempts are used up, and no other is.
pub proof fn law_passing_failures_are_tried_again(
    policy: RetryPolicy,
    attempt: u32,
    error: ProviderError,
    passing: bool,
    r: RetryDecision,
)
    requires
        call_ensures(is_retriable_provider_error, (&error,), passing),
        call_ensures(after_error, (&policy, attempt, &error), r),
    ensures
        error is Transport ==> passing,
        error matches ProviderError::HttpStatus { status, .. } ==> (passing <==> status == 429
            || status >= 500),
        !(error is Transport) && !(error is HttpStatus) ==> !passing,
        r is Retry <==> passing && attempt < policy.max_attempts,
        r matches RetryDecision::Retry { next_attempt, .. } ==> next_attempt == attempt + 1,
{
}

} // verus!
