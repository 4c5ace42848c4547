//! Retrying transient failures when fetching from a registry.
//!
//! Registries intermittently return errors or drop connections, so without
//! retries a single blip fails an entire pull. Retries are done at the
//! granularity of one proxy operation, and every attempt starts from scratch.

use vstd::arithmetic::power2::pow2;
use vstd::prelude::*;
use std::hash::{BuildHasher, Hasher};

use crate::duration::Duration;
use crate::text::append_decimal;
use crate::transient::{is_transient, Cause};

verus! {

/// Default number of retries.
pub const DEFAULT_MAX_RETRIES: u32 = 3;

/// Seconds before the first retry by default; they double for each further one.
pub const DEFAULT_INITIAL_DELAY_SECS: u64 = 1;

/// Default upper bound on the delay between two attempts, in seconds.
pub const DEFAULT_MAX_DELAY_SECS: u64 = 30;

/// How to retry transient failures while fetching an image from a registry.
///
/// Only errors that look transient (network failures, HTTP 5xx and 429 responses,
/// truncated or corrupted blob transfers) are retried; others such as authentication
/// failures or a missing image fail immediately.
///
/// The delay before retry `n` (counting from zero) is `initial_delay * 2^n`,
/// capped at `max_delay`, minus a random cut of up to a fifth.
#[derive(Debug, Clone, Copy, PartialEq, Eq)]
#[non_exhaustive]
pub struct RetryPolicy {
    /// Maximum number of retries after the initial attempt; zero disables
    /// retrying.
    pub max_retries: u32,
    /// Delay before the first retry.
    pub initial_delay: Duration,
    /// Upper bound on the delay between two attempts.
    pub max_delay: Duration,
}

/// Whether a policy has the delays of the default one.
pub open spec fn has_default_delays(policy: RetryPolicy) -> bool {
    &&& policy.initial_delay.valid()
    &&& policy.initial_delay@ == DEFAULT_INITIAL_DELAY_SECS * 1_000_000_000
    &&& policy.max_delay.valid()
    &&& policy.max_delay@ == DEFAULT_MAX_DELAY_SECS * 1_000_000_000
}

/// Whether a policy is the default one.
pub open spec fn is_default(policy: RetryPolicy) -> bool {
    policy.max_retries == DEFAULT_MAX_RETRIES && has_default_delays(policy)
}

impl Default for RetryPolicy {
    fn default() -> (policy: Self)
        ensures
            is_default(policy),
    {
        let initial_delay = Duration::from_secs(DEFAULT_INITIAL_DELAY_SECS);
        let max_delay = Duration::from_secs(DEFAULT_MAX_DELAY_SECS);
        proof {
            use_type_invariant(&initial_delay);
            use_type_invariant(&max_delay);
        }
        RetryPolicy { max_retries: DEFAULT_MAX_RETRIES, initial_delay, max_delay }
    }
}

/// The smaller of two numbers.
pub open spec fn smaller(a: nat, b: nat) -> nat {
    if a <= b {
        a
    } else {
        b
    }
}

/// The delay before retry `retry` (counting from zero) that no jitter has
/// shortened, in nanoseconds.
pub open spec fn exponential_delay(initial: nat, cap: nat, retry: nat) -> nat {
    smaller(initial * pow2(retry), cap)
}

impl RetryPolicy {
    /// A policy that never retries.
    pub fn none() -> (policy: Self)
        ensures
            policy.max_retries == 0,
            policy.initial_delay@ == 0,
            policy.max_delay@ == 0,
    {
        RetryPolicy {
            max_retries: 0,
            initial_delay: Duration::zero(),
            max_delay: Duration::zero(),
        }
    }

    /// The default policy with a different number of retries.
    pub fn with_max_retries(max_retries: u32) -> (policy: Self)
        ensures
            policy.max_retries == max_retries,
            has_default_delays(policy),
    {
        let mut policy = Self::default();
        policy.max_retries = max_retries;
        policy
    }

    /// The unshortened delay before retry `retry`, in nanoseconds.
    pub open spec fn full_delay(self, retry: nat) -> nat {
        exponential_delay(self.initial_delay@, self.max_delay@, retry)
    }

    /// The delay before retry number `retry` (starting at zero), before any
    /// jitter is taken off.
    pub fn exponential(&self, retry: u32) -> (delay: Duration)
        ensures
            delay@ == self.full_delay(retry as nat),
    {
        let initial = self.initial_delay;
        let cap = self.max_delay;
        if !Duration::zero().is_shorter(&initial) {
            assert(0 * pow2(retry as nat) == 0) by (nonlinear_arith);
            return initial;
        }
        let mut delay = initial;
        let mut n: u32 = 0;
        proof {
            vstd::arithmetic::power2::lemma2_to64();
            assert(initial@ * 1 == initial@) by (nonlinear_arith);
        }
        while n < retry && delay.is_shorter(&cap)
            invariant
                n <= retry,
                delay@ == smaller(initial@ * pow2(n as nat), crate::duration::max_nanos()),
            decreases retry - n,
        {
            proof {
                lemma_doubles(initial@, n as nat);
            }
            delay = delay.saturating_double();
            n = n + 1;
        }
        proof {
            lemma_grows(initial@, n as nat, retry as nat);
        }
        if cap.is_shorter(&delay) {
            cap
        } else {
            delay
        }
    }

    /// The delay before retry number `retry` (starting at zero), where `cut` is
    /// how much of it the jitter takes off: at most a fifth, whatever is asked for.
    pub fn backoff_delay(&self, retry: u32, cut: Duration) -> (delay: Duration)
        ensures
            delay@ == cut_delay(*self, retry as nat, cut@),
    {
        let exponential = self.exponential(retry);
        let longest = exponential.fifth();
        if longest.is_shorter(&cut) {
            exponential.saturating_sub(longest)
        } else {
            exponential.saturating_sub(cut)
        }
    }
}

/// Trusted: a fresh `std::hash::RandomState` builds a hasher whose `finish` gives
/// some 64 bits. They depend on random keys, so nothing is said of them.
#[verifier::external_body]
fn random_bits() -> (bits: u64) {
    std::collections::hash_map::RandomState::new().build_hasher().finish()
}

/// The denominator of the fractions that [`random_unit`] draws: two to the 53rd.
pub const UNIT_DENOMINATOR: u64 = 9_007_199_254_740_992;

/// The top 53 of 64 bits.
pub open spec fn top_bits(bits: u64) -> u64 {
    bits / 2048
}

/// The numerator of the fraction that 64 random bits stand for: their top 53 bits.
pub fn unit_of_bits(bits: u64) -> (numerator: u64)
    ensures
        numerator == top_bits(bits),
        numerator < UNIT_DENOMINATOR,
{
    assert(bits >> 11 == bits / 2048) by (bit_vector);
    bits >> 11
}

/// The numerator of a random fraction over [`UNIT_DENOMINATOR`], at least zero and
/// less than one.
///
/// Jitter only needs to decorrelate concurrent retries, not be cryptographically
/// random, and the random keys of the hasher provide that.
pub fn random_unit() -> (numerator: u64)
    ensures
        numerator < UNIT_DENOMINATOR,
{
    unit_of_bits(random_bits())
}

/// What to do after a failed attempt.
pub enum Decision {
    /// Return the error as it is.
    Fail,
    /// Return the error as what remains after that many retries.
    GiveUp(nat),
    /// Try again: retry number `0`, counting from zero.
    Retry(nat),
}

/// The decision after a failed attempt that `retry` retries came before.
pub open spec fn decide(max_retries: nat, retry: nat, transient: bool) -> Decision {
    if !transient {
        Decision::Fail
    } else if retry < max_retries {
        Decision::Retry(retry)
    } else if retry > 0 {
        Decision::GiveUp(retry)
    } else {
        Decision::Fail
    }
}

/// The context of an error that remains after that many retries.
pub open spec fn giving_up_text(retries: nat) -> Seq<char> {
    "Giving up after "@ + crate::text::decimal(retries) + if retries == 1 {
        " retry"@
    } else {
        " retries"@
    }
}

/// What the caller does after a failed attempt.
#[derive(Debug)]
pub enum RetryAction {
    /// Return the error as it is.
    Fail,
    /// Return the error with this context.
    GiveUp {
        /// What is put around the error: that so many retries were made.
        context: String,
    },
    /// Report the retry, wait and try again.
    Retry {
        /// Which retry this is, counting from one.
        number: u32,
        /// How long to wait before any jitter is taken off.
        exponential: Duration,
    },
}

impl RetryAction {
    /// Whether the action carries out a decision under a policy.
    pub open spec fn carries_out(self, policy: RetryPolicy, decision: Decision) -> bool {
        match decision {
            Decision::Fail => self is Fail,
            Decision::GiveUp(retries) => self matches RetryAction::GiveUp { context } && context@
                == giving_up_text(retries),
            Decision::Retry(retry) => self matches RetryAction::Retry { number, exponential }
                && number == retry + 1 && exponential@ == policy.full_delay(retry),
        }
    }
}

/// Whether this is what follows an attempt that failed with these causes, where so many
/// retries came before it and so many have then been made.
pub open spec fn follows(
    policy: RetryPolicy,
    retries: nat,
    causes: Seq<Cause>,
    action: RetryAction,
    retries_after: nat,
) -> bool {
    let decision = decide(
        policy.max_retries as nat,
        retries,
        crate::transient::transient_chain(causes),
    );
    &&& action.carries_out(policy, decision)
    &&& retries_after == if decision is Retry {
        retries + 1
    } else {
        retries
    }
}

/// The state of retrying one operation: the policy and how many retries were
/// made so far, which never are more than the policy allows.
#[derive(Debug)]
pub struct RetryLoop {
    policy: RetryPolicy,
    retry: u32,
}

impl RetryLoop {
    #[verifier::type_invariant]
    closed spec fn wf(&self) -> bool {
        self.retry <= self.policy.max_retries
    }

    /// The policy that is followed.
    pub closed spec fn policy(self) -> RetryPolicy {
        self.policy
    }

    /// How many retries were made.
    pub closed spec fn retries(self) -> nat {
        self.retry as nat
    }

    /// Before the first attempt.
    pub fn new(policy: RetryPolicy) -> (state: Self)
        ensures
            state.policy() == policy,
            state.retries() == 0,
    {
        RetryLoop { policy, retry: 0 }
    }

    /// Decides what to do after an attempt that failed, given the chain of its
    /// error's causes.
    pub fn attempt_failed(&mut self, causes: &[Cause]) -> (action: RetryAction)
        ensures
            final(self).policy() == old(self).policy(),
            follows(
                old(self).policy(),
                old(self).retries(),
                causes@,
                action,
                final(self).retries(),
            ),
            final(self).retries() <= final(self).policy().max_retries,
    {
        proof {
            use_type_invariant(&*self);
        }
        if !is_transient(causes) {
            return RetryAction::Fail;
        }
        let retry: u32 = self.retry;
        if retry >= self.policy.max_retries {
            return if retry > 0 {
                let mut context = "Giving up after ".to_owned();
                append_decimal(&mut context, retry as u64);
                context.append(
                    if retry == 1 {
                        " retry"
                    } else {
                        " retries"
                    },
                );
                RetryAction::GiveUp { context }
            } else {
                RetryAction::Fail
            };
        }
        let exponential = self.policy.exponential(retry);
        self.retry = retry + 1;
        RetryAction::Retry { number: retry + 1, exponential }
    }
}

/// The message that reports a retry.
pub open spec fn retry_text(
    what: Seq<char>,
    delay_secs: Seq<char>,
    number: nat,
    max_retries: nat,
    err: Seq<char>,
) -> Seq<char> {
    what + ": transient error, retrying in "@ + delay_secs + "s ("@ + crate::text::decimal(number)
        + "/"@ + crate::text::decimal(max_retries) + "): "@ + err
}

/// The message that reports retry `number` (counting from one) of `what`, after
/// the error `err`, with the delay already written in seconds.
pub fn retry_message(
    what: &str,
    delay_secs: &str,
    number: u32,
    max_retries: u32,
    err: &str,
) -> (message: String)
    ensures
        message@ == retry_text(what@, delay_secs@, number as nat, max_retries as nat, err@),
{
    let mut message = what.to_owned();
    message.append(": transient error, retrying in ");
    message.append(delay_secs);
    message.append("s (");
    append_decimal(&mut message, number as u64);
    message.append("/");
    append_decimal(&mut message, max_retries as u64);
    message.append("): ");
    message.append(err);
    message
}

/// How one attempt at an operation ended.
pub enum Outcome {
    /// It succeeded.
    Success,
    /// It failed with an error that is worth retrying.
    Transient,
    /// It failed with any other error.
    Permanent,
}

/// How a whole operation ended.
pub enum Ending {
    /// With the value of a successful attempt.
    Success,
    /// With the error of an attempt, as it was.
    Failure,
    /// With the error of the last attempt after that many retries.
    GaveUp(nat),
    /// Not yet: every attempt so far was followed by a retry.
    Unfinished,
}

/// The number of attempts made and the ending, where `outcomes` are those of the
/// attempts from here on and `retry` retries were made before.
pub open spec fn run(max_retries: nat, retry: nat, outcomes: Seq<Outcome>) -> (nat, Ending)
    decreases outcomes.len(),
{
    if outcomes.len() == 0 {
        (0, Ending::Unfinished)
    } else if outcomes[0] is Success {
        (1, Ending::Success)
    } else {
        match decide(max_retries, retry, outcomes[0] is Transient) {
            Decision::Fail => (1, Ending::Failure),
            Decision::GiveUp(retries) => (1, Ending::GaveUp(retries)),
            Decision::Retry(_) => {
                let (attempts, ending) = run(max_retries, retry + 1, outcomes.drop_first());
                (attempts + 1, ending)
            },
        }
    }
}

/// An operation is attempted at most once more than the policy allows retries.
pub proof fn law_attempts_bounded(max_retries: nat, retry: nat, outcomes: Seq<Outcome>)
    requires
        retry <= max_retries,
    ensures
        run(max_retries, retry, outcomes).0 <= max_retries - retry + 1,
    decreases outcomes.len(),
{
    if outcomes.len() > 0 && retry < max_retries {
        law_attempts_bounded(max_retries, retry + 1, outcomes.drop_first());
    }
}

/// No attempt follows one that succeeded or that failed permanently: where the
/// first attempts fail transiently and as many retries are allowed, the next
/// outcome decides, and nothing after it matters.
pub proof fn law_first_decisive_outcome_ends(max_retries: nat, retry: nat, outcomes: Seq<Outcome>, k: nat)
    requires
        k < outcomes.len(),
        retry + k <= max_retries,
        forall|i: int| 0 <= i < k ==> #[trigger] outcomes[i] is Transient,
        !(outcomes[k as int] is Transient),
    ensures
        run(max_retries, retry, outcomes) == (
            k + 1,
            if outcomes[k as int] is Success {
                Ending::Success
            } else {
                Ending::Failure
            },
        ),
    decreases k,
{
    if k > 0 {
        assert(outcomes[0] is Transient);
        let rest = outcomes.drop_first();
        assert forall|i: int| 0 <= i < k - 1 implies #[trigger] rest[i] is Transient by {
            assert(outcomes[i + 1] is Transient);
        }
        assert(rest[k - 1] == outcomes[k as int]);
        law_first_decisive_outcome_ends(max_retries, retry + 1, rest, (k - 1) as nat);
    }
}

/// When every attempt that the policy allows fails transiently, the operation
/// gives up with the last error after all its retries; a policy without retries
/// returns the only error as it is.
pub proof fn law_exhausted_retries_give_up(max_retries: nat, retry: nat, outcomes: Seq<Outcome>)
    requires
        retry <= max_retries,
        max_retries - retry < outcomes.len(),
        forall|i: int| 0 <= i <= max_retries - retry ==> #[trigger] outcomes[i] is Transient,
    ensures
        run(max_retries, retry, outcomes) == (
            (max_retries - retry + 1) as nat,
            if max_retries > 0 {
                Ending::GaveUp(max_retries)
            } else {
                Ending::Failure
            },
        ),
    decreases max_retries - retry,
{
    assert(outcomes[0] is Transient);
    if retry < max_retries {
        let rest = outcomes.drop_first();
        assert forall|i: int| 0 <= i <= max_retries - (retry + 1) implies #[trigger] rest[i] is Transient by {
            assert(outcomes[i + 1] is Transient);
        }
        law_exhausted_retries_give_up(max_retries, retry + 1, rest);
    }
}

/// A policy without retries attempts once.
pub proof fn law_no_retries_attempt_once(outcomes: Seq<Outcome>)
    requires
        outcomes.len() > 0,
    ensures
        run(0, 0, outcomes) == (
            1nat,
            if outcomes[0] is Success {
                Ending::Success
            } else {
                Ending::Failure
            },
        ),
{
}

/// How many retries, each with its message, several operations come to that follow one
/// another, and how the whole ends: with the first operation that does not succeed.
pub open spec fn run_all(max_retries: nat, operations: Seq<Seq<Outcome>>) -> (nat, Ending)
    decreases operations.len(),
{
    if operations.len() == 0 {
        (0, Ending::Success)
    } else {
        let (attempts, ending) = run(max_retries, 0, operations[0]);
        if ending is Success {
            let (retries, rest) = run_all(max_retries, operations.drop_first());
            ((attempts - 1 + retries) as nat, rest)
        } else if ending is Unfinished {
            (attempts, ending)
        } else {
            ((attempts - 1) as nat, ending)
        }
    }
}

/// Whether an operation fails transiently that often and then succeeds.
pub open spec fn succeeds_after(outcomes: Seq<Outcome>, failures: nat) -> bool {
    &&& failures < outcomes.len()
    &&& forall|i: int| 0 <= i < failures ==> #[trigger] outcomes[i] is Transient
    &&& outcomes[failures as int] is Success
}

/// The sum of these numbers.
pub open spec fn sum(numbers: Seq<nat>) -> nat
    decreases numbers.len(),
{
    if numbers.len() == 0 {
        0
    } else {
        numbers[0] + sum(numbers.drop_first())
    }
}

/// Each operation is retried for itself: where none fails transiently more often than
/// the policy allows, the whole succeeds, with one retry for each failure.
pub proof fn law_operations_are_retried_one_by_one(
    max_retries: nat,
    operations: Seq<Seq<Outcome>>,
    failures: Seq<nat>,
)
    requires
        failures.len() == operations.len(),
        forall|n: int| 0 <= n < failures.len() ==> #[trigger] failures[n] <= max_retries,
        forall|n: int|
            0 <= n < operations.len() ==> #[trigger] succeeds_after(operations[n], failures[n]),
    ensures
        run_all(max_retries, operations) == (sum(failures), Ending::Success),
    decreases operations.len(),
{
    if operations.len() > 0 {
        assert(succeeds_after(operations[0], failures[0]));
        law_first_decisive_outcome_ends(max_retries, 0, operations[0], failures[0]);
        let rest = operations.drop_first();
        let left = failures.drop_first();
        assert forall|n: int| 0 <= n < rest.len() implies #[trigger] succeeds_after(
            rest[n],
            left[n],
        ) by {
            assert(succeeds_after(operations[n + 1], failures[n + 1]));
        }
        law_operations_are_retried_one_by_one(max_retries, rest, left);
    }
}

/// With a policy that retries, one transient failure of each operation costs exactly
/// one retry each.
pub proof fn law_one_failure_each_costs_one_retry_each(
    max_retries: nat,
    operations: Seq<Seq<Outcome>>,
)
    requires
        max_retries > 0,
        forall|n: int|
            0 <= n < operations.len() ==> succeeds_after(#[trigger] operations[n], 1),
    ensures
        run_all(max_retries, operations) == (operations.len(), Ending::Success),
{
    let failures = Seq::new(operations.len(), |n: int| 1nat);
    law_operations_are_retried_one_by_one(max_retries, operations, failures);
    lemma_sum_of_ones(failures);
}

/// Without retries the first transient failure ends the whole at once, with its error.
pub proof fn law_without_retries_the_first_failure_ends(operations: Seq<Seq<Outcome>>, n: nat)
    requires
        n < operations.len(),
        forall|i: int| 0 <= i < n ==> succeeds_after(#[trigger] operations[i], 0),
        operations[n as int].len() > 0,
        operations[n as int][0] is Transient,
    ensures
        run_all(0, operations) == (0nat, Ending::Failure),
    decreases n,
{
    if n > 0 {
        assert(succeeds_after(operations[0], 0));
        let rest = operations.drop_first();
        assert forall|i: int| 0 <= i < n - 1 implies succeeds_after(#[trigger] rest[i], 0) by {
            assert(succeeds_after(operations[i + 1], 0));
        }
        assert(rest[n - 1] == operations[n as int]);
        law_without_retries_the_first_failure_ends(rest, (n - 1) as nat);
    }
}

proof fn lemma_sum_of_ones(numbers: Seq<nat>)
    requires
        forall|i: int| 0 <= i < numbers.len() ==> #[trigger] numbers[i] == 1,
    ensures
        sum(numbers) == numbers.len(),
    decreases numbers.len(),
{
    if numbers.len() > 0 {
        assert(numbers[0] == 1);
        lemma_sum_of_ones(numbers.drop_first());
    }
}

/// The delay before a retry is never over the policy's bound, and does not shrink
/// from one retry to a later one.
pub proof fn law_delays_grow_to_the_cap(policy: RetryPolicy, earlier: nat, later: nat)
    requires
        earlier <= later,
    ensures
        policy.full_delay(later) <= policy.max_delay@,
        policy.full_delay(earlier) <= policy.full_delay(later),
{
    lemma_grows(policy.initial_delay@, earlier, later);
}

/// Until the bound is reached, each delay is twice the one before it, and the
/// first is the initial delay.
pub proof fn law_delays_double(policy: RetryPolicy, retry: nat)
    ensures
        policy.full_delay(0) == if policy.initial_delay@ <= policy.max_delay@ {
            policy.initial_delay@
        } else {
            policy.max_delay@
        },
        policy.full_delay(retry + 1) == if 2 * policy.full_delay(retry) <= policy.max_delay@ {
            2 * policy.full_delay(retry)
        } else {
            policy.max_delay@
        },
{
    vstd::arithmetic::power2::lemma2_to64();
    assert(policy.initial_delay@ * 1 == policy.initial_delay@) by (nonlinear_arith);
    lemma_doubles(policy.initial_delay@, retry);
}

/// The delay that is left once a jitter has taken a cut off, or a fifth where the cut
/// is more than that.
pub open spec fn cut_delay(policy: RetryPolicy, retry: nat, cut: nat) -> nat {
    let full = policy.full_delay(retry);
    (full - smaller(cut, full / 5)) as nat
}

/// Jitter only ever shortens a delay, by what is asked for where that is at most a fifth
/// of the delay, and else by a fifth.
pub proof fn law_jitter_shortens(policy: RetryPolicy, retry: nat, cut: nat)
    ensures
        cut_delay(policy, retry, cut) <= policy.full_delay(retry),
        5 * cut_delay(policy, retry, cut) >= 4 * policy.full_delay(retry),
        5 * cut <= policy.full_delay(retry) ==> cut_delay(policy, retry, cut) + cut
            == policy.full_delay(retry),
        5 * cut > policy.full_delay(retry) ==> 5 * (cut_delay(policy, retry, cut) - 1) < 4
            * policy.full_delay(retry),
{
}

/// A policy is its numbers: two with the same number of retries and spans of the same
/// length are the same.
pub proof fn law_policies_of_one_meaning_are_the_same(a: RetryPolicy, b: RetryPolicy)
    requires
        a.initial_delay.valid() && a.max_delay.valid(),
        b.initial_delay.valid() && b.max_delay.valid(),
        a.max_retries == b.max_retries,
        a.initial_delay@ == b.initial_delay@,
        a.max_delay@ == b.max_delay@,
    ensures
        a == b,
{
    crate::duration::law_spans_of_one_length_are_the_same(a.initial_delay, b.initial_delay);
    crate::duration::law_spans_of_one_length_are_the_same(a.max_delay, b.max_delay);
}

/// The default policy with its own number of retries is the default policy.
pub proof fn law_default_retries_give_the_default_policy(policy: RetryPolicy, default: RetryPolicy)
    requires
        is_default(default),
        policy.max_retries == default.max_retries,
        has_default_delays(policy),
    ensures
        policy == default,
{
    law_policies_of_one_meaning_are_the_same(policy, default);
}

/// Doubling the delay of one retry gives that of the next.
proof fn lemma_doubles(initial: nat, retry: nat)
    ensures
        initial * pow2(retry + 1) == 2 * (initial * pow2(retry)),
{
    vstd::arithmetic::power2::lemma_pow2_unfold(retry + 1);
    assert(initial * (2 * pow2(retry)) == 2 * (initial * pow2(retry))) by (nonlinear_arith);
}

/// The uncapped delay does not shrink from one retry to a later one.
proof fn lemma_grows(initial: nat, earlier: nat, later: nat)
    requires
        earlier <= later,
    ensures
        initial * pow2(earlier) <= initial * pow2(later),
    decreases later - earlier,
{
    if earlier < later {
        lemma_grows(initial, earlier, (later - 1) as nat);
        lemma_doubles(initial, (later - 1) as nat);
    }
}

/// What follows a failed attempt: a retry, counted from one and after the full delay,
/// exactly when the failure is transient and the policy allows one more; else the
/// error, which says how many retries were made if any were and the failure is
/// transient.
pub proof fn law_what_follows_a_failure(
    policy: RetryPolicy,
    retries: nat,
    causes: Seq<Cause>,
    action: RetryAction,
    retries_after: nat,
)
    requires
        follows(policy, retries, causes, action, retries_after),
    ensures
        ({
            let transient = crate::transient::transient_chain(causes);
            &&& action is Retry <==> transient && retries < policy.max_retries
            &&& action is GiveUp <==> transient && retries >= policy.max_retries && retries > 0
            &&& action is Fail <==> !transient || (policy.max_retries == 0 && retries == 0)
            &&& retries_after == retries + if action is Retry {
                1int
            } else {
                0
            }
        }),
        action matches RetryAction::Retry { number, exponential } ==> number == retries + 1
            && exponential@ == policy.full_delay(retries),
        action matches RetryAction::GiveUp { context } ==> context@ == "Giving up after "@
            + crate::text::decimal(retries) + if retries == 1 {
            " retry"@
        } else {
            " retries"@
        },
{
}

/// The report of a retry names the operation first and the error last, and between them
/// the delay, which retry it is and how many are allowed.
pub proof fn law_retry_is_reported_in_full(
    what: Seq<char>,
    delay_secs: Seq<char>,
    number: nat,
    max_retries: nat,
    err: Seq<char>,
)
    ensures
        ({
            let text = retry_text(what, delay_secs, number, max_retries, err);
            let inner = text.subrange(what.len() as int, text.len() - err.len());
            &&& text.len() >= what.len() + err.len()
            &&& text.take(what.len() as int) == what
            &&& text.skip(text.len() - err.len()) == err
            &&& inner == ": transient error, retrying in "@ + delay_secs + "s ("@
                + crate::text::decimal(number) + "/"@ + crate::text::decimal(max_retries) + "): "@
        }),
{
    let text = retry_text(what, delay_secs, number, max_retries, err);
    assert(text.take(what.len() as int) =~= what);
    assert(text.skip(text.len() - err.len()) =~= err);
    assert(text.subrange(what.len() as int, text.len() - err.len()) =~=
        ": transient error, retrying in "@ + delay_secs + "s ("@ + crate::text::decimal(number)
        + "/"@ + crate::text::decimal(max_retries) + "): "@);
}

/// The default policy makes three retries, the first after a second and none after more
/// than thirty.
pub proof fn law_default_policy(policy: RetryPolicy)
    requires
        is_default(policy),
    ensures
        policy.max_retries == 3,
        policy.full_delay(0) == 1_000_000_000,
        policy.full_delay(1) == 2_000_000_000,
        policy.full_delay(2) == 4_000_000_000,
        forall|retry: nat| #[trigger] policy.full_delay(retry) <= 30_000_000_000,
        forall|retry: nat| retry >= 5 ==> #[trigger] policy.full_delay(retry) == 30_000_000_000,
{
    law_delays_double(policy, 0);
    law_delays_double(policy, 1);
    law_delays_double(policy, 2);
    law_delays_double(policy, 3);
    law_delays_double(policy, 4);
    assert forall|retry: nat| retry >= 5 implies #[trigger] policy.full_delay(retry)
        == 30_000_000_000 by {
        law_delays_grow_to_the_cap(policy, 5, retry);
    }
}

/// The fraction that random bits stand for is theirs of all that 64 bits can be, rounded
/// down: it is at least zero, less than one, and no bit above the lowest eleven is lost.
pub proof fn law_bits_are_a_fraction(bits: u64)
    ensures
        UNIT_DENOMINATOR * 2048 == u64::MAX + 1,
        top_bits(bits) < UNIT_DENOMINATOR,
        top_bits(bits) * 2048 <= bits < (top_bits(bits) + 1) * 2048,
{
}

} // verus!
