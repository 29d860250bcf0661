//! Retrying an operation: up to a number of attempts, stopping at the first success.
//! The caller performs each attempt and reports how it went; this module decides
//! what happens next.
use vstd::prelude::*;
use vstd::string::*;
use crate::text::{decimal, format_decimal};

verus! {

broadcast use vstd::string::group_string_axioms;

/// Progress through the attempts: `attempt` is the number (from 1) of the attempt
/// being made, out of `attempts`.
#[derive(Debug, Clone, Copy, PartialEq, Eq, Structural)]
pub struct RetryState {
    pub attempt: u32,
    pub attempts: u32,
}

/// What to do once an attempt has ended.
#[derive(Debug, Clone, Copy, PartialEq, Eq, Structural)]
pub enum RetryStep {
    /// The attempt succeeded: hand its value back.
    Succeed,
    /// The attempt failed and attempts are left: report it, wait, try again.
    Retry,
    /// The attempt failed and it was the last one: hand its error back.
    GiveUp,
}

/// The decision after an attempt, and the state for the next one.
pub open spec fn next_step(s: RetryState, succeeded: bool) -> (RetryStep, RetryState) {
    if succeeded {
        (RetryStep::Succeed, s)
    } else if s.attempt < s.attempts {
        (RetryStep::Retry, RetryState { attempt: (s.attempt + 1) as u32, attempts: s.attempts })
    } else {
        (RetryStep::GiveUp, s)
    }
}

/// How many attempts a run makes when the attempts end as `outcomes` say (`true`
/// for success), and whether it ends with a success.
pub open spec fn retry_run(s: RetryState, outcomes: Seq<bool>) -> (nat, bool)
    decreases outcomes.len(),
{
    if outcomes.len() == 0 {
        (0, false)
    } else {
        let (step, next) = next_step(s, outcomes[0]);
        match step {
            RetryStep::Succeed => (1, true),
            RetryStep::GiveUp => (1, false),
            RetryStep::Retry => {
                let (n, ok) = retry_run(next, outcomes.drop_first());
                (n + 1, ok)
            },
        }
    }
}

/// The most attempts a run can make: `attempts`, and at least one.
pub open spec fn attempt_limit(attempts: u32) -> nat {
    if attempts == 0 {
        1
    } else {
        attempts as nat
    }
}

/// The first attempt to succeed among the first `k`, if any.
pub open spec fn first_success(outcomes: Seq<bool>, k: nat) -> Option<nat>
    decreases outcomes.len(),
{
    if outcomes.len() == 0 || k == 0 {
        None
    } else if outcomes[0] {
        Some(0)
    } else {
        match first_success(outcomes.drop_first(), (k - 1) as nat) {
            Some(i) => Some(i + 1),
            None => None,
        }
    }
}

impl RetryState {
    /// The state before the first of `attempts` attempts.
    pub fn new(attempts: u32) -> (s: RetryState)
        ensures
            s.attempt == 1,
            s.attempts == attempts,
    {
        RetryState { attempt: 1, attempts }
    }

    /// Decides what follows an attempt that succeeded or failed, and moves to the
    /// next attempt when there is one.
    pub fn after_attempt(&mut self, succeeded: bool) -> (step: RetryStep)
        ensures
            (step, *final(self)) == next_step(*old(self), succeeded),
    {
        if succeeded {
            RetryStep::Succeed
        } else if self.attempt < self.attempts {
            self.attempt = self.attempt + 1;
            RetryStep::Retry
        } else {
            RetryStep::GiveUp
        }
    }
}

/// The attempts left, counting the current one.
pub open spec fn remaining(s: RetryState) -> nat {
    if s.attempt < s.attempts {
        (s.attempts - s.attempt + 1) as nat
    } else {
        1
    }
}

proof fn lemma_run(s: RetryState, outcomes: Seq<bool>)
    requires
        outcomes.len() >= remaining(s),
    ensures
        retry_run(s, outcomes).1 <==> first_success(outcomes, remaining(s)) is Some,
        retry_run(s, outcomes).1 ==> retry_run(s, outcomes).0 == first_success(outcomes, remaining(s))->0 + 1,
        !retry_run(s, outcomes).1 ==> retry_run(s, outcomes).0 == remaining(s),
    decreases outcomes.len(),
{
    if !outcomes[0] && s.attempt < s.attempts {
        let next = next_step(s, false).1;
        assert(remaining(next) == remaining(s) - 1);
        lemma_run(next, outcomes.drop_first());
    } else if !outcomes[0] {
        assert(remaining(s) == 1);
        assert(first_success(outcomes.drop_first(), 0) is None);
    }
}

/// A run starting from the first of `attempts` attempts makes at most
/// `max(attempts, 1)` attempts, and at least one; it succeeds exactly when one of
/// those attempts succeeds, and then it stops right after the first success. When
/// they all fail it makes all of them and ends with the last error.
pub proof fn law_retry_bounds(attempts: u32, outcomes: Seq<bool>)
    requires
        outcomes.len() >= attempt_limit(attempts),
    ensures
        1 <= retry_run(RetryState { attempt: 1, attempts }, outcomes).0 <= attempt_limit(attempts),
        retry_run(RetryState { attempt: 1, attempts }, outcomes).1
            <==> first_success(outcomes, attempt_limit(attempts)) is Some,
        first_success(outcomes, attempt_limit(attempts)) matches Some(i)
            ==> retry_run(RetryState { attempt: 1, attempts }, outcomes).0 == i + 1,
        first_success(outcomes, attempt_limit(attempts)) is None
            ==> retry_run(RetryState { attempt: 1, attempts }, outcomes).0 == attempt_limit(attempts),
{
    let s = RetryState { attempt: 1, attempts };
    assert(remaining(s) == attempt_limit(attempts));
    lemma_run(s, outcomes);
    lemma_first_success_bound(outcomes, attempt_limit(attempts));
}

proof fn lemma_first_success_bound(outcomes: Seq<bool>, k: nat)
    ensures
        first_success(outcomes, k) matches Some(i) ==> i < k && i < outcomes.len() && outcomes[i as int]
            && forall|j: int| 0 <= j < i ==> !outcomes[j],
    decreases outcomes.len(),
{
    if outcomes.len() > 0 && k > 0 && !outcomes[0] {
        lemma_first_success_bound(outcomes.drop_first(), (k - 1) as nat);
        if first_success(outcomes, k) is Some {
            let i = first_success(outcomes, k)->0;
            assert forall|j: int| 0 <= j < i implies !outcomes[j] by {
                if j > 0 {
                    assert(outcomes[j] == outcomes.drop_first()[j - 1]);
                }
            }
        }
    }
}

/// The notice printed after a failed attempt that will be retried:
/// `{label} failed (attempt {attempt}/{attempts}): {error}\nRetrying in {delay}s...`.
pub fn retry_notice(label: &str, attempt: u32, attempts: u32, error: &str, delay_secs: u64) -> (r: String)
    ensures
        r@ == label@ + " failed (attempt "@ + decimal(attempt as nat) + seq!['/'] + decimal(attempts as nat)
            + "): "@ + error@ + "\nRetrying in "@ + decimal(delay_secs as nat) + "s..."@,
{
    let mut r = label.to_owned();
    r.append(" failed (attempt ");
    r.append(format_decimal(attempt as u64).as_str());
    r.append("/");
    r.append(format_decimal(attempts as u64).as_str());
    r.append("): ");
    r.append(error);
    r.append("\nRetrying in ");
    r.append(format_decimal(delay_secs).as_str());
    r.append("s...");
    proof {
        reveal_strlit("/");
    }
    r
}

} // verus!
