//! Retry decisions: whether a failed attempt is tried again. The caller
//! runs the operation and waits out the backoff between attempts.

use vstd::prelude::*;

use crate::error::{spec_is_retryable, OmniMeshError};

verus! {

/// How many times an operation is called when its calls return `outcomes`
/// in turn (`None` for success, `Some(e)` for the error `e`), each failure
/// decided as [`RetryState::on_failure`] decides it, from `attempts` retries
/// made under a limit of `max_retries`.
pub open spec fn spec_calls(attempts: nat, max_retries: nat, outcomes: Seq<Option<OmniMeshError>>) -> nat
    decreases outcomes.len(),
{
    if outcomes.len() == 0 {
        0
    } else {
        match outcomes[0] {
            None => 1,
            Some(e) => if spec_is_retryable(e) && attempts < max_retries {
                1 + spec_calls(attempts + 1, max_retries, outcomes.drop_first())
            } else {
                1
            },
        }
    }
}

/// Whether an outcome ends the retrying: a success, or an error that is not
/// transient.
pub open spec fn ends_retrying(outcome: Option<OmniMeshError>) -> bool {
    match outcome {
        None => true,
        Some(e) => !spec_is_retryable(e),
    }
}

/// With a limit of `max_retries`, the operation is called `k` times, `k`
/// the first call whose outcome is a success or an error that is not
/// transient, or `max_retries + 1` when none of the calls before is; the
/// last outcome seen is the result.
pub proof fn law_retry_call_count(max_retries: u32, outcomes: Seq<Option<OmniMeshError>>)
    requires
        outcomes.len() > max_retries,
    ensures
        1 <= spec_calls(0, max_retries as nat, outcomes) <= max_retries + 1,
        forall|j: int| 0 <= j < spec_calls(0, max_retries as nat, outcomes) - 1 ==> !ends_retrying(#[trigger] outcomes[j]),
        ends_retrying(outcomes[spec_calls(0, max_retries as nat, outcomes) - 1])
            || spec_calls(0, max_retries as nat, outcomes) == max_retries + 1,
{
    lemma_calls_from(0, max_retries as nat, outcomes);
}

/// The same, from `attempts` retries already made.
proof fn lemma_calls_from(attempts: nat, max_retries: nat, outcomes: Seq<Option<OmniMeshError>>)
    requires
        attempts <= max_retries,
        outcomes.len() > max_retries - attempts,
    ensures
        1 <= spec_calls(attempts, max_retries, outcomes) <= max_retries - attempts + 1,
        forall|j: int| 0 <= j < spec_calls(attempts, max_retries, outcomes) - 1 ==> !ends_retrying(#[trigger] outcomes[j]),
        ends_retrying(outcomes[spec_calls(attempts, max_retries, outcomes) - 1])
            || spec_calls(attempts, max_retries, outcomes) == max_retries - attempts + 1,
    decreases outcomes.len(),
{
    let k = spec_calls(attempts, max_retries, outcomes);
    match outcomes[0] {
        None => {},
        Some(e) => {
            if spec_is_retryable(e) && attempts < max_retries {
                let rest = outcomes.drop_first();
                lemma_calls_from(attempts + 1, max_retries, rest);
                assert forall|j: int| 0 <= j < k - 1 implies !ends_retrying(#[trigger] outcomes[j]) by {
                    if j > 0 {
                        assert(outcomes[j] == rest[j - 1]);
                    }
                }
                assert(outcomes[k - 1] == rest[k - 2]);
            }
        },
    }
}

/// The count of retries made so far against the policy's limit.
pub struct RetryState {
    attempts: u32,
    max_retries: u32,
}

impl RetryState {
    /// Retries made so far.
    pub closed spec fn spec_attempts(&self) -> u32 {
        self.attempts
    }

    /// The most retries allowed.
    pub closed spec fn spec_max_retries(&self) -> u32 {
        self.max_retries
    }

    /// Never more retries than allowed.
    #[verifier::type_invariant]
    closed spec fn inv(&self) -> bool {
        self.attempts <= self.max_retries
    }

    /// No retries made yet, under a limit of `max_retries`.
    pub fn new(max_retries: u32) -> (s: Self)
        ensures
            s.spec_attempts() == 0,
            s.spec_max_retries() == max_retries,
    {
        RetryState { attempts: 0, max_retries }
    }

    /// Retries made so far.
    pub fn attempts(&self) -> (n: u32)
        ensures
            n == self.spec_attempts(),
    {
        self.attempts
    }

    /// Decide on a failed attempt: retry exactly when the error is transient
    /// and the limit is not reached, counting the retry; otherwise the error
    /// is final.
    pub fn on_failure(&mut self, error: &OmniMeshError) -> (retry: bool)
        ensures
            final(self).spec_attempts() <= final(self).spec_max_retries(),
            retry == (spec_is_retryable(*error) && old(self).spec_attempts() < old(self).spec_max_retries()),
            final(self).spec_attempts() == (if retry { old(self).spec_attempts() + 1 } else { old(self).spec_attempts() as int }),
            final(self).spec_max_retries() == old(self).spec_max_retries(),
            forall|rest: Seq<Option<OmniMeshError>>|
                #[trigger] spec_calls(old(self).spec_attempts() as nat, old(self).spec_max_retries() as nat, seq![Some(*error)] + rest)
                    == 1 + (if retry { spec_calls(final(self).spec_attempts() as nat, final(self).spec_max_retries() as nat, rest) } else { 0 }),
    {
        proof { use_type_invariant(&*self); }
        proof {
            assert forall|rest: Seq<Option<OmniMeshError>>| (seq![Some(*error)] + rest).drop_first() =~= rest by {}
        }
        if error.is_retryable() && self.attempts < self.max_retries {
            self.attempts = self.attempts + 1;
            true
        } else {
            false
        }
    }
}

} // verus!
