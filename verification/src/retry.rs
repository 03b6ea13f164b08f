//! When a call sends its request once more.

use vstd::prelude::*;

use crate::request::is_success;

verus! {

/// A call goes on after an attempt while retries are left and the recorded
/// status is not a 2xx status.
pub open spec fn retry_again(remaining: int, rescode: int) -> bool {
    remaining > 0 && !is_success(rescode)
}

/// The count of retries left in a call.
pub struct RetryCounter {
    pub remaining: i32,
}

impl RetryCounter {
    /// A counter with the request's `retry` value.
    pub fn new(retry: i32) -> (c: Self)
        ensures
            c.remaining == retry,
    {
        RetryCounter { remaining: retry }
    }

    /// After an attempt whose recorded status is `rescode`: tells whether to
    /// send again, and uses up one retry when it does.
    pub fn after_attempt(&mut self, rescode: i32) -> (again: bool)
        ensures
            again == retry_again(old(self).remaining as int, rescode as int),
            final(self).remaining == (if again {
                old(self).remaining - 1
            } else {
                old(self).remaining as int
            }),
    {
        if self.remaining <= 0 {
            return false;
        }
        if rescode >= 200 && rescode <= 299 {
            return false;
        }
        self.remaining = self.remaining - 1;
        true
    }
}

/// Law: after an attempt, the counter says to send again exactly when
/// retries are left and the status lies outside 200..=299 (3xx included).
pub proof fn lemma_retry_rule(remaining: int, rescode: int)
    ensures
        retry_again(remaining, rescode) <==> (remaining > 0 && (rescode < 200 || rescode > 299)),
{
}

/// The most attempts a call with `retry` retries may make.
pub open spec fn max_attempts(retry: int) -> int {
    if retry > 0 {
        retry + 1
    } else {
        1
    }
}

} // verus!
