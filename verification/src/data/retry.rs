//! When a data request is retried.
use vstd::prelude::*;

verus! {

/// Requests made at most for one call.
pub const MAX_ATTEMPTS: u32 = 3;

/// How a reply's HTTP status is handled.
#[derive(Debug, Clone, Copy, PartialEq, Eq, Structural)]
pub enum ResponseClass {
    /// 2xx: the reply is used.
    Success,
    /// 401 or 403 from a provider that signs requests: sign in again, then retry once.
    Unauthorized,
    /// 429 or 5xx: try again after a pause.
    Retryable,
    /// Anything else: the call fails.
    Fatal,
}

/// The class of an HTTP status; `signed` tells whether the provider's
/// requests carry credentials that can be renewed.
pub open spec fn status_class(status: u16, signed: bool) -> ResponseClass {
    if 200 <= status <= 299 {
        ResponseClass::Success
    } else if signed && (status == 401 || status == 403) {
        ResponseClass::Unauthorized
    } else if status == 429 || (500 <= status <= 599) {
        ResponseClass::Retryable
    } else {
        ResponseClass::Fatal
    }
}

/// Classifies an HTTP status (see `status_class`).
pub fn classify_status(status: u16, signed: bool) -> (r: ResponseClass)
    ensures
        r == status_class(status, signed),
        200 <= status <= 299 ==> r == ResponseClass::Success,
        signed && (status == 401 || status == 403) ==> r == ResponseClass::Unauthorized,
        status == 429 || 500 <= status <= 599 ==> r == ResponseClass::Retryable,
        !(200 <= status <= 299) && !(signed && (status == 401 || status == 403)) && status != 429 && !(500
            <= status <= 599) ==> r == ResponseClass::Fatal,
{
    if 200 <= status && status <= 299 {
        ResponseClass::Success
    } else if signed && (status == 401 || status == 403) {
        ResponseClass::Unauthorized
    } else if status == 429 || (500 <= status && status <= 599) {
        ResponseClass::Retryable
    } else {
        ResponseClass::Fatal
    }
}

/// The pause before attempt number `attempt` (counted from 0), in milliseconds:
/// none before the first, then 500 ms times the attempt's ordinal.
pub open spec fn pause_before(attempt: nat) -> nat {
    if attempt == 0 {
        0
    } else {
        500 * (attempt + 1)
    }
}

/// What to do next in a call.
#[derive(Debug, Clone, Copy, PartialEq, Eq, Structural)]
pub enum CallStep {
    /// Wait this many milliseconds, then send the request.
    SendAfter(u64),
    /// Use the reply just received.
    Deliver,
    /// The reply is final and unusable: report it as the error.
    Fail,
    /// Clear the stored credentials, sign in again, send the request once
    /// more at once, and report its status to `after_resend`.
    SignInAndResend,
    /// Every attempt has been used: report the last failure.
    GiveUp,
}

/// The step that moves on to the next attempt, when `attempts` have been made.
pub open spec fn advance(attempts: nat) -> CallStep {
    if attempts < MAX_ATTEMPTS {
        CallStep::SendAfter(pause_before(attempts) as u64)
    } else {
        CallStep::GiveUp
    }
}

/// Attempts counted after moving on from `attempts`.
pub open spec fn attempts_after_advance(attempts: nat) -> nat {
    if attempts < MAX_ATTEMPTS {
        attempts + 1
    } else {
        attempts
    }
}

/// The step after a reply with this status, when `attempts` have been made:
/// deliver on success, stop on a final refusal, sign in again when the
/// credentials were refused, and otherwise move on to the next attempt.
pub open spec fn step_after_status(attempts: nat, status: u16, signed: bool) -> CallStep {
    match status_class(status, signed) {
        ResponseClass::Success => CallStep::Deliver,
        ResponseClass::Fatal => CallStep::Fail,
        ResponseClass::Unauthorized => CallStep::SignInAndResend,
        ResponseClass::Retryable => advance(attempts),
    }
}

/// Attempts made in one call.
pub struct RetryState {
    pub attempts: u32,
}

impl RetryState {
    /// A call with no attempt made yet.
    pub fn new() -> (r: Self)
        ensures
            r.attempts == 0,
    {
        RetryState { attempts: 0 }
    }

    /// Moves on to the next attempt: send it after its pause while fewer than
    /// three have been made; otherwise give up.
    pub fn next_attempt(&mut self) -> (r: CallStep)
        ensures
            r == advance(old(self).attempts as nat),
            final(self).attempts == attempts_after_advance(old(self).attempts as nat),
            old(self).attempts == 0 ==> r == CallStep::SendAfter(0) && final(self).attempts == 1,
            old(self).attempts == 1 ==> r == CallStep::SendAfter(1000) && final(self).attempts == 2,
            old(self).attempts == 2 ==> r == CallStep::SendAfter(1500) && final(self).attempts == 3,
            old(self).attempts >= 3 ==> r == CallStep::GiveUp && final(self).attempts == old(self).attempts,
    {
        if self.attempts < MAX_ATTEMPTS {
            let pause: u64 = if self.attempts == 0 {
                0
            } else {
                500 * (self.attempts as u64 + 1)
            };
            self.attempts = self.attempts + 1;
            CallStep::SendAfter(pause)
        } else {
            CallStep::GiveUp
        }
    }

    /// The step after a reply with HTTP status `status` (see `step_after_status`).
    pub fn after_status(&mut self, status: u16, signed: bool) -> (r: CallStep)
        ensures
            r == step_after_status(old(self).attempts as nat, status, signed),
            200 <= status <= 299 ==> r == CallStep::Deliver,
            signed && (status == 401 || status == 403) ==> r == CallStep::SignInAndResend,
            (status == 429 || 500 <= status <= 599) && old(self).attempts == 0 ==> r == CallStep::SendAfter(0),
            (status == 429 || 500 <= status <= 599) && old(self).attempts == 1 ==> r == CallStep::SendAfter(1000),
            (status == 429 || 500 <= status <= 599) && old(self).attempts == 2 ==> r == CallStep::SendAfter(1500),
            (status == 429 || 500 <= status <= 599) && old(self).attempts >= 3 ==> r == CallStep::GiveUp,
            !(200 <= status <= 299) && !(signed && (status == 401 || status == 403)) && status != 429 && !(500
                <= status <= 599) ==> r == CallStep::Fail,
            final(self).attempts == (if status_class(status, signed) == ResponseClass::Retryable {
                attempts_after_advance(old(self).attempts as nat)
            } else {
                old(self).attempts as nat
            }),
    {
        match classify_status(status, signed) {
            ResponseClass::Success => CallStep::Deliver,
            ResponseClass::Fatal => CallStep::Fail,
            ResponseClass::Unauthorized => CallStep::SignInAndResend,
            ResponseClass::Retryable => self.next_attempt(),
        }
    }

    /// The step after a request that got no reply: move on to the next attempt.
    pub fn after_error(&mut self) -> (r: CallStep)
        ensures
            r == advance(old(self).attempts as nat),
            final(self).attempts == attempts_after_advance(old(self).attempts as nat),
    {
        self.next_attempt()
    }

    /// The step after the request resent right after signing in again:
    /// deliver when it succeeded, otherwise move on to the next attempt.
    pub fn after_resend(&mut self, status: u16) -> (r: CallStep)
        ensures
            r == (if 200 <= status <= 299 {
                CallStep::Deliver
            } else {
                advance(old(self).attempts as nat)
            }),
            final(self).attempts == (if 200 <= status <= 299 {
                old(self).attempts as nat
            } else {
                attempts_after_advance(old(self).attempts as nat)
            }),
    {
        if 200 <= status && status <= 299 {
            CallStep::Deliver
        } else {
            self.next_attempt()
        }
    }
}

/// Server errors (5xx) and throttling (429) are retried, whether or not the
/// provider signs its requests: the next attempt is sent after its pause
/// while fewer than three were made, and the call gives up after three.
pub proof fn lemma_server_errors_retried(status: u16, signed: bool, attempts: nat)
    requires
        status == 429 || 500 <= status <= 599,
    ensures
        status_class(status, signed) == ResponseClass::Retryable,
        attempts == 0 ==> step_after_status(attempts, status, signed) == CallStep::SendAfter(0),
        attempts == 1 ==> step_after_status(attempts, status, signed) == CallStep::SendAfter(1000),
        attempts == 2 ==> step_after_status(attempts, status, signed) == CallStep::SendAfter(1500),
        attempts >= 3 ==> step_after_status(attempts, status, signed) == CallStep::GiveUp,
{
}

/// Only a 2xx reply is delivered, only a refused signature (401, 403 from a
/// signing provider) asks to sign in again, and everything else that is not
/// retried fails at once.
pub proof fn lemma_status_classes(status: u16, signed: bool)
    ensures
        (status_class(status, signed) == ResponseClass::Success) <==> (200 <= status <= 299),
        (status_class(status, signed) == ResponseClass::Unauthorized) <==> (signed && (status == 401
            || status == 403)),
        (status_class(status, signed) == ResponseClass::Retryable) <==> (status == 429 || 500 <= status
            <= 599),
{
}

/// A call sends at most three requests (besides a resend after signing in),
/// waiting 0, 1000 and 1500 milliseconds before them, then gives up.
pub proof fn lemma_three_attempts()
    ensures
        advance(0) == CallStep::SendAfter(0),
        advance(1) == CallStep::SendAfter(1000),
        advance(2) == CallStep::SendAfter(1500),
        attempts_after_advance(0) == 1,
        attempts_after_advance(1) == 2,
        attempts_after_advance(2) == 3,
        forall|n: nat| n >= MAX_ATTEMPTS ==> advance(n) == CallStep::GiveUp && attempts_after_advance(n) == n,
{
}

/// Attempts never decrease, and grow only up to three.
pub proof fn lemma_attempts_bounded(n: nat)
    ensures
        n <= attempts_after_advance(n),
        n <= MAX_ATTEMPTS ==> attempts_after_advance(n) <= MAX_ATTEMPTS,
{
}

} // verus!
