//! The `/quotes` endpoint and its retry policy.

use vstd::prelude::*;
use crate::error::AppError;

verus! {

/// HTTP methods the service answers.
pub enum HttpMethod {
    Get,
}

/// Where a handler is mounted.
pub struct Endpoint {
    pub method: HttpMethod,
    pub path: &'static str,
}

/// The quotes handler answers `GET /quotes`.
pub fn scope() -> (e: Endpoint)
    ensures
        e.method is Get,
        e.path@ == "/quotes"@,
{
    Endpoint { method: HttpMethod::Get, path: "/quotes" }
}

/// Attempts after the first one.
pub const MAX_RETRIES: u32 = 1;

/// Seconds to wait after a failed attempt.
pub const RETRY_DELAY_SECS: u64 = 2;

/// The attempts made so far to fetch quotes and the error of the last one.
pub struct QuoteRetry {
    pub attempts: u32,
    pub last_error: Option<AppError>,
}

/// What to do after a failed attempt.
pub struct Backoff {
    /// Drop the access token and force a login before the next attempt.
    pub clear_credentials: bool,
    /// Seconds to wait before going on.
    pub delay_secs: u64,
}

/// The attempt count after one more failure; it stops growing once the
/// budget is spent.
pub open spec fn counted(attempts: u32) -> u32 {
    if attempts <= MAX_RETRIES {
        (attempts + 1) as u32
    } else {
        attempts
    }
}

/// Another attempt may start.
pub open spec fn may_try(attempts: u32) -> bool {
    attempts <= MAX_RETRIES
}

impl QuoteRetry {
    /// No attempt yet.
    pub fn new() -> (r: Self)
        ensures
            r.attempts == 0,
            r.last_error is None,
    {
        QuoteRetry { attempts: 0, last_error: None }
    }

    /// Whether another attempt may start: the first one and up to
    /// `MAX_RETRIES` more.
    pub fn may_attempt(&self) -> (r: bool)
        ensures
            r == may_try(self.attempts),
    {
        self.attempts <= MAX_RETRIES
    }

    /// Records a failed attempt. A refused token is dropped before the next
    /// attempt; every failure waits `RETRY_DELAY_SECS`.
    pub fn record_failure(&mut self, error: AppError) -> (b: Backoff)
        ensures
            final(self).attempts == counted(old(self).attempts),
            b.clear_credentials == (error is WebSocketBadCredentials || error is BadCredentials),
            b.delay_secs == RETRY_DELAY_SECS,
            final(self).last_error == Some(error),
    {
        let clear = error.is_credentials_error();
        if self.attempts <= MAX_RETRIES {
            self.attempts = self.attempts + 1;
        }
        self.last_error = Some(error);
        Backoff { clear_credentials: clear, delay_secs: RETRY_DELAY_SECS }
    }

    /// The error to answer with once no attempt succeeded: that of the last
    /// attempt.
    pub fn final_error(self) -> (e: AppError)
        ensures
            match self.last_error {
                Some(last) => e == last,
                None => e == AppError::MaxRetriesExceeded,
            },
    {
        match self.last_error {
            Some(e) => e,
            None => AppError::MaxRetriesExceeded,
        }
    }
}

/// The attempt count after `n` failures from the start.
pub open spec fn attempts_after(n: nat) -> u32
    decreases n,
{
    if n == 0 {
        0
    } else {
        counted(attempts_after((n - 1) as nat))
    }
}

/// The service makes at most `MAX_RETRIES + 1` attempts: after `n`
/// failures another attempt may start exactly when `n <= MAX_RETRIES`.
pub proof fn law_retry_budget(n: nat)
    ensures
        attempts_after(n) <= MAX_RETRIES + 1,
        may_try(attempts_after(n)) <==> n <= MAX_RETRIES,
{
    if n <= MAX_RETRIES + 1 {
        lemma_attempts_count(n);
    } else {
        lemma_attempts_count((MAX_RETRIES + 1) as nat);
        lemma_attempts_saturate(n);
    }
}

proof fn lemma_attempts_count(n: nat)
    requires
        n <= MAX_RETRIES + 1,
    ensures
        attempts_after(n) == n,
    decreases n,
{
    if n > 0 {
        lemma_attempts_count((n - 1) as nat);
    }
}

proof fn lemma_attempts_saturate(n: nat)
    requires
        n >= MAX_RETRIES + 1,
    ensures
        attempts_after(n) == MAX_RETRIES + 1,
    decreases n,
{
    if n > MAX_RETRIES + 1 {
        lemma_attempts_saturate((n - 1) as nat);
    } else {
        lemma_attempts_count(n);
    }
}

} // verus!
