//! Retrying provider requests: which failed responses are tried again, and
//! how long to wait first (`Retry-After`, else exponential backoff from the
//! `backoff` crate). Sending the request and sleeping is the caller's work.

use vstd::prelude::*;

use crate::provider::error::{ErrorKindView, ProviderError};
use crate::text::chars_of;

verus! {

#[verifier::external_type_specification]
#[verifier::external_body]
#[verifier::reject_recursive_types(C)]
pub struct ExBackoffState<C>(backoff::exponential::ExponentialBackoff<C>);

#[verifier::external_type_specification]
#[verifier::external_body]
pub struct ExBackoffClock(backoff::SystemClock);

/// `backoff::ExponentialBackoff::default()`: 0.5 s first interval, factor
/// 1.5, randomized, giving up after 15 minutes. It reads the clock, so
/// nothing is claimed of the value.
#[verifier::external_body]
fn new_backoff() -> backoff::ExponentialBackoff {
    backoff::ExponentialBackoff::default()
}

/// `Backoff::next_backoff` on the exponential policy: a randomized wait, or
/// `None` once the policy gives up. It depends on chance and the clock, so
/// nothing is claimed of the outcome.
#[verifier::external_body]
fn next_backoff(b: &mut backoff::ExponentialBackoff) -> Option<std::time::Duration> {
    backoff::backoff::Backoff::next_backoff(b)
}

/// How many times a failed request is tried again.
pub const DEFAULT_RETRIES: u32 = 3;

/// The decimal value of the digits `d`.
pub open spec fn digits_value(d: Seq<char>) -> nat
    decreases d.len(),
{
    if d.len() == 0 {
        0
    } else {
        digits_value(d.drop_last()) * 10 + ((d.last() as u32) - ('0' as u32)) as nat
    }
}

pub open spec fn all_digits(d: Seq<char>) -> bool {
    forall|i: int| 0 <= i < d.len() ==> '0' <= #[trigger] d[i] <= '9'
}

/// What `u64::from_str` reads from `s`: an optional `+`, then one or more
/// decimal digits whose value fits in `u64`.
pub open spec fn parsed_u64(s: Seq<char>) -> Option<u64> {
    let d = if s.len() > 0 && s[0] == '+' { s.drop_first() } else { s };
    if d.len() > 0 && all_digits(d) && digits_value(d) <= u64::MAX {
        Some(digits_value(d) as u64)
    } else {
        None
    }
}

/// `s.parse::<u64>().ok()`.
pub fn parse_u64(s: &str) -> (r: Option<u64>)
    ensures
        r == parsed_u64(s@),
{
    let cs = chars_of(s);
    let mut start: usize = 0;
    if cs.len() > 0 && cs[0] == '+' {
        start = 1;
    }
    let ghost d = if s@.len() > 0 && s@[0] == '+' { s@.drop_first() } else { s@ };
    assert(d =~= cs@.subrange(start as int, cs@.len() as int));
    if start == cs.len() {
        return None;
    }
    let mut v: u64 = 0;
    let mut i = start;
    while i < cs.len()
        invariant
            start <= i <= cs@.len(),
            cs@ == s@,
            d == (if s@.len() > 0 && s@[0] == '+' { s@.drop_first() } else { s@ }),
            d == cs@.subrange(start as int, cs@.len() as int),
            all_digits(cs@.subrange(start as int, i as int)),
            v == digits_value(cs@.subrange(start as int, i as int)),
        decreases cs@.len() - i,
    {
        let c = cs[i];
        let ghost pre = cs@.subrange(start as int, i as int);
        let ghost post = cs@.subrange(start as int, i + 1);
        assert(post.drop_last() =~= pre);
        assert(post.last() == c);
        if c < '0' || c > '9' {
            assert(d[i - start] == c);
            return None;
        }
        let digit = (c as u32 - '0' as u32) as u64;
        if v > 1844674407370955161 || (v == 1844674407370955161 && digit > 5) {
            proof {
                assert(digits_value(post) > u64::MAX);
                assert(d.subrange(0, i + 1 - start) =~= post);
                lemma_digits_grow(d, i + 1 - start);
            }
            return None;
        }
        v = v * 10 + digit;
        assert(all_digits(post)) by {
            assert forall|k: int| 0 <= k < post.len() implies '0' <= #[trigger] post[k] <= '9' by {
                if k < pre.len() {
                    assert(post[k] == pre[k]);
                }
            }
        }
        i = i + 1;
    }
    assert(cs@.subrange(start as int, cs@.len() as int) =~= d);
    Some(v)
}

/// Adding digits never makes the value smaller.
proof fn lemma_digits_grow(d: Seq<char>, k: int)
    requires
        0 <= k <= d.len(),
    ensures
        digits_value(d.subrange(0, k)) <= digits_value(d),
    decreases d.len() - k,
{
    if k < d.len() {
        lemma_digits_grow(d, k + 1);
        assert(d.subrange(0, k + 1).drop_last() =~= d.subrange(0, k));
    } else {
        assert(d.subrange(0, k) =~= d);
    }
}

/// Seconds of a `Retry-After` header that holds a number of seconds.
pub fn parse_retry_after(value: Option<&str>) -> (r: Option<u64>)
    ensures
        r == match value {
            Some(v) => parsed_u64(v@),
            None => None,
        },
{
    match value {
        Some(v) => parse_u64(v),
        None => None,
    }
}

/// Statuses worth trying again: too many requests, and server errors.
pub open spec fn retryable(status: u16) -> bool {
    status == 429 || (500 <= status <= 599)
}

/// How long to wait before the next try.
pub enum RetryWait {
    /// What the server asked for in `Retry-After`.
    Seconds(u64),
    /// The next step of the exponential policy.
    Backoff(std::time::Duration),
    /// One second, when the policy has given up.
    OneSecond,
}

/// What to do after a response that was not a success.
pub enum RetryStep {
    Retry(RetryWait),
    Fail(ProviderError),
}

/// Retry bookkeeping of one request.
pub struct RetryState {
    attempt: u32,
    policy: backoff::ExponentialBackoff,
}

impl RetryState {
    pub closed spec fn attempts(&self) -> u32 {
        self.attempt
    }

    pub fn new() -> (r: RetryState)
        ensures
            r.attempts() == 0,
    {
        RetryState { attempt: 0, policy: new_backoff() }
    }

    /// Decides after a failed response with `status`, its `Retry-After`
    /// header (when readable) and its body: retryable statuses are tried
    /// again up to three times; otherwise the request fails with the status
    /// and body.
    pub fn after_failure(&mut self, status: u16, retry_after: Option<&str>, body: String) -> (r: RetryStep)
        requires
            old(self).attempts() <= DEFAULT_RETRIES,
        ensures
            final(self).attempts() <= DEFAULT_RETRIES,
            (retryable(status) && old(self).attempts() < DEFAULT_RETRIES) ==> {
                &&& final(self).attempts() == old(self).attempts() + 1
                &&& r matches RetryStep::Retry(w)
                &&& match parse_retry_after_spec(retry_after) {
                    Some(secs) => w matches RetryWait::Seconds(x) && x == secs,
                    None => !(w is Seconds),
                }
            },
            !(retryable(status) && old(self).attempts() < DEFAULT_RETRIES) ==> {
                &&& final(self).attempts() == old(self).attempts()
                &&& r matches RetryStep::Fail(e)
                &&& e@ == ErrorKindView::HttpStatus { status, body: body@ }
            },
    {
        let wait_secs = parse_retry_after(retry_after);
        let is_retryable = status == 429 || (500 <= status && status <= 599);
        if is_retryable && self.attempt < DEFAULT_RETRIES {
            let wait = match wait_secs {
                Some(s) => RetryWait::Seconds(s),
                None => match next_backoff(&mut self.policy) {
                    Some(d) => RetryWait::Backoff(d),
                    None => RetryWait::OneSecond,
                },
            };
            self.attempt = self.attempt + 1;
            return RetryStep::Retry(wait);
        }
        RetryStep::Fail(ProviderError::http_status(status, body))
    }
}

pub open spec fn parse_retry_after_spec(value: Option<&str>) -> Option<u64> {
    match value {
        Some(v) => parsed_u64(v@),
        None => None,
    }
}

} // verus!
