//! From the outcome of one HTTP exchange to the error it means, if any.
//!
//! The mapping reads nothing but its arguments: the status code, the value of
//! the `Retry-After` header where there is one, the time at which the answer
//! came in, and the structured error payload where the body held one.

use crate::errors::{ApiErrors, ApiErrorsView, Error, ErrorView};
use crate::text::{parse_u64, parsed_u64};
use vstd::prelude::*;

verus! {

/// A point in time: whole seconds since the Unix epoch and the nanoseconds
/// into the second that follows.
#[derive(Debug, Clone, Copy, PartialEq, Eq, Structural)]
pub struct Timestamp {
    pub secs: u64,
    pub nanos: u32,
}

/// Whether `status` reports success.
pub open spec fn is_success(status: u16) -> bool {
    200 <= status && status < 300
}

/// Whether the body of an answer with `status` is read for a structured
/// error payload.
pub open spec fn reads_body(status: u16) -> bool {
    !is_success(status) && status != 401 && status != 403 && status != 404 && status != 405
        && status != 429
}

/// The time that `HTTP-date` text names, in seconds since the Unix epoch, as
/// `httpdate::parse_http_date` reads it; `None` where it reads no date.
pub uninterp spec fn http_date_seconds(text: Seq<char>) -> Option<u64>;

/// Calls `httpdate::parse_http_date` and gives the time it returns as whole
/// seconds since the Unix epoch, `None` where it returns an error. The crate
/// builds the time from a count of whole seconds from 1970 on.
#[verifier::external_body]
fn parse_http_date_seconds(text: &str) -> (out: Option<u64>)
    ensures
        out == http_date_seconds(text@),
{
    match httpdate::parse_http_date(text) {
        Ok(time) => match time.duration_since(std::time::UNIX_EPOCH) {
            Ok(since) => Some(since.as_secs()),
            Err(_) => None,
        },
        Err(_) => None,
    }
}

/// Whole seconds from `now` until the full second `date`; `None` where
/// `date` lies before `now`.
pub open spec fn seconds_until(date: u64, now: Timestamp) -> Option<u64> {
    if date > now.secs {
        if now.nanos > 0 {
            Some((date - now.secs - 1) as u64)
        } else {
            Some((date - now.secs) as u64)
        }
    } else if date == now.secs && now.nanos == 0 {
        Some(0)
    } else {
        None
    }
}

/// The wait that a `Retry-After` value asks for, in seconds: the value read
/// as a number of seconds, else as a date, taken relative to `now`.
pub open spec fn retry_after_seconds(value: Seq<char>, now: Timestamp) -> Option<u64> {
    match parsed_u64(value) {
        Some(seconds) => Some(seconds),
        None => match http_date_seconds(value) {
            Some(date) => seconds_until(date, now),
            None => None,
        },
    }
}

/// The wait of a rate-limited answer, given its `Retry-After` header.
pub open spec fn rate_limit_wait(header: Option<Seq<char>>, now: Timestamp) -> Option<u64> {
    match header {
        Some(value) => retry_after_seconds(value, now),
        None => None,
    }
}

/// The payload of a fault, given what the body held.
pub open spec fn fault_payload(body: Option<ApiErrorsView>) -> ApiErrorsView {
    match body {
        Some(errors) => errors,
        None => ApiErrorsView { errors: Seq::empty(), error_messages: Seq::empty() },
    }
}

/// The error that a failing status means.
pub open spec fn classified(
    status: u16,
    header: Option<Seq<char>>,
    now: Timestamp,
    body: Option<ApiErrorsView>,
) -> ErrorView {
    if status == 401 {
        ErrorView::Unauthorized
    } else if status == 403 {
        ErrorView::Forbidden
    } else if status == 404 {
        ErrorView::NotFound
    } else if status == 405 {
        ErrorView::MethodNotAllowed
    } else if status == 429 {
        ErrorView::RateLimited { retry_after: rate_limit_wait(header, now) }
    } else {
        ErrorView::Fault { code: status, errors: fault_payload(body) }
    }
}

/// The view of an optional text.
pub open spec fn text_view(text: Option<&str>) -> Option<Seq<char>> {
    match text {
        Some(t) => Some(t@),
        None => None,
    }
}

/// The view of an optional error payload.
pub open spec fn payload_view(body: Option<ApiErrors>) -> Option<ApiErrorsView> {
    match body {
        Some(errors) => Some(errors@),
        None => None,
    }
}

/// Whether `status` reports success.
pub fn status_is_success(status: u16) -> (out: bool)
    ensures
        out == is_success(status),
{
    200 <= status && status < 300
}

/// Whether the body of an answer with `status` is worth parsing as a
/// structured error payload.
pub fn status_reads_body(status: u16) -> (out: bool)
    ensures
        out == reads_body(status),
{
    !status_is_success(status) && status != 401 && status != 403 && status != 404 && status != 405
        && status != 429
}

/// Whole seconds from `now` until the full second `date`, where `date` is
/// not in the past.
pub fn wait_until(date: u64, now: Timestamp) -> (out: Option<u64>)
    ensures
        out == seconds_until(date, now),
{
    if date > now.secs {
        if now.nanos > 0 {
            Some(date - now.secs - 1)
        } else {
            Some(date - now.secs)
        }
    } else if date == now.secs && now.nanos == 0 {
        Some(0)
    } else {
        None
    }
}

/// Reads a `Retry-After` value: a number of seconds, else a date, which
/// counts from `now`.
pub fn parse_retry_after(value: &str, now: Timestamp) -> (out: Option<u64>)
    ensures
        out == retry_after_seconds(value@, now),
{
    match parse_u64(value) {
        Some(seconds) => Some(seconds),
        None => match parse_http_date_seconds(value) {
            Some(date) => wait_until(date, now),
            None => None,
        },
    }
}

/// The error that an answer with a failing `status` means. `retry_after` is
/// the value of the `Retry-After` header, `body` the structured payload that
/// the body held, if it held one.
pub fn error_from_status(
    status: u16,
    retry_after: Option<&str>,
    now: Timestamp,
    body: Option<ApiErrors>,
) -> (out: Error)
    ensures
        out@ == classified(status, text_view(retry_after), now, payload_view(body)),
{
    if status == 401 {
        Error::Unauthorized
    } else if status == 403 {
        Error::Forbidden
    } else if status == 404 {
        Error::NotFound
    } else if status == 405 {
        Error::MethodNotAllowed
    } else if status == 429 {
        let wait = match retry_after {
            Some(value) => parse_retry_after(value, now),
            None => None,
        };
        Error::RateLimited { retry_after: wait }
    } else {
        let errors = match body {
            Some(errors) => errors,
            None => ApiErrors::empty(),
        };
        proof {
            assert(errors@.errors =~= fault_payload(payload_view(body)).errors);
            assert(errors@.error_messages =~= fault_payload(payload_view(body)).error_messages);
        }
        Error::Fault { code: status, errors }
    }
}

/// What an answer means: `Ok` on a success status, else the error.
pub fn classify(
    status: u16,
    retry_after: Option<&str>,
    now: Timestamp,
    body: Option<ApiErrors>,
) -> (out: Result<(), Error>)
    ensures
        out is Ok <==> is_success(status),
        out matches Err(error) ==> error@ == classified(
            status,
            text_view(retry_after),
            now,
            payload_view(body),
        ),
{
    if status_is_success(status) {
        Ok(())
    } else {
        Err(error_from_status(status, retry_after, now, body))
    }
}

/// The status alone decides the kind of the error: 401, 403, 404, 405 and
/// 429 each have their own, every other status is a fault that keeps the
/// status as its code.
pub proof fn lemma_status_decides_kind(
    status: u16,
    header: Option<Seq<char>>,
    now: Timestamp,
    body: Option<ApiErrorsView>,
)
    ensures
        classified(status, header, now, body) is Unauthorized <==> status == 401,
        classified(status, header, now, body) is Forbidden <==> status == 403,
        classified(status, header, now, body) is NotFound <==> status == 404,
        classified(status, header, now, body) is MethodNotAllowed <==> status == 405,
        classified(status, header, now, body) is RateLimited <==> status == 429,
        classified(status, header, now, body) is Fault <==> status != 401 && status != 403
            && status != 404 && status != 405 && status != 429,
        classified(status, header, now, body) matches ErrorView::Fault { code, errors } ==> code
            == status && errors == fault_payload(body),
{
}

/// A wait that is read from a date ends within the second before the date,
/// and never after it.
pub proof fn lemma_wait_ends_at_date(date: u64, now: Timestamp)
    requires
        now.nanos < 1_000_000_000,
    ensures
        seconds_until(date, now) matches Some(wait) ==> now.secs + wait <= date && (now.secs
            + wait) * 1_000_000_000 + now.nanos > (date - 1) * 1_000_000_000,
        seconds_until(date, now) is None <==> date < now.secs || (date == now.secs && now.nanos
            > 0),
{
}

} // verus!
