//! The service's quota for the current window, and how long to hold back
//! before the next part may be sent.

use crate::error::{RateLimitHeader, TransferError};
use crate::headers::{field_value, header_fields, header_u64};
use vstd::prelude::*;

verus! {

/// The quota that the headers of one response describe.
#[derive(Clone, Copy, Debug, PartialEq, Eq, Structural)]
pub struct RateLimit {
    /// Ceiling on the bytes that may be sent within the window.
    pub byte_max: u64,
    /// Bytes already sent within the window.
    pub sent_bytes: u64,
    /// Ceiling on the number of requests within the window.
    pub max: u64,
    /// Requests already made within the window.
    pub request_count: u64,
    /// Length of the window in milliseconds, counted from `last_reset`.
    pub reset: u64,
    /// Start of the window in milliseconds since the Unix epoch.
    pub last_reset: u64,
}

impl RateLimit {
    /// Whether the window has no room for a part of `next_part_size` bytes:
    /// every request is used up, or the part would exceed the byte ceiling.
    pub open spec fn exhausted_for(self, next_part_size: u64) -> bool {
        self.request_count == self.max || self.sent_bytes + next_part_size > self.byte_max
    }

    /// The time at which the window ends, in milliseconds since the epoch.
    pub open spec fn wake_at(self) -> int {
        self.last_reset + self.reset
    }

    /// The milliseconds to hold back at time `now_ms` before sending a part of
    /// `next_part_size` bytes: the time left until the window ends where the
    /// window has no room for the part, and none otherwise or where the
    /// window has already ended.
    pub open spec fn wait_for(self, next_part_size: u64, now_ms: u64) -> int {
        if self.exhausted_for(next_part_size) && self.wake_at() > now_ms {
            self.wake_at() - now_ms
        } else {
            0
        }
    }

    /// Whether the window has no room for a part of `next_part_size` bytes.
    pub fn exhausted(&self, next_part_size: u64) -> (r: bool)
        ensures
            r == self.exhausted_for(next_part_size),
    {
        self.request_count == self.max || self.sent_bytes as u128 + next_part_size as u128
            > self.byte_max as u128
    }

    /// The milliseconds to hold back at time `now_ms` before sending a part of
    /// `next_part_size` bytes.
    pub fn wait_millis(&self, next_part_size: u64, now_ms: u64) -> (r: u128)
        ensures
            r == self.wait_for(next_part_size, now_ms),
    {
        let wake: u128 = self.last_reset as u128 + self.reset as u128;
        if self.exhausted(next_part_size) && wake > now_ms as u128 {
            wake - now_ms as u128
        } else {
            0
        }
    }
}

/// The quota that header fields describe. The six headers are read in the
/// order byte ceiling, bytes sent, request ceiling, requests made, window
/// length, window start; the first one that is absent or no number decides
/// the error.
pub open spec fn window_of(fields: Map<Seq<char>, Seq<u8>>) -> Result<RateLimit, TransferError> {
    match field_value(fields, RateLimitHeader::ByteMax) {
        Err(e) => Err(e),
        Ok(byte_max) => match field_value(fields, RateLimitHeader::SentBytes) {
            Err(e) => Err(e),
            Ok(sent_bytes) => match field_value(fields, RateLimitHeader::Max) {
                Err(e) => Err(e),
                Ok(max) => match field_value(fields, RateLimitHeader::RequestCount) {
                    Err(e) => Err(e),
                    Ok(request_count) => match field_value(fields, RateLimitHeader::Reset) {
                        Err(e) => Err(e),
                        Ok(reset) => match field_value(fields, RateLimitHeader::LastReset) {
                            Err(e) => Err(e),
                            Ok(last_reset) => Ok(
                                RateLimit {
                                    byte_max,
                                    sent_bytes,
                                    max,
                                    request_count,
                                    reset,
                                    last_reset,
                                },
                            ),
                        },
                    },
                },
            },
        },
    }
}

/// The milliseconds to hold back, at time `now_ms`, before a part of
/// `next_part_size` bytes is sent after a response with the fields `fields`.
pub open spec fn throttle_of(fields: Map<Seq<char>, Seq<u8>>, next_part_size: u64, now_ms: u64)
    -> Result<int, TransferError> {
    match window_of(fields) {
        Err(e) => Err(e),
        Ok(window) => Ok(window.wait_for(next_part_size, now_ms)),
    }
}

/// Reads the quota out of a response's headers.
pub fn read_window(headers: &reqwest::header::HeaderMap<reqwest::header::HeaderValue>) -> (r:
    Result<RateLimit, TransferError>)
    ensures
        r == window_of(header_fields(*headers)),
{
    let byte_max: u64 = match header_u64(headers, RateLimitHeader::ByteMax) {
        Ok(n) => n,
        Err(e) => {
            return Err(e);
        },
    };
    let sent_bytes: u64 = match header_u64(headers, RateLimitHeader::SentBytes) {
        Ok(n) => n,
        Err(e) => {
            return Err(e);
        },
    };
    let max: u64 = match header_u64(headers, RateLimitHeader::Max) {
        Ok(n) => n,
        Err(e) => {
            return Err(e);
        },
    };
    let request_count: u64 = match header_u64(headers, RateLimitHeader::RequestCount) {
        Ok(n) => n,
        Err(e) => {
            return Err(e);
        },
    };
    let reset: u64 = match header_u64(headers, RateLimitHeader::Reset) {
        Ok(n) => n,
        Err(e) => {
            return Err(e);
        },
    };
    let last_reset: u64 = match header_u64(headers, RateLimitHeader::LastReset) {
        Ok(n) => n,
        Err(e) => {
            return Err(e);
        },
    };
    Ok(RateLimit { byte_max, sent_bytes, max, request_count, reset, last_reset })
}

/// Decides, from the headers of the latest response, how many milliseconds to
/// hold back at time `now_ms` before a part of `next_part_size` bytes is sent.
/// Zero means that the part may go at once.
pub fn throttle(
    headers: &reqwest::header::HeaderMap<reqwest::header::HeaderValue>,
    next_part_size: u64,
    now_ms: u64,
) -> (r: Result<u128, TransferError>)
    ensures
        match r {
            Ok(wait) => throttle_of(header_fields(*headers), next_part_size, now_ms) == Ok::<
                int,
                TransferError,
            >(wait as int),
            Err(e) => throttle_of(header_fields(*headers), next_part_size, now_ms) == Err::<
                int,
                TransferError,
            >(e),
        },
{
    match read_window(headers) {
        Ok(window) => Ok(window.wait_millis(next_part_size, now_ms)),
        Err(e) => Err(e),
    }
}

/// A header that is absent or no number fails the decision, whichever of the
/// six it is and whatever the others hold, and the error names a header that
/// is absent or no number.
pub proof fn lemma_every_header_is_required(
    fields: Map<Seq<char>, Seq<u8>>,
    header: RateLimitHeader,
    next_part_size: u64,
    now_ms: u64,
)
    requires
        field_value(fields, header) is Err,
    ensures
        throttle_of(fields, next_part_size, now_ms) is Err,
        exists|g: RateLimitHeader|
            throttle_of(fields, next_part_size, now_ms)->Err_0 == (#[trigger] field_value(
                fields,
                g,
            ))->Err_0 && field_value(fields, g) is Err,
{
    let out = throttle_of(fields, next_part_size, now_ms);
    if field_value(fields, RateLimitHeader::ByteMax) is Err {
        assert(out->Err_0 == field_value(fields, RateLimitHeader::ByteMax)->Err_0);
    } else if field_value(fields, RateLimitHeader::SentBytes) is Err {
        assert(out->Err_0 == field_value(fields, RateLimitHeader::SentBytes)->Err_0);
    } else if field_value(fields, RateLimitHeader::Max) is Err {
        assert(out->Err_0 == field_value(fields, RateLimitHeader::Max)->Err_0);
    } else if field_value(fields, RateLimitHeader::RequestCount) is Err {
        assert(out->Err_0 == field_value(fields, RateLimitHeader::RequestCount)->Err_0);
    } else if field_value(fields, RateLimitHeader::Reset) is Err {
        assert(out->Err_0 == field_value(fields, RateLimitHeader::Reset)->Err_0);
    } else {
        assert(field_value(fields, RateLimitHeader::LastReset) is Err);
        assert(out->Err_0 == field_value(fields, RateLimitHeader::LastReset)->Err_0);
    }
}

/// With all six headers present and numeric the decision succeeds.
pub proof fn lemma_complete_headers_decide(
    fields: Map<Seq<char>, Seq<u8>>,
    next_part_size: u64,
    now_ms: u64,
)
    requires
        forall|g: RateLimitHeader| (#[trigger] field_value(fields, g)) is Ok,
    ensures
        throttle_of(fields, next_part_size, now_ms) is Ok,
{
    assert(field_value(fields, RateLimitHeader::ByteMax) is Ok);
    assert(field_value(fields, RateLimitHeader::SentBytes) is Ok);
    assert(field_value(fields, RateLimitHeader::Max) is Ok);
    assert(field_value(fields, RateLimitHeader::RequestCount) is Ok);
    assert(field_value(fields, RateLimitHeader::Reset) is Ok);
    assert(field_value(fields, RateLimitHeader::LastReset) is Ok);
}

} // verus!
