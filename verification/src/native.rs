//! The rules of the native HTTP transport: timeouts, the response size limit, and what a
//! failed send means. The HTTP client itself stays with the caller.

use vstd::prelude::*;
use vstd::string::StringSliceAdditionalSpecFns;
use vstd::utf8::*;
use crate::alpaca::{HttpMethod, TransportError};
use crate::text::{push_str, text_bytes, utf8_string};

verus! {

broadcast use vstd::utf8::group_utf8_lib;

/// Responses larger than 4 MiB are refused.
pub const MAX_RESPONSE_BYTES: u64 = 4194304;

#[derive(Debug, Clone, Copy, PartialEq, Eq, Structural)]
pub enum NativeTransportBuildError {
    /// The timeout is zero.
    ZeroTimeout,
    /// The HTTP client could not be built.
    Client,
}

impl NativeTransportBuildError {
    /// The error's message, as the error is displayed.
    pub fn message(&self) -> (res: String)
        ensures
            *self is ZeroTimeout ==> res@ == "Alpaca HTTP timeout must be positive"@,
            *self is Client ==> res@ == "failed to construct Alpaca HTTP client"@,
    {
        match self {
            NativeTransportBuildError::ZeroTimeout => "Alpaca HTTP timeout must be positive".to_owned(),
            NativeTransportBuildError::Client => "failed to construct Alpaca HTTP client".to_owned(),
        }
    }
}

/// A timeout of `secs` seconds and `nanos` nanoseconds must be positive.
pub fn check_timeout(secs: u64, nanos: u32) -> (res: Result<(), NativeTransportBuildError>)
    ensures
        res is Ok <==> secs > 0 || nanos > 0,
        res is Err ==> res == Err::<(), NativeTransportBuildError>(
            NativeTransportBuildError::ZeroTimeout,
        ),
{
    if secs == 0 && nanos == 0 {
        return Err(NativeTransportBuildError::ZeroTimeout);
    }
    Ok(())
}

/// A request that could not be sent: a mutation may have reached the venue, so its outcome is
/// unknown; a read simply found the transport unavailable.
pub fn send_failure(method: HttpMethod) -> (res: TransportError)
    ensures
        method.spec_is_mutating() ==> res is OutcomeUnknown,
        !method.spec_is_mutating() ==> res is Unavailable,
{
    if method.is_mutating() {
        TransportError::OutcomeUnknown
    } else {
        TransportError::Unavailable
    }
}

/// A declared response length within the limit, or none declared.
pub fn declared_length_allowed(content_length: Option<u64>) -> (res: bool)
    ensures
        res == (match content_length {
            Some(n) => n <= MAX_RESPONSE_BYTES,
            None => true,
        }),
{
    match content_length {
        Some(n) => n <= MAX_RESPONSE_BYTES,
        None => true,
    }
}

/// A received body within the limit.
pub fn body_length_allowed(length: usize) -> (res: bool)
    ensures
        res == (length <= MAX_RESPONSE_BYTES),
{
    length as u64 <= MAX_RESPONSE_BYTES
}

/// The URL of a request: the environment's origin followed by the path and query.
pub fn request_url(origin: &str, path_and_query: &str) -> (res: String)
    ensures
        text_bytes(res@) == text_bytes(origin@) + text_bytes(path_and_query@),
{
    let mut out: Vec<u8> = Vec::new();
    assert(out@ =~= encode_utf8(Seq::<char>::empty()));
    push_str(&mut out, origin);
    push_str(&mut out, path_and_query);
    utf8_string(out)
}

} // verus!
