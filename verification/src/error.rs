//! Errors of the query pipeline.
use vstd::prelude::*;
use crate::record::ResponseCode;

verus! {

/// Why a query could not be processed.
#[derive(Clone, Debug, PartialEq, Eq)]
pub enum DnsError {
    LabelTooLong,
    NameTooLong,
    TooManyLabels,
    EmptyName,
    UpstreamError(String),
    UpstreamRequestFailed(String),
    WireFormatError(String),
    AllUpstreamsFailed,
    CircuitBreakerOpen,
    ServerError(String),
    /// The upstream answered with a code that is never cached.
    Uncacheable(ResponseCode),
}

} // verus!
