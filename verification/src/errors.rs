//! The closed error taxonomy of a run.
//!
//! Every failure a run can meet is one of these kinds. Exactly one of them
//! is fatal: a transport-level provider failure, after which no further
//! call can plausibly succeed. Every other kind is soft — it is reported
//! and the run continues with the next sibling unit of work.

use vstd::prelude::*;

use crate::api::ResponseClass;

verus! {

/// Everything that can go wrong during a run.
#[derive(PartialEq, Eq, Structural, Clone, Copy, Debug, Hash)]
pub enum ErrorKind {
    AddressUnresolvedV4,
    AddressUnresolvedV6,
    ProviderTransport,
    ProviderHttpFailure,
    ProviderBodyInvalid,
    ProviderLogicFailure,
    NameNotFoundZone,
    NameNotFoundRecord,
    UnsupportedRecordType,
}

/// Only a transport-level provider failure aborts the run.
pub open spec fn spec_is_fatal(e: ErrorKind) -> bool {
    e == ErrorKind::ProviderTransport
}

impl ErrorKind {
    /// Whether this error aborts the run; see [`spec_is_fatal`].
    pub fn is_fatal(&self) -> (r: bool)
        ensures
            r == spec_is_fatal(*self),
    {
        matches!(self, ErrorKind::ProviderTransport)
    }

    /// The operator-facing description of the error.
    pub fn message(&self) -> (r: String)
        ensures
            *self == ErrorKind::AddressUnresolvedV4 ==> r@
                == "An error occurred while trying to determine the IPv4 address"@,
            *self == ErrorKind::AddressUnresolvedV6 ==> r@
                == "An error occurred while trying to determine the IPv6 address"@,
            *self == ErrorKind::ProviderTransport ==> r@
                == "The HTTP client encountered an unexpected error while trying to connect to the API"@,
            *self == ErrorKind::ProviderHttpFailure ==> r@
                == "A HTTP response was unsuccessful (status code not between 200-299)"@,
            *self == ErrorKind::ProviderBodyInvalid ==> r@
                == "An error occurred while decoding a response body"@,
            *self == ErrorKind::ProviderLogicFailure ==> r@
                == "A JSON response contained invalid data (missing { \"success\": true })"@,
            *self == ErrorKind::NameNotFoundZone ==> r@
                == "The corresponding zone could not be found"@,
            *self == ErrorKind::NameNotFoundRecord ==> r@
                == "The corresponding records could not be found"@,
            *self == ErrorKind::UnsupportedRecordType ==> r@
                == "Encountered a record that was not of type \"A\" or \"AAAA\""@,
    {
        match self {
            ErrorKind::AddressUnresolvedV4 => "An error occurred while trying to determine the IPv4 address".to_owned(),
            ErrorKind::AddressUnresolvedV6 => "An error occurred while trying to determine the IPv6 address".to_owned(),
            ErrorKind::ProviderTransport => "The HTTP client encountered an unexpected error while trying to connect to the API".to_owned(),
            ErrorKind::ProviderHttpFailure => "A HTTP response was unsuccessful (status code not between 200-299)".to_owned(),
            ErrorKind::ProviderBodyInvalid => "An error occurred while decoding a response body".to_owned(),
            ErrorKind::ProviderLogicFailure => "A JSON response contained invalid data (missing { \"success\": true })".to_owned(),
            ErrorKind::NameNotFoundZone => "The corresponding zone could not be found".to_owned(),
            ErrorKind::NameNotFoundRecord => "The corresponding records could not be found".to_owned(),
            ErrorKind::UnsupportedRecordType => "Encountered a record that was not of type \"A\" or \"AAAA\"".to_owned(),
        }
    }
}

/// The error a classified provider response reports, if any: only a fully
/// successful call reports none.
pub fn class_error(c: ResponseClass) -> (r: Option<ErrorKind>)
    ensures
        (r is None) <==> (c == ResponseClass::Success),
        c == ResponseClass::NoSuccessHttp <==> r == Some(ErrorKind::ProviderHttpFailure),
        c == ResponseClass::NoSuccessJson <==> r == Some(ErrorKind::ProviderLogicFailure),
        c == ResponseClass::TransportError <==> r == Some(ErrorKind::ProviderTransport),
        c == ResponseClass::DecodeError <==> r == Some(ErrorKind::ProviderBodyInvalid),
{
    match c {
        ResponseClass::Success => None,
        ResponseClass::NoSuccessHttp => Some(ErrorKind::ProviderHttpFailure),
        ResponseClass::NoSuccessJson => Some(ErrorKind::ProviderLogicFailure),
        ResponseClass::TransportError => Some(ErrorKind::ProviderTransport),
        ResponseClass::DecodeError => Some(ErrorKind::ProviderBodyInvalid),
    }
}

} // verus!
