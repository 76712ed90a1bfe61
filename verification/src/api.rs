//! Interpretation of provider API responses.
//!
//! Every call to the provider's REST surface ends in one of five classes:
//! it succeeded, the HTTP status was outside the success range, the body
//! could not be decoded, the decoded envelope reported failure, or the
//! transport itself failed. The classification and the decision it forces
//! (proceed, skip the current unit of work, or abort the run) are computed
//! here on plain values; the caller performs the actual HTTP traffic.

use vstd::prelude::*;

use crate::ip::IpAddress;

verus! {

/// Holds exactly when an HTTP status code counts as success (2xx).
pub open spec fn spec_http_success(status: u16) -> bool {
    200 <= status < 300
}

/// True for status codes in the 2xx success range.
pub fn is_http_success(status: u16) -> (r: bool)
    ensures
        r == spec_http_success(status),
{
    200 <= status && status < 300
}

/// How far the caller got with one provider call: the transport failed, or
/// a response arrived with some status and body.
#[derive(PartialEq, Eq, Structural, Clone, Copy, Debug)]
pub enum FetchOutcome {
    Transport,
    Completed { status: u16, envelope: EnvelopeOutcome },
}

/// What became of the response body: it was no envelope at all, or it
/// parsed with a `success` flag, `result_ok` saying whether the payload's
/// `result` field further decoded into the shape the call expected.
#[derive(PartialEq, Eq, Structural, Clone, Copy, Debug)]
pub enum EnvelopeOutcome {
    Invalid,
    Parsed { success: bool, result_ok: bool },
}

/// The five classes a provider call ends in.
#[derive(PartialEq, Eq, Structural, Clone, Copy, Debug)]
pub enum ResponseClass {
    Success,
    NoSuccessHttp,
    NoSuccessJson,
    TransportError,
    DecodeError,
}

/// How a call's outcome is classified: a transport failure is
/// `TransportError`; a status outside 2xx is `NoSuccessHttp`; a body that
/// is no envelope is `DecodeError`; an envelope whose `success` flag is
/// false is `NoSuccessJson`; a payload that does not decode into the
/// expected shape is `DecodeError`; everything else is `Success`.
pub open spec fn spec_classify(o: FetchOutcome) -> ResponseClass {
    match o {
        FetchOutcome::Transport => ResponseClass::TransportError,
        FetchOutcome::Completed { status, envelope } => {
            if !spec_http_success(status) {
                ResponseClass::NoSuccessHttp
            } else {
                match envelope {
                    EnvelopeOutcome::Invalid => ResponseClass::DecodeError,
                    EnvelopeOutcome::Parsed { success, result_ok } => {
                        if !success {
                            ResponseClass::NoSuccessJson
                        } else if !result_ok {
                            ResponseClass::DecodeError
                        } else {
                            ResponseClass::Success
                        }
                    },
                }
            }
        },
    }
}

/// Classifies one provider call's outcome; see [`spec_classify`].
pub fn classify_response(o: &FetchOutcome) -> (r: ResponseClass)
    ensures
        r == spec_classify(*o),
{
    match o {
        FetchOutcome::Transport => ResponseClass::TransportError,
        FetchOutcome::Completed { status, envelope } => {
            if !is_http_success(*status) {
                ResponseClass::NoSuccessHttp
            } else {
                match envelope {
                    EnvelopeOutcome::Invalid => ResponseClass::DecodeError,
                    EnvelopeOutcome::Parsed { success, result_ok } => {
                        if !*success {
                            ResponseClass::NoSuccessJson
                        } else if !*result_ok {
                            ResponseClass::DecodeError
                        } else {
                            ResponseClass::Success
                        }
                    },
                }
            }
        },
    }
}

/// What the run does after one classified call.
#[derive(PartialEq, Eq, Structural, Clone, Copy, Debug)]
pub enum Decision {
    Proceed,
    Skip,
    Abort,
}

/// A transport failure, and only a transport failure, aborts the run; a
/// successful call, and only one, proceeds; every other class skips the
/// current zone or record and the loop continues with its siblings.
pub fn response_decision(c: ResponseClass) -> (r: Decision)
    ensures
        (r == Decision::Abort) <==> (c == ResponseClass::TransportError),
        (r == Decision::Proceed) <==> (c == ResponseClass::Success),
        (r == Decision::Skip) <==> (c == ResponseClass::NoSuccessHttp || c
            == ResponseClass::NoSuccessJson || c == ResponseClass::DecodeError),
{
    match c {
        ResponseClass::Success => Decision::Proceed,
        ResponseClass::TransportError => Decision::Abort,
        ResponseClass::NoSuccessHttp => Decision::Skip,
        ResponseClass::NoSuccessJson => Decision::Skip,
        ResponseClass::DecodeError => Decision::Skip,
    }
}

/// The patch body for a DNS record update. Only the fields present are
/// changed by the provider; the reconciler sets the address alone and
/// leaves proxy flag, TTL, comment and tags untouched.
pub struct PatchDnsRecord {
    pub comment: Option<String>,
    pub content: Option<IpAddress>,
    pub name: Option<String>,
    pub proxied: Option<bool>,
    pub tags: Option<Vec<String>>,
    pub ttl: Option<u32>,
}

/// The patch body that updates a record's address and nothing else.
pub fn patch_payload(content: IpAddress) -> (r: PatchDnsRecord)
    ensures
        r.content == Some(content),
        r.comment is None,
        r.name is None,
        r.proxied is None,
        r.tags is None,
        r.ttl is None,
{
    PatchDnsRecord {
        comment: None,
        content: Some(content),
        name: None,
        proxied: None,
        tags: None,
        ttl: None,
    }
}

/// The relative path of the provider's zone listing.
pub fn zones_path() -> (r: String)
    ensures
        r@ == "zones"@,
{
    "zones".to_owned()
}

/// The relative path of a zone's DNS record listing.
pub fn dns_records_path(zone_id: &String) -> (r: String)
    ensures
        r@ == "zones/"@ + zone_id@ + "/dns_records"@,
{
    let mut s = "zones/".to_owned();
    s.append(zone_id.as_str());
    s.append("/dns_records");
    s
}

/// The relative path that patches one DNS record of one zone.
pub fn dns_record_patch_path(zone_id: &String, record_id: &String) -> (r: String)
    ensures
        r@ == "zones/"@ + zone_id@ + "/dns_records/"@ + record_id@,
{
    let mut s = "zones/".to_owned();
    s.append(zone_id.as_str());
    s.append("/dns_records/");
    s.append(record_id.as_str());
    s
}

} // verus!
