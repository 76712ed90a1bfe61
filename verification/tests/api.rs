use cfddns::api::{
    classify_response, dns_record_patch_path, dns_records_path, is_http_success, patch_payload,
    response_decision, zones_path, Decision, EnvelopeOutcome, FetchOutcome, ResponseClass,
};
use cfddns::errors::{class_error, ErrorKind};
use cfddns::ip::{IpAddress, Ipv4Address};

#[test]
fn http_success_is_the_2xx_range() {
    assert!(!is_http_success(199));
    assert!(is_http_success(200));
    assert!(is_http_success(204));
    assert!(is_http_success(299));
    assert!(!is_http_success(300));
    assert!(!is_http_success(404));
    assert!(!is_http_success(500));
}

fn completed(status: u16, envelope: EnvelopeOutcome) -> FetchOutcome {
    FetchOutcome::Completed { status, envelope }
}

#[test]
fn classification_of_call_outcomes() {
    let ok = EnvelopeOutcome::Parsed { success: true, result_ok: true };
    assert_eq!(classify_response(&FetchOutcome::Transport), ResponseClass::TransportError);
    assert_eq!(classify_response(&completed(500, ok)), ResponseClass::NoSuccessHttp);
    assert_eq!(
        classify_response(&completed(200, EnvelopeOutcome::Invalid)),
        ResponseClass::DecodeError
    );
    assert_eq!(
        classify_response(&completed(
            200,
            EnvelopeOutcome::Parsed { success: false, result_ok: true }
        )),
        ResponseClass::NoSuccessJson
    );
    assert_eq!(
        classify_response(&completed(
            200,
            EnvelopeOutcome::Parsed { success: true, result_ok: false }
        )),
        ResponseClass::DecodeError
    );
    assert_eq!(classify_response(&completed(200, ok)), ResponseClass::Success);
    // the status is checked before the body: a failed status wins
    assert_eq!(
        classify_response(&completed(404, EnvelopeOutcome::Invalid)),
        ResponseClass::NoSuccessHttp
    );
}

#[test]
fn only_transport_errors_abort_the_run() {
    assert_eq!(response_decision(ResponseClass::TransportError), Decision::Abort);
    assert_eq!(response_decision(ResponseClass::Success), Decision::Proceed);
    assert_eq!(response_decision(ResponseClass::NoSuccessHttp), Decision::Skip);
    assert_eq!(response_decision(ResponseClass::NoSuccessJson), Decision::Skip);
    assert_eq!(response_decision(ResponseClass::DecodeError), Decision::Skip);
}

#[test]
fn classified_responses_map_to_error_kinds() {
    assert_eq!(class_error(ResponseClass::Success), None);
    assert_eq!(class_error(ResponseClass::NoSuccessHttp), Some(ErrorKind::ProviderHttpFailure));
    assert_eq!(class_error(ResponseClass::NoSuccessJson), Some(ErrorKind::ProviderLogicFailure));
    assert_eq!(class_error(ResponseClass::TransportError), Some(ErrorKind::ProviderTransport));
    assert_eq!(class_error(ResponseClass::DecodeError), Some(ErrorKind::ProviderBodyInvalid));
}

#[test]
fn only_the_transport_error_is_fatal() {
    assert!(ErrorKind::ProviderTransport.is_fatal());
    for e in [
        ErrorKind::AddressUnresolvedV4,
        ErrorKind::AddressUnresolvedV6,
        ErrorKind::ProviderHttpFailure,
        ErrorKind::ProviderBodyInvalid,
        ErrorKind::ProviderLogicFailure,
        ErrorKind::NameNotFoundZone,
        ErrorKind::NameNotFoundRecord,
        ErrorKind::UnsupportedRecordType,
    ] {
        assert!(!e.is_fatal());
    }
}

#[test]
fn error_messages_name_the_failure() {
    assert_eq!(
        ErrorKind::AddressUnresolvedV4.message(),
        "An error occurred while trying to determine the IPv4 address"
    );
    assert_eq!(
        ErrorKind::ProviderHttpFailure.message(),
        "A HTTP response was unsuccessful (status code not between 200-299)"
    );
    assert_eq!(
        ErrorKind::UnsupportedRecordType.message(),
        "Encountered a record that was not of type \"A\" or \"AAAA\""
    );
}

#[test]
fn patch_payload_sets_only_the_address() {
    let content = IpAddress::V4(Ipv4Address::from_octets(203, 0, 113, 9));
    let p = patch_payload(content);
    assert_eq!(p.content, Some(content));
    assert!(p.comment.is_none());
    assert!(p.name.is_none());
    assert!(p.proxied.is_none());
    assert!(p.tags.is_none());
    assert!(p.ttl.is_none());
}

#[test]
fn provider_paths() {
    assert_eq!(zones_path(), "zones");
    assert_eq!(dns_records_path(&String::from("abc123")), "zones/abc123/dns_records");
    assert_eq!(
        dns_record_patch_path(&String::from("abc123"), &String::from("rec1")),
        "zones/abc123/dns_records/rec1"
    );
}
