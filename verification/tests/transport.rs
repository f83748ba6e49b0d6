use doh_gateway::transport::{
    doh_request, response_bytes, HttpOutcome, TransportError, CONTENT_TYPE,
};

#[test]
fn the_content_type_is_that_of_a_dns_message() {
    assert_eq!(CONTENT_TYPE, "application/dns-message");
}

#[test]
fn a_request_carries_the_query_unchanged() {
    let query = vec![0u8, 1, 2, 3, 255, 254];
    let request = doh_request("https://dns.example/dns-query", &query);
    assert_eq!(request.url, "https://dns.example/dns-query");
    assert_eq!(request.content_type, "application/dns-message");
    assert_eq!(request.body, query);
}

#[test]
fn a_request_may_carry_an_empty_body() {
    let request = doh_request("https://dns.example/dns-query", &[]);
    assert!(request.body.is_empty());
}

#[test]
fn a_successful_response_yields_its_body() {
    let body = vec![9u8, 8, 7];
    let outcome = HttpOutcome::Complete { status: 200, body: body.clone() };
    assert_eq!(response_bytes(outcome), Ok(body));
}

#[test]
fn every_status_from_200_to_299_is_a_success() {
    for status in [200u16, 201, 204, 250, 299] {
        let outcome = HttpOutcome::Complete { status, body: vec![1] };
        assert_eq!(response_bytes(outcome), Ok(vec![1]));
    }
}

#[test]
fn a_status_outside_200_to_299_is_an_error() {
    for status in [0u16, 100, 199, 300, 301, 404, 500, 503, 65535] {
        let outcome = HttpOutcome::Complete { status, body: vec![1, 2] };
        assert_eq!(response_bytes(outcome), Err(TransportError::Status(status)));
    }
}

#[test]
fn no_response_is_a_network_error() {
    assert_eq!(response_bytes(HttpOutcome::Unreachable), Err(TransportError::Network));
}

#[test]
fn an_unreadable_body_of_a_success_is_a_body_error() {
    let outcome = HttpOutcome::BodyUnreadable { status: 200 };
    assert_eq!(response_bytes(outcome), Err(TransportError::BodyRead));
}

#[test]
fn the_status_is_judged_before_the_body() {
    let outcome = HttpOutcome::BodyUnreadable { status: 503 };
    assert_eq!(response_bytes(outcome), Err(TransportError::Status(503)));
}

#[test]
fn an_empty_body_is_still_a_body() {
    let outcome = HttpOutcome::Complete { status: 200, body: vec![] };
    assert_eq!(response_bytes(outcome), Ok(vec![]));
}
