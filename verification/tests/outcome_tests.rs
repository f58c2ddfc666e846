use panda::outcome::{
    cancelled_result, classify_transport_error, normalize_response, transport_error_message,
    RequestResponse, TransportKind,
};

#[test]
fn cancellation_yields_the_sentinel_result() {
    let r = cancelled_result();
    assert_eq!(r.status, 0);
    assert_eq!(r.elapsed_time, 0);
    assert_eq!(r.text_response.unwrap(), "Request was cancelled.");
    assert_eq!(r.headers.unwrap().len(), 0);
    assert_eq!(r.content_type, "application/text");
}

#[test]
fn connect_errors_are_classified_first() {
    assert!(matches!(classify_transport_error(true, true, true), TransportKind::Connect));
    assert!(matches!(classify_transport_error(true, false, false), TransportKind::Connect));
}

#[test]
fn timeout_beats_status() {
    assert!(matches!(classify_transport_error(false, true, true), TransportKind::Timeout));
}

#[test]
fn status_errors_are_distinguished() {
    assert!(matches!(classify_transport_error(false, false, true), TransportKind::Status));
}

#[test]
fn anything_else_is_generic() {
    assert!(matches!(classify_transport_error(false, false, false), TransportKind::Other));
}

#[test]
fn transport_messages_carry_their_prefix() {
    assert_eq!(
        transport_error_message(&TransportKind::Connect, "refused"),
        "Connection error: refused"
    );
    assert_eq!(
        transport_error_message(&TransportKind::Timeout, "slow"),
        "Timeout error: slow"
    );
    assert_eq!(transport_error_message(&TransportKind::Status, "404"), "HTTP error: 404");
    assert_eq!(transport_error_message(&TransportKind::Other, "odd"), "Other error: odd");
}

#[test]
fn normalization_copies_the_wire_data() {
    let headers = vec![
        ("content-type".to_string(), b"application/json".to_vec()),
        ("x-raw".to_string(), vec![0x66, 0xff, 0x6f]),
    ];
    let r = normalize_response(
        200,
        headers,
        Some("application/json".to_string()),
        "{\"ok\":true}".to_string(),
        3,
    );
    assert_eq!(r.status, 200);
    assert_eq!(r.elapsed_time, 3);
    assert_eq!(r.content_type, "application/json");
    assert_eq!(r.text_response.unwrap(), "{\"ok\":true}");
    let hs = r.headers.unwrap();
    assert_eq!(hs.len(), 2);
    assert_eq!(hs[0].0, "content-type");
    assert_eq!(hs[0].1, "application/json");
    assert_eq!(hs[1].0, "x-raw");
    assert_eq!(hs[1].1, "f\u{fffd}o");
}

#[test]
fn missing_content_type_defaults_to_empty() {
    let r = normalize_response(204, Vec::new(), None, "".to_string(), 0);
    assert_eq!(r.content_type, "");
    assert_eq!(r.status, 204);
}

#[test]
fn reduced_response_shape_carries_its_fields() {
    let r = RequestResponse {
        status: 201,
        elapsed_time: 1500,
        text_response: Some("created".to_string()),
        headers: Some(vec![("location".to_string(), "/things/1".to_string())]),
    };
    assert_eq!(r.status, 201);
    assert_eq!(r.elapsed_time, 1500);
    assert_eq!(r.text_response.unwrap(), "created");
    assert_eq!(r.headers.unwrap()[0].1, "/things/1");
}
