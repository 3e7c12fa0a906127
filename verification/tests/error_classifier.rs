use anthropic_sdk::AnthropicError;

fn classify(status: u16) -> AnthropicError {
    AnthropicError::from_status(status, b"m".to_vec(), Some(b"req_1".to_vec()), Some(99))
}

#[test]
fn each_status_maps_to_its_variant() {
    assert!(matches!(classify(400), AnthropicError::BadRequest { .. }));
    assert!(matches!(classify(401), AnthropicError::Authentication { .. }));
    assert!(matches!(classify(403), AnthropicError::PermissionDenied { .. }));
    assert!(matches!(classify(404), AnthropicError::NotFound { .. }));
    assert!(matches!(classify(409), AnthropicError::Conflict { .. }));
    assert!(matches!(classify(413), AnthropicError::RequestTooLarge { .. }));
    assert!(matches!(classify(422), AnthropicError::UnprocessableEntity { .. }));
    assert!(matches!(classify(429), AnthropicError::RateLimited { .. }));
    assert!(matches!(classify(529), AnthropicError::Overloaded { .. }));
}

#[test]
fn other_5xx_is_internal_server_with_the_status() {
    match classify(503) {
        AnthropicError::InternalServer { status, .. } => assert_eq!(status, 503),
        other => panic!("expected an internal server error, got {:?}", other),
    }
    match classify(550) {
        AnthropicError::InternalServer { status, .. } => assert_eq!(status, 550),
        other => panic!("expected an internal server error, got {:?}", other),
    }
}

#[test]
fn unknown_status_is_invalid_response_with_status_and_body() {
    match AnthropicError::from_status(302, b"moved".to_vec(), None, None) {
        AnthropicError::InvalidResponse { status, message } => {
            assert_eq!(status, 302);
            assert_eq!(message, b"moved".to_vec());
        }
        other => panic!("expected an invalid response error, got {:?}", other),
    }
}

#[test]
fn request_id_is_carried_by_status_errors_only() {
    assert_eq!(classify(404).request_id(), Some(&b"req_1".to_vec()));
    assert_eq!(AnthropicError::Timeout.request_id(), None);
}

#[test]
fn retryable_errors_are_the_documented_ones() {
    assert!(classify(429).is_retryable());
    assert!(classify(500).is_retryable());
    assert!(classify(529).is_retryable());
    assert!(AnthropicError::Timeout.is_retryable());
    assert!(AnthropicError::Connection { message: b"reset".to_vec() }.is_retryable());
    assert!(!classify(400).is_retryable());
    assert!(!classify(404).is_retryable());
    assert!(!AnthropicError::MissingApiKey.is_retryable());
}

#[test]
fn retry_after_only_on_rate_limited() {
    assert_eq!(classify(429).retry_after_ms(), Some(99));
    assert_eq!(classify(529).retry_after_ms(), None);
}

#[test]
fn classify_response_takes_the_envelope_message() {
    let body = b"{\"type\":\"error\",\"error\":{\"type\":\"rate_limit_error\",\"message\":\"slow down\"}}"
        .to_vec();
    match anthropic_sdk::classify_response(429, body, Some(b"req_9".to_vec()), Some(250)) {
        AnthropicError::RateLimited { message, request_id, retry_after_ms } => {
            assert_eq!(message, b"slow down".to_vec());
            assert_eq!(request_id, Some(b"req_9".to_vec()));
            assert_eq!(retry_after_ms, Some(250));
        }
        other => panic!("expected rate limited, got {:?}", other),
    }
}

#[test]
fn classify_response_falls_back_to_the_raw_body() {
    match anthropic_sdk::classify_response(500, b"<html>oops</html>".to_vec(), None, None) {
        AnthropicError::InternalServer { message, status, .. } => {
            assert_eq!(message, b"<html>oops</html>".to_vec());
            assert_eq!(status, 500);
        }
        other => panic!("expected internal server, got {:?}", other),
    }
    // well-formed JSON that is not the envelope also falls back
    match anthropic_sdk::classify_response(400, b"{\"weird\":true}".to_vec(), None, None) {
        AnthropicError::BadRequest { message, .. } => {
            assert_eq!(message, b"{\"weird\":true}".to_vec());
        }
        other => panic!("expected bad request, got {:?}", other),
    }
}
