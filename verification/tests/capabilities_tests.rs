use slv_rust::capabilities::{capability_not_found, judge_capability_response, texture_url, Capability, CapabilityError, CapabilityMethod};
use slv_rust::error::NetworkError;

#[test]
fn method_names() {
    assert_eq!(CapabilityMethod::Get.as_str(), "GET");
    assert_eq!(CapabilityMethod::Post.as_str(), "POST");
    assert_eq!(CapabilityMethod::Put.as_str(), "PUT");
    assert_eq!(CapabilityMethod::Delete.as_str(), "DELETE");
    assert!(CapabilityMethod::Post.sends_body());
    assert!(!CapabilityMethod::Get.sends_body());
}

#[test]
fn error_texts() {
    assert_eq!(capability_not_found("GetMesh2").message(), "Capability not found: GetMesh2");
    assert_eq!(CapabilityError::HttpStatusError(404, "gone".to_string()).message(), "HTTP status error: 404 - gone");
    assert_eq!(CapabilityError::ParseError("x".to_string()).message(), "Parse error: x");
    match CapabilityError::HttpError("boom".to_string()).into_network_error() {
        NetworkError::Other { reason } => assert_eq!(reason, "HTTP error: boom"),
        other => panic!("unexpected {:?}", other),
    }
}

#[test]
fn response_judgement() {
    assert_eq!(judge_capability_response(200, String::new()).unwrap(), None);
    assert_eq!(judge_capability_response(204, "{}".to_string()).unwrap(), Some("{}".to_string()));
    match judge_capability_response(500, "oops".to_string()) {
        Err(CapabilityError::HttpStatusError(500, body)) => assert_eq!(body, "oops"),
        other => panic!("unexpected {:?}", other),
    }
    let bad = "not json";
    let expected = serde_json::from_str::<serde_json::Value>(bad).unwrap_err().to_string();
    match judge_capability_response(200, bad.to_string()) {
        Err(CapabilityError::ParseError(m)) => assert_eq!(m, expected),
        other => panic!("unexpected {:?}", other),
    }
}

#[test]
fn texture_urls_and_grants() {
    let id = [0x55, 0x0e, 0x84, 0x00, 0xe2, 0x9b, 0x41, 0xd4, 0xa7, 0x16, 0x44, 0x66, 0x55, 0x44, 0x00, 0x00];
    assert_eq!(texture_url("https://sim/cap", &id), "https://sim/cap/550e8400-e29b-41d4-a716-446655440000");
    let c = Capability::granted("GetTexture".to_string(), "https://sim/cap".to_string());
    assert!(c.expires.is_none() && c.metadata.is_empty());
}
