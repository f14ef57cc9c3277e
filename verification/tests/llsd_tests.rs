use std::collections::HashMap;
use slv_rust::error::NetworkError;
use slv_rust::llsd::{
    capabilities_from_events, capability_request_llsd, generate_capability_request_llsd, llsd_map_from_events,
    parse_llsd_xml, parse_seed_response, XmlEvent, OFFICIAL_VIEWER_CAPABILITIES,
};

fn as_map(pairs: Vec<(String, String)>) -> HashMap<String, String> {
    pairs.into_iter().collect()
}

#[test]
fn test_capability_request_generation() {
    let request = generate_capability_request_llsd();

    for &cap in OFFICIAL_VIEWER_CAPABILITIES.iter() {
        assert!(request.contains(&format!("<string>{}</string>", cap)));
    }

    assert!(request.starts_with("<?xml version=\"1.0\" ?><llsd><array>"));
    assert!(request.ends_with("</array></llsd>"));
}

#[test]
fn request_for_two_names() {
    assert_eq!(
        capability_request_llsd(&["A", "B"]),
        "<?xml version=\"1.0\" ?><llsd><array><string>A</string><string>B</string></array></llsd>"
    );
}

#[test]
fn test_capability_count() {
    assert_eq!(
        OFFICIAL_VIEWER_CAPABILITIES.len(),
        117,
        "Capability count should match official viewer (117 capabilities)"
    );
}

const SEED_RESPONSE: &str = "<?xml version=\"1.0\" ?><llsd><map>\n  <key>EventQueueGet</key><string> https://sim/eq </string>\n  <key>GetTexture</key><string>https://sim/tex</string>\n</map></llsd>";

#[test]
fn seed_response_is_read_as_name_to_url() {
    let caps = as_map(parse_seed_response(SEED_RESPONSE).unwrap());
    assert_eq!(caps.len(), 2);
    assert_eq!(caps["EventQueueGet"], "https://sim/eq");
    assert_eq!(caps["GetTexture"], "https://sim/tex");
}

#[test]
fn seed_response_errors() {
    match parse_seed_response("<llsd><map><key>A</key><string>x</wrong></map></llsd>") {
        Err(NetworkError::Transport { reason }) => assert!(reason.starts_with("Failed to parse seed capability XML: ")),
        other => panic!("unexpected {:?}", other),
    }
    assert!(parse_seed_response("").unwrap().is_empty());
}

#[test]
fn seed_reading_from_events() {
    let events = vec![
        XmlEvent::Start(b"map".to_vec()),
        XmlEvent::Start(b"key".to_vec()),
        XmlEvent::Text(Ok(" K ".to_string())),
        XmlEvent::End(b"key".to_vec()),
        XmlEvent::Start(b"string".to_vec()),
        XmlEvent::Text(Ok("V".to_string())),
        XmlEvent::End(b"string".to_vec()),
        XmlEvent::End(b"llsd".to_vec()),
        XmlEvent::Start(b"key".to_vec()),
    ];
    let caps = capabilities_from_events(&events).unwrap();
    assert_eq!(caps, vec![("K".to_string(), "V".to_string())]);
    let bad = vec![XmlEvent::Text(Err("bad entity".to_string()))];
    match capabilities_from_events(&bad) {
        Err(NetworkError::Transport { reason }) => assert_eq!(reason, "Failed to unescape XML text: bad entity"),
        other => panic!("unexpected {:?}", other),
    }
}

#[test]
fn login_time_llsd_reading() {
    let caps = as_map(parse_llsd_xml(SEED_RESPONSE).unwrap());
    assert_eq!(caps["GetTexture"], "https://sim/tex");
    // Outside a map, pairs are not kept.
    let outside = vec![
        XmlEvent::Start(b"key".to_vec()),
        XmlEvent::Text(Ok("K".to_string())),
        XmlEvent::Start(b"string".to_vec()),
        XmlEvent::Text(Ok("V".to_string())),
        XmlEvent::End(b"string".to_vec()),
    ];
    assert!(llsd_map_from_events(&outside).unwrap().is_empty());
    match llsd_map_from_events(&vec![XmlEvent::Error("boom".to_string())]) {
        Err(NetworkError::Transport { reason }) => assert_eq!(reason, "Failed to parse LLSD XML: boom"),
        other => panic!("unexpected {:?}", other),
    }
}
