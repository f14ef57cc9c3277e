use slv_rust::event_queue::{parse_eventqueue_response, parse_i64};
use slv_rust::xml_tree::document_root;
use slv_rust::xmlrpc_response::{extract_value_text, login_response_fields, parse_complex_field};

fn reply(members: &str) -> String {
    format!(
        "<?xml version=\"1.0\"?><methodResponse><params><param><value><struct>{}</struct></value></param></params></methodResponse>",
        members
    )
}

fn member(name: &str, value: &str) -> String {
    format!("<member><name>{}</name><value>{}</value></member>", name, value)
}

#[test]
fn test_complex_field_parsing() {
    // Test home_info parsing
    let home_info_xml = r#"
        <struct>
            <member>
                <name>region_handle</name>
                <value><string>[r123456, r789012]</string></value>
            </member>
            <member>
                <name>position</name>
                <value><string>[r128.0, r128.0, r22.0]</string></value>
            </member>
            <member>
                <name>look_at</name>
                <value><string>[r1.0, r0.0, r0.0]</string></value>
            </member>
        </struct>
        "#;

    let struct_node = document_root(home_info_xml).unwrap();
    let result = parse_complex_field(&struct_node, "home_info");

    assert!(result.is_ok());
    let parsed = result.unwrap();
    assert!(parsed.contains("region_handle"));
    assert!(parsed.contains("position"));
    assert!(parsed.contains("look_at"));
}

#[test]
fn home_info_pairs_are_quoted_in_braces() {
    let root = document_root(&format!("<value>{}{}</value>", member("a", "<string>1</string>"), member("b", "<int>2</int>"))).unwrap();
    assert_eq!(parse_complex_field(&root, "home_info").unwrap(), "{\"a\":\"1\",\"b\":\"2\"}");
}

#[test]
fn list_fields_join_the_data_values_in_brackets() {
    let root = document_root("<value><data><value><string>x</string></value><value><string></string></value><value><int>3</int></value></data></value>").unwrap();
    assert_eq!(parse_complex_field(&root, "buddy_list").unwrap(), "[x,3]");
    // Under the usual nesting the data sits inside an array, which the list reading does not enter.
    let nested = document_root("<value><array><data><value><string>x</string></value></data></array></value>").unwrap();
    assert_eq!(parse_complex_field(&nested, "inventory_root").unwrap(), "[]");
    assert_eq!(parse_complex_field(&nested, "premium_packages").unwrap(), "x");
}

#[test]
fn value_texts_by_type() {
    let v = |s: &str| extract_value_text(&document_root(s).unwrap());
    assert_eq!(v("<value><string>hello</string></value>"), "hello");
    assert_eq!(v("<value><string/></value>"), "");
    assert_eq!(v("<value><boolean/></value>"), "0");
    assert_eq!(v("<value><int/></value>"), "0");
    assert_eq!(v("<value><double/></value>"), "0.0");
    assert_eq!(v("<value><double>2.5</double></value>"), "2.5");
    assert_eq!(v("<value>plain</value>"), "plain");
    assert_eq!(v("<value><array><data><value><string>a</string></value><value><string>b</string></value></data></array></value>"), "a,b");
    assert_eq!(
        v("<value><struct><member><name>k</name><value><int>7</int></value></member></struct></value>"),
        "{\"k\":\"7\"}"
    );
}

#[test]
fn login_reply_members_are_read() {
    let xml = reply(&format!(
        "{}{}{}{}",
        member("login", "<boolean>1</boolean>"),
        member("first_name", "<string>\"Test\"</string>"),
        member("circuit_code", "<int>12345</int>"),
        member("buddy_list", "<array><data><value><string>b1</string></value></data></array>")
    ));
    let fields = login_response_fields(&xml).unwrap();
    assert_eq!(
        fields,
        vec![
            ("login".to_string(), "1".to_string()),
            ("first_name".to_string(), "\"Test\"".to_string()),
            ("circuit_code".to_string(), "12345".to_string()),
            ("buddy_list".to_string(), "[]".to_string()),
        ]
    );
}

#[test]
fn login_reply_errors() {
    assert_eq!(login_response_fields("not xml <").unwrap_err(), "Failed to parse XML response");
    assert_eq!(login_response_fields("<other/>").unwrap_err(), "No methodResponse found");
    assert_eq!(
        login_response_fields("<methodResponse><fault/></methodResponse>").unwrap_err(),
        "Login fault response received"
    );
    assert_eq!(login_response_fields("<methodResponse/>").unwrap_err(), "No params found in response");
    assert_eq!(login_response_fields("<methodResponse><params/></methodResponse>").unwrap_err(), "No param found");
    assert_eq!(
        login_response_fields("<methodResponse><params><param/></params></methodResponse>").unwrap_err(),
        "No value found"
    );
    assert_eq!(
        login_response_fields("<methodResponse><params><param><value/></param></params></methodResponse>").unwrap_err(),
        "No struct found in response"
    );
    // A methodResponse below the root element is found too.
    let wrapped = format!("<wrap>{}</wrap>", reply(&member("x", "<string>y</string>")).replace("<?xml version=\"1.0\"?>", ""));
    assert_eq!(login_response_fields(&wrapped).unwrap(), vec![("x".to_string(), "y".to_string())]);
}

#[test]
fn event_queue_ack_and_events() {
    let xml = "<llsd><map><key>events</key><array><map><key>message</key><string>x</string><key>EnableSimulator</key><map/></map></array><key>id</key><integer>3</integer><key>ack</key><integer>42</integer></map></llsd>";
    let (ack, events) = parse_eventqueue_response(xml);
    assert_eq!(ack, Some(42));
    assert_eq!(events, vec!["EnableSimulator".to_string()]);
}

#[test]
fn event_queue_ack_needs_the_integer_right_after() {
    let pretty = "<llsd><map>\n<key>ack</key>\n<integer>5</integer>\n</map></llsd>";
    assert_eq!(parse_eventqueue_response(pretty), (None, vec![]));
    assert_eq!(parse_eventqueue_response("<<<"), (None, vec![]));
    assert_eq!(parse_eventqueue_response("<map><key>ack</key><integer>x</integer></map>"), (None, vec![]));
}

#[test]
fn i64_parsing_follows_str_parse() {
    for s in ["0", "-0", "+7", "9223372036854775807", "-9223372036854775808", "", "+", "-", "9223372036854775808", "-9223372036854775809", "1a", " 1", "00012"] {
        assert_eq!(parse_i64(s), s.parse::<i64>().ok(), "input {:?}", s);
    }
}

use slv_rust::event_queue::{EventQueuePoller, PollOutcome};

#[test]
fn event_queue_payload_carries_the_ack() {
    let mut p = EventQueuePoller::new();
    assert_eq!(
        p.request_payload(),
        "<?xml version=\"1.0\" ?><llsd><map><key>ack</key><integer>0</integer><key>done</key><boolean>false</boolean></map></llsd>"
    );
    p.ack = Some(-5);
    assert!(p.request_payload().contains("<integer>-5</integer>"));
    p.ack = None;
    assert_eq!(
        p.request_payload(),
        "<?xml version=\"1.0\" ?><llsd><map><key>done</key><boolean>false</boolean></map></llsd>"
    );
}

#[test]
fn event_queue_polls_back_off_on_errors() {
    let mut p = EventQueuePoller::new();
    let body = "<llsd><map><key>events</key><array><map><key>TeleportFinish</key></map></array><key>ack</key><integer>7</integer></map></llsd>";
    let d = p.after_poll(PollOutcome::Response { status: 200, body: Some(body.to_string()) });
    assert_eq!((d.delay_ms, d.events.clone()), (1000, vec!["TeleportFinish".to_string()]));
    assert_eq!(p.ack, Some(7));
    let d = p.after_poll(PollOutcome::Response { status: 502, body: Some(String::new()) });
    assert_eq!(d.delay_ms, 500);
    let delays: Vec<u64> = (0..6).map(|_| p.after_poll(PollOutcome::Response { status: 500, body: None }).delay_ms).collect();
    assert_eq!(delays, vec![2000, 4000, 8000, 16000, 30000, 30000]);
    assert_eq!(p.consecutive_errors, 6);
    let d = p.after_poll(PollOutcome::Response { status: 499, body: Some(String::new()) });
    assert_eq!(d.delay_ms, 30000);
    assert_eq!(p.ack, None);
    let mut q = EventQueuePoller::new();
    let delays: Vec<u64> = (0..3).map(|_| q.after_poll(PollOutcome::Failed).delay_ms).collect();
    assert_eq!(delays, vec![5000, 25000, 60000]);
}
