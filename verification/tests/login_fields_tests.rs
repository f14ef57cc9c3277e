use slv_rust::login_fields::{
    apply_login_field, parse_bool, parse_i32, parse_login_response, parse_unsigned, split_commas_exec, FieldUse,
    LoginFields,
};

#[test]
fn login_flags_and_lists_parse() {
    assert_eq!(parse_bool("true"), Some(true));
    assert_eq!(parse_bool("false"), Some(false));
    assert_eq!(parse_bool("1"), Some(true));
    assert_eq!(parse_bool("0"), Some(false));
    assert_eq!(parse_bool("yes"), None);
    assert_eq!(split_commas_exec("a,b,c"), vec!["a".to_string(), "b".to_string(), "c".to_string()]);
    assert_eq!(split_commas_exec(""), vec!["".to_string()]);
    assert_eq!(split_commas_exec("a,,b,"), "a,,b,".split(',').map(String::from).collect::<Vec<_>>());
}

#[test]
fn numbers_parse_as_std_does() {
    for s in ["", "+", "-", "0", "+7", "-7", "65535", "65536", "4294967295", "4294967296", "12a", "007"] {
        assert_eq!(parse_unsigned(s, 0xffff), s.parse::<u16>().ok().map(|v| v as u64), "{:?}", s);
        assert_eq!(parse_unsigned(s, 0xffff_ffff), s.parse::<u32>().ok().map(|v| v as u64), "{:?}", s);
        assert_eq!(parse_unsigned(s, u64::MAX), s.parse::<u64>().ok(), "{:?}", s);
    }
    for s in ["", "-2147483648", "2147483647", "2147483648", "-2147483649", "+12", "x"] {
        assert_eq!(parse_i32(s), s.parse::<i32>().ok(), "{:?}", s);
    }
}

#[test]
fn reply_fields_are_read() {
    let mut f = LoginFields::new();
    assert_eq!(apply_login_field(&mut f, "login", "true"), Ok(FieldUse::Applied));
    assert!(f.success);
    assert_eq!(
        apply_login_field(&mut f, "agent_id", "550e8400-e29b-41d4-a716-446655440000"),
        Ok(FieldUse::Applied)
    );
    assert_eq!(f.agent_id[0], 0x55);
    assert_eq!(f.agent_id[15], 0x00);
    assert_eq!(apply_login_field(&mut f, "look_at", "[r1.0, r0.0, r0.0]"), Ok(FieldUse::Position));
    assert_eq!(apply_login_field(&mut f, "first_name", "\"Test\""), Ok(FieldUse::Applied));
    assert_eq!(f.first_name, "Test");
    assert_eq!(
        apply_login_field(&mut f, "udp_blacklist", "server1,server2,server3"),
        Ok(FieldUse::Applied)
    );
    assert_eq!(
        f.udp_blacklist,
        Some(vec!["server1".to_string(), "server2".to_string(), "server3".to_string()])
    );
}

#[test]
fn refused_and_passed_over_fields() {
    let mut f = LoginFields::new();
    assert_eq!(apply_login_field(&mut f, "sim_port", "9000"), Ok(FieldUse::Applied));
    assert_eq!(f.simulator_port, 9000);
    assert_eq!(apply_login_field(&mut f, "sim_port", "70000"), Err("Invalid sim_port".to_string()));
    assert_eq!(f.simulator_port, 9000);
    assert_eq!(apply_login_field(&mut f, "login", "maybe"), Err("Invalid login value".to_string()));
    assert_eq!(apply_login_field(&mut f, "agent_id", "nope"), Err("Invalid agent_id".to_string()));
    assert_eq!(apply_login_field(&mut f, "region_x", "-1000"), Ok(FieldUse::Applied));
    assert_eq!(f.region_x, Some(-1000));
    assert_eq!(apply_login_field(&mut f, "seconds_since_epoch", "1700000000"), Ok(FieldUse::Applied));
    assert_eq!(f.seconds_since_epoch, Some(1700000000));
    assert_eq!(apply_login_field(&mut f, "reason", "Invalid credentials"), Ok(FieldUse::Applied));
    assert_eq!(f.reason, Some("Invalid credentials".to_string()));
    assert_eq!(apply_login_field(&mut f, "buddy_list", "x"), Ok(FieldUse::Ignored));
    assert_eq!(apply_login_field(&mut f, "whatever", "x"), Ok(FieldUse::Ignored));
}

#[test]
fn full_name_and_success() {
    let mut response = LoginFields::new();
    response.success = true;
    response.first_name = "Test".to_string();
    response.last_name = "User".to_string();
    assert!(response.is_successful());
    assert_eq!(response.full_name(), "Test User");
    assert_eq!(response.error_message(), None);
}

#[test]
fn error_reply_gives_reason_first() {
    let xml_error = r#"<?xml version="1.0"?>
        <methodResponse>
            <params>
                <param>
                    <value>
                        <struct>
                            <member>
                                <name>login</name>
                                <value><boolean>0</boolean></value>
                            </member>
                            <member>
                                <name>reason</name>
                                <value><string>Invalid credentials</string></value>
                            </member>
                            <member>
                                <name>message</name>
                                <value><string>Login failed</string></value>
                            </member>
                        </struct>
                    </value>
                </param>
            </params>
        </methodResponse>
        "#;

    let result = parse_login_response(xml_error);

    assert!(result.is_ok());
    let response = result.unwrap();
    assert!(!response.success);
    assert_eq!(response.reason, Some("Invalid credentials".to_string()));
    assert_eq!(response.message, Some("Login failed".to_string()));
    assert_eq!(response.error_message(), Some("Invalid credentials"));
}
