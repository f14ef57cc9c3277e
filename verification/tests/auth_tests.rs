use slv_rust::auth::{available_grids, CredentialStore, Grid, LoginCredentials, combine_delete_results};
use slv_rust::xmlrpc::{build_login_request, LoginParameters};

#[test]
fn test_grid_name() {
    assert_eq!(Grid::SecondLife.name(), "Second Life");
    assert_eq!(Grid::SecondLifeBeta.name(), "Second Life Beta");
}

#[test]
fn test_grid_login_uri() {
    assert_eq!(
        Grid::SecondLife.login_uri(),
        "https://login.agni.lindenlab.com/cgi-bin/login.cgi"
    );
    assert_eq!(
        Grid::SecondLifeBeta.login_uri(),
        "https://login.aditi.lindenlab.com/cgi-bin/login.cgi"
    );
}

#[test]
fn test_grid_from_name() {
    assert_eq!(Grid::from_name("secondlife"), Some(Grid::SecondLife));
    assert_eq!(Grid::from_name("sl"), Some(Grid::SecondLife));
    assert_eq!(Grid::from_name("agni"), Some(Grid::SecondLife));
    assert_eq!(Grid::from_name("unknown"), None);
}

#[test]
fn test_custom_grid() {
    let grid = Grid::opensim("OSGrid".to_string(), "http://login.osgrid.org/".to_string());
    assert_eq!(grid.name(), "OSGrid");
    assert_eq!(grid.login_uri(), "http://login.osgrid.org/");
    assert!(!grid.is_official());
}

#[test]
fn test_credentials_validation() {
    let credentials = LoginCredentials::new("Test User".to_string(), "password".to_string());
    assert!(credentials.validate().is_ok());

    let invalid_credentials = LoginCredentials::new("".to_string(), "password".to_string());
    assert!(invalid_credentials.validate().is_err());
}

#[test]
fn test_name_splitting() {
    let credentials = LoginCredentials::new("John Doe".to_string(), "password".to_string());
    let (first, last) = credentials.split_name();
    assert_eq!(first, "John");
    assert_eq!(last, "Doe");

    let single_name = LoginCredentials::new("John".to_string(), "password".to_string());
    let (first, last) = single_name.split_name();
    assert_eq!(first, "John");
    assert_eq!(last, "Resident");
}

#[test]
fn grid_from_name_ignores_case_and_knows_beta() {
    assert_eq!(Grid::from_name("SecondLife"), Some(Grid::SecondLife));
    assert_eq!(Grid::from_name("ADITI"), Some(Grid::SecondLifeBeta));
    assert_eq!(Grid::from_name("sl-beta"), Some(Grid::SecondLifeBeta));
    assert_eq!(Grid::from_lowercase_name("SL"), None);
}

#[test]
fn official_grids_and_predefined_list() {
    assert!(Grid::SecondLife.is_official());
    assert!(Grid::SecondLifeBeta.is_official());
    assert!(!Grid::custom("X".to_string(), "u".to_string()).is_official());
    assert_eq!(available_grids(), vec![Grid::SecondLife, Grid::SecondLifeBeta]);
    assert_eq!(Grid::default(), Grid::SecondLife);
}

#[test]
fn validation_errors_name_the_problem() {
    let blank_password = LoginCredentials::new("Test".to_string(), "   ".to_string());
    assert_eq!(blank_password.validate(), Err("Password cannot be empty".to_string()));
    let bad_chars = LoginCredentials::new("Test_User".to_string(), "pw".to_string());
    assert_eq!(
        bad_chars.validate(),
        Err("Username can only contain letters, numbers, spaces, and periods".to_string())
    );
    let blank_user = LoginCredentials::new("  ".to_string(), "pw".to_string());
    assert_eq!(blank_user.validate(), Err("Username cannot be empty".to_string()));
    let dotted = LoginCredentials::new(" first.last ".to_string(), "pw".to_string());
    assert!(dotted.validate().is_ok());
}

#[test]
fn dotted_and_spaced_names_split_at_first_separator() {
    let dotted = LoginCredentials::new("first.last".to_string(), "pw".to_string());
    assert_eq!(dotted.split_name(), ("first".to_string(), "last".to_string()));
    let two_dots = LoginCredentials::new("a.b.c".to_string(), "pw".to_string());
    assert_eq!(two_dots.split_name(), ("a".to_string(), "b.c".to_string()));
    let both = LoginCredentials::new("a.b c".to_string(), "pw".to_string());
    assert_eq!(both.split_name(), ("a.b".to_string(), "c".to_string()));
    let padded = LoginCredentials::new("  John  ".to_string(), "pw".to_string());
    assert_eq!(padded.split_name(), ("John".to_string(), "Resident".to_string()));
}

#[test]
fn builders_replace_one_field() {
    let c = LoginCredentials::new("A B".to_string(), "pw".to_string())
        .with_grid(Grid::SecondLifeBeta)
        .with_start_location("home".to_string());
    assert_eq!(c.grid, Grid::SecondLifeBeta);
    assert_eq!(c.start_location, "home");
    assert_eq!(c.username, "A B");
}

#[test]
fn keychain_entry_names_and_lookup() {
    let store = CredentialStore::new();
    assert_eq!(store.service_name(), "slv-rust");
    assert_eq!(store.username_key("Second Life"), "second life_username");
    assert_eq!(store.password_key("Second Life"), "second life_password");
    let found = store
        .credentials_from_entries("agni", Some("u".to_string()), Some("p".to_string()))
        .unwrap();
    assert_eq!(found.grid, Grid::SecondLife);
    assert_eq!(found.username, "u");
    let unknown_grid = store
        .credentials_from_entries("OSGrid", Some("u".to_string()), Some("p".to_string()))
        .unwrap();
    assert_eq!(unknown_grid.grid, Grid::SecondLife);
    assert!(store.credentials_from_entries("agni", Some("u".to_string()), None).is_none());
    assert!(store.has_stored_credentials(&Some("u".to_string()), &Some("p".to_string())));
    assert!(!store.has_stored_credentials(&None, &Some("p".to_string())));
}

#[test]
fn deleting_reports_the_first_error() {
    let both: Result<(), i32> = combine_delete_results(Ok(()), Ok(()));
    assert_eq!(both, Ok(()));
    assert_eq!(combine_delete_results(Err(1), Err(2)), Err(1));
    assert_eq!(combine_delete_results(Ok(()), Err(2)), Err(2));
    assert_eq!(combine_delete_results(Err(1), Ok(())), Err(1));
}

#[test]
fn password_hash_is_md5_of_first_sixteen_characters() {
    // MD5("password") = 5f4dcc3b5aa765d61d8327deb882cf99
    assert_eq!(
        LoginParameters::hash_password("password"),
        "$1$5f4dcc3b5aa765d61d8327deb882cf99"
    );
    assert_eq!(
        LoginParameters::hash_password("0123456789abcdefXYZ"),
        LoginParameters::hash_password("0123456789abcdef")
    );
    // MD5("") = d41d8cd98f00b204e9800998ecf8427e
    assert_eq!(LoginParameters::hash_password(""), "$1$d41d8cd98f00b204e9800998ecf8427e");
}

#[test]
fn login_parameters_defaults() {
    let p = LoginParameters::new("John", "Doe", "pw", "linux", None, Some("h".to_string()));
    assert_eq!(p.first_name, "John");
    assert_eq!(p.platform, "lnx");
    assert_eq!(p.channel, "slv-rust");
    assert_eq!(p.version, "0.3.0");
    assert_eq!(p.mac_address, "00:00:00:00:00:00");
    assert_eq!(p.machine_id.len(), 32);
    assert_eq!(p.options, vec!["inventory-root", "inventory-skeleton", "buddy-list", "login-flags"]);
    assert_eq!(p.mfa_token, None);
    assert_eq!(p.mfa_hash, Some("h".to_string()));
    assert_eq!(LoginParameters::get_platform("windows"), "win");
    assert_eq!(LoginParameters::get_platform("macos"), "mac");
    assert_eq!(LoginParameters::get_platform("plan9"), "unk");
}

#[test]
fn login_request_document() {
    let mut p = LoginParameters::new("John", "Doe", "pw", "linux", Some("t".to_string()), None);
    p.options = vec!["buddy-list".to_string()];
    let xml = build_login_request(&p).unwrap();
    assert!(xml.starts_with("<?xml version=\"1.0\"?>\n<methodCall>\n  <methodName>login_to_simulator</methodName>\n"));
    assert!(xml.contains("          <member>\n            <name>first</name>\n            <value><string>John</string></value>\n          </member>\n"));
    assert!(xml.contains("<name>agree_to_tos</name>\n            <value><string>true</string></value>"));
    assert!(xml.contains("<name>token</name>\n            <value><string>t</string></value>"));
    assert!(!xml.contains("mfa_hash"));
    assert!(xml.contains("                  <value><string>buddy-list</string></value>\n"));
    assert!(xml.ends_with("  </params>\n</methodCall>\n"));
}
