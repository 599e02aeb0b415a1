use base64::Engine;
use telemetryforge::auth::{authorize, credentials_of, hash_password, hash_password_with_salt, verify_password};
use telemetryforge::remote::{
    parse_command, remote_index_page, server_action, should_reap, RemoteCommand, ServerAction, Status,
};

fn basic(user_and_password: &str) -> String {
    format!("Basic {}", base64::engine::general_purpose::STANDARD.encode(user_and_password))
}

#[test]
fn password_hashes_are_not_plaintext_and_verify() {
    let hash = hash_password("correct horse battery staple").unwrap();
    assert!(!hash.contains("correct horse battery staple"));
    assert!(verify_password("correct horse battery staple", &hash));
    assert!(!verify_password("wrong password", &hash));
}

#[test]
fn short_passwords_are_refused() {
    assert_eq!(hash_password("seven77"), Err("Password must contain at least 8 characters".to_string()));
    assert_eq!(
        hash_password_with_salt("short", "c29tZXNhbHRzb21lc2FsdA"),
        Err("Password must contain at least 8 characters".to_string())
    );
    assert!(hash_password("eight888").is_ok());
}

#[test]
fn hashing_with_a_given_salt_is_repeatable() {
    let a = hash_password_with_salt("correct horse battery staple", "c29tZXNhbHRzb21lc2FsdA").unwrap();
    let b = hash_password_with_salt("correct horse battery staple", "c29tZXNhbHRzb21lc2FsdA").unwrap();
    assert_eq!(a, b);
    assert!(a.starts_with("$argon2id$"));
    assert!(verify_password("correct horse battery staple", &a));
    assert!(hash_password_with_salt("correct horse battery staple", "!").is_err());
}

#[test]
fn garbage_hashes_never_verify() {
    assert!(!verify_password("anything at all", "not a phc string"));
}

#[test]
fn basic_credentials_are_taken_apart() {
    assert_eq!(credentials_of(&basic("admin:s3cret:x")), Some(("admin".to_string(), "s3cret:x".to_string())));
    assert_eq!(credentials_of(&basic("no colon")), None);
    assert_eq!(credentials_of("Bearer abc"), None);
    assert_eq!(credentials_of("basic YWRtaW46eA=="), None);
    assert_eq!(credentials_of("Basic !!!"), None);
    let invalid_utf8 = format!("Basic {}", base64::engine::general_purpose::STANDARD.encode([0xff, 0x3a]));
    assert_eq!(credentials_of(&invalid_utf8), None);
}

#[test]
fn requests_need_the_configured_user_and_password() {
    let hash = hash_password("correct horse battery staple").unwrap();
    assert!(authorize(false, "admin", &hash, None));
    assert!(!authorize(true, "admin", &hash, None));
    assert!(authorize(true, "admin", &hash, Some(&basic("admin:correct horse battery staple"))));
    assert!(!authorize(true, "admin", &hash, Some(&basic("root:correct horse battery staple"))));
    assert!(!authorize(true, "admin", &hash, Some(&basic("admin:wrong"))));
    assert!(!authorize(true, "admin", &hash, Some("Basic ###")));
}

#[test]
fn remote_commands_are_recognised() {
    assert_eq!(parse_command("get_config"), Ok(RemoteCommand::GetConfig));
    assert_eq!(parse_command("set_display_brightness"), Ok(RemoteCommand::SetDisplayBrightness));
    assert_eq!(parse_command("set_autostart"), Ok(RemoteCommand::SetAutostart));
    assert_eq!(
        parse_command("select_gif"),
        Err("This file operation is not available in Remote Deck yet. Use the Windows app.".to_string())
    );
    assert_eq!(parse_command("format_disk"), Err("Unsupported Remote Deck command: format_disk".to_string()));
    assert_eq!(parse_command("GET_CONFIG"), Err("Unsupported Remote Deck command: GET_CONFIG".to_string()));
}

#[test]
fn the_server_follows_the_setting() {
    assert_eq!(server_action(true, false), ServerAction::Start);
    assert_eq!(server_action(false, true), ServerAction::Stop);
    assert_eq!(server_action(true, true), ServerAction::Keep);
    assert_eq!(server_action(false, false), ServerAction::Keep);
    assert!(should_reap(true, true));
    assert!(!should_reap(true, false));
    assert!(!should_reap(false, true));
}

#[test]
fn status_reports_what_it_was_given() {
    let status = Status::new(true, "Frame sent".to_string());
    assert!(status.is_running());
    assert_eq!(status.message(), "Frame sent");
}

#[test]
fn the_remote_page_loads_the_bridge_first() {
    let page = "<head>\n  <script src=\"i18n.js\"></script>\n</head>";
    assert_eq!(
        remote_index_page(page),
        "<head>\n  <script src=\"remote-bridge.js\"></script>\n  <script src=\"i18n.js\"></script>\n</head>"
    );
    assert_eq!(remote_index_page("<p>plain</p>"), "<p>plain</p>");
}
