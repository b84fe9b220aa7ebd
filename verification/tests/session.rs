use stela::admin::{admin_password_hash, sign_in_user, ConfigError, Credentials};
use stela::cookie::{clear_session_cookie, session_token_from_cookie, set_session_cookie};
use stela::reply::{refused_reply, session_store_failed_reply, signed_in_reply, signed_out_reply};
use stela::token::{hex_string, new_session_token, token_from_draw};

#[test]
fn the_session_cookie_is_found_among_others() {
    assert_eq!(
        session_token_from_cookie("theme=dark; session_token=abc123; lang=fr").as_deref(),
        Some("abc123")
    );
    assert_eq!(session_token_from_cookie("session_token=xyz").as_deref(), Some("xyz"));
    assert_eq!(session_token_from_cookie("  session_token=xyz  ").as_deref(), Some("xyz"));
    assert_eq!(session_token_from_cookie("\tsession_token=q;").as_deref(), Some("q"));
}

#[test]
fn no_or_empty_session_cookie_is_no_token() {
    assert_eq!(session_token_from_cookie(""), None);
    assert_eq!(session_token_from_cookie("theme=dark"), None);
    assert_eq!(session_token_from_cookie("session_token="), None);
    // The first part named session_token decides, even when it is empty.
    assert_eq!(session_token_from_cookie("session_token=; session_token=late"), None);
    assert_eq!(session_token_from_cookie("xsession_token=abc"), None);
    assert_eq!(session_token_from_cookie("session_token = abc"), None);
}

#[test]
fn the_first_session_cookie_wins() {
    assert_eq!(
        session_token_from_cookie("session_token=one;session_token=two").as_deref(),
        Some("one")
    );
}

#[test]
fn set_cookie_values_match_the_session_lifetime() {
    assert_eq!(
        set_session_cookie("tok"),
        "session_token=tok; Path=/; HttpOnly; SameSite=Strict; Secure; Max-Age=43200"
    );
    assert_eq!(
        clear_session_cookie(),
        "session_token=; Path=/; HttpOnly; SameSite=Strict; Secure; Max-Age=0"
    );
}

#[test]
fn a_cookie_that_was_set_is_read_back() {
    let token = new_session_token().expect("the OS random source must be available");
    let cookie = set_session_cookie(&token);
    // What a browser sends back is the name=value pair before the attributes.
    let pair = cookie.split(';').next().unwrap();
    assert_eq!(session_token_from_cookie(pair).as_deref(), Some(token.as_str()));
}

#[test]
fn tokens_are_64_lowercase_hex_digits_and_random() {
    let a = new_session_token().expect("the OS random source must be available");
    let b = new_session_token().expect("the OS random source must be available");
    assert_eq!(a.len(), 64);
    assert!(a.chars().all(|c| c.is_ascii_digit() || ('a'..='f').contains(&c)));
    assert_ne!(a, "0".repeat(64));
    assert_ne!(a, b);
}

#[test]
fn hex_matches_format() {
    assert_eq!(hex_string(&[0x00, 0x0f, 0xa5, 0xff]), "000fa5ff");
    assert_eq!(hex_string(&[]), "");
    let bytes: Vec<u8> = (0..=255).collect();
    let expected: String = bytes.iter().map(|b| format!("{b:02x}")).collect();
    assert_eq!(hex_string(&bytes), expected);
}

#[test]
fn the_admin_can_sign_in_and_others_cannot() {
    let hash = admin_password_hash(Some("s3cret".to_string()), "/secure-a7f3k29")
        .ok()
        .expect("hashing must succeed");
    assert_ne!(hash, "s3cret");
    let creds = |u: &str, p: &str| {
        Some(Credentials {
            username: u.to_string(),
            password: p.to_string(),
        })
    };
    assert_eq!(sign_in_user(creds("admin", "s3cret"), "admin", &hash).as_deref(), Some("admin"));
    assert_eq!(sign_in_user(creds("admin", "wrong"), "admin", &hash), None);
    assert_eq!(sign_in_user(creds("root", "s3cret"), "admin", &hash), None);
    assert_eq!(sign_in_user(None, "admin", &hash), None);
    assert_eq!(sign_in_user(creds("admin", "s3cret"), "admin", "not a hash"), None);
}

#[test]
fn the_server_refuses_to_start_without_a_lock() {
    assert!(matches!(
        admin_password_hash(None, "/secure"),
        Err(ConfigError::MissingPassword)
    ));
    assert!(matches!(
        admin_password_hash(Some("pw".to_string()), "secure"),
        Err(ConfigError::RouteWithoutLeadingSlash)
    ));
    assert!(matches!(
        admin_password_hash(Some("pw".to_string()), ""),
        Err(ConfigError::RouteWithoutLeadingSlash)
    ));
    assert!(matches!(admin_password_hash(None, "secure"), Err(ConfigError::MissingPassword)));
}

#[test]
fn refusals_look_alike_and_successes_set_the_cookie() {
    let refused = refused_reply();
    assert_eq!(refused.status, 401);
    assert_eq!(refused.content_type, "application/json");
    assert_eq!(refused.body, r#"{"error":"invalid credentials"}"#);
    assert!(refused.set_cookie.is_none());

    let failed = session_store_failed_reply();
    assert_eq!(failed.status, 500);
    assert_eq!(failed.body, r#"{"error":"session store failed"}"#);

    let ok = signed_in_reply("tok");
    assert_eq!(ok.status, 200);
    assert_eq!(ok.body, r#"{"status":"ok"}"#);
    assert_eq!(ok.set_cookie.as_deref(), Some(set_session_cookie("tok").as_str()));

    let out = signed_out_reply();
    assert_eq!(out.status, 200);
    assert_eq!(out.set_cookie.as_deref(), Some(clear_session_cookie().as_str()));
}

#[test]
fn a_failed_draw_yields_no_token() {
    assert_eq!(token_from_draw(false, &[0u8; 32]), None);
    assert_eq!(token_from_draw(true, &[0xab, 0x01]).as_deref(), Some("ab01"));
    assert_eq!(token_from_draw(true, &[0u8; 32]).as_deref(), Some("0".repeat(64).as_str()));
}
