use school_election::auth::{bearer_token, login, TOKEN_LIFETIME_SECS};
use school_election::models::{Login, LoginToken, School};

fn schools() -> Vec<School> {
    vec![
        School { id: 1, name: "A".to_string(), email: "a@x".to_string(), password: "pa".to_string() },
        School { id: 2, name: "B".to_string(), email: "b@x".to_string(), password: "pb".to_string() },
        School { id: 3, name: "B2".to_string(), email: "b@x".to_string(), password: "pc".to_string() },
    ]
}

fn creds(email: &str, password: &str) -> Login {
    Login { email: email.to_string(), password: password.to_string() }
}

#[test]
fn right_password_gets_claims_valid_an_hour() {
    let r = login(&schools(), &creds("b@x", "pb"), 1_000_000);
    assert!(r.success);
    assert_eq!(r.message, "Login success");
    assert_eq!(r.data, Some(LoginToken { school_id: 2, exp: 1_003_600 }));
    assert_eq!(TOKEN_LIFETIME_SECS, 3600);
}

#[test]
fn only_the_first_school_with_the_email_is_tried() {
    let r = login(&schools(), &creds("b@x", "pc"), 10);
    assert!(!r.success);
    assert_eq!(r.message, "Login failed");
    assert_eq!(r.data, None);
}

#[test]
fn unknown_email_fails_the_lookup() {
    let r = login(&schools(), &creds("z@x", "pa"), 10);
    assert!(!r.success);
    assert_eq!(r.message, "Database operation failed.");
    assert_eq!(r.data, None);
}

#[test]
fn signed_up_school_can_log_in() {
    let mut table = schools();
    table.push(School {
        id: 4,
        name: "D".to_string(),
        email: "d@x".to_string(),
        password: "pd".to_string(),
    });
    let r = login(&table, &creds("d@x", "pd"), 0);
    assert_eq!(r.data, Some(LoginToken { school_id: 4, exp: 3600 }));
}

#[test]
fn header_yields_the_bearer_token() {
    assert_eq!(bearer_token("Bearer abc.def.ghi"), Some("abc.def.ghi".to_string()));
    assert_eq!(bearer_token("Bearer abc extra"), Some("abc".to_string()));
    assert_eq!(bearer_token("Bearer "), Some("".to_string()));
    assert_eq!(bearer_token("Bearer  abc"), Some("".to_string()));
    assert_eq!(bearer_token(" abc"), Some("abc".to_string()));
    assert_eq!(bearer_token("Bearerabc"), None);
    assert_eq!(bearer_token(""), None);
}

#[test]
fn header_round_trip() {
    for token in ["t", "eyJhbGciOiJIUzI1NiJ9.e30.sig", "ünï"] {
        let header = format!("Bearer {}", token);
        assert_eq!(bearer_token(&header), Some(token.to_string()));
    }
}
