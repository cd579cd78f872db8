use mplus_tracker::auth::{AuthDecision, BearerAuthLayer, Rejection};

const TOKEN: &str = "0123456789abcdef0123456789abcdef";

fn decide(path: &str, authorization: Option<&[u8]>) -> AuthDecision {
    BearerAuthLayer::new(TOKEN.to_string()).layer(()).decide(path, authorization)
}

fn rejected() -> AuthDecision {
    AuthDecision::Reject(Rejection { status: 401, body: "Unauthorized" })
}

#[test]
fn layer_keeps_the_token_and_the_service() {
    let middleware = BearerAuthLayer::new("secret".to_string()).layer(7);
    assert_eq!(middleware.inner, 7);
    assert_eq!(middleware.token, "secret");
}

#[test]
fn health_needs_no_token() {
    assert_eq!(decide("/health", None), AuthDecision::Forward);
    assert_eq!(decide("/health", Some(b"Bearer wrong")), AuthDecision::Forward);
    assert_eq!(decide("/health/", None), rejected());
    assert_eq!(decide("/HEALTH", None), rejected());
}

#[test]
fn right_token_goes_through() {
    let value = format!("Bearer {}", TOKEN);
    assert_eq!(decide("/players", Some(value.as_bytes())), AuthDecision::Forward);
}

#[test]
fn anything_else_is_turned_away() {
    assert_eq!(decide("/players", None), rejected());
    assert_eq!(decide("/players", Some(b"")), rejected());
    assert_eq!(decide("/players", Some(TOKEN.as_bytes())), rejected());
    assert_eq!(decide("/players", Some(format!("bearer {}", TOKEN).as_bytes())), rejected());
    assert_eq!(decide("/players", Some(format!("Bearer  {}", TOKEN).as_bytes())), rejected());
    assert_eq!(decide("/players", Some(format!("Bearer {}x", TOKEN).as_bytes())), rejected());
    assert_eq!(decide("/players", Some(&[0xff, 0xfe])), rejected());
}

#[test]
fn token_with_other_letters_never_matches() {
    let middleware = BearerAuthLayer::new("tökén".to_string()).layer(());
    assert_eq!(middleware.decide("/players", Some("Bearer tökén".as_bytes())), rejected());
}
