use dbmonitor::device_client::{cached_token_usable, classify_post_status, PostAction};
use dbmonitor::hub::{observer_continues, ObserverInbound};
use dbmonitor::token::{generate_token, parse_bearer, verify_token, Claims, TokenError};

const SECRET: &[u8] = b"device-token-secret";

#[test]
fn token_round_trips_to_the_same_device() {
    let token = generate_token(42, SECRET).unwrap();
    let claims = verify_token(&token, SECRET).unwrap();
    assert_eq!(claims, Claims { device_id: 42 });
}

#[test]
fn token_round_trips_for_negative_and_extreme_ids() {
    for id in [0, -1, i32::MIN, i32::MAX] {
        let token = generate_token(id, SECRET).unwrap();
        assert_eq!(verify_token(&token, SECRET), Ok(Claims { device_id: id }));
    }
}

#[test]
fn tokens_differ_per_device() {
    let a = generate_token(1, SECRET).unwrap();
    let b = generate_token(2, SECRET).unwrap();
    assert_ne!(a, b);
}

#[test]
fn garbage_token_is_rejected() {
    assert_eq!(
        verify_token("not.a.token", SECRET),
        Err(TokenError::InvalidToken)
    );
    assert_eq!(verify_token("", SECRET), Err(TokenError::InvalidToken));
}

#[test]
fn token_signed_under_another_secret_is_rejected() {
    let token = generate_token(42, b"first-secret").unwrap();
    assert_eq!(
        verify_token(&token, b"second-secret"),
        Err(TokenError::InvalidToken)
    );
}

#[test]
fn bearer_header_parses_to_its_token() {
    assert_eq!(parse_bearer(b"Bearer abc.def.ghi"), Some(&b"abc.def.ghi"[..]));
    assert_eq!(parse_bearer(b"Bearer x"), Some(&b"x"[..]));
}

#[test]
fn bearer_header_without_a_token_is_rejected() {
    assert_eq!(parse_bearer(b"Bearer "), None);
    assert_eq!(parse_bearer(b"Bearer"), None);
    assert_eq!(parse_bearer(b"Basic abc"), None);
    assert_eq!(parse_bearer(b""), None);
    assert_eq!(parse_bearer(b"bearer abc"), None);
}

#[test]
fn observer_pump_stops_only_on_close() {
    assert!(observer_continues(ObserverInbound::Text));
    assert!(observer_continues(ObserverInbound::Other));
    assert!(!observer_continues(ObserverInbound::Close));
}

#[test]
fn post_status_decides_the_token_action() {
    assert_eq!(classify_post_status(200), PostAction::KeepToken);
    assert_eq!(classify_post_status(299), PostAction::KeepToken);
    assert_eq!(classify_post_status(401), PostAction::RefreshToken);
    assert_eq!(classify_post_status(500), PostAction::ReportFailure);
    assert_eq!(classify_post_status(199), PostAction::ReportFailure);
}

#[test]
fn cached_token_must_hold_more_than_whitespace() {
    assert!(cached_token_usable(b" abc \n"));
    assert!(!cached_token_usable(b" \t\r\n "));
    assert!(!cached_token_usable(b""));
}
