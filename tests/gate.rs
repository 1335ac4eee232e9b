use mentor_realtime::codec::{issue_token_at, TokenError};
use mentor_realtime::gate::{authenticate, authenticate_at, strip_bearer, AuthMiddleware, GateError};

const SECRET: &[u8] = b"gate-secret";

#[test]
fn missing_header_is_refused() {
    assert_eq!(authenticate_at(None, SECRET, 0).unwrap_err(), GateError::MissingCredential);
    assert_eq!(authenticate(None, SECRET).unwrap_err(), GateError::MissingCredential);
    assert_eq!(GateError::MissingCredential.reason(), "Missing auth header");
}

#[test]
fn basic_scheme_is_malformed() {
    let e = authenticate_at(Some("Basic dXNlcjpwYXNz"), SECRET, 0).unwrap_err();
    assert_eq!(e, GateError::MalformedCredential);
    assert_eq!(e.reason(), "Malformed auth header");
    assert_eq!(authenticate_at(Some("bearer abc"), SECRET, 0).unwrap_err(), GateError::MalformedCredential);
    assert_eq!(authenticate_at(Some("Bearer"), SECRET, 0).unwrap_err(), GateError::MalformedCredential);
}

#[test]
fn bearer_with_tampered_token_is_unauthorized() {
    let token = issue_token_at("u1", "alice", "Member", 5_000, SECRET).unwrap();
    let mut tampered = token.clone();
    let last = tampered.pop().unwrap();
    tampered.push(if last == 'Q' { 'R' } else { 'Q' });
    let header = format!("Bearer {}", tampered);
    let e = authenticate_at(Some(&header), SECRET, 1_000).unwrap_err();
    assert_eq!(e, GateError::Unauthorized(TokenError::InvalidSignature));
    assert_eq!(e.reason(), "Invalid token");
}

#[test]
fn bearer_with_valid_token_passes() {
    let token = issue_token_at("u1", "alice", "Member", 5_000, SECRET).unwrap();
    let header = format!("Bearer {}", token);
    let claims = authenticate_at(Some(&header), SECRET, 1_000).unwrap();
    assert_eq!(claims.id, "u1");
    assert_eq!(claims.role, "Member");
    assert_eq!(authenticate_at(Some(&header), SECRET, 9_000).unwrap_err(), GateError::Unauthorized(TokenError::Expired));
}

#[test]
fn strip_bearer_takes_the_rest() {
    assert_eq!(strip_bearer("Bearer abc.def"), Some("abc.def"));
    assert_eq!(strip_bearer("Bearer "), Some(""));
    assert_eq!(strip_bearer("Bearer"), None);
    assert_eq!(strip_bearer("Token abc"), None);
}

#[test]
fn middleware_uses_its_secret() {
    let gate = AuthMiddleware::new(SECRET.to_vec());
    let service = gate.new_transform(7u32);
    assert_eq!(*service.service, 7);
    assert_eq!(service.authorize(None).unwrap_err(), GateError::MissingCredential);
    let token = issue_token_at("u1", "alice", "Member", u64::MAX, SECRET).unwrap();
    let header = format!("Bearer {}", token);
    assert_eq!(service.authorize(Some(&header)).unwrap().username, "alice");
    let other = AuthMiddleware::new(b"other".to_vec()).new_transform(());
    assert_eq!(other.authorize(Some(&header)).unwrap_err(), GateError::Unauthorized(TokenError::InvalidSignature));
}
