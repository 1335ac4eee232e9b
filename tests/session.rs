use futures_channel::mpsc::unbounded;
use mentor_realtime::codec::{generate_jwt, issue_token_at, TokenError};
use mentor_realtime::dispatch::{send_to_user, snapshot_of, Outbox};
use mentor_realtime::gate::GateError;
use mentor_realtime::registry::ConnectionRegistry;
use mentor_realtime::session::{ws_connect, ws_connect_at, SessionState, UpgradeError};

const SECRET: &[u8] = b"ws-secret";

#[test]
fn upgrade_without_credential_is_refused() {
    let e = ws_connect_at(None, SECRET, 0).err().unwrap();
    assert_eq!(e, UpgradeError::Unauthorized(GateError::MissingCredential));
    assert_eq!(e.reason(), "Missing auth header");
}

#[test]
fn upgrade_with_bad_token_is_refused() {
    let e = ws_connect(Some("Bearer nope"), SECRET).err().unwrap();
    assert_eq!(e, UpgradeError::Unauthorized(GateError::Unauthorized(TokenError::Malformed)));
    assert_eq!(e.reason(), "Invalid token");
}

#[test]
fn upgrade_takes_subject_and_role_from_claims() {
    let token = issue_token_at("u1", "alice", "Sponsor", 5_000, SECRET).unwrap();
    let header = format!("Bearer {}", token);
    let s = ws_connect_at(Some(&header), SECRET, 1_000).ok().unwrap();
    assert_eq!(s.user_id, "u1");
    assert_eq!(s.role, "Sponsor");
    assert_eq!(s.state, SessionState::Authenticated);
}

#[test]
fn session_echoes_text() {
    let token = issue_token_at("u1", "alice", "Member", 5_000, SECRET).unwrap();
    let header = format!("Bearer {}", token);
    let s = ws_connect_at(Some(&header), SECRET, 1_000).ok().unwrap();
    assert_eq!(s.handle("hi there"), "Echo: hi there");
    assert_eq!(s.handle(""), "Echo: ");
}

#[test]
fn end_to_end_ping() {
    let mut reg: ConnectionRegistry<Outbox> = ConnectionRegistry::new();
    let token = generate_jwt("u1", "name", "Member", SECRET).unwrap();
    let header = format!("Bearer {}", token);
    let mut session = ws_connect(Some(&header), SECRET).ok().unwrap();
    let (tx, mut rx) = unbounded();
    session.started(&mut reg, tx);
    assert_eq!(reg.len(), 1);
    assert_eq!(reg.lookup("u1").unwrap().role, "Member");
    assert!(matches!(session.state, SessionState::Active(_)));

    let mut m = serde_json::Map::new();
    m.insert(String::from("type"), serde_json::Value::from("ping"));
    let mut targets = snapshot_of(&reg, "u1");
    send_to_user(&mut targets, "u1", &serde_json::Value::Object(m));
    assert_eq!(rx.try_next().unwrap(), Some(String::from("{\"type\":\"ping\"}")));
    assert!(rx.try_next().is_err());

    session.stopped(&mut reg);
    assert_eq!(session.state, SessionState::Closed);
    assert!(reg.lookup("u1").is_none());
    assert_eq!(reg.len(), 0);
}

#[test]
fn replaced_session_stopping_leaves_newer_one() {
    let mut reg: ConnectionRegistry<u8> = ConnectionRegistry::new();
    let token = issue_token_at("u1", "name", "Member", 5_000, SECRET).unwrap();
    let header = format!("Bearer {}", token);
    let mut old = ws_connect_at(Some(&header), SECRET, 1_000).ok().unwrap();
    let mut new = ws_connect_at(Some(&header), SECRET, 1_000).ok().unwrap();
    old.started(&mut reg, 1);
    new.started(&mut reg, 2);
    old.stopped(&mut reg);
    assert_eq!(reg.lookup("u1").unwrap().channel, 2);
    new.stopped(&mut reg);
    assert_eq!(reg.len(), 0);
}
