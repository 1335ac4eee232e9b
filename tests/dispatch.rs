use futures_channel::mpsc::{unbounded, UnboundedReceiver};
use mentor_realtime::dispatch::{
    send_text_to_all, send_text_to_role, send_text_to_user, send_text_to_users, send_to_all,
    send_to_role, send_to_user, send_to_users, snapshot, snapshot_of, Outbox,
};
use mentor_realtime::registry::ConnectionRegistry;

fn frames(rx: &mut UnboundedReceiver<String>) -> Vec<String> {
    let mut out = Vec::new();
    while let Ok(Some(f)) = rx.try_next() {
        out.push(f);
    }
    out
}

fn ping() -> serde_json::Value {
    let mut m = serde_json::Map::new();
    m.insert(String::from("type"), serde_json::Value::from("ping"));
    serde_json::Value::Object(m)
}

fn s(x: &str) -> String {
    String::from(x)
}

#[test]
fn send_to_absent_user_is_a_no_op() {
    let mut reg: ConnectionRegistry<Outbox> = ConnectionRegistry::new();
    let (tx, mut rx) = unbounded();
    reg.connect(s("B"), s("Member"), tx);
    let mut targets = snapshot_of(&reg, "A");
    assert!(targets.is_empty());
    send_to_user(&mut targets, "A", &ping());
    let mut all = snapshot(&reg);
    send_text_to_user(&mut all, "A", "hello");
    assert!(frames(&mut rx).is_empty());
    assert_eq!(reg.len(), 1);
}

#[test]
fn send_to_user_delivers_json_text() {
    let mut reg: ConnectionRegistry<Outbox> = ConnectionRegistry::new();
    let (tx, mut rx) = unbounded();
    reg.connect(s("u1"), s("Member"), tx);
    let mut targets = snapshot_of(&reg, "u1");
    assert_eq!(targets.len(), 1);
    let frame = send_to_user(&mut targets, "u1", &ping());
    assert_eq!(frame, "{\"type\":\"ping\"}");
    assert_eq!(frames(&mut rx), vec![s("{\"type\":\"ping\"}")]);
}

#[test]
fn frames_to_one_recipient_keep_their_order() {
    let mut reg: ConnectionRegistry<Outbox> = ConnectionRegistry::new();
    let (tx, mut rx) = unbounded();
    reg.connect(s("u1"), s("Member"), tx);
    let mut targets = snapshot(&reg);
    send_text_to_user(&mut targets, "u1", "one");
    send_to_user(&mut targets, "u1", &serde_json::Value::from(2));
    send_text_to_all(&mut targets, "three");
    assert_eq!(frames(&mut rx), vec![s("one"), s("2"), s("three")]);
}

#[test]
fn send_to_closed_channel_is_not_raised() {
    let mut reg: ConnectionRegistry<Outbox> = ConnectionRegistry::new();
    let (tx, rx) = unbounded();
    reg.connect(s("u1"), s("Member"), tx);
    drop(rx);
    let mut targets = snapshot(&reg);
    send_text_to_user(&mut targets, "u1", "x");
    assert_eq!(reg.len(), 1);
}

#[test]
fn role_broadcast_reaches_only_that_role() {
    let mut reg: ConnectionRegistry<Outbox> = ConnectionRegistry::new();
    let (t1, mut r1) = unbounded();
    let (t2, mut r2) = unbounded();
    let (t3, mut r3) = unbounded();
    let (t4, mut r4) = unbounded();
    let (t5, mut r5) = unbounded();
    reg.connect(s("a"), s("Sponsor"), t1);
    reg.connect(s("b"), s("Member"), t2);
    reg.connect(s("c"), s("Admin"), t3);
    reg.connect(s("d"), s("Sponsor"), t4);
    reg.connect(s("e"), s("sponsor"), t5);
    let mut targets = snapshot(&reg);
    send_text_to_role(&mut targets, "Sponsor", "news");
    assert_eq!(frames(&mut r1), vec![s("news")]);
    assert!(frames(&mut r2).is_empty());
    assert!(frames(&mut r3).is_empty());
    assert_eq!(frames(&mut r4), vec![s("news")]);
    assert!(frames(&mut r5).is_empty());
    let frame = send_to_role(&mut targets, "Member", &ping());
    assert_eq!(frame, "{\"type\":\"ping\"}");
    assert_eq!(frames(&mut r2), vec![frame]);
    assert!(frames(&mut r1).is_empty());
}

#[test]
fn role_broadcast_survives_a_dead_recipient() {
    let mut reg: ConnectionRegistry<Outbox> = ConnectionRegistry::new();
    let (t1, r1) = unbounded();
    let (t2, mut r2) = unbounded();
    reg.connect(s("a"), s("Sponsor"), t1);
    reg.connect(s("b"), s("Sponsor"), t2);
    drop(r1);
    let mut targets = snapshot(&reg);
    send_text_to_role(&mut targets, "Sponsor", "hi");
    assert_eq!(frames(&mut r2), vec![s("hi")]);
}

#[test]
fn send_to_users_gives_one_frame_per_listing() {
    let mut reg: ConnectionRegistry<Outbox> = ConnectionRegistry::new();
    let (t1, mut r1) = unbounded();
    let (t2, mut r2) = unbounded();
    let (t3, mut r3) = unbounded();
    reg.connect(s("one"), s("Member"), t1);
    reg.connect(s("two"), s("Member"), t2);
    reg.connect(s("three"), s("Member"), t3);
    let mut targets = snapshot(&reg);
    send_text_to_users(&mut targets, &vec![s("three"), s("nobody"), s("one"), s("three")], "m");
    assert_eq!(frames(&mut r1), vec![s("m")]);
    assert!(frames(&mut r2).is_empty());
    assert_eq!(frames(&mut r3), vec![s("m"), s("m")]);
    let frame = send_to_users(&mut targets, &vec![s("two")], &ping());
    assert_eq!(frames(&mut r2), vec![frame]);
}

#[test]
fn broadcast_reaches_everyone() {
    let mut reg: ConnectionRegistry<Outbox> = ConnectionRegistry::new();
    let (t1, mut r1) = unbounded();
    let (t2, mut r2) = unbounded();
    reg.connect(s("a"), s("Admin"), t1);
    reg.connect(s("b"), s("Member"), t2);
    let mut targets = snapshot(&reg);
    assert_eq!(targets.len(), 2);
    send_text_to_all(&mut targets, "all");
    let frame = send_to_all(&mut targets, &serde_json::Value::from(3));
    assert_eq!(frame, "3");
    assert_eq!(frames(&mut r1), vec![s("all"), s("3")]);
    assert_eq!(frames(&mut r2), vec![s("all"), s("3")]);
}

#[test]
fn snapshot_copies_subjects_and_roles() {
    let mut reg: ConnectionRegistry<Outbox> = ConnectionRegistry::new();
    let (t1, _r1) = unbounded();
    let (t2, _r2) = unbounded();
    reg.connect(s("a"), s("Admin"), t1);
    reg.connect(s("b"), s("Member"), t2);
    let mut pairs: Vec<(String, String)> = snapshot(&reg).into_iter().map(|r| (r.subject, r.role)).collect();
    pairs.sort();
    assert_eq!(pairs, vec![(s("a"), s("Admin")), (s("b"), s("Member"))]);
    assert!(ConnectionRegistry::<Outbox>::new().connections().is_empty());
}
