use mentor_realtime::registry::ConnectionRegistry;

fn s(x: &str) -> String {
    String::from(x)
}

fn sorted_subjects<C>(reg: &ConnectionRegistry<C>) -> Vec<String> {
    let mut v: Vec<String> = reg.connections().iter().map(|c| c.subject.clone()).collect();
    v.sort();
    v
}

#[test]
fn reconnect_replaces_entry() {
    let mut reg: ConnectionRegistry<&str> = ConnectionRegistry::new();
    reg.connect(s("A"), s("Member"), "chanA");
    assert_eq!(reg.lookup("A").unwrap().channel, "chanA");
    reg.connect(s("A"), s("Member"), "chanB");
    assert_eq!(reg.lookup("A").unwrap().channel, "chanB");
    assert_eq!(reg.len(), 1);
}

#[test]
fn stale_disconnect_keeps_newer_entry() {
    let mut reg: ConnectionRegistry<&str> = ConnectionRegistry::new();
    let first = reg.connect(s("A"), s("Member"), "chanA");
    let second = reg.connect(s("A"), s("Member"), "chanB");
    assert_ne!(first, second);
    assert!(!reg.disconnect("A", first));
    assert_eq!(reg.lookup("A").unwrap().channel, "chanB");
    assert!(reg.disconnect("A", second));
    assert!(reg.lookup("A").is_none());
    assert_eq!(reg.len(), 0);
}

#[test]
fn disconnect_of_unknown_subject_does_nothing() {
    let mut reg: ConnectionRegistry<u8> = ConnectionRegistry::new();
    let id = reg.connect(s("five"), s("Admin"), 0);
    assert!(!reg.disconnect("six", id));
    assert_eq!(reg.len(), 1);
}

#[test]
fn distinct_subjects_each_get_one_entry() {
    let mut reg: ConnectionRegistry<u32> = ConnectionRegistry::new();
    let n: u32 = 50;
    for i in (0..n).rev() {
        reg.connect(format!("user-{:03}", i), s("Member"), i);
    }
    assert_eq!(reg.len(), n as usize);
    let expected: Vec<String> = (0..n).map(|i| format!("user-{:03}", i)).collect();
    assert_eq!(sorted_subjects(&reg), expected);
    for i in 0..n {
        assert_eq!(reg.lookup(&format!("user-{:03}", i)).unwrap().channel, i);
    }
}

#[test]
fn interleaved_connect_disconnect_keeps_the_rest() {
    let mut reg: ConnectionRegistry<u32> = ConnectionRegistry::new();
    let mut ids = Vec::new();
    for i in 0..10u32 {
        ids.push(reg.connect(format!("u{}", i), s("Member"), i));
    }
    for i in (0..10u32).step_by(2) {
        assert!(reg.disconnect(&format!("u{}", i), ids[i as usize]));
    }
    assert_eq!(reg.len(), 5);
    assert_eq!(sorted_subjects(&reg), vec![s("u1"), s("u3"), s("u5"), s("u7"), s("u9")]);
}

#[test]
fn subject_ids_are_opaque_text() {
    let mut reg: ConnectionRegistry<u8> = ConnectionRegistry::new();
    reg.connect(s("u1"), s("Member"), 1);
    reg.connect(s("67e55044-10b1-426f-9247-bb680e5fe0c8"), s("Sponsor"), 2);
    reg.connect(s(""), s("Admin"), 3);
    assert_eq!(reg.len(), 3);
    assert_eq!(reg.lookup("u1").unwrap().role, "Member");
    assert_eq!(reg.lookup("").unwrap().channel, 3);
    assert!(reg.lookup("U1").is_none());
}

#[test]
fn ids_are_fresh_across_subjects() {
    let mut reg: ConnectionRegistry<u8> = ConnectionRegistry::new();
    let a = reg.connect(s("a"), s("Member"), 1);
    let b = reg.connect(s("b"), s("Member"), 2);
    assert_ne!(a, b);
    assert!(!reg.disconnect("b", a));
    assert!(reg.has_fresh_id());
}
