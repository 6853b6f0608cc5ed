use peer_lifecycle::peer::Peer;
use peer_lifecycle::registry::Registry;

fn peer(id: &[u8]) -> Peer {
    Peer::from_id(id.to_vec())
}

#[test]
fn join_appends_and_last_references_new_entry() {
    let mut r = Registry::new();
    assert_eq!(r.len(), 0);
    assert!(r.last().is_none());

    r.apply_join(peer(b":1.7"));
    assert_eq!(r.len(), 1);
    assert_eq!(r.last().unwrap().id, b":1.7".to_vec());

    r.apply_join(peer(b":1.8"));
    assert_eq!(r.len(), 2);
    assert_eq!(r.last().unwrap().id, b":1.8".to_vec());

    let snap = r.snapshot();
    assert_eq!(snap.len(), 2);
    assert_eq!(snap[0].id, b":1.7".to_vec());
    assert_eq!(snap[1].id, b":1.8".to_vec());
}

#[test]
fn leave_removes_exactly_one_known_id() {
    let mut r = Registry::new();
    r.apply_join(peer(b":1.1"));
    r.apply_join(peer(b":1.2"));
    r.apply_join(peer(b":1.3"));

    r.apply_leave(&b":1.2".to_vec());
    assert_eq!(r.len(), 2);
    assert!(!r.contains_id(&b":1.2".to_vec()));

    // removal does not reorder the remaining entries
    let snap = r.snapshot();
    assert_eq!(snap[0].id, b":1.1".to_vec());
    assert_eq!(snap[1].id, b":1.3".to_vec());
}

#[test]
fn leave_for_unknown_id_is_a_no_op() {
    let mut r = Registry::new();
    r.apply_join(peer(b":1.1"));
    r.apply_leave(&b":9.9".to_vec());
    assert_eq!(r.len(), 1);
    assert_eq!(r.last().unwrap().id, b":1.1".to_vec());

    // a duplicate leave is also a no-op
    r.apply_leave(&b":1.1".to_vec());
    r.apply_leave(&b":1.1".to_vec());
    assert_eq!(r.len(), 0);
}

#[test]
fn snapshots_without_mutation_are_equal() {
    let mut r = Registry::new();
    r.apply_join(Peer {
        id: b":1.4".to_vec(),
        alias: Some(b"shell".to_vec()),
        address: Some(b"unix:path=/run/bus".to_vec()),
    });
    r.apply_join(peer(b":1.5"));

    let first = r.snapshot();
    let second = r.snapshot();
    assert_eq!(first, second);
}

#[test]
fn join_then_leave_restores_the_registry() {
    let mut r = Registry::new();
    r.apply_join(peer(b":1.1"));
    r.apply_join(peer(b":1.2"));
    let before = r.snapshot();

    r.apply_join(peer(b":1.42"));
    r.apply_leave(&b":1.42".to_vec());

    let after = r.snapshot();
    assert_eq!(before, after);
    assert_eq!(r.last().unwrap().id, b":1.2".to_vec());
}
