use peer_lifecycle::peer::Peer;
use peer_lifecycle::registry::Registry;
use peer_lifecycle::resolver::{count_matching_names, MappingEntry};
use peer_lifecycle::session::{Action, Phase, Session};

fn peer(id: &[u8]) -> Peer {
    Peer::from_id(id.to_vec())
}

fn entry(id: &[u8], name: &[u8]) -> MappingEntry {
    MappingEntry::new(id.to_vec(), name.to_vec())
}

/// The directory's view of a registry: every live peer listed under the given
/// names, keyed by identifier.
fn mapping_for(r: &Registry, names: &[(&[u8], &[u8])]) -> Vec<MappingEntry> {
    let snap = r.snapshot();
    let mut m = Vec::new();
    for p in &snap {
        for (id, name) in names {
            if p.id == id.to_vec() {
                m.push(entry(id, name));
            }
        }
    }
    m
}

#[test]
fn round_trip_leaves_exactly_one_then_zero_matches() {
    let mut registry = Registry::new();

    // the launched application joins and the directory converges
    registry.apply_join(peer(b":1.10"));
    let mapping = mapping_for(&registry, &[(b":1.10", b"Gedit")]);
    assert_eq!(count_matching_names(&mapping, &b"gedit".to_vec()), 1);

    // after termination and settling the entry is gone
    registry.apply_leave(&b":1.10".to_vec());
    let mapping = mapping_for(&registry, &[]);
    assert_eq!(count_matching_names(&mapping, &b"gedit".to_vec()), 0);
}

#[test]
fn baseline_is_restored_after_terminate_and_settle() {
    let mut registry = Registry::new();
    registry.apply_join(peer(b":1.3"));

    let mut session = Session::new(b"gedit".to_vec(), None);
    session.start();
    session.capture_baseline(&registry.snapshot());
    let before = session.baseline_id();
    assert_eq!(before, Some(b":1.3".to_vec()));

    registry.apply_join(peer(b":1.11"));
    registry.apply_leave(&b":1.11".to_vec());

    assert!(session.baseline_matches(&registry.snapshot()));
    assert_eq!(registry.last().unwrap().id, b":1.3".to_vec());
}

#[test]
fn empty_registry_launch_gedit_resolves_and_passes() {
    let mut registry = Registry::new();
    let mut session = Session::new(b"gedit".to_vec(), None);

    session.start();
    assert_eq!(session.next_action(), Action::TakeSnapshot);
    session.capture_baseline(&registry.snapshot());
    assert_eq!(session.baseline_id(), None);

    assert_eq!(session.next_action(), Action::Launch);
    session.note_launched(true);

    assert_eq!(session.next_action(), Action::Wait);
    // the settle interval elapses; bus and directory converge meanwhile
    registry.apply_join(peer(b":1.20"));
    session.note_settled();

    assert_eq!(session.next_action(), Action::Resolve);
    let mapping = mapping_for(&registry, &[(b":1.20", b"gedit")]);
    session.verify_present(&registry.snapshot(), &mapping);
    assert_eq!(session.phase, Phase::Terminating);

    session.note_terminated(true);
    registry.apply_leave(&b":1.20".to_vec());
    session.note_settled();

    let mapping = mapping_for(&registry, &[]);
    session.verify_absent(&mapping);
    assert!(session.passed());
    assert_eq!(session.next_action(), Action::Finish);
}

#[test]
fn unrelated_peer_stays_the_tail_after_firefox_run() {
    let mut registry = Registry::new();
    registry.apply_join(peer(b":1.2"));  // the unrelated peer

    let mut session = Session::new(b"firefox".to_vec(), Some(b"".to_vec()));
    session.start();
    session.capture_baseline(&registry.snapshot());
    assert_eq!(session.baseline_id(), Some(b":1.2".to_vec()));

    session.note_launched(true);
    registry.apply_join(peer(b":1.30"));
    session.note_settled();

    let mapping = mapping_for(&registry, &[(b":1.2", b"Files"), (b":1.30", b"Firefox")]);
    session.verify_present(&registry.snapshot(), &mapping);
    assert_eq!(session.phase, Phase::Terminating);

    session.note_terminated(true);
    registry.apply_leave(&b":1.30".to_vec());
    session.note_settled();

    let mapping = mapping_for(&registry, &[(b":1.2", b"Files")]);
    session.verify_absent(&mapping);
    assert!(session.passed());

    assert_eq!(registry.last().unwrap().id, b":1.2".to_vec());
    assert!(session.baseline_matches(&registry.snapshot()));
}

#[test]
fn overlapping_launches_verify_the_newest_and_spare_the_older() {
    let mut registry = Registry::new();

    // evince is launched first and is still live
    registry.apply_join(peer(b":1.40"));

    let mut session = Session::new(b"gedit".to_vec(), Some(b"test.txt".to_vec()));
    session.start();
    session.capture_baseline(&registry.snapshot());
    assert_eq!(session.baseline_id(), Some(b":1.40".to_vec()));

    session.note_launched(true);
    registry.apply_join(peer(b":1.41"));
    session.note_settled();

    let both = &[
        (b":1.40" as &[u8], b"Evince" as &[u8]),
        (b":1.41" as &[u8], b"Gedit" as &[u8]),
    ];
    let mapping = mapping_for(&registry, both);
    // the newest peer resolves to gedit, not evince
    session.verify_present(&registry.snapshot(), &mapping);
    assert_eq!(session.phase, Phase::Terminating);

    // terminate gedit only
    session.note_terminated(true);
    registry.apply_leave(&b":1.41".to_vec());
    session.note_settled();

    let mapping = mapping_for(&registry, &[(b":1.40", b"Evince")]);
    session.verify_absent(&mapping);
    assert!(session.passed());

    // evince's entry is unaffected and still resolvable
    assert_eq!(registry.last().unwrap().id, b":1.40".to_vec());
    assert_eq!(count_matching_names(&mapping, &b"evince".to_vec()), 1);
}

#[test]
fn launch_failure_is_fatal() {
    let mut session = Session::new(b"gedit".to_vec(), None);
    session.start();
    session.capture_baseline(&Vec::new());
    session.note_launched(false);
    assert!(session.failed());
    assert_eq!(session.next_action(), Action::Finish);
}

#[test]
fn unresolved_or_mismatched_presence_is_fatal() {
    // the newest peer never appears in the mapping
    let mut registry = Registry::new();
    registry.apply_join(peer(b":1.50"));

    let mut session = Session::new(b"gedit".to_vec(), None);
    session.start();
    session.capture_baseline(&Vec::new());
    session.note_launched(true);
    session.note_settled();
    let mapping = vec![MappingEntry::new(b":1.49".to_vec(), b"gedit".to_vec())];
    session.verify_present(&registry.snapshot(), &mapping);
    assert!(session.failed());
    assert_eq!(session.observed, None);

    // the newest peer resolves to the wrong name
    let mut session = Session::new(b"gedit".to_vec(), None);
    session.start();
    session.capture_baseline(&Vec::new());
    session.note_launched(true);
    session.note_settled();
    let mapping = vec![MappingEntry::new(b":1.50".to_vec(), b"Evince".to_vec())];
    session.verify_present(&registry.snapshot(), &mapping);
    assert!(session.failed());
    // the failure message names expected versus observed
    assert_eq!(session.observed, Some(b"Evince".to_vec()));
    assert_eq!(session.candidate, Some(b":1.50".to_vec()));

    // an empty registry has no newest peer at all
    let mut session = Session::new(b"gedit".to_vec(), None);
    session.start();
    session.capture_baseline(&Vec::new());
    session.note_launched(true);
    session.note_settled();
    session.verify_present(&Vec::new(), &mapping);
    assert!(session.failed());
}

#[test]
fn termination_failure_and_leftover_name_are_fatal() {
    let mut session = Session::new(b"gedit".to_vec(), None);
    session.start();
    session.capture_baseline(&Vec::new());
    session.note_launched(true);
    session.note_settled();
    let mapping = vec![MappingEntry::new(b":1.60".to_vec(), b"gedit".to_vec())];
    let snapshot = vec![peer(b":1.60")];
    session.verify_present(&snapshot, &mapping);
    session.note_terminated(false);
    assert!(session.failed());

    let mut session = Session::new(b"gedit".to_vec(), None);
    session.start();
    session.capture_baseline(&Vec::new());
    session.note_launched(true);
    session.note_settled();
    session.verify_present(&snapshot, &mapping);
    session.note_terminated(true);
    session.note_settled();
    // the name is still resolvable after the settle: a ghost entry
    session.verify_absent(&mapping);
    assert!(session.failed());
}
