use door_core::gate::{evaluate_read, AccessGate, Decision};
use door_core::store::{get_past_pair_id, save_pair_id, PairingStore, StoreError};

#[test]
fn bootstrap_first_connection_becomes_owner() {
    // Empty store; identity "AA:BB" connects: accepted, store now holds it.
    let mut gate = AccessGate::new(PairingStore::empty());
    let d = gate.evaluate(&"AA:BB".to_string());
    assert_eq!(d, Decision::Accept);
    assert_eq!(get_past_pair_id(&gate.store), Ok(Some("AA:BB".to_string())));
}

#[test]
fn owner_is_always_accepted() {
    let mut gate = AccessGate::new(PairingStore::empty());
    assert_eq!(gate.evaluate(&"AA:BB".to_string()), Decision::Accept);
    assert_eq!(gate.evaluate(&"AA:BB".to_string()), Decision::Accept);
    assert_eq!(gate.evaluate(&"AA:BB".to_string()), Decision::Accept);
}

#[test]
fn intruder_is_rejected_and_record_unchanged() {
    // Store holds "AA:BB"; identity "CC:DD" connects: rejected.
    let mut store = PairingStore::empty();
    save_pair_id(&mut store, "AA:BB".to_string()).unwrap();
    let mut gate = AccessGate::new(store);
    let d = gate.evaluate(&"CC:DD".to_string());
    assert_eq!(d, Decision::Reject);
    assert_eq!(get_past_pair_id(&gate.store), Ok(Some("AA:BB".to_string())));
}

#[test]
fn record_never_changes_under_later_identities() {
    let mut gate = AccessGate::new(PairingStore::empty());
    assert_eq!(gate.evaluate(&"AA:BB".to_string()), Decision::Accept);
    for id in ["CC:DD", "EE:FF", "AA:BB", "11:22"] {
        gate.evaluate(&id.to_string());
        assert_eq!(get_past_pair_id(&gate.store), Ok(Some("AA:BB".to_string())));
    }
}

#[test]
fn degraded_read_treated_as_unpaired() {
    // Store get raises an error: gate treats the device as unpaired and
    // the first connecting identity becomes the owner on the next
    // successful set.
    let mut store = PairingStore::empty();
    store.set_read_fault(true);
    assert_eq!(get_past_pair_id(&store), Err(StoreError));
    let mut gate = AccessGate::new(store);
    let d = gate.evaluate(&"EE:FF".to_string());
    assert_eq!(d, Decision::Accept);
    gate.store.set_read_fault(false);
    assert_eq!(get_past_pair_id(&gate.store), Ok(Some("EE:FF".to_string())));
}

#[test]
fn degraded_read_behaves_like_no_record() {
    let faulty = evaluate_read(Err(StoreError), &"AA:BB".to_string());
    let unpaired = evaluate_read(Ok(None), &"AA:BB".to_string());
    assert_eq!(faulty.decision, unpaired.decision);
    assert_eq!(faulty.record_to_save, unpaired.record_to_save);
    assert_eq!(faulty.decision, Decision::Accept);
    assert_eq!(faulty.record_to_save, Some("AA:BB".to_string()));
}

#[test]
fn matching_record_saves_nothing() {
    let o = evaluate_read(Ok(Some("AA:BB".to_string())), &"AA:BB".to_string());
    assert_eq!(o.decision, Decision::Accept);
    assert_eq!(o.record_to_save, None);
}

#[test]
fn mismatching_record_rejects_and_saves_nothing() {
    let o = evaluate_read(Ok(Some("AA:BB".to_string())), &"CC:DD".to_string());
    assert_eq!(o.decision, Decision::Reject);
    assert_eq!(o.record_to_save, None);
}

#[test]
fn failed_write_reports_error_and_keeps_slot() {
    let mut store = PairingStore::empty();
    save_pair_id(&mut store, "AA:BB".to_string()).unwrap();
    store.set_write_fault(true);
    assert_eq!(save_pair_id(&mut store, "CC:DD".to_string()), Err(StoreError));
    assert_eq!(get_past_pair_id(&store), Ok(Some("AA:BB".to_string())));
}

#[test]
fn failed_bootstrap_write_still_accepts() {
    // A write fault during bootstrap is logged-and-continued: the
    // connection is accepted, the record is simply not persisted.
    let mut store = PairingStore::empty();
    store.set_write_fault(true);
    let mut gate = AccessGate::new(store);
    assert_eq!(gate.evaluate(&"AA:BB".to_string()), Decision::Accept);
    assert_eq!(get_past_pair_id(&gate.store), Ok(None));
}
