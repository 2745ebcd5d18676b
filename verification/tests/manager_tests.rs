use pqcnet_contracts::adapters::DemoMlKem;
use pqcnet_contracts::error::PqcError;
use pqcnet_contracts::manager::KemKeyManager;
use pqcnet_contracts::sharing::{combine_secret, split_secret};
use pqcnet_contracts::types::ThresholdPolicy;

fn manager() -> KemKeyManager<DemoMlKem> {
    let policy = ThresholdPolicy { t: 2, n: 3 };
    KemKeyManager::new(DemoMlKem::new(), policy, 1000)
}

#[test]
fn keygen_installs_version_zero() {
    let mut mgr = manager();
    let (st, kp) = mgr.keygen_with_material(1000).unwrap();
    assert_eq!(st.version, 0);
    assert_eq!(st.created_at, 1000);
    assert_eq!(st.id.len(), 32);
    assert!(!kp.public_key.is_empty());
    assert!(!kp.secret_key.is_empty());
    let held = mgr.state.as_ref().unwrap();
    assert_eq!(held.id, st.id);
    assert_eq!(held.version, 0);
    assert_eq!(held.created_at, 1000);
}

#[test]
fn manager_state_retains_no_secret() {
    // After keygen the manager holds only id/version/created_at; in
    // particular the 32-byte id is not the 32-byte secret key.
    let mut mgr = manager();
    let (_, kp) = mgr.keygen_with_material(42).unwrap();
    let held = mgr.state.as_ref().unwrap();
    assert_ne!(held.id, kp.secret_key);
    assert_ne!(held.id, kp.public_key);
}

#[test]
fn rotation_gating_before_and_after_interval() {
    let mut mgr = manager();
    mgr.keygen_with_material(1000).unwrap();

    // elapsed 999 ms < 1000 ms: not due, state untouched
    let r = mgr.rotate_with_material(1999).unwrap();
    assert!(r.is_none());
    assert_eq!(mgr.state.as_ref().unwrap().version, 0);

    // elapsed 1200 ms >= 1000 ms: due
    let rot = mgr.rotate_with_material(2200).unwrap().unwrap();
    assert_eq!(rot.prev.version, 0);
    assert_eq!(rot.next.version, rot.prev.version + 1);
    assert_eq!(rot.next.created_at, 2200);
    assert!(!rot.new_material.secret_key.is_empty());
    let held = mgr.state.as_ref().unwrap();
    assert_eq!(held.version, 1);
    assert_eq!(held.id, rot.next.id);
}

#[test]
fn rotation_due_exactly_at_interval() {
    let mut mgr = manager();
    mgr.keygen_with_material(0).unwrap();
    let rot = mgr.rotate_with_material(1000).unwrap();
    assert!(rot.is_some());
}

#[test]
fn rotation_fresh_material_differs() {
    let mut mgr = manager();
    let (_, kp0) = mgr.keygen_with_material(0).unwrap();
    let rot = mgr.rotate_with_material(5000).unwrap().unwrap();
    assert_ne!(rot.new_material.secret_key, kp0.secret_key);
    assert_ne!(rot.prev.id, rot.next.id);
}

#[test]
fn rotate_without_active_key_rejected() {
    let mut mgr = manager();
    let r = mgr.rotate_with_material(10);
    assert!(matches!(r.unwrap_err(), PqcError::InvalidInput(_)));
}

#[test]
fn independent_keygens_yield_distinct_material() {
    let mut mgr = manager();
    let (st1, kp1) = mgr.keygen_with_material(0).unwrap();
    let (st2, kp2) = mgr.keygen_with_material(1200).unwrap();
    assert_ne!(kp1.secret_key, kp2.secret_key);
    assert_ne!(st1.id, st2.id);
    assert_eq!(st2.version, 0);
}

#[test]
fn split_and_rotate_lifecycle() {
    let mut mgr = manager();
    let (st, kp) = mgr.keygen_with_material(100).unwrap();
    let pkg = split_secret(&kp.secret_key, &st.id, st.version, st.created_at, mgr.policy)
        .unwrap();
    let r = combine_secret(&pkg.shares, mgr.policy.t).unwrap();
    assert_eq!(r.secret, kp.secret_key);
}
