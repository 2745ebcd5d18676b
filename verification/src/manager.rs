//! Key state and rotation manager.
//!
//! The manager owns the current key identity, version and creation time —
//! never the key material itself — and decides, from caller-supplied logical
//! timestamps, when rotation is due. Key identifiers are re-derived from each
//! new key pair's public key, so every rotation carries a fresh 32-byte id
//! while `version` tracks the lineage; integrators who need a fixed id across
//! rotations should key on the manager instance, not on `id`.

use crate::error::{PqcError, PqcResult};
use crate::hash::{copy_bytes, expand_bytes, spec_expand_bytes};
use crate::kem::{MlKem, MlKemKeyPair};
use crate::types::{ThresholdPolicy, KEY_ID_LEN};
use vstd::prelude::*;

verus! {

/// The manager's view of the current key. It holds identity metadata only:
/// no field of this type ever carries secret key material.
#[derive(Debug)]
pub struct KemKeyState {
    /// 32-byte identifier derived from the key pair's public key.
    pub id: Vec<u8>,
    /// 0 for a freshly generated key, incremented by exactly 1 per rotation.
    pub version: u32,
    /// Caller-supplied logical timestamp (milliseconds) of creation.
    pub created_at: u64,
}

impl KemKeyState {
    /// Field-wise equality of two state snapshots.
    pub open spec fn state_eq(self, other: KemKeyState) -> bool {
        &&& self.id@ == other.id@
        &&& self.version == other.version
        &&& self.created_at == other.created_at
    }

    /// Returns a snapshot holding the same identity metadata.
    pub fn duplicate(&self) -> (r: KemKeyState)
        ensures
            r.state_eq(*self),
    {
        KemKeyState { id: copy_bytes(&self.id), version: self.version, created_at: self.created_at }
    }
}

/// One successful rotation: the superseded state, the state that replaces
/// it, and the freshly generated key material.
#[derive(Debug)]
pub struct KemRotation {
    /// Snapshot of the state that was current before the rotation.
    pub prev: KemKeyState,
    /// The state installed by the rotation.
    pub next: KemKeyState,
    /// The key pair generated for the new state.
    pub new_material: MlKemKeyPair,
}

/// Domain tag `PQCNET_KEY_ID_V1`.
pub open spec fn spec_domain_key_id() -> Seq<u8> {
    seq![
        0x50u8, 0x51u8, 0x43u8, 0x4eu8, 0x45u8, 0x54u8, 0x5fu8, 0x4bu8, 0x45u8, 0x59u8, 0x5fu8,
        0x49u8, 0x44u8, 0x5fu8, 0x56u8, 0x31u8,
    ]
}

/// The bytes `PQCNET_KEY_ID_V1`.
pub fn domain_key_id() -> (r: Vec<u8>)
    ensures
        r@ == spec_domain_key_id(),
{
    let r: Vec<u8> = vec![
        0x50u8, 0x51u8, 0x43u8, 0x4eu8, 0x45u8, 0x54u8, 0x5fu8, 0x4bu8, 0x45u8, 0x59u8, 0x5fu8,
        0x49u8, 0x44u8, 0x5fu8, 0x56u8, 0x31u8,
    ];
    proof {
        assert(r@ =~= spec_domain_key_id());
    }
    r
}

/// The 32-byte key identifier derived from a public key.
pub open spec fn spec_key_id(public_key: Seq<u8>) -> Seq<u8> {
    spec_expand_bytes(spec_domain_key_id(), public_key, KEY_ID_LEN as nat)
}

/// Rotation is due once the interval has elapsed since the current key's
/// creation; an earlier `now` (including clocks that moved backwards) is
/// never due.
pub open spec fn spec_rotation_due(st: KemKeyState, now: u64, interval: u64) -> bool {
    st.created_at <= now && now - st.created_at >= interval
}

/// Owns the current key state and the rotation schedule; generates key
/// material through the pluggable engine and hands it straight back to the
/// caller without retaining it.
pub struct KemKeyManager<E: MlKem> {
    /// The pluggable KEM engine that produces key material.
    pub engine: E,
    /// The current key state; `None` until the first key generation.
    pub state: Option<KemKeyState>,
    /// Threshold policy recorded for the deployment; informational to the
    /// manager, which never splits secrets itself.
    pub policy: ThresholdPolicy,
    /// Minimum age (milliseconds) a key must reach before rotation is due.
    pub rotation_interval_ms: u64,
}

impl<E: MlKem> KemKeyManager<E> {
    /// Creates a manager with no active key.
    pub fn new(engine: E, policy: ThresholdPolicy, rotation_interval_ms: u64) -> (r: Self)
        ensures
            r.state is None,
            r.policy == policy,
            r.rotation_interval_ms == rotation_interval_ms,
    {
        KemKeyManager { engine, state: None, policy, rotation_interval_ms }
    }

    /// Generates the first key of a lineage: version 0, created at `now`,
    /// identified by the digest-derived id of the new public key. The state
    /// the manager keeps is exactly the returned snapshot — id, version and
    /// timestamp — and never the key material, which goes to the caller.
    pub fn keygen_with_material(&mut self, now: u64) -> (r: PqcResult<(KemKeyState, MlKemKeyPair)>)
        ensures
            r matches Ok(p) ==> {
                &&& p.0.id@ == spec_key_id(p.1.public_key@)
                &&& p.0.id@.len() == KEY_ID_LEN
                &&& p.0.version == 0
                &&& p.0.created_at == now
                &&& final(self).state matches Some(st) && st.state_eq(p.0)
                &&& p.1.public_key@.len() > 0
                &&& p.1.secret_key@.len() > 0
            },
            r matches Err(_) ==> final(self).state == old(self).state,
            final(self).policy == old(self).policy,
            final(self).rotation_interval_ms == old(self).rotation_interval_ms,
    {
        let kp = match self.engine.keygen() {
            Ok(kp) => kp,
            Err(e) => {
                return Err(e);
            },
        };
        let dom = domain_key_id();
        let id = expand_bytes(dom.as_slice(), kp.public_key.as_slice(), KEY_ID_LEN);
        let st = KemKeyState { id, version: 0, created_at: now };
        let snapshot = st.duplicate();
        self.state = Some(st);
        Ok((snapshot, kp))
    }

    /// Rotates the current key if it is at least `rotation_interval_ms` old.
    ///
    /// "Not due" is the `Ok(None)` outcome, not an error; rotating without
    /// an active key is rejected as `InvalidInput`; and on any failure the
    /// current state is left untouched — a failed rotation never advances
    /// the version.
    pub fn rotate_with_material(&mut self, now: u64) -> (r: PqcResult<Option<KemRotation>>)
        requires
            old(self).state matches Some(st) ==> st.version < u32::MAX,
        ensures
            final(self).policy == old(self).policy,
            final(self).rotation_interval_ms == old(self).rotation_interval_ms,
            old(self).state is None ==> (r matches Err(e) && e is InvalidInput),
            r matches Err(_) ==> final(self).state == old(self).state,
            old(self).state matches Some(cur) ==> {
                &&& (!spec_rotation_due(cur, now, old(self).rotation_interval_ms) ==> (
                r matches Ok(o) && o is None) && final(self).state == old(self).state)
                &&& (spec_rotation_due(cur, now, old(self).rotation_interval_ms) ==> (
                r matches Ok(o) ==> o matches Some(rot) && {
                    &&& rot.prev.state_eq(cur)
                    &&& rot.next.id@ == spec_key_id(rot.new_material.public_key@)
                    &&& rot.next.version == cur.version + 1
                    &&& rot.next.created_at == now
                    &&& final(self).state matches Some(st) && st.state_eq(rot.next)
                    &&& rot.new_material.public_key@.len() > 0
                    &&& rot.new_material.secret_key@.len() > 0
                }))
            },
    {
        let prev = match &self.state {
            None => {
                return Err(PqcError::InvalidInput("no active key to rotate"));
            },
            Some(cur) => cur.duplicate(),
        };
        if !(prev.created_at <= now && now - prev.created_at >= self.rotation_interval_ms) {
            return Ok(None);
        }
        let kp = match self.engine.keygen() {
            Ok(kp) => kp,
            Err(e) => {
                return Err(e);
            },
        };
        let dom = domain_key_id();
        let id = expand_bytes(dom.as_slice(), kp.public_key.as_slice(), KEY_ID_LEN);
        let next = KemKeyState { id, version: prev.version + 1, created_at: now };
        self.state = Some(next.duplicate());
        Ok(Some(KemRotation { prev, next, new_material: kp }))
    }
}

} // verus!
