//! Capability interface of a pluggable key-encapsulation engine.
//!
//! The core treats all buffers as opaque bytes with a declared
//! `SecurityLevel`; a real lattice-based implementation and the deterministic
//! demo adapter both implement this trait.

use crate::error::PqcResult;
use crate::types::{Bytes, SecurityLevel};
use vstd::prelude::*;

verus! {

/// Key pair produced by a KEM engine.
#[derive(Debug)]
pub struct MlKemKeyPair {
    /// Public encapsulation key.
    pub public_key: Bytes,
    /// Secret decapsulation key; sensitive, ownership moves to the caller.
    pub secret_key: Bytes,
    /// Capability tier the pair was generated under.
    pub level: SecurityLevel,
}

impl MlKemKeyPair {
    /// Overwrites the secret key bytes with zeros, keeping the length, so a
    /// caller can release the material deterministically on every exit path.
    pub fn wipe(&mut self)
        ensures
            final(self).secret_key@.len() == old(self).secret_key@.len(),
            forall|i: int|
                0 <= i < final(self).secret_key@.len() ==> final(self).secret_key@[i] == 0u8,
            final(self).public_key@ == old(self).public_key@,
            final(self).level == old(self).level,
    {
        let n = self.secret_key.len();
        let mut i: usize = 0;
        while i < n
            invariant
                n == self.secret_key@.len(),
                i <= n,
                forall|k: int| 0 <= k < i ==> self.secret_key@[k] == 0u8,
                self.public_key@ == old(self).public_key@,
                self.level == old(self).level,
            decreases n - i,
        {
            self.secret_key.set(i, 0);
            i = i + 1;
        }
    }
}

/// Output of one encapsulation: the ciphertext to transmit and the locally
/// derived shared secret.
#[derive(Debug)]
pub struct MlKemEncapsulation {
    /// Ciphertext for the holder of the secret key.
    pub ciphertext: Bytes,
    /// Shared secret derived during encapsulation.
    pub shared_secret: Bytes,
}

/// A pluggable KEM engine. Implementations promise only what every engine
/// must: empty inputs are rejected, and generated key buffers are non-empty.
pub trait MlKem {
    /// Reports the engine's capability tier.
    fn level(&self) -> SecurityLevel;

    /// Generates a fresh key pair; both buffers of a successful result are
    /// non-empty.
    fn keygen(&mut self) -> (r: PqcResult<MlKemKeyPair>)
        ensures
            r matches Ok(kp) ==> kp.public_key@.len() > 0 && kp.secret_key@.len() > 0,
    ;

    /// Encapsulates against `public_key`; an empty key is rejected as
    /// `InvalidInput`.
    fn encapsulate(&self, public_key: &[u8]) -> (r: PqcResult<MlKemEncapsulation>)
        ensures
            public_key@.len() == 0 ==> (r matches Err(e) && e is InvalidInput),
    ;

    /// Recovers the shared secret from `ciphertext`; an empty secret key or
    /// an empty ciphertext is rejected as `InvalidInput`.
    fn decapsulate(&self, secret_key: &[u8], ciphertext: &[u8]) -> (r: PqcResult<Bytes>)
        ensures
            secret_key@.len() == 0 ==> (r matches Err(e) && e is InvalidInput),
            ciphertext@.len() == 0 ==> (r matches Err(e) && e is InvalidInput),
    ;
}

} // verus!
