//! Capability interface of a pluggable signature engine.

use crate::error::PqcResult;
use crate::types::{Bytes, SecurityLevel};
use vstd::prelude::*;

verus! {

/// Key pair produced by a signature engine.
#[derive(Debug)]
pub struct MlDsaKeyPair {
    /// Public verification key.
    pub public_key: Bytes,
    /// Secret signing key; sensitive, ownership moves to the caller.
    pub secret_key: Bytes,
    /// Capability tier the pair was generated under.
    pub level: SecurityLevel,
}

impl MlDsaKeyPair {
    /// Overwrites the secret key bytes with zeros, keeping the length, so a
    /// caller can release the material deterministically on every exit path.
    pub fn wipe(&mut self)
        ensures
            final(self).secret_key@.len() == old(self).secret_key@.len(),
            forall|i: int|
                0 <= i < final(self).secret_key@.len() ==> final(self).secret_key@[i] == 0u8,
            final(self).public_key@ == old(self).public_key@,
            final(self).level == old(self).level,
    {
        let n = self.secret_key.len();
        let mut i: usize = 0;
        while i < n
            invariant
                n == self.secret_key@.len(),
                i <= n,
                forall|k: int| 0 <= k < i ==> self.secret_key@[k] == 0u8,
                self.public_key@ == old(self).public_key@,
                self.level == old(self).level,
            decreases n - i,
        {
            self.secret_key.set(i, 0);
            i = i + 1;
        }
    }
}

/// A pluggable signature engine. Implementations promise only what every
/// engine must: empty inputs are rejected, and generated key buffers are
/// non-empty.
pub trait MlDsa {
    /// Reports the engine's capability tier.
    fn level(&self) -> SecurityLevel;

    /// Generates a fresh key pair; both buffers of a successful result are
    /// non-empty.
    fn keygen(&mut self) -> (r: PqcResult<MlDsaKeyPair>)
        ensures
            r matches Ok(kp) ==> kp.public_key@.len() > 0 && kp.secret_key@.len() > 0,
    ;

    /// Signs `message` under `secret_key`; an empty key is rejected as
    /// `InvalidInput`.
    fn sign(&self, secret_key: &[u8], message: &[u8]) -> (r: PqcResult<Bytes>)
        ensures
            secret_key@.len() == 0 ==> (r matches Err(e) && e is InvalidInput),
    ;

    /// Verifies `signature` over `message`; an empty key is rejected as
    /// `InvalidInput` before any check, and a computed mismatch is
    /// `VerifyFailed`.
    fn verify(&self, public_key: &[u8], message: &[u8], signature: &[u8]) -> (r: PqcResult<()>)
        ensures
            public_key@.len() == 0 ==> (r matches Err(e) && e is InvalidInput),
            r matches Err(e) ==> (e is InvalidInput || e is VerifyFailed),
    ;
}

} // verus!
