use crate::error::{PqcError, PqcResult};
use vstd::prelude::*;

verus! {

/// Opaque byte buffer used for keys, ciphertexts, signatures and secrets.
pub type Bytes = Vec<u8>;

/// Number of bytes in a key identifier.
pub const KEY_ID_LEN: usize = 32;

/// Capability tier reported by a cryptographic engine. It is carried next to
/// key material but never interpreted by the sharing engine.
#[derive(Clone, Copy, Debug, PartialEq, Eq, Structural)]
pub enum SecurityLevel {
    MlKem128,
    MlDsa128,
}

/// Reconstruction policy: any `t` of the `n` issued shares recover the secret.
#[derive(Clone, Copy, Debug, PartialEq, Eq, Structural)]
pub struct ThresholdPolicy {
    /// Reconstruction threshold.
    pub t: u8,
    /// Total number of shares issued by one split.
    pub n: u8,
}

impl ThresholdPolicy {
    /// `1 <= t <= n`; `n <= 255` holds because both counts fit in one byte.
    pub open spec fn valid(self) -> bool {
        1 <= self.t <= self.n
    }

    /// Builds a policy, rejecting counts that break `1 <= t <= n`.
    pub fn new(t: u8, n: u8) -> (r: PqcResult<ThresholdPolicy>)
        ensures
            1 <= t <= n ==> (r matches Ok(p) && p.t == t && p.n == n),
            !(1 <= t <= n) ==> (r matches Err(e) && e is InvalidInput),
    {
        if 1 <= t && t <= n {
            Ok(ThresholdPolicy { t, n })
        } else {
            Err(PqcError::InvalidInput("threshold policy must satisfy 1 <= t <= n"))
        }
    }
}

} // verus!
