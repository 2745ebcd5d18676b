//! Deterministic demo adapters for the engine interfaces.
//!
//! These adapters stand in for audited lattice-based engines in tests and
//! demos. Every output is a domain-separated BLAKE2s expansion, so key pairs,
//! ciphertexts and signatures are reproducible functions of an internal
//! counter and the call inputs; they are not security primitives.

use crate::dsa::{MlDsa, MlDsaKeyPair};
use crate::error::{PqcError, PqcResult};
use crate::hash::{append_bytes, blake2s256, bytes_eq, expand_bytes, blake2s256_of, spec_expand_bytes};
use crate::kem::{MlKem, MlKemEncapsulation, MlKemKeyPair};
use crate::types::{Bytes, SecurityLevel};
use vstd::bytes::{spec_u64_to_le_bytes, u64_to_le_bytes};
use vstd::prelude::*;

verus! {

/// The counter value used after `c`: advanced by one, wrapping at the top.
pub open spec fn spec_next_counter(c: u64) -> u64 {
    if c == u64::MAX {
        0u64
    } else {
        (c + 1) as u64
    }
}

/// Domain tag `PQCNET_MLKEM_SK_V1`.
pub open spec fn spec_domain_mlkem_sk() -> Seq<u8> {
    seq![0x50u8, 0x51u8, 0x43u8, 0x4eu8, 0x45u8, 0x54u8, 0x5fu8, 0x4du8, 0x4cu8, 0x4bu8, 0x45u8, 0x4du8, 0x5fu8, 0x53u8, 0x4bu8, 0x5fu8, 0x56u8, 0x31u8]
}

/// The bytes `PQCNET_MLKEM_SK_V1`.
pub fn domain_mlkem_sk() -> (r: Vec<u8>)
    ensures
        r@ == spec_domain_mlkem_sk(),
{
    let r: Vec<u8> = vec![0x50u8, 0x51u8, 0x43u8, 0x4eu8, 0x45u8, 0x54u8, 0x5fu8, 0x4du8, 0x4cu8, 0x4bu8, 0x45u8, 0x4du8, 0x5fu8, 0x53u8, 0x4bu8, 0x5fu8, 0x56u8, 0x31u8];
    proof {
        assert(r@ =~= spec_domain_mlkem_sk());
    }
    r
}

/// Domain tag `PQCNET_MLKEM_PK_V1`.
pub open spec fn spec_domain_mlkem_pk() -> Seq<u8> {
    seq![0x50u8, 0x51u8, 0x43u8, 0x4eu8, 0x45u8, 0x54u8, 0x5fu8, 0x4du8, 0x4cu8, 0x4bu8, 0x45u8, 0x4du8, 0x5fu8, 0x50u8, 0x4bu8, 0x5fu8, 0x56u8, 0x31u8]
}

/// The bytes `PQCNET_MLKEM_PK_V1`.
pub fn domain_mlkem_pk() -> (r: Vec<u8>)
    ensures
        r@ == spec_domain_mlkem_pk(),
{
    let r: Vec<u8> = vec![0x50u8, 0x51u8, 0x43u8, 0x4eu8, 0x45u8, 0x54u8, 0x5fu8, 0x4du8, 0x4cu8, 0x4bu8, 0x45u8, 0x4du8, 0x5fu8, 0x50u8, 0x4bu8, 0x5fu8, 0x56u8, 0x31u8];
    proof {
        assert(r@ =~= spec_domain_mlkem_pk());
    }
    r
}

/// Domain tag `PQCNET_MLKEM_CT_V1`.
pub open spec fn spec_domain_mlkem_ct() -> Seq<u8> {
    seq![0x50u8, 0x51u8, 0x43u8, 0x4eu8, 0x45u8, 0x54u8, 0x5fu8, 0x4du8, 0x4cu8, 0x4bu8, 0x45u8, 0x4du8, 0x5fu8, 0x43u8, 0x54u8, 0x5fu8, 0x56u8, 0x31u8]
}

/// The bytes `PQCNET_MLKEM_CT_V1`.
pub fn domain_mlkem_ct() -> (r: Vec<u8>)
    ensures
        r@ == spec_domain_mlkem_ct(),
{
    let r: Vec<u8> = vec![0x50u8, 0x51u8, 0x43u8, 0x4eu8, 0x45u8, 0x54u8, 0x5fu8, 0x4du8, 0x4cu8, 0x4bu8, 0x45u8, 0x4du8, 0x5fu8, 0x43u8, 0x54u8, 0x5fu8, 0x56u8, 0x31u8];
    proof {
        assert(r@ =~= spec_domain_mlkem_ct());
    }
    r
}

/// Domain tag `PQCNET_MLKEM_SS_V1`.
pub open spec fn spec_domain_mlkem_ss() -> Seq<u8> {
    seq![0x50u8, 0x51u8, 0x43u8, 0x4eu8, 0x45u8, 0x54u8, 0x5fu8, 0x4du8, 0x4cu8, 0x4bu8, 0x45u8, 0x4du8, 0x5fu8, 0x53u8, 0x53u8, 0x5fu8, 0x56u8, 0x31u8]
}

/// The bytes `PQCNET_MLKEM_SS_V1`.
pub fn domain_mlkem_ss() -> (r: Vec<u8>)
    ensures
        r@ == spec_domain_mlkem_ss(),
{
    let r: Vec<u8> = vec![0x50u8, 0x51u8, 0x43u8, 0x4eu8, 0x45u8, 0x54u8, 0x5fu8, 0x4du8, 0x4cu8, 0x4bu8, 0x45u8, 0x4du8, 0x5fu8, 0x53u8, 0x53u8, 0x5fu8, 0x56u8, 0x31u8];
    proof {
        assert(r@ =~= spec_domain_mlkem_ss());
    }
    r
}

/// Domain tag `PQCNET_MLDSA_SK_V1`.
pub open spec fn spec_domain_mldsa_sk() -> Seq<u8> {
    seq![0x50u8, 0x51u8, 0x43u8, 0x4eu8, 0x45u8, 0x54u8, 0x5fu8, 0x4du8, 0x4cu8, 0x44u8, 0x53u8, 0x41u8, 0x5fu8, 0x53u8, 0x4bu8, 0x5fu8, 0x56u8, 0x31u8]
}

/// The bytes `PQCNET_MLDSA_SK_V1`.
pub fn domain_mldsa_sk() -> (r: Vec<u8>)
    ensures
        r@ == spec_domain_mldsa_sk(),
{
    let r: Vec<u8> = vec![0x50u8, 0x51u8, 0x43u8, 0x4eu8, 0x45u8, 0x54u8, 0x5fu8, 0x4du8, 0x4cu8, 0x44u8, 0x53u8, 0x41u8, 0x5fu8, 0x53u8, 0x4bu8, 0x5fu8, 0x56u8, 0x31u8];
    proof {
        assert(r@ =~= spec_domain_mldsa_sk());
    }
    r
}

/// Domain tag `PQCNET_MLDSA_PK_V1`.
pub open spec fn spec_domain_mldsa_pk() -> Seq<u8> {
    seq![0x50u8, 0x51u8, 0x43u8, 0x4eu8, 0x45u8, 0x54u8, 0x5fu8, 0x4du8, 0x4cu8, 0x44u8, 0x53u8, 0x41u8, 0x5fu8, 0x50u8, 0x4bu8, 0x5fu8, 0x56u8, 0x31u8]
}

/// The bytes `PQCNET_MLDSA_PK_V1`.
pub fn domain_mldsa_pk() -> (r: Vec<u8>)
    ensures
        r@ == spec_domain_mldsa_pk(),
{
    let r: Vec<u8> = vec![0x50u8, 0x51u8, 0x43u8, 0x4eu8, 0x45u8, 0x54u8, 0x5fu8, 0x4du8, 0x4cu8, 0x44u8, 0x53u8, 0x41u8, 0x5fu8, 0x50u8, 0x4bu8, 0x5fu8, 0x56u8, 0x31u8];
    proof {
        assert(r@ =~= spec_domain_mldsa_pk());
    }
    r
}

/// Domain tag `PQCNET_MLDSA_SIG_V1`.
pub open spec fn spec_domain_mldsa_sig() -> Seq<u8> {
    seq![0x50u8, 0x51u8, 0x43u8, 0x4eu8, 0x45u8, 0x54u8, 0x5fu8, 0x4du8, 0x4cu8, 0x44u8, 0x53u8, 0x41u8, 0x5fu8, 0x53u8, 0x49u8, 0x47u8, 0x5fu8, 0x56u8, 0x31u8]
}

/// The bytes `PQCNET_MLDSA_SIG_V1`.
pub fn domain_mldsa_sig() -> (r: Vec<u8>)
    ensures
        r@ == spec_domain_mldsa_sig(),
{
    let r: Vec<u8> = vec![0x50u8, 0x51u8, 0x43u8, 0x4eu8, 0x45u8, 0x54u8, 0x5fu8, 0x4du8, 0x4cu8, 0x44u8, 0x53u8, 0x41u8, 0x5fu8, 0x53u8, 0x49u8, 0x47u8, 0x5fu8, 0x56u8, 0x31u8];
    proof {
        assert(r@ =~= spec_domain_mldsa_sig());
    }
    r
}

/// Demo ML-KEM adapter backed by deterministic BLAKE2s derivations.
pub struct DemoMlKem {
    counter: u64,
}

impl DemoMlKem {
    /// The internal derivation counter; each key generation consumes one
    /// value, so no two generations share a seed.
    pub closed spec fn spec_counter(self) -> u64 {
        self.counter
    }

    /// Creates a new deterministic ML-KEM adapter; derivation starts at 1.
    pub fn new() -> (r: Self)
        ensures
            r.spec_counter() == 1,
    {
        DemoMlKem { counter: 1 }
    }

    /// Expands the current counter value into a 32-byte seed and advances
    /// the counter so the next call derives different material.
    fn next_seed(&mut self) -> (r: Bytes)
        ensures
            r@ == spec_expand_bytes(
                spec_domain_mlkem_sk(),
                spec_u64_to_le_bytes(old(self).spec_counter()),
                32,
            ),
            r@.len() == 32,
            final(self).spec_counter() == spec_next_counter(old(self).spec_counter()),
    {
        let current = self.counter;
        self.counter = self.counter.wrapping_add(1);
        let counter_bytes = u64_to_le_bytes(current);
        let dom = domain_mlkem_sk();
        expand_bytes(dom.as_slice(), counter_bytes.as_slice(), 32)
    }
}

impl MlKem for DemoMlKem {
    fn level(&self) -> (r: SecurityLevel)
        ensures
            r == SecurityLevel::MlKem128,
    {
        SecurityLevel::MlKem128
    }

    fn keygen(&mut self) -> (r: PqcResult<MlKemKeyPair>)
        ensures
            r matches Ok(kp) ==> {
                &&& kp.secret_key@ == spec_expand_bytes(
                    spec_domain_mlkem_sk(),
                    spec_u64_to_le_bytes(old(self).spec_counter()),
                    32,
                )
                &&& kp.public_key@ == spec_expand_bytes(spec_domain_mlkem_pk(), kp.secret_key@, 32)
                &&& kp.secret_key@.len() == 32
                &&& kp.public_key@.len() == 32
                &&& kp.level == SecurityLevel::MlKem128
            },
            r matches Ok(_),
            final(self).spec_counter() == spec_next_counter(old(self).spec_counter()),
    {
        let secret_key = self.next_seed();
        let dom = domain_mlkem_pk();
        let public_key = expand_bytes(dom.as_slice(), secret_key.as_slice(), 32);
        Ok(MlKemKeyPair { public_key, secret_key, level: SecurityLevel::MlKem128 })
    }

    fn encapsulate(&self, public_key: &[u8]) -> (r: PqcResult<MlKemEncapsulation>)
        ensures
            (r matches Ok(_)) <==> public_key@.len() > 0,
            r matches Ok(enc) ==> {
                &&& enc.ciphertext@ == spec_expand_bytes(spec_domain_mlkem_ct(), public_key@, 48)
                &&& enc.shared_secret@ == spec_expand_bytes(
                    spec_domain_mlkem_ss(),
                    enc.ciphertext@,
                    32,
                )
                &&& enc.ciphertext@.len() == 48
                &&& enc.shared_secret@.len() == 32
            },
            r matches Err(e) ==> e is InvalidInput,
    {
        if public_key.len() == 0 {
            return Err(PqcError::InvalidInput("ml-kem pk missing"));
        }
        let dom_ct = domain_mlkem_ct();
        let ciphertext = expand_bytes(dom_ct.as_slice(), public_key, 48);
        let dom_ss = domain_mlkem_ss();
        let shared_secret = expand_bytes(dom_ss.as_slice(), ciphertext.as_slice(), 32);
        Ok(MlKemEncapsulation { ciphertext, shared_secret })
    }

    fn decapsulate(&self, secret_key: &[u8], ciphertext: &[u8]) -> (r: PqcResult<Bytes>)
        ensures
            (r matches Ok(_)) <==> (secret_key@.len() > 0 && ciphertext@.len() > 0),
            r matches Ok(ss) ==> ss@ == spec_expand_bytes(spec_domain_mlkem_ss(), ciphertext@, 32)
                && ss@.len() == 32,
            r matches Err(e) ==> e is InvalidInput,
    {
        if secret_key.len() == 0 {
            return Err(PqcError::InvalidInput("ml-kem sk missing"));
        }
        if ciphertext.len() == 0 {
            return Err(PqcError::InvalidInput("ml-kem ciphertext missing"));
        }
        let dom_ss = domain_mlkem_ss();
        Ok(expand_bytes(dom_ss.as_slice(), ciphertext, 32))
    }
}

/// Demo ML-DSA adapter backed by deterministic BLAKE2s derivations.
pub struct DemoMlDsa {
    counter: u64,
}

/// The transcript whose digest is the demo signature of `message` under the
/// verification key `public_key`.
pub open spec fn spec_sign_transcript(public_key: Seq<u8>, message: Seq<u8>) -> Seq<u8> {
    spec_domain_mldsa_sig() + public_key + message
}

impl DemoMlDsa {
    /// The internal derivation counter; each key generation consumes one
    /// value, so no two generations share a seed.
    pub closed spec fn spec_counter(self) -> u64 {
        self.counter
    }

    /// Creates a new deterministic ML-DSA adapter; derivation starts at 7.
    pub fn new() -> (r: Self)
        ensures
            r.spec_counter() == 7,
    {
        DemoMlDsa { counter: 7 }
    }

    /// Expands the current counter value into a 32-byte seed and advances
    /// the counter so the next call derives different material.
    fn next_seed(&mut self) -> (r: Bytes)
        ensures
            r@ == spec_expand_bytes(
                spec_domain_mldsa_sk(),
                spec_u64_to_le_bytes(old(self).spec_counter()),
                32,
            ),
            r@.len() == 32,
            final(self).spec_counter() == spec_next_counter(old(self).spec_counter()),
    {
        let current = self.counter;
        self.counter = self.counter.wrapping_add(1);
        let counter_bytes = u64_to_le_bytes(current);
        let dom = domain_mldsa_sk();
        expand_bytes(dom.as_slice(), counter_bytes.as_slice(), 32)
    }
}

impl MlDsa for DemoMlDsa {
    fn level(&self) -> (r: SecurityLevel)
        ensures
            r == SecurityLevel::MlDsa128,
    {
        SecurityLevel::MlDsa128
    }

    fn keygen(&mut self) -> (r: PqcResult<MlDsaKeyPair>)
        ensures
            r matches Ok(kp) ==> {
                &&& kp.secret_key@ == spec_expand_bytes(
                    spec_domain_mldsa_sk(),
                    spec_u64_to_le_bytes(old(self).spec_counter()),
                    32,
                )
                &&& kp.public_key@ == spec_expand_bytes(spec_domain_mldsa_pk(), kp.secret_key@, 32)
                &&& kp.secret_key@.len() == 32
                &&& kp.public_key@.len() == 32
                &&& kp.level == SecurityLevel::MlDsa128
            },
            r matches Ok(_),
            final(self).spec_counter() == spec_next_counter(old(self).spec_counter()),
    {
        let secret_key = self.next_seed();
        let dom = domain_mldsa_pk();
        let public_key = expand_bytes(dom.as_slice(), secret_key.as_slice(), 32);
        Ok(MlDsaKeyPair { public_key, secret_key, level: SecurityLevel::MlDsa128 })
    }

    fn sign(&self, secret_key: &[u8], message: &[u8]) -> (r: PqcResult<Bytes>)
        ensures
            (r matches Ok(_)) <==> secret_key@.len() > 0,
            r matches Ok(sig) ==> sig@ == blake2s256_of(
                spec_sign_transcript(
                    spec_expand_bytes(spec_domain_mldsa_pk(), secret_key@, 32),
                    message@,
                ),
            ) && sig@.len() == 32,
            r matches Err(e) ==> e is InvalidInput,
    {
        if secret_key.len() == 0 {
            return Err(PqcError::InvalidInput("ml-dsa secret missing"));
        }
        let dom_pk = domain_mldsa_pk();
        let public_key = expand_bytes(dom_pk.as_slice(), secret_key, 32);
        let dom_sig = domain_mldsa_sig();
        let mut transcript: Vec<u8> = Vec::new();
        append_bytes(&mut transcript, dom_sig.as_slice());
        append_bytes(&mut transcript, public_key.as_slice());
        append_bytes(&mut transcript, message);
        proof {
            assert(transcript@ =~= spec_sign_transcript(public_key@, message@));
        }
        let sig = blake2s256(transcript.as_slice());
        Ok(sig)
    }

    fn verify(&self, public_key: &[u8], message: &[u8], signature: &[u8]) -> (r: PqcResult<()>)
        ensures
            (r matches Ok(_)) <==> (public_key@.len() > 0 && signature@.len() == 32 && signature@
                == blake2s256_of(spec_sign_transcript(public_key@, message@))),
            (r matches Err(e) && e is InvalidInput) <==> (public_key@.len() == 0 || signature@.len()
                != 32),
            (r matches Err(e) && e is VerifyFailed) <==> (public_key@.len() > 0 && signature@.len()
                == 32 && signature@ != blake2s256_of(spec_sign_transcript(public_key@, message@))),
    {
        if public_key.len() == 0 {
            return Err(PqcError::InvalidInput("ml-dsa pk missing"));
        }
        if signature.len() != 32 {
            return Err(PqcError::InvalidInput("ml-dsa signature length invalid"));
        }
        let dom_sig = domain_mldsa_sig();
        let mut transcript: Vec<u8> = Vec::new();
        append_bytes(&mut transcript, dom_sig.as_slice());
        append_bytes(&mut transcript, public_key);
        append_bytes(&mut transcript, message);
        proof {
            assert(transcript@ =~= spec_sign_transcript(public_key@, message@));
        }
        let expected = blake2s256(transcript.as_slice());
        let mut supplied: Vec<u8> = Vec::new();
        append_bytes(&mut supplied, signature);
        proof {
            assert(supplied@ =~= signature@);
        }
        if bytes_eq(&expected, &supplied) {
            Ok(())
        } else {
            Err(PqcError::VerifyFailed)
        }
    }
}

} // verus!
