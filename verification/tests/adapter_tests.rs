use pqcnet_contracts::adapters::{DemoMlDsa, DemoMlKem};
use pqcnet_contracts::dsa::MlDsa;
use pqcnet_contracts::error::PqcError;
use pqcnet_contracts::gf256::{gf_add, gf_inv, gf_mul};
use pqcnet_contracts::hash::expand_bytes;
use pqcnet_contracts::kem::MlKem;
use pqcnet_contracts::types::SecurityLevel;

#[test]
fn kem_level_reported() {
    assert_eq!(DemoMlKem::new().level(), SecurityLevel::MlKem128);
    assert_eq!(DemoMlDsa::new().level(), SecurityLevel::MlDsa128);
}

#[test]
fn kem_keygen_shapes() {
    let mut kem = DemoMlKem::new();
    let kp = kem.keygen().unwrap();
    assert_eq!(kp.public_key.len(), 32);
    assert_eq!(kp.secret_key.len(), 32);
    assert_eq!(kp.level, SecurityLevel::MlKem128);
    // the public key is a domain-separated digest of the seed, not the seed
    assert_ne!(kp.public_key, kp.secret_key);
}

#[test]
fn kem_keygen_consecutive_calls_differ() {
    let mut kem = DemoMlKem::new();
    let kp1 = kem.keygen().unwrap();
    let kp2 = kem.keygen().unwrap();
    assert_ne!(kp1.secret_key, kp2.secret_key);
    assert_ne!(kp1.public_key, kp2.public_key);
}

#[test]
fn kem_encapsulate_decapsulate_agree() {
    let mut kem = DemoMlKem::new();
    let kp = kem.keygen().unwrap();
    let enc = kem.encapsulate(&kp.public_key).unwrap();
    assert_eq!(enc.ciphertext.len(), 48);
    assert_eq!(enc.shared_secret.len(), 32);
    let ss = kem.decapsulate(&kp.secret_key, &enc.ciphertext).unwrap();
    assert_eq!(ss, enc.shared_secret);
}

#[test]
fn kem_empty_inputs_rejected() {
    let kem = DemoMlKem::new();
    assert!(matches!(
        kem.encapsulate(&[]).unwrap_err(),
        PqcError::InvalidInput(_)
    ));
    assert!(matches!(
        kem.decapsulate(&[1, 2, 3], &[]).unwrap_err(),
        PqcError::InvalidInput(_)
    ));
    // an empty secret key is rejected even with a valid ciphertext
    assert!(matches!(
        kem.decapsulate(&[], &[9u8; 48]).unwrap_err(),
        PqcError::InvalidInput(_)
    ));
}

#[test]
fn key_pair_wipe_zeroes_secret() {
    let mut kem = DemoMlKem::new();
    let mut kp = kem.keygen().unwrap();
    let pk = kp.public_key.clone();
    kp.wipe();
    assert_eq!(kp.secret_key, vec![0u8; 32]);
    assert_eq!(kp.public_key, pk);

    let mut dsa = DemoMlDsa::new();
    let mut dkp = dsa.keygen().unwrap();
    dkp.wipe();
    assert_eq!(dkp.secret_key, vec![0u8; 32]);
}

#[test]
fn dsa_sign_verify_round_trip() {
    let mut dsa = DemoMlDsa::new();
    let kp = dsa.keygen().unwrap();
    let msg = b"threshold custody message".to_vec();
    let sig = dsa.sign(&kp.secret_key, &msg).unwrap();
    assert_eq!(sig.len(), 32);
    assert_ne!(sig, msg);
    assert!(dsa.verify(&kp.public_key, &msg, &sig).is_ok());
}

#[test]
fn dsa_sign_is_deterministic() {
    let mut dsa = DemoMlDsa::new();
    let kp = dsa.keygen().unwrap();
    let msg = vec![9u8; 16];
    let s1 = dsa.sign(&kp.secret_key, &msg).unwrap();
    let s2 = dsa.sign(&kp.secret_key, &msg).unwrap();
    assert_eq!(s1, s2);
}

#[test]
fn dsa_verify_rejects_wrong_message() {
    let mut dsa = DemoMlDsa::new();
    let kp = dsa.keygen().unwrap();
    let sig = dsa.sign(&kp.secret_key, b"alpha".as_slice()).unwrap();
    let r = dsa.verify(&kp.public_key, b"beta".as_slice(), &sig);
    assert_eq!(r.unwrap_err(), PqcError::VerifyFailed);
}

#[test]
fn dsa_verify_rejects_malformed_inputs() {
    let mut dsa = DemoMlDsa::new();
    let kp = dsa.keygen().unwrap();
    let sig = dsa.sign(&kp.secret_key, b"m".as_slice()).unwrap();
    assert!(matches!(
        dsa.verify(&[], b"m".as_slice(), &sig).unwrap_err(),
        PqcError::InvalidInput(_)
    ));
    assert!(matches!(
        dsa.verify(&kp.public_key, b"m".as_slice(), &sig[..31]).unwrap_err(),
        PqcError::InvalidInput(_)
    ));
    assert!(matches!(
        dsa.sign(&[], b"m".as_slice()).unwrap_err(),
        PqcError::InvalidInput(_)
    ));
}

#[test]
fn expand_bytes_lengths_and_determinism() {
    let dom = b"EXPAND_TEST_DOMAIN".to_vec();
    let input = b"input".to_vec();
    assert!(expand_bytes(&dom, &input, 0).is_empty());
    assert_eq!(expand_bytes(&dom, &input, 5).len(), 5);
    let long = expand_bytes(&dom, &input, 64);
    assert_eq!(long.len(), 64);
    // distinct counters make the two halves differ
    assert_ne!(&long[..32], &long[32..]);
    // deterministic on equal inputs
    assert_eq!(long, expand_bytes(&dom, &input, 64));
    // the expansion is a digest of the input, not the input itself
    let same_len = expand_bytes(&dom, &input, input.len());
    assert_ne!(same_len, input);
    // domain separation keeps equal inputs apart
    let other = expand_bytes(b"EXPAND_TEST_DOMAIN2".as_slice(), &input, 64);
    assert_ne!(long, other);
}

#[test]
fn gf256_known_values() {
    assert_eq!(gf_add(0x53, 0x53), 0);
    assert_eq!(gf_add(0x0f, 0xf0), 0xff);
    assert_eq!(gf_mul(3, 7), 9);
    assert_eq!(gf_mul(7, 3), 9);
    assert_eq!(gf_mul(0, 0xab), 0);
    assert_eq!(gf_mul(0xab, 0), 0);
    assert_eq!(gf_mul(1, 0xab), 0xab);
    assert_eq!(gf_mul(0xab, 1), 0xab);
    // the classic AES inverse pair
    assert_eq!(gf_mul(0x53, 0xca), 1);
    assert_eq!(gf_inv(0x53), 0xca);
    assert_eq!(gf_inv(0), 0);
    // every nonzero element has a working inverse at a few sample points
    for a in [1u8, 2, 7, 0x1b, 0x80, 0xfe, 0xff] {
        assert_eq!(gf_mul(a, gf_inv(a)), 1);
    }
}
