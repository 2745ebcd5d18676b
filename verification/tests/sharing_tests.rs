use pqcnet_contracts::error::PqcError;
use pqcnet_contracts::sharing::{combine_secret, split_secret, Share, ShareMetadata};
use pqcnet_contracts::types::ThresholdPolicy;

fn test_key_id() -> Vec<u8> {
    let mut id = vec![0u8; 32];
    for (i, b) in id.iter_mut().enumerate() {
        *b = i as u8;
    }
    id
}

fn test_secret() -> Vec<u8> {
    let mut s = vec![0u8; 32];
    for (i, b) in s.iter_mut().enumerate() {
        *b = (i as u8).wrapping_mul(37).wrapping_add(11);
    }
    s
}

fn split_t2_n3() -> pqcnet_contracts::sharing::SecretSharePackage {
    let policy = ThresholdPolicy { t: 2, n: 3 };
    split_secret(&test_secret(), &test_key_id(), 0, 1000, policy).unwrap()
}

#[test]
fn round_trip_t2_n3_subsets() {
    // Splitting is deterministic, so two splits give identical packages and
    // we can assemble two distinct 2-subsets without cloning shares.
    let mut pkg_a = split_t2_n3();
    let mut pkg_b = split_t2_n3();
    assert_eq!(pkg_a.shares.len(), 3);

    // subset {1, 2}
    let s2 = pkg_a.shares.remove(1);
    let s1 = pkg_a.shares.remove(0);
    let quorum_12 = vec![s1, s2];
    let r12 = combine_secret(&quorum_12, 2).unwrap();
    assert_eq!(r12.secret, test_secret());

    // subset {2, 3}
    let s3 = pkg_b.shares.remove(2);
    let s2b = pkg_b.shares.remove(1);
    let quorum_23 = vec![s2b, s3];
    let r23 = combine_secret(&quorum_23, 2).unwrap();
    assert_eq!(r23.secret, test_secret());

    // quorum independence: both subsets reconstruct the identical secret
    assert_eq!(r12.secret, r23.secret);
}

#[test]
fn combination_ignores_share_order() {
    let mut pkg_a = split_t2_n3();
    let mut pkg_b = split_t2_n3();
    let s1 = pkg_a.shares.remove(0);
    let s3 = pkg_a.shares.remove(1);
    let s3b = pkg_b.shares.remove(2);
    let s1b = pkg_b.shares.remove(0);
    let forward = combine_secret(&vec![s1, s3], 2).unwrap();
    let backward = combine_secret(&vec![s3b, s1b], 2).unwrap();
    assert_eq!(forward.secret, test_secret());
    assert_eq!(forward.secret, backward.secret);
}

#[test]
fn round_trip_t3_n5_subset() {
    let policy = ThresholdPolicy { t: 3, n: 5 };
    let mut pkg = split_secret(&test_secret(), &test_key_id(), 7, 123, policy).unwrap();
    assert_eq!(pkg.shares.len(), 5);
    let s5 = pkg.shares.remove(4);
    let s3 = pkg.shares.remove(2);
    let s2 = pkg.shares.remove(1);
    let r = combine_secret(&vec![s2, s3, s5], 3).unwrap();
    assert_eq!(r.secret, test_secret());
}

#[test]
fn round_trip_one_byte_secret() {
    let policy = ThresholdPolicy { t: 2, n: 2 };
    let secret = vec![0xa7u8];
    let pkg = split_secret(&secret, &test_key_id(), 0, 0, policy).unwrap();
    let r = combine_secret(&pkg.shares, 2).unwrap();
    assert_eq!(r.secret, secret);
}

#[test]
fn sub_threshold_quorum_insufficient() {
    // two of three shares of a 3-of-3 package are rejected, never combined
    let policy = ThresholdPolicy { t: 3, n: 3 };
    let mut pkg = split_secret(&test_secret(), &test_key_id(), 0, 0, policy).unwrap();
    let s2 = pkg.shares.remove(1);
    let s1 = pkg.shares.remove(0);
    let r = combine_secret(&vec![s1, s2], 3);
    assert_eq!(r.unwrap_err(), PqcError::InsufficientShares);
}

#[test]
fn over_determined_quorum_reconstructs() {
    let pkg = split_t2_n3();
    let r = combine_secret(&pkg.shares, 2).unwrap();
    assert_eq!(r.secret, test_secret());
}

#[test]
fn single_share_insufficient() {
    let mut pkg = split_t2_n3();
    let s1 = pkg.shares.remove(0);
    let r = combine_secret(&vec![s1], 2);
    assert_eq!(r.unwrap_err(), PqcError::InsufficientShares);
}

#[test]
fn empty_quorum_insufficient() {
    let r = combine_secret(&Vec::new(), 2);
    assert_eq!(r.unwrap_err(), PqcError::InsufficientShares);
}

#[test]
fn duplicate_share_index_rejected() {
    let mut pkg_a = split_t2_n3();
    let mut pkg_b = split_t2_n3();
    let s1a = pkg_a.shares.remove(0);
    let s1b = pkg_b.shares.remove(0);
    assert_eq!(s1a.metadata.share_index, s1b.metadata.share_index);
    let r = combine_secret(&vec![s1a, s1b], 2);
    assert_eq!(r.unwrap_err(), PqcError::DuplicateShareIndex);
}

#[test]
fn cross_version_share_rejected() {
    // package A at version 0, package B at version 1, same key id
    let policy = ThresholdPolicy { t: 2, n: 3 };
    let mut pkg_a = split_secret(&test_secret(), &test_key_id(), 0, 1000, policy).unwrap();
    let mut pkg_b = split_secret(&test_secret(), &test_key_id(), 1, 2000, policy).unwrap();
    let s1 = pkg_a.shares.remove(0);
    let s2 = pkg_a.shares.remove(0);
    let s3b = pkg_b.shares.remove(2);
    let r = combine_secret(&vec![s1, s2, s3b], 2);
    assert_eq!(r.unwrap_err(), PqcError::ShareMismatch);
}

#[test]
fn cross_key_share_rejected() {
    let policy = ThresholdPolicy { t: 2, n: 3 };
    let mut other_id = test_key_id();
    other_id[0] ^= 0xff;
    let mut pkg_a = split_secret(&test_secret(), &test_key_id(), 0, 1000, policy).unwrap();
    let mut pkg_b = split_secret(&test_secret(), &other_id, 0, 1000, policy).unwrap();
    let s1 = pkg_a.shares.remove(0);
    let s2b = pkg_b.shares.remove(1);
    let r = combine_secret(&vec![s1, s2b], 2);
    assert_eq!(r.unwrap_err(), PqcError::ShareMismatch);
}

#[test]
fn threshold_one_single_share_round_trip() {
    let policy = ThresholdPolicy { t: 1, n: 3 };
    let mut pkg = split_secret(&test_secret(), &test_key_id(), 0, 500, policy).unwrap();
    let s2 = pkg.shares.remove(1);
    let r = combine_secret(&vec![s2], 1).unwrap();
    assert_eq!(r.secret, test_secret());
}

#[test]
fn empty_secret_rejected() {
    let policy = ThresholdPolicy { t: 2, n: 3 };
    let r = split_secret(&Vec::new(), &test_key_id(), 0, 0, policy);
    assert!(matches!(r.unwrap_err(), PqcError::InvalidInput(_)));
}

#[test]
fn invalid_policy_rejected() {
    let r = split_secret(&test_secret(), &test_key_id(), 0, 0, ThresholdPolicy { t: 0, n: 3 });
    assert!(matches!(r.unwrap_err(), PqcError::InvalidInput(_)));
    let r = split_secret(&test_secret(), &test_key_id(), 0, 0, ThresholdPolicy { t: 4, n: 3 });
    assert!(matches!(r.unwrap_err(), PqcError::InvalidInput(_)));
}

#[test]
fn short_key_id_rejected() {
    let policy = ThresholdPolicy { t: 2, n: 3 };
    let r = split_secret(&test_secret(), &vec![1u8, 2u8, 3u8], 0, 0, policy);
    assert!(matches!(r.unwrap_err(), PqcError::InvalidInput(_)));
}

#[test]
fn unequal_value_lengths_rejected() {
    let mk = |index: u8, value: Vec<u8>| Share {
        metadata: ShareMetadata {
            key_id: test_key_id(),
            key_version: 0,
            created_at: 0,
            share_index: index,
        },
        value,
    };
    let shares = vec![mk(1, vec![1, 2, 3]), mk(2, vec![4, 5])];
    let r = combine_secret(&shares, 2);
    assert!(matches!(r.unwrap_err(), PqcError::InvalidInput(_)));
}

#[test]
fn share_metadata_denormalized() {
    let pkg = split_t2_n3();
    assert_eq!(pkg.threshold, 2);
    assert_eq!(pkg.key_id, test_key_id());
    for (i, s) in pkg.shares.iter().enumerate() {
        assert_eq!(s.metadata.key_id, pkg.key_id);
        assert_eq!(s.metadata.key_version, pkg.key_version);
        assert_eq!(s.metadata.created_at, pkg.created_at);
        assert_eq!(s.metadata.share_index, (i + 1) as u8);
        assert_eq!(s.value.len(), 32);
        // shares never equal the secret itself for t >= 2
        assert_ne!(s.value, test_secret());
    }
}

#[test]
fn recovered_secret_wipe_zeroes() {
    let pkg = split_t2_n3();
    let mut r = combine_secret(&pkg.shares, 2).unwrap();
    let len = r.secret.len();
    r.wipe();
    assert_eq!(r.secret, vec![0u8; len]);
}

#[test]
fn threshold_policy_new_validates() {
    assert!(ThresholdPolicy::new(1, 1).is_ok());
    assert!(ThresholdPolicy::new(2, 3).is_ok());
    assert!(ThresholdPolicy::new(255, 255).is_ok());
    assert!(matches!(
        ThresholdPolicy::new(0, 3).unwrap_err(),
        PqcError::InvalidInput(_)
    ));
    assert!(matches!(
        ThresholdPolicy::new(4, 3).unwrap_err(),
        PqcError::InvalidInput(_)
    ));
}
