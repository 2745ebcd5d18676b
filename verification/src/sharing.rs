//! Threshold secret-sharing engine.
//!
//! A secret is split byte-wise: each byte is the constant term of an
//! independent degree-`(t-1)` polynomial over GF(2^8), evaluated at the share
//! indices `1..=n`. Any `t` shares recover the secret by Lagrange
//! interpolation at `x = 0`, independently per byte position. Coefficients
//! above the constant term are derived deterministically from the secret and
//! the key metadata through the domain-separated digest expansion, so a split
//! is a pure function of its arguments.

use crate::error::{PqcError, PqcResult};
use crate::gf256::{gf_inv, gf_mul, spec_gf_inv, spec_gf_mul};
use crate::hash::{append_bytes, bytes_eq, copy_bytes, expand_bytes, spec_expand_bytes};
use crate::types::{ThresholdPolicy, KEY_ID_LEN};
use vstd::bytes::{spec_u32_to_le_bytes, spec_u64_to_le_bytes, u32_to_le_bytes, u64_to_le_bytes};
use vstd::prelude::*;

verus! {

/// Identity of the share: which key, which version, which evaluation point.
#[derive(Debug)]
pub struct ShareMetadata {
    /// Identifier of the key lineage the share belongs to.
    pub key_id: Vec<u8>,
    /// Version of the key the share belongs to.
    pub key_version: u32,
    /// Creation timestamp (milliseconds) copied from the key state.
    pub created_at: u64,
    /// Evaluation point in `1..=n`; 0 is reserved for the secret itself.
    pub share_index: u8,
}

/// One custodial share: metadata plus one field element per secret byte.
#[derive(Debug)]
pub struct Share {
    /// Binding of the share to a key identity, version and index.
    pub metadata: ShareMetadata,
    /// Polynomial evaluations, one byte per byte of the secret.
    pub value: Vec<u8>,
}

/// The full output of one split.
#[derive(Debug)]
pub struct SecretSharePackage {
    /// Identifier of the key lineage, denormalized into every share.
    pub key_id: Vec<u8>,
    /// Version of the key, denormalized into every share.
    pub key_version: u32,
    /// Creation timestamp, denormalized into every share.
    pub created_at: u64,
    /// Reconstruction threshold the package was created with.
    pub threshold: u8,
    /// The `n` shares, ordered by ascending `share_index`.
    pub shares: Vec<Share>,
}

/// Output of a successful combination.
#[derive(Debug)]
pub struct RecoveredSecret {
    /// The reconstructed secret, byte-for-byte the original on a valid quorum.
    pub secret: Vec<u8>,
}

impl RecoveredSecret {
    /// Overwrites the recovered bytes with zeros, keeping the length, so a
    /// caller can release the secret deterministically on every exit path.
    pub fn wipe(&mut self)
        ensures
            final(self).secret@.len() == old(self).secret@.len(),
            forall|i: int| 0 <= i < final(self).secret@.len() ==> final(self).secret@[i] == 0u8,
    {
        let n = self.secret.len();
        let mut i: usize = 0;
        while i < n
            invariant
                n == self.secret@.len(),
                i <= n,
                forall|k: int| 0 <= k < i ==> self.secret@[k] == 0u8,
            decreases n - i,
        {
            self.secret.set(i, 0);
            i = i + 1;
        }
    }
}

/// Largest secret length one split accepts. The coefficient buffer holds
/// `t - 1 <= 254` derived bytes per secret byte, and the digest expansion
/// binds its total length as a 32-bit field, so the secret may hold at most
/// `u32::MAX / 254` = 16909320 bytes.
pub const MAX_SECRET_LEN: usize = 16909320;

/// Domain tag of the coefficient derivation.
pub open spec fn spec_domain_share_coeff() -> Seq<u8> {
    seq![
        0x50u8, 0x51u8, 0x43u8, 0x4eu8, 0x45u8, 0x54u8, 0x5fu8, 0x53u8, 0x48u8, 0x41u8, 0x52u8,
        0x45u8, 0x5fu8, 0x43u8, 0x4fu8, 0x45u8, 0x46u8, 0x46u8, 0x5fu8, 0x56u8, 0x31u8,
    ]
}

/// The bytes `PQCNET_SHARE_COEFF_V1`, the domain tag of coefficient derivation.
pub fn domain_share_coeff() -> (r: Vec<u8>)
    ensures
        r@ == spec_domain_share_coeff(),
{
    let r: Vec<u8> = vec![
        0x50u8, 0x51u8, 0x43u8, 0x4eu8, 0x45u8, 0x54u8, 0x5fu8, 0x53u8, 0x48u8, 0x41u8, 0x52u8,
        0x45u8, 0x5fu8, 0x43u8, 0x4fu8, 0x45u8, 0x46u8, 0x46u8, 0x5fu8, 0x56u8, 0x31u8,
    ];
    proof {
        assert(r@ =~= spec_domain_share_coeff());
    }
    r
}

/// Input of the coefficient derivation: metadata first, then the secret.
pub open spec fn spec_coeff_seed(
    secret: Seq<u8>,
    key_id: Seq<u8>,
    key_version: u32,
    created_at: u64,
) -> Seq<u8> {
    key_id + spec_u32_to_le_bytes(key_version) + spec_u64_to_le_bytes(created_at) + secret
}

/// All coefficients above the constant terms, as one buffer: coefficient `j`
/// (1-based) of the polynomial for byte `b` sits at `(j - 1) * len + b`.
pub open spec fn spec_split_coeffs(
    secret: Seq<u8>,
    key_id: Seq<u8>,
    key_version: u32,
    created_at: u64,
    t: u8,
) -> Seq<u8> {
    spec_expand_bytes(
        spec_domain_share_coeff(),
        spec_coeff_seed(secret, key_id, key_version, created_at),
        ((t - 1) * secret.len()) as nat,
    )
}

/// The polynomial for byte position `b`: the secret byte, then `t - 1` derived
/// coefficients, lowest degree first.
pub open spec fn spec_poly_at(secret: Seq<u8>, coeffs: Seq<u8>, b: int, t: u8) -> Seq<u8> {
    seq![secret[b]] + Seq::new((t - 1) as nat, |j: int| coeffs[j * secret.len() + b])
}

/// Horner evaluation over GF(2^8), lowest coefficient first.
pub open spec fn spec_poly_eval(cs: Seq<u8>, x: u8) -> u8
    decreases cs.len(),
{
    if cs.len() == 0 {
        0
    } else {
        cs[0] ^ spec_gf_mul(x, spec_poly_eval(cs.subrange(1, cs.len() as int), x))
    }
}

/// The value of the share at evaluation point `x`: every polynomial of the
/// split evaluated at `x`.
pub open spec fn spec_share_value(secret: Seq<u8>, coeffs: Seq<u8>, t: u8, x: u8) -> Seq<u8> {
    Seq::new(secret.len(), |b: int| spec_poly_eval(spec_poly_at(secret, coeffs, b, t), x))
}

/// What one split pins down about the share at position `k` of the package.
pub open spec fn spec_share_at(
    secret: Seq<u8>,
    key_id: Seq<u8>,
    key_version: u32,
    created_at: u64,
    t: u8,
    s: Share,
    k: int,
) -> bool {
    &&& s.metadata.key_id@ == key_id
    &&& s.metadata.key_version == key_version
    &&& s.metadata.created_at == created_at
    &&& s.metadata.share_index == k + 1
    &&& s.value@ == spec_share_value(
        secret,
        spec_split_coeffs(secret, key_id, key_version, created_at, t),
        t,
        (k + 1) as u8,
    )
}

/// Splits `secret` into `policy.n` shares, any `policy.t` of which recover it.
///
/// Rejected with `InvalidInput`: an empty secret, a policy breaking
/// `1 <= t <= n`, and a key identifier that is not 32 bytes long.
pub fn split_secret(
    secret: &Vec<u8>,
    key_id: &Vec<u8>,
    key_version: u32,
    created_at: u64,
    policy: ThresholdPolicy,
) -> (r: PqcResult<SecretSharePackage>)
    requires
        secret@.len() <= MAX_SECRET_LEN,
    ensures
        (r matches Ok(_)) <==> (secret@.len() > 0 && policy.valid() && key_id@.len()
            == KEY_ID_LEN),
        r matches Err(e) ==> e is InvalidInput,
        r matches Ok(pkg) ==> {
            &&& pkg.key_id@ == key_id@
            &&& pkg.key_version == key_version
            &&& pkg.created_at == created_at
            &&& pkg.threshold == policy.t
            &&& pkg.shares@.len() == policy.n as int
            &&& forall|k: int|
                0 <= k < policy.n as int ==> spec_share_at(
                    secret@,
                    key_id@,
                    key_version,
                    created_at,
                    policy.t,
                    #[trigger] pkg.shares@[k],
                    k,
                )
        },
{
    if secret.len() == 0 {
        return Err(PqcError::InvalidInput("secret must not be empty"));
    }
    if !(1 <= policy.t && policy.t <= policy.n) {
        return Err(PqcError::InvalidInput("threshold policy must satisfy 1 <= t <= n"));
    }
    if key_id.len() != KEY_ID_LEN {
        return Err(PqcError::InvalidInput("key id must be 32 bytes"));
    }
    let l = secret.len();
    let tm1 = (policy.t - 1) as usize;

    let mut seed: Vec<u8> = Vec::new();
    append_bytes(&mut seed, key_id.as_slice());
    let version_bytes = u32_to_le_bytes(key_version);
    append_bytes(&mut seed, version_bytes.as_slice());
    let created_bytes = u64_to_le_bytes(created_at);
    append_bytes(&mut seed, created_bytes.as_slice());
    append_bytes(&mut seed, secret.as_slice());
    proof {
        assert(seed@ =~= spec_coeff_seed(secret@, key_id@, key_version, created_at));
    }
    let dom = domain_share_coeff();
    proof {
        assert(tm1 * l <= 0xffff_fff0) by (nonlinear_arith)
            requires
                tm1 <= 254,
                0 <= l <= 16909320,
        ;
    }
    let coeffs = expand_bytes(dom.as_slice(), seed.as_slice(), tm1 * l);
    let ghost gcoeffs = spec_split_coeffs(secret@, key_id@, key_version, created_at, policy.t);
    proof {
        assert(coeffs@ == gcoeffs);
    }

    let n = policy.n as usize;
    let mut shares: Vec<Share> = Vec::new();
    let mut k: usize = 0;
    while k < n
        invariant
            n == policy.n as int,
            l == secret@.len(),
            0 < l <= MAX_SECRET_LEN,
            tm1 == policy.t - 1,
            1 <= policy.t <= policy.n,
            key_id@.len() == KEY_ID_LEN,
            coeffs@ == gcoeffs,
            gcoeffs == spec_split_coeffs(secret@, key_id@, key_version, created_at, policy.t),
            gcoeffs.len() == tm1 * l,
            tm1 * l <= 0xffff_fff0,
            k <= n,
            shares@.len() == k,
            forall|kk: int|
                0 <= kk < k ==> spec_share_at(
                    secret@,
                    key_id@,
                    key_version,
                    created_at,
                    policy.t,
                    #[trigger] shares@[kk],
                    kk,
                ),
        decreases n - k,
    {
        let x = (k + 1) as u8;
        let mut value: Vec<u8> = Vec::new();
        let mut b: usize = 0;
        while b < l
            invariant
                n == policy.n as int,
                l == secret@.len(),
                0 < l <= MAX_SECRET_LEN,
                tm1 == policy.t - 1,
                1 <= policy.t <= policy.n,
                coeffs@ == gcoeffs,
                gcoeffs.len() == tm1 * l,
                tm1 * l <= 0xffff_fff0,
                k < n,
                x == k + 1,
                b <= l,
                value@.len() == b,
                forall|bb: int|
                    0 <= bb < b ==> #[trigger] value@[bb] == spec_poly_eval(
                        spec_poly_at(secret@, gcoeffs, bb, policy.t),
                        x,
                    ),
            decreases l - b,
        {
            let mut poly: Vec<u8> = Vec::new();
            poly.push(secret[b]);
            let mut j: usize = 0;
            while j < tm1
                invariant
                    l == secret@.len(),
                    tm1 == policy.t - 1,
                    coeffs@ == gcoeffs,
                    gcoeffs.len() == tm1 * l,
                    tm1 * l <= 0xffff_fff0,
                    b < l,
                    j <= tm1,
                    poly@.len() == j + 1,
                    poly@[0] == secret@[b as int],
                    forall|jj: int|
                        1 <= jj < j + 1 ==> #[trigger] poly@[jj] == gcoeffs[(jj - 1) * l + b],
                decreases tm1 - j,
            {
                proof {
                    assert(j * l + b < tm1 * l) by (nonlinear_arith)
                        requires
                            0 <= j < tm1,
                            0 <= b < l,
                    ;
                }
                let c = coeffs[j * l + b];
                poly.push(c);
                proof {
                    assert(forall|jj: int|
                        1 <= jj < j + 2 ==> #[trigger] poly@[jj] == gcoeffs[(jj - 1) * l + b]);
                }
                j = j + 1;
            }
            proof {
                assert forall|i: int| 0 <= i < poly@.len() implies poly@[i] == spec_poly_at(
                    secret@,
                    gcoeffs,
                    b as int,
                    policy.t,
                )[i] by {
                    if i >= 1 {
                        assert(poly@[i] == gcoeffs[(i - 1) * l + b]);
                    }
                }
                assert(poly@ =~= spec_poly_at(secret@, gcoeffs, b as int, policy.t));
            }
            let y = eval_poly(&poly, x);
            value.push(y);
            b = b + 1;
        }
        proof {
            assert(value@ =~= spec_share_value(secret@, gcoeffs, policy.t, x));
        }
        let meta = ShareMetadata {
            key_id: copy_bytes(key_id),
            key_version,
            created_at,
            share_index: x,
        };
        shares.push(Share { metadata: meta, value });
        proof {
            assert(spec_share_at(secret@, key_id@, key_version, created_at, policy.t,
                shares@[k as int], k as int));
        }
        k = k + 1;
    }
    Ok(SecretSharePackage {
        key_id: copy_bytes(key_id),
        key_version,
        created_at,
        threshold: policy.t,
        shares,
    })
}

/// All shares selected from one split agree on metadata and have the
/// secret's value length; selection order does not matter.
proof fn lemma_selection_meta_coherent(
    secret: Seq<u8>,
    key_id: Seq<u8>,
    key_version: u32,
    created_at: u64,
    t: u8,
    quorum: Seq<Share>,
    positions: Seq<int>,
)
    requires
        secret.len() > 0,
        quorum.len() == positions.len(),
        quorum.len() > 0,
        forall|i: int|
            0 <= i < quorum.len() ==> spec_share_at(
                secret,
                key_id,
                key_version,
                created_at,
                t,
                quorum[i],
                #[trigger] positions[i],
            ),
    ensures
        spec_same_meta(quorum),
        spec_equal_lengths(quorum),
        quorum[0].value@.len() == secret.len(),
{
    assert forall|j: int| 0 <= j < quorum.len() implies {
        &&& (#[trigger] quorum[j]).metadata.key_id@ == quorum[0].metadata.key_id@
        &&& quorum[j].metadata.key_version == quorum[0].metadata.key_version
        &&& quorum[j].metadata.created_at == quorum[0].metadata.created_at
        &&& quorum[j].value@.len() == quorum[0].value@.len()
    } by {
        assert(spec_share_at(secret, key_id, key_version, created_at, t, quorum[j], positions[j]));
        assert(spec_share_at(secret, key_id, key_version, created_at, t, quorum[0], positions[0]));
        assert(quorum[j].value@.len() == secret.len());
        assert(quorum[0].value@.len() == secret.len());
    }
    assert(spec_share_at(secret, key_id, key_version, created_at, t, quorum[0], positions[0]));
    assert(quorum[0].value@.len() == secret.len());
}

/// Shares selected from distinct positions of one split carry pairwise
/// distinct evaluation points.
proof fn lemma_selection_distinct_indices(
    secret: Seq<u8>,
    key_id: Seq<u8>,
    key_version: u32,
    created_at: u64,
    t: u8,
    quorum: Seq<Share>,
    positions: Seq<int>,
)
    requires
        quorum.len() == positions.len(),
        forall|i: int, j: int|
            0 <= i < j < positions.len() ==> positions[i] != positions[j],
        forall|i: int|
            0 <= i < quorum.len() ==> spec_share_at(
                secret,
                key_id,
                key_version,
                created_at,
                t,
                quorum[i],
                #[trigger] positions[i],
            ),
    ensures
        !spec_has_duplicate(quorum),
{
    assert forall|i: int, j: int|
        0 <= i < j < quorum.len() implies (#[trigger] quorum[i]).metadata.share_index != (
    #[trigger] quorum[j]).metadata.share_index by {
        assert(spec_share_at(secret, key_id, key_version, created_at, t, quorum[i], positions[i]));
        assert(spec_share_at(secret, key_id, key_version, created_at, t, quorum[j], positions[j]));
        assert(quorum[i].metadata.share_index == positions[i] + 1);
        assert(quorum[j].metadata.share_index == positions[j] + 1);
    }
}

/// Law (quorum acceptance): any selection of at least `policy.t` distinct
/// shares of one split passes every combine-time check — the shares agree on
/// metadata, carry pairwise distinct indices, and have equal non-zero value
/// lengths — so `combine_secret` returns `Ok` on it, never an error.
///
/// `positions[i]` is the position in the package of the `i`-th share of the
/// quorum; distinct positions model a set of distinct shares in any order.
pub proof fn lemma_split_quorum_accepted(
    secret: Seq<u8>,
    key_id: Seq<u8>,
    key_version: u32,
    created_at: u64,
    policy: ThresholdPolicy,
    quorum: Seq<Share>,
    positions: Seq<int>,
)
    requires
        secret.len() > 0,
        policy.valid(),
        quorum.len() == positions.len(),
        quorum.len() >= policy.t,
        forall|i: int, j: int|
            0 <= i < j < positions.len() ==> positions[i] != positions[j],
        forall|i: int|
            0 <= i < quorum.len() ==> spec_share_at(
                secret,
                key_id,
                key_version,
                created_at,
                policy.t,
                quorum[i],
                #[trigger] positions[i],
            ),
    ensures
        spec_combine_ok(quorum, policy.t),
{
    lemma_selection_meta_coherent(
        secret,
        key_id,
        key_version,
        created_at,
        policy.t,
        quorum,
        positions,
    );
    lemma_selection_distinct_indices(
        secret,
        key_id,
        key_version,
        created_at,
        policy.t,
        quorum,
        positions,
    );
}

/// Law (sub-threshold rejection): fewer than `policy.t` distinct shares of
/// one split meet exactly the conditions under which `combine_secret`
/// returns `InsufficientShares` — by its contract the call is never `Ok`, so
/// a short quorum can never yield a wrong secret.
pub proof fn lemma_sub_threshold_quorum_rejected(
    secret: Seq<u8>,
    key_id: Seq<u8>,
    key_version: u32,
    created_at: u64,
    policy: ThresholdPolicy,
    quorum: Seq<Share>,
    positions: Seq<int>,
)
    requires
        secret.len() > 0,
        policy.valid(),
        quorum.len() == positions.len(),
        quorum.len() < policy.t,
        forall|i: int, j: int|
            0 <= i < j < positions.len() ==> positions[i] != positions[j],
        forall|i: int|
            0 <= i < quorum.len() ==> spec_share_at(
                secret,
                key_id,
                key_version,
                created_at,
                policy.t,
                quorum[i],
                #[trigger] positions[i],
            ),
    ensures
        !spec_combine_ok(quorum, policy.t),
        quorum.len() == 0 || (spec_same_meta(quorum) && !spec_has_duplicate(quorum)
            && quorum.len() < policy.t),
{
    if quorum.len() > 0 {
        lemma_selection_meta_coherent(
            secret,
            key_id,
            key_version,
            created_at,
            policy.t,
            quorum,
            positions,
        );
        lemma_selection_distinct_indices(
            secret,
            key_id,
            key_version,
            created_at,
            policy.t,
            quorum,
            positions,
        );
    }
}

/// Law (cross-key rejection): a quorum holding one share of a split and one
/// share of another split that differs in key id, key version or timestamp
/// meets exactly the conditions under which `combine_secret` returns
/// `ShareMismatch`: such shares are never interpolated together.
pub proof fn lemma_cross_key_mix_rejected(
    secret_a: Seq<u8>,
    key_id_a: Seq<u8>,
    version_a: u32,
    created_a: u64,
    t_a: u8,
    pos_a: int,
    secret_b: Seq<u8>,
    key_id_b: Seq<u8>,
    version_b: u32,
    created_b: u64,
    t_b: u8,
    pos_b: int,
    quorum: Seq<Share>,
    i: int,
    j: int,
)
    requires
        0 <= i < quorum.len(),
        0 <= j < quorum.len(),
        spec_share_at(secret_a, key_id_a, version_a, created_a, t_a, quorum[i], pos_a),
        spec_share_at(secret_b, key_id_b, version_b, created_b, t_b, quorum[j], pos_b),
        key_id_a != key_id_b || version_a != version_b || created_a != created_b,
    ensures
        quorum.len() > 0,
        !spec_same_meta(quorum),
{
    if spec_same_meta(quorum) {
        assert(quorum[i].metadata.key_id@ == quorum[0].metadata.key_id@);
        assert(quorum[j].metadata.key_id@ == quorum[0].metadata.key_id@);
        assert(quorum[i].metadata.key_version == quorum[0].metadata.key_version);
        assert(quorum[j].metadata.key_version == quorum[0].metadata.key_version);
        assert(quorum[i].metadata.created_at == quorum[0].metadata.created_at);
        assert(quorum[j].metadata.created_at == quorum[0].metadata.created_at);
        assert(false);
    }
}

/// Law (duplicate rejection): a quorum of shares of one split in which two
/// entries stand for the same package position carries the same evaluation
/// point twice, and so meets exactly the conditions under which
/// `combine_secret` returns `DuplicateShareIndex`.
pub proof fn lemma_duplicate_share_rejected(
    secret: Seq<u8>,
    key_id: Seq<u8>,
    key_version: u32,
    created_at: u64,
    t: u8,
    quorum: Seq<Share>,
    positions: Seq<int>,
    i: int,
    j: int,
)
    requires
        secret.len() > 0,
        quorum.len() == positions.len(),
        0 <= i < j < quorum.len(),
        positions[i] == positions[j],
        forall|p: int|
            0 <= p < quorum.len() ==> spec_share_at(
                secret,
                key_id,
                key_version,
                created_at,
                t,
                quorum[p],
                #[trigger] positions[p],
            ),
    ensures
        quorum.len() > 0,
        spec_same_meta(quorum),
        spec_has_duplicate(quorum),
{
    lemma_selection_meta_coherent(secret, key_id, key_version, created_at, t, quorum, positions);
    assert(spec_share_at(secret, key_id, key_version, created_at, t, quorum[i], positions[i]));
    assert(spec_share_at(secret, key_id, key_version, created_at, t, quorum[j], positions[j]));
    assert(quorum[i].metadata.share_index == positions[i] + 1);
    assert(quorum[j].metadata.share_index == positions[j] + 1);
    assert(spec_has_duplicate(quorum));
}

/// Law (round trip, single-share fragment): for a split with threshold 1,
/// combining any one of its shares yields the original secret byte for byte.
/// The same identity for thresholds above 1 rests on the Lagrange
/// interpolation theorem over GF(2^8), which is exercised by tests rather
/// than proved here.
pub proof fn lemma_single_share_round_trip(
    secret: Seq<u8>,
    key_id: Seq<u8>,
    key_version: u32,
    created_at: u64,
    s: Share,
    k: int,
)
    requires
        secret.len() > 0,
        spec_share_at(secret, key_id, key_version, created_at, 1, s, k),
    ensures
        spec_recovered(seq![s]) == secret,
{
    let coeffs = spec_split_coeffs(secret, key_id, key_version, created_at, 1);
    let x = s.metadata.share_index;
    let shares = seq![s];
    let xs = spec_indices(shares);
    assert(xs.len() == 1);
    assert(spec_weight_partial(xs, 0, 1) == spec_weight_partial(xs, 0, 0));
    assert(spec_weight(xs, 0) == 1);
    assert(s.value@.len() == secret.len());
    assert forall|b: int| 0 <= b < secret.len() implies s.value@[b] == secret[b] by {
        let poly = spec_poly_at(secret, coeffs, b, 1);
        assert(poly =~= seq![secret[b]]);
        assert(poly.subrange(1, 1) =~= Seq::<u8>::empty());
        assert(spec_poly_eval(Seq::<u8>::empty(), x) == 0);
        crate::gf256::lemma_gf_mul_zero(x);
        assert(spec_poly_eval(poly, x) == secret[b] ^ spec_gf_mul(x, 0u8));
        let sb = secret[b];
        assert(sb ^ 0u8 == sb) by (bit_vector);
    }
    assert forall|b: int| 0 <= b < secret.len() implies spec_recovered_byte(shares, b) == secret[b]
        by {
        crate::gf256::lemma_gf_mul_one(shares[0].value@[b]);
        assert(spec_combined_partial(shares, xs, b, 1) == spec_combined_partial(shares, xs, b, 0)
            ^ spec_gf_mul(shares[0].value@[b], spec_weight(xs, 0)));
        let vb = s.value@[b];
        assert(0u8 ^ vb == vb) by (bit_vector);
    }
    assert(spec_recovered(shares) =~= secret);
}

/// Law (quorum independence, single-share fragment): any two shares of the
/// same threshold-1 split reconstruct the identical secret, whichever share
/// the quorum holds.
pub proof fn lemma_single_share_quorum_independence(
    secret: Seq<u8>,
    key_id: Seq<u8>,
    key_version: u32,
    created_at: u64,
    s1: Share,
    k1: int,
    s2: Share,
    k2: int,
)
    requires
        secret.len() > 0,
        spec_share_at(secret, key_id, key_version, created_at, 1, s1, k1),
        spec_share_at(secret, key_id, key_version, created_at, 1, s2, k2),
    ensures
        spec_recovered(seq![s1]) == spec_recovered(seq![s2]),
{
    lemma_single_share_round_trip(secret, key_id, key_version, created_at, s1, k1);
    lemma_single_share_round_trip(secret, key_id, key_version, created_at, s2, k2);
}

/// All shares agree with the first one on key id, version and timestamp.
pub open spec fn spec_same_meta(shares: Seq<Share>) -> bool {
    forall|j: int|
        0 <= j < shares.len() ==> {
            &&& (#[trigger] shares[j]).metadata.key_id@ == shares[0].metadata.key_id@
            &&& shares[j].metadata.key_version == shares[0].metadata.key_version
            &&& shares[j].metadata.created_at == shares[0].metadata.created_at
        }
}

/// Two shares of the call carry the same evaluation point.
pub open spec fn spec_has_duplicate(shares: Seq<Share>) -> bool {
    exists|i: int, j: int|
        0 <= i < j < shares.len() && (#[trigger] shares[i]).metadata.share_index == (
        #[trigger] shares[j]).metadata.share_index
}

/// Every share carries as many value bytes as the first one.
pub open spec fn spec_equal_lengths(shares: Seq<Share>) -> bool {
    forall|j: int|
        0 <= j < shares.len() ==> (#[trigger] shares[j]).value@.len()
            == shares[0].value@.len()
}

/// A combine call succeeds exactly on a non-empty, metadata-consistent,
/// duplicate-free quorum of at least `threshold` shares of equal, non-zero
/// value length.
pub open spec fn spec_combine_ok(shares: Seq<Share>, threshold: u8) -> bool {
    &&& shares.len() > 0
    &&& spec_same_meta(shares)
    &&& !spec_has_duplicate(shares)
    &&& shares.len() >= threshold
    &&& spec_equal_lengths(shares)
    &&& shares[0].value@.len() > 0
}

/// Product of the first `k` factors of the Lagrange basis coefficient at
/// `x = 0` for the point at position `j`: for every other position `p < k`,
/// the factor `x_p / (x_p - x_j)` in GF(2^8).
pub open spec fn spec_weight_partial(xs: Seq<u8>, j: int, k: int) -> u8
    decreases k,
{
    if k <= 0 {
        1
    } else if k - 1 == j {
        spec_weight_partial(xs, j, k - 1)
    } else {
        spec_gf_mul(
            spec_weight_partial(xs, j, k - 1),
            spec_gf_mul(xs[k - 1], spec_gf_inv(xs[k - 1] ^ xs[j])),
        )
    }
}

/// Lagrange basis coefficient at `x = 0` for the point at position `j`.
pub open spec fn spec_weight(xs: Seq<u8>, j: int) -> u8 {
    spec_weight_partial(xs, j, xs.len() as int)
}

/// The evaluation points of the shares, in call order.
pub open spec fn spec_indices(shares: Seq<Share>) -> Seq<u8> {
    Seq::new(shares.len(), |j: int| shares[j].metadata.share_index)
}

/// XOR of `value[b] * weight(j)` over the first `j` shares.
pub open spec fn spec_combined_partial(shares: Seq<Share>, xs: Seq<u8>, b: int, j: int) -> u8
    decreases j,
{
    if j <= 0 {
        0
    } else {
        spec_combined_partial(shares, xs, b, j - 1) ^ spec_gf_mul(
            shares[j - 1].value@[b],
            spec_weight(xs, j - 1),
        )
    }
}

/// Byte `b` of the reconstruction: Lagrange interpolation at `x = 0` over all
/// supplied points, for byte position `b`.
pub open spec fn spec_recovered_byte(shares: Seq<Share>, b: int) -> u8 {
    spec_combined_partial(shares, spec_indices(shares), b, shares.len() as int)
}

/// The reconstructed secret: one interpolated byte per value position.
pub open spec fn spec_recovered(shares: Seq<Share>) -> Seq<u8> {
    Seq::new(shares[0].value@.len(), |b: int| spec_recovered_byte(shares, b))
}

/// Combines a quorum of shares back into the secret by Lagrange interpolation
/// at `x = 0`, independently per byte position.
///
/// `threshold` is the reconstruction threshold the caller expects; the shares
/// themselves do not carry it. Validation order, each step a distinct error:
/// empty input, then metadata agreement, then duplicate indices, then the
/// quorum size, then equal non-zero value lengths.
pub fn combine_secret(shares: &Vec<Share>, threshold: u8) -> (r: PqcResult<RecoveredSecret>)
    ensures
        (r matches Ok(_)) <==> spec_combine_ok(shares@, threshold),
        r matches Ok(rs) ==> rs.secret@ == spec_recovered(shares@),
        (r matches Err(e) && e is InsufficientShares) <==> (shares@.len() == 0 || (
        spec_same_meta(shares@) && !spec_has_duplicate(shares@) && shares@.len() < threshold)),
        (r matches Err(e) && e is ShareMismatch) <==> (shares@.len() > 0 && !spec_same_meta(
            shares@,
        )),
        (r matches Err(e) && e is DuplicateShareIndex) <==> (shares@.len() > 0 && spec_same_meta(
            shares@,
        ) && spec_has_duplicate(shares@)),
        (r matches Err(e) && e is InvalidInput) <==> (shares@.len() > 0 && spec_same_meta(shares@)
            && !spec_has_duplicate(shares@) && shares@.len() >= threshold && !(spec_equal_lengths(
            shares@,
        ) && shares@[0].value@.len() > 0)),
{
    let m = shares.len();
    if m == 0 {
        return Err(PqcError::InsufficientShares);
    }

    let mut j: usize = 1;
    while j < m
        invariant
            m == shares@.len(),
            1 <= j <= m,
            forall|q: int|
                0 <= q < j ==> {
                    &&& (#[trigger] shares@[q]).metadata.key_id@ == shares@[0].metadata.key_id@
                    &&& shares@[q].metadata.key_version == shares@[0].metadata.key_version
                    &&& shares@[q].metadata.created_at == shares@[0].metadata.created_at
                },
        decreases m - j,
    {
        let same = bytes_eq(&shares[j].metadata.key_id, &shares[0].metadata.key_id)
            && shares[j].metadata.key_version == shares[0].metadata.key_version
            && shares[j].metadata.created_at == shares[0].metadata.created_at;
        if !same {
            proof {
                assert(!spec_same_meta(shares@));
            }
            return Err(PqcError::ShareMismatch);
        }
        j = j + 1;
    }
    proof {
        assert(spec_same_meta(shares@));
    }

    let mut i: usize = 0;
    while i < m
        invariant
            m == shares@.len(),
            spec_same_meta(shares@),
            i <= m,
            forall|p: int, q: int|
                0 <= p < q < m && p < i ==> (#[trigger] shares@[p]).metadata.share_index != (
                #[trigger] shares@[q]).metadata.share_index,
        decreases m - i,
    {
        let mut q: usize = i + 1;
        while q < m
            invariant
                m == shares@.len(),
                spec_same_meta(shares@),
                i < m,
                i < q <= m,
                forall|qq: int|
                    i < qq < q ==> (#[trigger] shares@[qq]).metadata.share_index != shares@[
                        i as int].metadata.share_index,
            decreases m - q,
        {
            if shares[i].metadata.share_index == shares[q].metadata.share_index {
                proof {
                    assert(spec_has_duplicate(shares@));
                }
                return Err(PqcError::DuplicateShareIndex);
            }
            q = q + 1;
        }
        i = i + 1;
    }
    proof {
        assert(!spec_has_duplicate(shares@));
    }

    if m < threshold as usize {
        return Err(PqcError::InsufficientShares);
    }

    let width = shares[0].value.len();
    if width == 0 {
        return Err(PqcError::InvalidInput("share values must not be empty"));
    }
    let mut j: usize = 1;
    while j < m
        invariant
            m == shares@.len(),
            spec_same_meta(shares@),
            !spec_has_duplicate(shares@),
            threshold as int <= m,
            width == shares@[0].value@.len(),
            1 <= j <= m,
            forall|q: int| 0 <= q < j ==> (#[trigger] shares@[q]).value@.len() == width,
        decreases m - j,
    {
        if shares[j].value.len() != width {
            proof {
                assert(!spec_equal_lengths(shares@));
            }
            return Err(PqcError::InvalidInput("share values must have equal length"));
        }
        j = j + 1;
    }

    let ghost gxs = spec_indices(shares@);
    let mut xs: Vec<u8> = Vec::new();
    let mut j: usize = 0;
    while j < m
        invariant
            m == shares@.len(),
            gxs == spec_indices(shares@),
            j <= m,
            xs@.len() == j,
            forall|q: int| 0 <= q < j ==> #[trigger] xs@[q] == gxs[q],
        decreases m - j,
    {
        xs.push(shares[j].metadata.share_index);
        j = j + 1;
    }
    proof {
        assert(xs@ =~= gxs);
    }

    let mut weights: Vec<u8> = Vec::new();
    let mut j: usize = 0;
    while j < m
        invariant
            m == shares@.len(),
            m == xs@.len(),
            gxs == spec_indices(shares@),
            xs@ == gxs,
            j <= m,
            weights@.len() == j,
            forall|q: int| 0 <= q < j ==> #[trigger] weights@[q] == spec_weight(gxs, q),
        decreases m - j,
    {
        let mut w: u8 = 1;
        let mut k: usize = 0;
        while k < m
            invariant
                m == shares@.len(),
                m == xs@.len(),
                xs@ == gxs,
                j < m,
                k <= m,
                w == spec_weight_partial(gxs, j as int, k as int),
            decreases m - k,
        {
            if k != j {
                let d = xs[k] ^ xs[j];
                let inv = gf_inv(d);
                let term = gf_mul(xs[k], inv);
                w = gf_mul(w, term);
            }
            k = k + 1;
        }
        weights.push(w);
        j = j + 1;
    }

    let mut secret: Vec<u8> = Vec::new();
    let mut b: usize = 0;
    while b < width
        invariant
            m == shares@.len(),
            m == weights@.len(),
            m >= 1,
            gxs == spec_indices(shares@),
            width == shares@[0].value@.len(),
            spec_equal_lengths(shares@),
            forall|q: int| 0 <= q < m ==> #[trigger] weights@[q] == spec_weight(gxs, q),
            b <= width,
            secret@.len() == b,
            forall|bb: int|
                0 <= bb < b ==> #[trigger] secret@[bb] == spec_recovered_byte(shares@, bb),
        decreases width - b,
    {
        let mut acc: u8 = 0;
        let mut j: usize = 0;
        while j < m
            invariant
                m == shares@.len(),
                m == weights@.len(),
                gxs == spec_indices(shares@),
                width == shares@[0].value@.len(),
                spec_equal_lengths(shares@),
                forall|q: int| 0 <= q < m ==> #[trigger] weights@[q] == spec_weight(gxs, q),
                b < width,
                j <= m,
                acc == spec_combined_partial(shares@, gxs, b as int, j as int),
            decreases m - j,
        {
            let y = shares[j].value[b];
            let term = gf_mul(y, weights[j]);
            acc = acc ^ term;
            j = j + 1;
        }
        secret.push(acc);
        b = b + 1;
    }
    proof {
        assert(secret@ =~= spec_recovered(shares@));
    }
    Ok(RecoveredSecret { secret })
}

/// Evaluates the polynomial `cs` (lowest coefficient first) at `x`.
pub fn eval_poly(cs: &Vec<u8>, x: u8) -> (r: u8)
    ensures
        r == spec_poly_eval(cs@, x),
{
    let mut acc: u8 = 0;
    let mut i: usize = cs.len();
    proof {
        assert(cs@.subrange(i as int, cs@.len() as int) =~= Seq::<u8>::empty());
    }
    while i > 0
        invariant
            i <= cs@.len(),
            acc == spec_poly_eval(cs@.subrange(i as int, cs@.len() as int), x),
        decreases i,
    {
        i = i - 1;
        let m = gf_mul(x, acc);
        proof {
            let tail = cs@.subrange(i as int, cs@.len() as int);
            assert(tail.subrange(1, tail.len() as int) =~= cs@.subrange(
                i + 1,
                cs@.len() as int,
            ));
            assert(tail[0] == cs@[i as int]);
        }
        acc = cs[i] ^ m;
    }
    proof {
        assert(cs@.subrange(0, cs@.len() as int) =~= cs@);
    }
    acc
}

} // verus!
