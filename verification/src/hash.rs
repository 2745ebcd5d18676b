//! Deterministic byte expansion built on the BLAKE2s-256 digest.
//!
//! `expand_bytes` stretches an input to any requested length by hashing
//! `domain || len || input || counter` for counter = 0, 1, ... and
//! concatenating the digests, truncating the last block. The domain tag keeps
//! expansions for different purposes apart even on equal inputs.

use vstd::bytes::{spec_u32_to_le_bytes, u32_to_le_bytes};
use vstd::prelude::*;

verus! {

/// The BLAKE2s-256 digest of `input`: 32 bytes, a function of the input alone.
pub uninterp spec fn blake2s256_of(input: Seq<u8>) -> Seq<u8>;

/// Relies on `blake2::Blake2s256` through `digest::Digest::digest`: the
/// 32-byte BLAKE2s-256 digest of the input, computed from those bytes alone.
#[verifier::external_body]
pub fn blake2s256(input: &[u8]) -> (r: Vec<u8>)
    ensures
        r@ == blake2s256_of(input@),
        r@.len() == 32,
{
    <blake2::Blake2s256 as digest::Digest>::digest(input).to_vec()
}

/// Appends all of `src` to `dst`.
pub fn append_bytes(dst: &mut Vec<u8>, src: &[u8])
    ensures
        final(dst)@ == old(dst)@ + src@,
{
    dst.extend_from_slice(src);
    proof {
        assert(dst@ =~= old(dst)@ + src@);
    }
}

/// Returns a fresh buffer holding the same bytes as `src`.
pub fn copy_bytes(src: &Vec<u8>) -> (r: Vec<u8>)
    ensures
        r@ == src@,
{
    let mut r: Vec<u8> = Vec::new();
    append_bytes(&mut r, src.as_slice());
    proof {
        assert(r@ =~= src@);
    }
    r
}

/// Compares two byte buffers for equality of contents.
pub fn bytes_eq(a: &Vec<u8>, b: &Vec<u8>) -> (r: bool)
    ensures
        r == (a@ == b@),
{
    if a.len() != b.len() {
        return false;
    }
    let n = a.len();
    let mut i: usize = 0;
    while i < n
        invariant
            n == a@.len(),
            n == b@.len(),
            i <= n,
            forall|k: int| 0 <= k < i ==> a@[k] == b@[k],
        decreases n - i,
    {
        if a[i] != b[i] {
            return false;
        }
        i = i + 1;
    }
    proof {
        assert(a@ =~= b@);
    }
    true
}

/// Appends the first `k` bytes of `src` to `dst`.
pub fn append_prefix(dst: &mut Vec<u8>, src: &Vec<u8>, k: usize)
    requires
        k <= src@.len(),
    ensures
        final(dst)@ == old(dst)@ + src@.take(k as int),
{
    let mut i: usize = 0;
    while i < k
        invariant
            i <= k,
            k <= src@.len(),
            dst@ == old(dst)@ + src@.take(i as int),
        decreases k - i,
    {
        let b = src[i];
        dst.push(b);
        proof {
            assert(dst@ =~= old(dst)@ + src@.take((i + 1) as int));
        }
        i = i + 1;
    }
}

/// The bytes hashed for the block numbered `counter` of one expansion.
pub open spec fn expand_block_input(
    domain: Seq<u8>,
    input: Seq<u8>,
    len: nat,
    counter: nat,
) -> Seq<u8> {
    domain + spec_u32_to_le_bytes(len as u32) + input + spec_u32_to_le_bytes(counter as u32)
}

/// The last `remaining` bytes of an expansion to `len` bytes, starting at the
/// block numbered `counter`.
pub open spec fn spec_expand_tail(
    domain: Seq<u8>,
    input: Seq<u8>,
    len: nat,
    counter: nat,
    remaining: nat,
) -> Seq<u8>
    decreases remaining,
{
    if remaining == 0 {
        Seq::empty()
    } else {
        let block = blake2s256_of(expand_block_input(domain, input, len, counter));
        if remaining <= 32 {
            block.take(remaining as int)
        } else {
            block + spec_expand_tail(domain, input, len, counter + 1, (remaining - 32) as nat)
        }
    }
}

/// Deterministic expansion of `input` to `len` bytes under `domain`.
pub open spec fn spec_expand_bytes(domain: Seq<u8>, input: Seq<u8>, len: nat) -> Seq<u8> {
    spec_expand_tail(domain, input, len, 0, len)
}

/// Expands `input` to exactly `len` bytes of digest output under `domain`.
pub fn expand_bytes(domain: &[u8], input: &[u8], len: usize) -> (r: Vec<u8>)
    requires
        len <= u32::MAX,
    ensures
        r@ == spec_expand_bytes(domain@, input@, len as nat),
        r@.len() == len,
{
    let mut out: Vec<u8> = Vec::new();
    if len == 0 {
        return out;
    }
    let len_bytes = u32_to_le_bytes(len as u32);
    let mut counter: u32 = 0;
    proof {
        assert(out@ + spec_expand_bytes(domain@, input@, len as nat) =~= spec_expand_bytes(
            domain@,
            input@,
            len as nat,
        ));
    }
    while out.len() < len
        invariant
            out@.len() <= len,
            len <= u32::MAX,
            counter as nat <= out@.len(),
            len_bytes@ == spec_u32_to_le_bytes(len as u32),
            out@ + spec_expand_tail(
                domain@,
                input@,
                len as nat,
                counter as nat,
                (len - out@.len()) as nat,
            ) == spec_expand_bytes(domain@, input@, len as nat),
        decreases len - out@.len(),
    {
        let remaining = len - out.len();
        let mut msg: Vec<u8> = Vec::new();
        append_bytes(&mut msg, domain);
        append_bytes(&mut msg, len_bytes.as_slice());
        let counter_bytes = u32_to_le_bytes(counter);
        append_bytes(&mut msg, input);
        append_bytes(&mut msg, counter_bytes.as_slice());
        proof {
            assert(msg@ =~= expand_block_input(
                domain@,
                input@,
                len as nat,
                counter as nat,
            ));
        }
        let block = blake2s256(msg.as_slice());
        let ghost prev = out@;
        if remaining <= 32 {
            append_prefix(&mut out, &block, remaining);
            proof {
                assert(prev + spec_expand_tail(
                    domain@,
                    input@,
                    len as nat,
                    counter as nat,
                    remaining as nat,
                ) =~= out@);
                assert(out@ + spec_expand_tail(
                    domain@,
                    input@,
                    len as nat,
                    (counter + 1) as nat,
                    (len - out@.len()) as nat,
                ) =~= out@);
            }
        } else {
            append_bytes(&mut out, block.as_slice());
            proof {
                assert(prev + spec_expand_tail(
                    domain@,
                    input@,
                    len as nat,
                    counter as nat,
                    remaining as nat,
                ) =~= out@ + spec_expand_tail(
                    domain@,
                    input@,
                    len as nat,
                    (counter + 1) as nat,
                    (remaining - 32) as nat,
                ));
            }
        }
        counter = counter + 1;
    }
    proof {
        assert(out@ + spec_expand_tail(domain@, input@, len as nat, counter as nat, 0) =~= out@);
    }
    out
}

} // verus!
