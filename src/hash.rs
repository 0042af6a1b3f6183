//! The Fiat-Shamir hash: SHA-256 over the concatenated inputs, reduced to a scalar.

use vstd::prelude::*;
use sha2::{Digest, Sha256};
use crate::group::{Scalar, group_order, le_value, scalar_from_bytes_mod_order};

verus! {

/// The SHA-256 digest of a byte string.
pub uninterp spec fn sha256_of(data: Seq<u8>) -> Seq<u8>;

/// The byte strings joined in order.
pub open spec fn concat_parts(parts: Seq<Seq<u8>>) -> Seq<u8>
    decreases parts.len(),
{
    if parts.len() == 0 {
        Seq::empty()
    } else {
        concat_parts(parts.drop_last()) + parts.last()
    }
}

/// The byte strings that fixed-width encodings stand for.
pub open spec fn part_views(parts: Seq<[u8; 32]>) -> Seq<Seq<u8>> {
    parts.map_values(|p: [u8; 32]| p@)
}

/// The scalar that the Fiat-Shamir hash gives for an ordered list of byte strings.
pub open spec fn fiat_shamir(parts: Seq<Seq<u8>>) -> int {
    (le_value(sha256_of(concat_parts(parts))) as int) % group_order()
}

/// Relies on `Sha256::digest` of the sha2 crate: the 32-byte digest of the data.
#[verifier::external_body]
fn sha256(data: &Vec<u8>) -> (r: [u8; 32])
    ensures
        r@ == sha256_of(data@),
{
    Sha256::digest(data.as_slice()).into()
}

/// Hashes the encodings, in order, to a scalar.
pub fn fiat_shamir_hash(parts: &Vec<[u8; 32]>) -> (r: Scalar)
    ensures
        r@ == fiat_shamir(part_views(parts@)),
        r.wf(),
{
    let mut data: Vec<u8> = Vec::new();
    let mut i: usize = 0;
    while i < parts.len()
        invariant
            0 <= i <= parts.len(),
            data@ == concat_parts(part_views(parts@).take(i as int)),
        decreases parts.len() - i,
    {
        let part: [u8; 32] = parts[i];
        let ghost before = data@;
        let mut j: usize = 0;
        while j < 32
            invariant
                0 <= j <= 32,
                data@ == before + part@.take(j as int),
            decreases 32 - j,
        {
            data.push(part[j]);
            proof {
                assert(part@.take(j as int + 1) =~= part@.take(j as int).push(part@[j as int]));
            }
            j += 1;
        }
        proof {
            let pv = part_views(parts@);
            assert(pv.take(i as int + 1).drop_last() =~= pv.take(i as int));
            assert(part@.take(32) =~= part@);
            assert(pv.take(i as int + 1).last() == part@);
        }
        i += 1;
    }
    proof {
        assert(part_views(parts@).take(parts.len() as int) =~= part_views(parts@));
    }
    let digest = sha256(&data);
    scalar_from_bytes_mod_order(digest)
}

/// Identical ordered inputs give the identical challenge scalar, so two parties that
/// hash the same public values derive the same challenge.
pub proof fn lemma_fiat_shamir_deterministic(a: Seq<Seq<u8>>, b: Seq<Seq<u8>>)
    requires
        a =~= b,
    ensures
        fiat_shamir(a) == fiat_shamir(b),
{
}

} // verus!
