//! The verification digest: a deterministic, non-cryptographic fingerprint
//! over a record's canonical text, derived from the text's length and a
//! coarse timestamp. It is stamped once at record creation and never
//! recomputed; it is not collision-resistant and carries no security
//! guarantee.

use vstd::prelude::*;

verus! {

/// The digest value for a text of the given length stamped at the given
/// time: their product, reduced to a machine word.
pub open spec fn digest_spec(len: nat, time: u64) -> u64 {
    ((len * time) % 0x1_0000_0000_0000_0000) as u64
}

/// Computes the verification digest of a text at a given time.
pub fn generate_verification_hash(data: &str, time: u64) -> (h: u64)
    ensures
        h == digest_spec(data@.len(), time),
{
    let n = data.unicode_len();
    proof {
        vstd::arithmetic::mul::lemma_mul_upper_bound(
            n as int,
            0xffff_ffff_ffff_ffff,
            time as int,
            0xffff_ffff_ffff_ffff,
        );
    }
    let prod: u128 = (n as u128) * (time as u128);
    let h = (prod % 0x1_0000_0000_0000_0000u128) as u64;
    h
}

/// The digest stamped on a fresh credential document: taken over the
/// worker id prefixed by a four-character document tag.
pub fn did_signature(worker_id: &str, time: u64) -> (h: u64)
    ensures
        h == digest_spec(worker_id@.len() + 4, time),
{
    let n = worker_id.unicode_len();
    let reduced: u128 = ((n as u128) + 4) % 0x1_0000_0000_0000_0000u128;
    proof {
        vstd::arithmetic::mul::lemma_mul_upper_bound(
            reduced as int,
            0xffff_ffff_ffff_ffff,
            time as int,
            0xffff_ffff_ffff_ffff,
        );
    }
    let prod: u128 = reduced * (time as u128);
    let h = (prod % 0x1_0000_0000_0000_0000u128) as u64;
    proof {
        vstd::arithmetic::div_mod::lemma_mul_mod_noop_left(
            n as int + 4,
            time as int,
            0x1_0000_0000_0000_0000,
        );
    }
    h
}

} // verus!
