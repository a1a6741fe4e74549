//! How a test program's public values are checked against its expected
//! output.

use vstd::prelude::*;

use crate::encoding::{sha256, sha256_digest};

verus! {

/// Whether `public_values` holds the SHA-256 digest of `output` followed by
/// zeros only, the form in which a program that hashes its output commits it.
pub open spec fn holds_hashed_output(output: Seq<u8>, public_values: Seq<u8>) -> bool {
    let d = sha256_digest(output);
    &&& public_values.len() >= d.len()
    &&& public_values.take(d.len() as int) == d
    &&& forall|i: int| d.len() <= i < public_values.len() ==> public_values[i] == 0
}

/// Whether `public_values` holds the SHA-256 digest of the encoded output
/// `output` followed by zeros only.
pub fn hashed_output_matches(output: &[u8], public_values: &[u8]) -> (r: bool)
    ensures
        r == holds_hashed_output(output@, public_values@),
{
    let digest = sha256(output);
    if public_values.len() < digest.len() {
        return false;
    }
    let mut i: usize = 0;
    while i < digest.len()
        invariant
            0 <= i <= digest@.len(),
            digest@ == sha256_digest(output@),
            digest@.len() <= public_values@.len(),
            forall|j: int| 0 <= j < i ==> public_values@[j] == digest@[j],
        decreases digest.len() - i,
    {
        if public_values[i] != digest[i] {
            assert(public_values@.take(digest@.len() as int)[i as int] != digest@[i as int]);
            return false;
        }
        i = i + 1;
    }
    assert(public_values@.take(digest@.len() as int) =~= digest@);
    let mut k: usize = digest.len();
    while k < public_values.len()
        invariant
            digest@.len() <= k <= public_values@.len(),
            digest@ == sha256_digest(output@),
            forall|j: int| digest@.len() <= j < k ==> public_values@[j] == 0,
        decreases public_values.len() - k,
    {
        if public_values[k] != 0 {
            return false;
        }
        k = k + 1;
    }
    true
}

} // verus!
