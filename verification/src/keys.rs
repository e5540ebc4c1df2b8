use vstd::prelude::*;

verus! {

/// Compares two 32-byte values (principal identifiers or storage addresses)
/// byte for byte.
pub fn keys_equal(a: &[u8; 32], b: &[u8; 32]) -> (r: bool)
    ensures
        r == (a@ == b@),
{
    let mut i: usize = 0;
    while i < 32
        invariant
            0 <= i <= 32,
            forall|j: int| 0 <= j < i ==> a@[j] == b@[j],
        decreases 32 - i,
    {
        if a[i] != b[i] {
            return false;
        }
        i = i + 1;
    }
    proof {
        assert(a@ =~= b@);
    }
    true
}

/// Copies a fixed byte array into a growable byte vector, as a derivation
/// seed.
pub fn byte_array_to_vec<const N: usize>(a: &[u8; N]) -> (v: Vec<u8>)
    ensures
        v@ == a@,
{
    let mut v: Vec<u8> = Vec::new();
    let mut i: usize = 0;
    while i < N
        invariant
            0 <= i <= N,
            v@.len() == i,
            forall|j: int| 0 <= j < i ==> v@[j] == a@[j],
        decreases N - i,
    {
        v.push(a[i]);
        i = i + 1;
    }
    proof {
        assert(v@ =~= a@);
    }
    v
}

} // verus!
