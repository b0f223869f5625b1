//! Verified helpers for byte strings.
//!
//! Identifiers (event, ticket type and stage ids), addresses, token tickers
//! and attestation payloads are all plain byte strings in this library.

use vstd::prelude::*;

verus! {

/// True exactly when the two byte vectors hold the same bytes.
pub fn bytes_eq(a: &Vec<u8>, b: &Vec<u8>) -> (r: bool)
    ensures
        r <==> a@ == b@,
{
    if a.len() != b.len() {
        return false;
    }
    for i in 0..a.len()
        invariant
            a.len() == b.len(),
            forall|j: int| 0 <= j < i ==> a@[j] == b@[j],
    {
        if a[i] != b[i] {
            return false;
        }
    }
    proof {
        assert(a@ =~= b@);
    }
    true
}

/// A fresh copy of a byte vector.
pub fn clone_bytes(a: &Vec<u8>) -> (r: Vec<u8>)
    ensures
        r@ == a@,
{
    let mut r: Vec<u8> = Vec::new();
    for i in 0..a.len()
        invariant
            r@ == a@.subrange(0, i as int),
    {
        r.push(a[i]);
        proof {
            assert(a@.subrange(0, i as int).push(a@[i as int]) =~= a@.subrange(0, i + 1));
        }
    }
    proof {
        assert(a@.subrange(0, a@.len() as int) =~= a@);
    }
    r
}

/// Appends all bytes of `src` to `dst`.
pub fn append_bytes(dst: &mut Vec<u8>, src: &Vec<u8>)
    ensures
        final(dst)@ == old(dst)@ + src@,
{
    let ghost pre = dst@;
    for i in 0..src.len()
        invariant
            dst@ == pre + src@.subrange(0, i as int),
    {
        dst.push(src[i]);
        proof {
            assert((pre + src@.subrange(0, i as int)).push(src@[i as int]) =~= pre + src@.subrange(
                0,
                i + 1,
            ));
        }
    }
    proof {
        assert(pre + src@.subrange(0, src@.len() as int) =~= pre + src@);
    }
}

/// The decimal digits of `n`, most significant first.
pub open spec fn spec_dec(n: nat) -> Seq<u8>
    decreases n,
{
    if n < 10 {
        seq![(48 + n) as u8]
    } else {
        spec_dec(n / 10).push((48 + n % 10) as u8)
    }
}

/// Formats `n` in decimal, as the host formats a quantity into an
/// attestation payload.
pub fn dec_bytes(n: u64) -> (r: Vec<u8>)
    ensures
        r@ == spec_dec(n as nat),
    decreases n,
{
    if n < 10 {
        let mut r: Vec<u8> = Vec::new();
        r.push(48 + n as u8);
        proof {
            assert(r@ =~= spec_dec(n as nat));
        }
        r
    } else {
        let mut r = dec_bytes(n / 10);
        r.push(48 + (n % 10) as u8);
        r
    }
}

} // verus!
