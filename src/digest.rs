//! The extendable-output hash (SHAKE256) that condenses samples and holds
//! the mixed pool state.
use vstd::prelude::*;

use sha3::digest::{ExtendableOutput, Update};
use sha3::Shake256;

verus! {

/// A running SHAKE256 state: sha3's hasher, opaque, reached only through
/// the functions below.
#[verifier::external_body]
pub struct ShakeState {
    inner: Shake256,
}

/// Everything a SHAKE256 state has absorbed so far, in order.
pub uninterp spec fn shake_absorbed(h: ShakeState) -> Seq<u8>;

/// The first `len` bytes of SHAKE256 output for the input `data`.
pub uninterp spec fn shake256_output(data: Seq<u8>, len: nat) -> Seq<u8>;

/// Relies on Shake256's Default impl: a fresh state that has absorbed nothing.
#[verifier::external_body]
pub(crate) fn shake_new() -> (r: ShakeState)
    ensures
        shake_absorbed(r) == Seq::<u8>::empty(),
{
    ShakeState { inner: Shake256::default() }
}

/// Relies on sha3::digest::Update::update: the bytes are appended to the input.
#[verifier::external_body]
pub(crate) fn shake_update(h: &mut ShakeState, data: &[u8])
    ensures
        shake_absorbed(*final(h)) == shake_absorbed(*old(h)) + data@,
{
    h.inner.update(data)
}

/// Relies on Clone and ExtendableOutput::finalize_xof_into: the first `len`
/// output bytes for all that was absorbed, leaving the state itself as it was.
#[verifier::external_body]
pub(crate) fn shake_read(h: &ShakeState, len: usize) -> (r: Vec<u8>)
    ensures
        r@ == shake256_output(shake_absorbed(*h), len as nat),
        r@.len() == len,
{
    let mut out = vec![0u8; len];
    h.inner.clone().finalize_xof_into(&mut out);
    out
}

/// The concatenation of a sequence of byte sequences.
pub open spec fn concat(chunks: Seq<Seq<u8>>) -> Seq<u8>
    decreases chunks.len(),
{
    if chunks.len() == 0 {
        Seq::empty()
    } else {
        concat(chunks.drop_last()) + chunks.last()
    }
}

/// Condenses a series of noisy chunks into `len` bytes of SHAKE256 output.
pub fn condense(chunks: &Vec<Vec<u8>>, len: usize) -> (r: Vec<u8>)
    ensures
        r@ == shake256_output(concat(chunks@.map_values(|c: Vec<u8>| c@)), len as nat),
        r@.len() == len,
{
    let mut h = shake_new();
    let mut i: usize = 0;
    while i < chunks.len()
        invariant
            i <= chunks.len(),
            shake_absorbed(h) == concat(chunks@.subrange(0, i as int).map_values(|c: Vec<u8>| c@)),
        decreases chunks.len() - i,
    {
        shake_update(&mut h, chunks[i].as_slice());
        proof {
            let a = chunks@.subrange(0, i as int).map_values(|c: Vec<u8>| c@);
            let b = chunks@.subrange(0, i + 1).map_values(|c: Vec<u8>| c@);
            assert(b.drop_last() =~= a);
        }
        i = i + 1;
    }
    proof {
        assert(chunks@.subrange(0, i as int) =~= chunks@);
    }
    shake_read(&h, len)
}

} // verus!
