//! Canonical identifiers for points and pairs of points, and the ordered
//! collections that hold them.

use vstd::prelude::*;
use blake2::Digest;

pub mod exchange_map;
pub mod exchange_set;
pub mod node;
pub mod node_pair;

pub use exchange_map::ExchangeMap;
pub use exchange_set::ExchangeSet;
pub use node::Node;
pub use node_pair::NodePair;

verus! {

/// The 32 bytes of an identifier.
pub type CipherBlock = [u8; 32];

/// The BLAKE2b digest of 32 bytes of `data`.
pub uninterp spec fn blake2b_256(data: Seq<u8>) -> Seq<u8>;

/// Calls `blake2::Blake2b::<U32>::digest`, the one-shot form of the hash:
/// the result is the 32-byte BLAKE2b digest of `data`, a function of the
/// bytes alone.
#[verifier::external_body]
fn blake2b_digest(data: &[u8]) -> (block: CipherBlock)
    ensures
        block@ == blake2b_256(data@),
{
    blake2::Blake2b::<blake2::digest::consts::U32>::digest(data).into()
}

/// `left` followed by `right`.
fn joined(left: &[u8], right: &[u8]) -> (bytes: Vec<u8>)
    ensures
        bytes@ == left@ + right@,
{
    let mut bytes: Vec<u8> = Vec::new();
    let mut i: usize = 0;
    while i < left.len()
        invariant
            i <= left.len(),
            bytes@ =~= left@.take(i as int),
        decreases left.len() - i,
    {
        bytes.push(left[i]);
        i += 1;
    }
    let mut j: usize = 0;
    while j < right.len()
        invariant
            j <= right.len(),
            bytes@ =~= left@ + right@.take(j as int),
        decreases right.len() - j,
    {
        bytes.push(right[j]);
        j += 1;
    }
    assert(right@.take(j as int) =~= right@);
    bytes
}

/// Writes the digest of `data` into `output`.
pub fn data_hash(data: &[u8], output: &mut CipherBlock)
    ensures
        final(output)@ == blake2b_256(data@),
{
    *output = blake2b_digest(data);
}

/// Writes the digest of `left` followed by `right` into `output`.
pub fn hash_visit(left: &[u8], right: &[u8], output: &mut CipherBlock)
    ensures
        final(output)@ == blake2b_256(left@ + right@),
{
    let bytes = joined(left, right);
    *output = blake2b_digest(bytes.as_slice());
}

} // verus!
