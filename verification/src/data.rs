//! A block together with its cached serialized bytes.
//!
//! When a `Data` is created the block is serialized once into a cache;
//! whoever ships the value on the wire writes the cached bytes instead of
//! serializing again, and a value rebuilt from wire bytes keeps those
//! bytes as its cache. The cache always holds the binary codec's fixed
//! 24-byte little-endian image of the block's three fields (the codec
//! tolerates and preserves trailing bytes on input).

use vstd::prelude::*;

use crate::types::Block;

verus! {

/// The eight little-endian bytes of `x`.
pub open spec fn u64_le_bytes(x: u64) -> Seq<u8> {
    seq![
        (x & 0xff) as u8,
        ((x >> 8) & 0xff) as u8,
        ((x >> 16) & 0xff) as u8,
        ((x >> 24) & 0xff) as u8,
        ((x >> 32) & 0xff) as u8,
        ((x >> 40) & 0xff) as u8,
        ((x >> 48) & 0xff) as u8,
        ((x >> 56) & 0xff) as u8,
    ]
}

/// The 24-byte serialized image of a block: authority, round and hash,
/// each as eight little-endian bytes.
pub open spec fn block_le_bytes(b: Block) -> Seq<u8> {
    u64_le_bytes(b.authority) + u64_le_bytes(b.round) + u64_le_bytes(b.hash)
}

/// Relies on bincode::serialize (fixed-width integers, little-endian): a
/// triple of u64 becomes exactly its 24 little-endian bytes. Serializing
/// plain integers into a growable buffer cannot fail.
#[verifier::external_body]
fn bincode_encode_block(b: &Block) -> (r: Vec<u8>)
    ensures
        r@ == block_le_bytes(*b),
{
    bincode::serialize(&(b.authority, b.round, b.hash)).unwrap()
}

/// Relies on bincode::deserialize (fixed-width integers, little-endian,
/// trailing bytes allowed): a u64 triple is read from the first 24 bytes
/// whenever that many are present, anything shorter is an error, and
/// deserializing what serialize produced gives back the value serialize
/// was given.
#[verifier::external_body]
fn bincode_decode_block(bytes: &Vec<u8>) -> (r: Option<Block>)
    ensures
        bytes@.len() >= 24 ==> r is Some,
        bytes@.len() < 24 ==> r is None,
        r matches Some(b) ==> bytes@.len() >= 24 && bytes@.subrange(0, 24) == block_le_bytes(b),
        forall|b: Block| bytes@ == block_le_bytes(b) ==> r == Some(b),
{
    match bincode::deserialize::<(u64, u64, u64)>(bytes) {
        Ok((authority, round, hash)) => Some(Block { authority, round, hash }),
        Err(_) => None,
    }
}

/// A block and its cached serialized bytes.
#[derive(Clone)]
pub struct Data {
    t: Block,
    serialized: Vec<u8>,
}

impl Data {
    /// The carried block.
    pub closed spec fn block(self) -> Block {
        self.t
    }

    /// The cached bytes.
    pub closed spec fn bytes(self) -> Seq<u8> {
        self.serialized@
    }

    /// The cache starts with the block's serialized image (a value built
    /// from wire input may carry trailing bytes after it).
    pub open spec fn wf(self) -> bool {
        &&& self.bytes().len() >= 24
        &&& self.bytes().subrange(0, 24) == block_le_bytes(self.block())
    }

    /// Wrap a block, serializing it once into the cache.
    pub fn new(t: Block) -> (r: Self)
        ensures
            r.wf(),
            r.block() == t,
            r.bytes() == block_le_bytes(t),
    {
        let serialized = bincode_encode_block(&t);
        proof {
            assert(serialized@.subrange(0, 24) =~= block_le_bytes(t));
        }
        Data { t, serialized }
    }

    /// The carried block.
    pub fn deref(&self) -> (r: &Block)
        ensures
            *r == self.block(),
    {
        &self.t
    }

    /// The cached bytes: what serializing this value writes.
    pub fn serialized_bytes(&self) -> (r: &Vec<u8>)
        ensures
            r@ == self.bytes(),
    {
        &self.serialized
    }

    /// Rebuild a value from wire bytes, keeping them as the cache. Fails
    /// exactly when the bytes are too short to hold a block image; the
    /// serialized image of any block deserializes back to that block.
    pub fn deserialize(serialized: Vec<u8>) -> (r: Option<Data>)
        ensures
            serialized@.len() >= 24 ==> r is Some,
            serialized@.len() < 24 ==> r is None,
            r matches Some(d) ==> d.wf() && d.bytes() == serialized@,
            forall|b: Block|
                serialized@ == block_le_bytes(b) ==> (r matches Some(d) && d.block() == b),
    {
        match bincode_decode_block(&serialized) {
            Some(t) => Some(Data { t, serialized }),
            None => None,
        }
    }
}

} // verus!
