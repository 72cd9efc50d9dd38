use vstd::bytes::{spec_u64_from_le_bytes, spec_u64_to_le_bytes, u64_from_le_bytes, u64_to_le_bytes};
use vstd::prelude::*;
use vstd::slice::slice_subrange;

use crate::identity::Identity;
use crate::state::Counter;

verus! {

/// Bytes allocated for a stored record: the 8-byte tag, the 32-byte authority
/// and the 8-byte count.
pub const COUNTER_SPACE: usize = 8 + 32 + 8;

/// Why bytes do not read as a record.
#[derive(Clone, Copy, Debug, PartialEq, Eq, Structural)]
pub enum LayoutError {
    /// Fewer than 8 bytes: there is no tag.
    DiscriminatorNotFound,
    /// The first 8 bytes are not the tag of a counter record.
    DiscriminatorMismatch,
    /// The tag is followed by fewer than 40 bytes.
    DidNotDeserialize,
}

/// The bytes of "account:Counter", whose digest gives the tag.
pub open spec fn discriminator_preimage() -> Seq<u8> {
    seq![0x61u8, 0x63, 0x63, 0x6f, 0x75, 0x6e, 0x74, 0x3a, 0x43, 0x6f, 0x75, 0x6e, 0x74, 0x65, 0x72]
}

/// The SHA-256 digest of `data`.
pub uninterp spec fn sha256(data: Seq<u8>) -> [u8; 32];

/// Relies on `solana_program::hash::hash` (re-exported by anchor_lang): the
/// SHA-256 digest of the bytes, a function of them alone.
#[verifier::external_body]
fn hash(data: &[u8]) -> (r: [u8; 32])
    ensures
        r == sha256(data@),
{
    anchor_lang::solana_program::hash::hash(data).to_bytes()
}

/// The tag that opens every stored record.
pub open spec fn discriminator_spec() -> Seq<u8> {
    sha256(discriminator_preimage())@.subrange(0, 8)
}

/// The stored form of a record: tag, authority, count in little-endian order.
pub open spec fn encoded(c: Counter) -> Seq<u8> {
    discriminator_spec() + c.authority.bytes@ + spec_u64_to_le_bytes(c.count)
}

/// What `bytes` read as.
pub open spec fn decoded(bytes: Seq<u8>) -> Result<Counter, LayoutError> {
    if bytes.len() < 8 {
        Err(LayoutError::DiscriminatorNotFound)
    } else if bytes.subrange(0, 8) != discriminator_spec() {
        Err(LayoutError::DiscriminatorMismatch)
    } else if bytes.len() < COUNTER_SPACE {
        Err(LayoutError::DidNotDeserialize)
    } else {
        Ok(
            Counter {
                authority: Identity { bytes: choose|b: [u8; 32]| b@ == bytes.subrange(8, 40) },
                count: spec_u64_from_le_bytes(bytes.subrange(40, 48)),
            },
        )
    }
}

/// The tag of a counter record: the first 8 bytes of the digest of
/// "account:Counter".
pub fn counter_discriminator() -> (r: [u8; 8])
    ensures
        r@ == discriminator_spec(),
{
    let preimage: [u8; 15] = [
        0x61, 0x63, 0x63, 0x6f, 0x75, 0x6e, 0x74, 0x3a, 0x43, 0x6f, 0x75, 0x6e, 0x74, 0x65, 0x72,
    ];
    assert(preimage@ =~= discriminator_preimage());
    let digest = hash(preimage.as_slice());
    let mut r: [u8; 8] = [0; 8];
    let mut i: usize = 0;
    while i < 8
        invariant
            i <= 8,
            digest == sha256(discriminator_preimage()),
            forall|k: int| 0 <= k < i ==> r@[k] == digest@[k],
        decreases 8 - i,
    {
        r[i] = digest[i];
        i = i + 1;
    }
    assert(r@ =~= discriminator_spec());
    r
}

impl Counter {
    /// The record in its stored form.
    pub fn try_serialize(&self) -> (r: Vec<u8>)
        ensures
            r@ == encoded(*self),
    {
        let tag = counter_discriminator();
        let mut r: Vec<u8> = Vec::new();
        let mut i: usize = 0;
        while i < 8
            invariant
                i <= 8,
                r@ == tag@.subrange(0, i as int),
            decreases 8 - i,
        {
            r.push(tag[i]);
            i = i + 1;
            assert(r@ =~= tag@.subrange(0, i as int));
        }
        let mut j: usize = 0;
        while j < 32
            invariant
                j <= 32,
                r@ == tag@ + self.authority.bytes@.subrange(0, j as int),
            decreases 32 - j,
        {
            r.push(self.authority.bytes[j]);
            j = j + 1;
            assert(r@ =~= tag@ + self.authority.bytes@.subrange(0, j as int));
        }
        let mut count = u64_to_le_bytes(self.count);
        assert(self.authority.bytes@.subrange(0, 32) =~= self.authority.bytes@);
        r.append(&mut count);
        r
    }

    /// Reads a record from its stored form; bytes past the record are ignored.
    pub fn try_deserialize(bytes: &[u8]) -> (r: Result<Counter, LayoutError>)
        ensures
            r == decoded(bytes@),
    {
        if bytes.len() < 8 {
            return Err(LayoutError::DiscriminatorNotFound);
        }
        let tag = counter_discriminator();
        let mut i: usize = 0;
        while i < 8
            invariant
                i <= 8,
                bytes@.len() >= 8,
                tag@ == discriminator_spec(),
                forall|k: int| 0 <= k < i ==> bytes@[k] == tag@[k],
            decreases 8 - i,
        {
            if bytes[i] != tag[i] {
                assert(bytes@.subrange(0, 8)[i as int] != discriminator_spec()[i as int]);
                return Err(LayoutError::DiscriminatorMismatch);
            }
            i = i + 1;
        }
        assert(bytes@.subrange(0, 8) =~= discriminator_spec());
        if bytes.len() < COUNTER_SPACE {
            return Err(LayoutError::DidNotDeserialize);
        }
        let mut key: [u8; 32] = [0; 32];
        let mut j: usize = 0;
        while j < 32
            invariant
                j <= 32,
                bytes@.len() >= COUNTER_SPACE,
                forall|k: int| 0 <= k < j ==> key@[k] == bytes@[8 + k],
            decreases 32 - j,
        {
            key[j] = bytes[8 + j];
            j = j + 1;
        }
        let count = u64_from_le_bytes(slice_subrange(bytes, 40, 48));
        proof {
            assert(key@ =~= bytes@.subrange(8, 40));
            let b = choose|b: [u8; 32]| b@ == bytes@.subrange(8, 40);
            assert(b =~= key);
        }
        Ok(Counter { authority: Identity { bytes: key }, count })
    }
}

/// Reading the stored form of a record gives back that record.
pub proof fn serialize_round_trip(c: Counter)
    ensures
        decoded(encoded(c)) == Ok::<Counter, LayoutError>(c),
{
    vstd::bytes::lemma_auto_spec_u64_to_from_le_bytes();
    let s = encoded(c);
    assert(s.subrange(0, 8) =~= discriminator_spec());
    assert(s.subrange(8, 40) =~= c.authority.bytes@);
    assert(s.subrange(40, 48) =~= spec_u64_to_le_bytes(c.count));
    let b = choose|b: [u8; 32]| b@ == s.subrange(8, 40);
    assert(b =~= c.authority.bytes);
}

} // verus!
