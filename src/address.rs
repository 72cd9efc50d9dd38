use anchor_lang::prelude::Pubkey;
use vstd::prelude::*;

use crate::identity::Identity;

verus! {

/// The label that namespaces every counter address: the bytes of "counter".
pub open spec fn counter_seed_spec() -> Seq<u8> {
    seq![0x63u8, 0x6f, 0x75, 0x6e, 0x74, 0x65, 0x72]
}

/// The program-derived address for `seeds` under `program_id`, or `None` where no
/// bump seed yields an address off the ed25519 curve (or the seeds are too long).
pub uninterp spec fn program_address(seeds: Seq<Seq<u8>>, program_id: Seq<u8>) -> Option<[u8; 32]>;

/// Where the record owned by `authority` is stored, for the program `program_id`.
pub open spec fn counter_address(program_id: Identity, authority: Identity) -> Option<Identity> {
    match program_address(seq![counter_seed_spec(), authority.bytes@], program_id.bytes@) {
        Some(b) => Some(Identity { bytes: b }),
        None => None,
    }
}

/// Relies on `Pubkey::try_find_program_address` (solana_program, re-exported by
/// anchor_lang): the derived address is a function of the two seeds and the
/// program id alone.
#[verifier::external_body]
fn try_find_program_address(label: &[u8], key: &[u8; 32], program_id: &[u8; 32]) -> (r: Option<[u8; 32]>)
    ensures
        r == program_address(seq![label@, key@], program_id@),
{
    let program = Pubkey::new_from_array(*program_id);
    Pubkey::try_find_program_address(&[label, key], &program).map(|(a, _)| a.to_bytes())
}

/// The bytes of the namespace label.
pub fn counter_seed() -> (r: [u8; 7])
    ensures
        r@ == counter_seed_spec(),
{
    let r: [u8; 7] = [0x63, 0x6f, 0x75, 0x6e, 0x74, 0x65, 0x72];
    assert(r@ =~= counter_seed_spec());
    r
}

/// Derives the address of the record owned by `authority`.
pub fn find_counter_address(program_id: &Identity, authority: &Identity) -> (r: Option<Identity>)
    ensures
        r == counter_address(*program_id, *authority),
{
    let seed = counter_seed();
    match try_find_program_address(seed.as_slice(), &authority.bytes, &program_id.bytes) {
        Some(b) => Some(Identity { bytes: b }),
        None => None,
    }
}

} // verus!
