//! Deterministic derivation of record addresses.
//!
//! A record's storage address is derived from a fixed salt and the owning
//! identity, under a fixed program id. The derivation itself is done by an
//! outside function; its result is named by [`pda_of`] and everything the
//! store proves speaks of that name.

use crate::bytes::clone_bytes;
use vstd::prelude::*;

verus! {

/// What `Pubkey::try_find_program_address` returns for given seeds and
/// program id: a derived 32-byte address and its bump seed, or `None` when no
/// usable bump exists. The search is deterministic, so the result is a
/// function of the seeds and the program id alone.
pub uninterp spec fn pda_of(seeds: Seq<Seq<u8>>, program_id: Seq<u8>) -> Option<(Seq<u8>, u8)>;

/// The fixed salt that prefixes the seeds of every record address.
pub open spec fn record_salt_seq() -> Seq<u8> {
    seq![117u8, 115u8, 101u8, 114u8, 45u8, 115u8, 116u8, 97u8, 116u8, 115u8]
}

/// The id of the program under which record addresses are derived.
pub open spec fn program_id_seq() -> Seq<u8> {
    seq![
        218u8, 7u8, 92u8, 178u8, 255u8, 94u8, 198u8, 129u8, 118u8, 19u8, 222u8, 83u8, 11u8,
        105u8, 42u8, 135u8, 53u8, 71u8, 119u8, 105u8, 218u8, 71u8, 67u8, 12u8, 189u8, 129u8,
        84u8, 51u8, 92u8, 74u8, 131u8, 39u8,
    ]
}

/// The seeds from which an identity's record address is derived.
pub open spec fn record_seeds(owner: Seq<u8>) -> Seq<Seq<u8>> {
    seq![record_salt_seq(), owner]
}

/// The derived address and tag for an identity, if the derivation finds one.
pub open spec fn derived_for(owner: Seq<u8>) -> Option<(Seq<u8>, u8)> {
    pda_of(record_seeds(owner), program_id_seq())
}

/// The fixed salt, as bytes.
pub fn record_salt() -> (r: Vec<u8>)
    ensures
        r@ == record_salt_seq(),
{
    let r: Vec<u8> = vec![117u8, 115u8, 101u8, 114u8, 45u8, 115u8, 116u8, 97u8, 116u8, 115u8];
    proof {
        assert(r@ =~= record_salt_seq());
    }
    r
}

/// The id of the program under which record addresses are derived, as bytes.
pub fn program_id_bytes() -> (r: Vec<u8>)
    ensures
        r@ == program_id_seq(),
{
    let r: Vec<u8> = vec![
        218u8, 7u8, 92u8, 178u8, 255u8, 94u8, 198u8, 129u8, 118u8, 19u8, 222u8, 83u8, 11u8,
        105u8, 42u8, 135u8, 53u8, 71u8, 119u8, 105u8, 218u8, 71u8, 67u8, 12u8, 189u8, 129u8,
        84u8, 51u8, 92u8, 74u8, 131u8, 39u8,
    ];
    proof {
        assert(r@ =~= program_id_seq());
    }
    r
}

/// Relies on `Pubkey::try_find_program_address` (anchor_lang's re-export of
/// `solana_pubkey`): it searches bump seeds in a fixed order, so its result is
/// a function of the seeds and the program id alone, named by [`pda_of`].
#[verifier::external_body]
fn try_find_address(seeds: &Vec<Vec<u8>>, program_id: &Vec<u8>) -> (r: Option<(Vec<u8>, u8)>)
    requires
        program_id@.len() == 32,
    ensures
        (match r {
            Some(ab) => pda_of(
                seeds@.map_values(|s: Vec<u8>| s@),
                program_id@,
            ) == Some((ab.0@, ab.1)),
            None => pda_of(seeds@.map_values(|s: Vec<u8>| s@), program_id@) is None,
        }),
{
    let seed_slices: Vec<&[u8]> = seeds.iter().map(|s| s.as_slice()).collect();
    let pid_array: [u8; 32] = program_id.as_slice().try_into().unwrap();
    let pid = anchor_lang::solana_program::pubkey::Pubkey::new_from_array(pid_array);
    match anchor_lang::solana_program::pubkey::Pubkey::try_find_program_address(
        &seed_slices,
        &pid,
    ) {
        Some((address, bump)) => Some((address.to_bytes().to_vec(), bump)),
        None => None,
    }
}

/// Derive the record address and tag for an identity: the fixed salt and the
/// identity, under the record program id.
pub fn derive_record_address(owner: &Vec<u8>) -> (r: Option<(Vec<u8>, u8)>)
    ensures
        (match r {
            Some(ab) => derived_for(owner@) == Some((ab.0@, ab.1)),
            None => derived_for(owner@) is None,
        }),
{
    let mut seeds: Vec<Vec<u8>> = Vec::new();
    seeds.push(record_salt());
    seeds.push(clone_bytes(owner));
    let pid = program_id_bytes();
    proof {
        assert(seeds@.map_values(|s: Vec<u8>| s@) =~= record_seeds(owner@));
    }
    try_find_address(&seeds, &pid)
}

} // verus!
