//! Laws of the record store, proved over the model of [`crate::model`].

use crate::model::apply_renames;
use crate::model::create_result;
use crate::model::create_state;
use crate::model::lookup_spec;
use crate::model::names_bounded;
use crate::model::rename_result;
use crate::model::rename_state;
use crate::model::tags_consistent;
use crate::model::RenameCall;
use crate::model::StoreModel;
use crate::pda::derived_for;
use crate::ErrorCode;
use vstd::prelude::*;

verus! {

/// Uniqueness: once a record was created for an identity, creating one for
/// the same identity again fails with `RecordAlreadyExists`, whatever name
/// the second call carries.
pub proof fn lemma_create_twice_fails(
    m: StoreModel,
    owner: Seq<u8>,
    name1: Seq<u8>,
    name2: Seq<u8>,
)
    requires
        create_result(m, owner, true, name1) == Ok::<(), ErrorCode>(()),
    ensures
        create_result(create_state(m, owner, true, name1), owner, true, name2) == Err::<
            (),
            ErrorCode,
        >(ErrorCode::RecordAlreadyExists),
{
}

/// Bound: with the caller authorized, the derivation successful and the
/// derived address free, creating a record fails with `NameTooLong` exactly
/// when the name is over 200 bytes, and succeeds otherwise.
pub proof fn lemma_create_name_bound(m: StoreModel, owner: Seq<u8>, name: Seq<u8>)
    requires
        derived_for(owner) matches Some(ab) && !m.contains_key(ab.0),
    ensures
        name.len() > 200 ==> create_result(m, owner, true, name) == Err::<(), ErrorCode>(
            ErrorCode::NameTooLong,
        ),
        name.len() <= 200 ==> create_result(m, owner, true, name) == Ok::<(), ErrorCode>(()),
{
}

/// Bound: with the caller authorized, the derivation successful and a record
/// with the matching tag stored at the derived address, renaming fails with
/// `NameTooLong` exactly when the new name is over 200 bytes, and succeeds
/// otherwise.
pub proof fn lemma_rename_name_bound(m: StoreModel, owner: Seq<u8>, new_name: Seq<u8>)
    requires
        derived_for(owner) matches Some(ab) && m.contains_key(ab.0) && m[ab.0].stats.bump
            == ab.1,
    ensures
        new_name.len() > 200 ==> rename_result(m, owner, true, new_name) == Err::<(), ErrorCode>(
            ErrorCode::NameTooLong,
        ),
        new_name.len() <= 200 ==> rename_result(m, owner, true, new_name) == Ok::<(), ErrorCode>(
            (),
        ),
{
}

/// Authorization: without a signer capability for the identity, both
/// operations fail with `Unauthorized` and change nothing, whatever the
/// store holds.
pub proof fn lemma_unauthorized(m: StoreModel, owner: Seq<u8>, name: Seq<u8>)
    ensures
        create_result(m, owner, false, name) == Err::<(), ErrorCode>(ErrorCode::Unauthorized),
        rename_result(m, owner, false, name) == Err::<(), ErrorCode>(ErrorCode::Unauthorized),
        create_state(m, owner, false, name) == m,
        rename_state(m, owner, false, name) == m,
{
}

/// Tag stability, one step: a rename call, whoever makes it and whatever it
/// carries, keeps every stored record's owner, level and derivation tag, and
/// removes no record.
pub proof fn lemma_rename_preserves_tag(
    m: StoreModel,
    owner: Seq<u8>,
    signed: bool,
    new_name: Seq<u8>,
    a: Seq<u8>,
)
    requires
        m.contains_key(a),
    ensures
        rename_state(m, owner, signed, new_name).contains_key(a),
        rename_state(m, owner, signed, new_name)[a].stats.bump == m[a].stats.bump,
        rename_state(m, owner, signed, new_name)[a].stats.level == m[a].stats.level,
        rename_state(m, owner, signed, new_name)[a].owner == m[a].owner,
{
}

/// Tag stability: across any number of rename calls, every stored record
/// keeps its owner, level and derivation tag, and stays stored.
pub proof fn lemma_tag_stable_under_renames(m: StoreModel, calls: Seq<RenameCall>, a: Seq<u8>)
    requires
        m.contains_key(a),
    ensures
        apply_renames(m, calls).contains_key(a),
        apply_renames(m, calls)[a].stats.bump == m[a].stats.bump,
        apply_renames(m, calls)[a].stats.level == m[a].stats.level,
        apply_renames(m, calls)[a].owner == m[a].owner,
    decreases calls.len(),
{
    if calls.len() == 0 {
    } else {
        let c = calls.last();
        lemma_tag_stable_under_renames(m, calls.drop_last(), a);
        lemma_rename_preserves_tag(
            apply_renames(m, calls.drop_last()),
            c.owner,
            c.signed,
            c.new_name,
            a,
        );
    }
}

/// Invariant preservation: an empty store satisfies both store invariants,
/// and both operations keep every stored name within the bound and every
/// stored tag consistent with the derivation.
pub proof fn lemma_operations_preserve_invariants(
    m: StoreModel,
    owner: Seq<u8>,
    signed: bool,
    name: Seq<u8>,
)
    requires
        names_bounded(m),
        tags_consistent(m),
    ensures
        names_bounded(StoreModel::empty()),
        tags_consistent(StoreModel::empty()),
        names_bounded(create_state(m, owner, signed, name)),
        tags_consistent(create_state(m, owner, signed, name)),
        names_bounded(rename_state(m, owner, signed, name)),
        tags_consistent(rename_state(m, owner, signed, name)),
{
}

/// Uniqueness per identity: under consistent tags, no two stored records
/// share an owner.
pub proof fn lemma_at_most_one_record_per_identity(m: StoreModel, a1: Seq<u8>, a2: Seq<u8>)
    requires
        tags_consistent(m),
        m.contains_key(a1),
        m.contains_key(a2),
        m[a1].owner == m[a2].owner,
    ensures
        a1 == a2,
{
    assert(derived_for(m[a1].owner) == Some((a1, m[a1].stats.bump)));
    assert(derived_for(m[a2].owner) == Some((a2, m[a2].stats.bump)));
}

/// Read after write: after creating a record for an identity and then
/// renaming it, both with the signer capability, loading the identity's
/// record yields the new name, level 0, and the tag the creation stored.
pub proof fn lemma_read_after_create_and_rename(
    m: StoreModel,
    owner: Seq<u8>,
    name1: Seq<u8>,
    name2: Seq<u8>,
)
    requires
        create_result(m, owner, true, name1) == Ok::<(), ErrorCode>(()),
        name2.len() <= 200,
    ensures
        rename_result(create_state(m, owner, true, name1), owner, true, name2) == Ok::<
            (),
            ErrorCode,
        >(()),
        ({
            let m2 = rename_state(create_state(m, owner, true, name1), owner, true, name2);
            &&& lookup_spec(m2, owner) matches Ok(v)
            &&& lookup_spec(m2, owner)->Ok_0.stats.name == name2
            &&& lookup_spec(m2, owner)->Ok_0.stats.level == 0
            &&& lookup_spec(m2, owner)->Ok_0.stats.bump == derived_for(owner)->Some_0.1
            &&& lookup_spec(m2, owner)->Ok_0.owner == owner
        }),
{
}

} // verus!
