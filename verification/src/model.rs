//! The mathematical model of the record store.
//!
//! A store is a map from derived addresses to records. The functions here say
//! exactly what each operation returns and what the store holds afterwards;
//! the executable store is proved to match them, and the laws in [`crate::laws`]
//! are proved from them.

use crate::pda::derived_for;
use crate::ErrorCode;
use vstd::prelude::*;

verus! {

/// The value of one record, as the contracts see it.
pub struct UserStatsV {
    pub level: u16,
    pub name: Seq<u8>,
    pub bump: u8,
}

/// One stored record together with the identity that owns it.
pub struct RecordV {
    pub owner: Seq<u8>,
    pub stats: UserStatsV,
}

/// The store: at most one record per derived address.
pub type StoreModel = Map<Seq<u8>, RecordV>;

/// The byte bound on record names.
pub open spec fn name_bound() -> int {
    200
}

/// The record a successful creation stores.
pub open spec fn created_record(owner: Seq<u8>, name: Seq<u8>, bump: u8) -> RecordV {
    RecordV { owner, stats: UserStatsV { level: 0, name, bump } }
}

/// The record a successful rename leaves: only the name changes.
pub open spec fn renamed_record(r: RecordV, new_name: Seq<u8>) -> RecordV {
    RecordV {
        owner: r.owner,
        stats: UserStatsV { level: r.stats.level, name: new_name, bump: r.stats.bump },
    }
}

/// What creating a record returns: the caller must hold a signer capability
/// for the identity, the derivation must yield an address, that address must
/// be free, and the name must fit the bound.
pub open spec fn create_result(
    m: StoreModel,
    owner: Seq<u8>,
    signed: bool,
    name: Seq<u8>,
) -> Result<(), ErrorCode> {
    if !signed {
        Err(ErrorCode::Unauthorized)
    } else {
        match derived_for(owner) {
            None => Err(ErrorCode::AddressTagMismatch),
            Some(ab) => {
                if m.contains_key(ab.0) {
                    Err(ErrorCode::RecordAlreadyExists)
                } else if name.len() > name_bound() {
                    Err(ErrorCode::NameTooLong)
                } else {
                    Ok(())
                }
            },
        }
    }
}

/// The store after a create call: unchanged unless the call succeeds, in
/// which case the new record stands at the derived address with level 0 and
/// the derivation's tag.
pub open spec fn create_state(
    m: StoreModel,
    owner: Seq<u8>,
    signed: bool,
    name: Seq<u8>,
) -> StoreModel {
    if create_result(m, owner, signed, name) is Ok {
        let ab = derived_for(owner)->Some_0;
        m.insert(ab.0, created_record(owner, name, ab.1))
    } else {
        m
    }
}

/// What renaming a record returns: the caller must hold a signer capability,
/// the derivation must yield an address, a record must stand there, its
/// stored tag must match the freshly derived one, and the new name must fit
/// the bound.
pub open spec fn rename_result(
    m: StoreModel,
    owner: Seq<u8>,
    signed: bool,
    new_name: Seq<u8>,
) -> Result<(), ErrorCode> {
    if !signed {
        Err(ErrorCode::Unauthorized)
    } else {
        match derived_for(owner) {
            None => Err(ErrorCode::AddressTagMismatch),
            Some(ab) => {
                if !m.contains_key(ab.0) {
                    Err(ErrorCode::RecordNotFound)
                } else if m[ab.0].stats.bump != ab.1 {
                    Err(ErrorCode::AddressTagMismatch)
                } else if new_name.len() > name_bound() {
                    Err(ErrorCode::NameTooLong)
                } else {
                    Ok(())
                }
            },
        }
    }
}

/// The store after a rename call: unchanged unless the call succeeds, in
/// which case only the record's name changed.
pub open spec fn rename_state(
    m: StoreModel,
    owner: Seq<u8>,
    signed: bool,
    new_name: Seq<u8>,
) -> StoreModel {
    if rename_result(m, owner, signed, new_name) is Ok {
        let a = derived_for(owner)->Some_0.0;
        m.insert(a, renamed_record(m[a], new_name))
    } else {
        m
    }
}

/// Every stored name fits the byte bound.
pub open spec fn names_bounded(m: StoreModel) -> bool {
    forall|a: Seq<u8>| #[trigger] m.contains_key(a) ==> m[a].stats.name.len() <= name_bound()
}

/// Every record sits at the address derived for its owner and carries that
/// derivation's tag.
pub open spec fn tags_consistent(m: StoreModel) -> bool {
    forall|a: Seq<u8>| #[trigger] m.contains_key(a) ==> derived_for(m[a].owner) == Some(
        (a, m[a].stats.bump),
    )
}

/// One rename call, as the model sees it.
pub struct RenameCall {
    pub owner: Seq<u8>,
    pub signed: bool,
    pub new_name: Seq<u8>,
}

/// The store after a sequence of rename calls, applied in order.
pub open spec fn apply_renames(m: StoreModel, calls: Seq<RenameCall>) -> StoreModel
    decreases calls.len(),
{
    if calls.len() == 0 {
        m
    } else {
        let c = calls.last();
        rename_state(apply_renames(m, calls.drop_last()), c.owner, c.signed, c.new_name)
    }
}

/// What loading the record of an identity returns.
pub open spec fn lookup_spec(m: StoreModel, owner: Seq<u8>) -> Result<RecordV, ErrorCode> {
    match derived_for(owner) {
        None => Err(ErrorCode::AddressTagMismatch),
        Some(ab) => {
            if m.contains_key(ab.0) {
                Ok(m[ab.0])
            } else {
                Err(ErrorCode::RecordNotFound)
            }
        },
    }
}

} // verus!
