//! The executable record store.
//!
//! Records sit in a vector, one per derived address, and the store's view is
//! the map of [`crate::model`]. Every operation is proved to return and to
//! change the store exactly as the model functions say.

use crate::bytes::bytes_eq;
use crate::bytes::clone_bytes;
use crate::model::create_result;
use crate::model::create_state;
use crate::model::lookup_spec;
use crate::model::rename_result;
use crate::model::rename_state;
use crate::model::RecordV;
use crate::model::StoreModel;
use crate::model::UserStatsV;
use crate::pda::derive_record_address;
use crate::pda::derived_for;
use crate::ErrorCode;
use vstd::prelude::*;

verus! {

/// One per-identity record: a level, a bounded name, and the derivation tag.
#[derive(Debug, PartialEq, Eq)]
pub struct UserStats {
    pub level: u16,
    pub name: Vec<u8>,
    pub bump: u8,
}

impl View for UserStats {
    type V = UserStatsV;

    open spec fn view(&self) -> UserStatsV {
        UserStatsV { level: self.level, name: self.name@, bump: self.bump }
    }
}

/// The inputs of a create call: the identity a record is to be created for,
/// and whether the environment verified a signer capability for it.
pub struct CreateUserStats {
    pub user: Vec<u8>,
    pub user_is_signer: bool,
}

/// The inputs of a rename call: the identity whose record is to be renamed,
/// and whether the environment verified a signer capability for it.
pub struct ChangeUserName {
    pub user: Vec<u8>,
    pub user_is_signer: bool,
}

/// One stored record: the owning identity, the address derived for it, and
/// the record value.
struct StoredRecord {
    owner: Vec<u8>,
    address: Vec<u8>,
    stats: UserStats,
}

impl View for StoredRecord {
    type V = RecordV;

    closed spec fn view(&self) -> RecordV {
        RecordV { owner: self.owner@, stats: self.stats@ }
    }
}

/// A stored record is sound: its name fits the bound and its address and tag
/// are the ones derived for its owner.
spec fn entry_wf(e: StoredRecord) -> bool {
    &&& e.stats.name@.len() <= crate::model::name_bound()
    &&& derived_for(e.owner@) == Some((e.address@, e.stats.bump))
}

/// No two stored records share an address.
spec fn addrs_distinct(s: Seq<StoredRecord>) -> bool {
    forall|i: int, j: int|
        #![trigger s[i].address, s[j].address]
        0 <= i < j < s.len() ==> s[i].address@ != s[j].address@
}

/// The map a sequence of stored records represents.
spec fn entries_map(s: Seq<StoredRecord>) -> StoreModel
    decreases s.len(),
{
    if s.len() == 0 {
        Map::empty()
    } else {
        entries_map(s.drop_last()).insert(s.last().address@, s.last()@)
    }
}

/// An address is in the represented map exactly when some stored record
/// carries it.
proof fn lemma_entries_map_domain(s: Seq<StoredRecord>)
    ensures
        forall|a: Seq<u8>|
            #[trigger] entries_map(s).contains_key(a) <==> exists|i: int|
                0 <= i < s.len() && #[trigger] s[i].address@ == a,
    decreases s.len(),
{
    if s.len() == 0 {
    } else {
        let s0 = s.drop_last();
        let last = s.last();
        lemma_entries_map_domain(s0);
        assert(entries_map(s) == entries_map(s0).insert(last.address@, last@));
        assert forall|a: Seq<u8>| #[trigger] entries_map(s).contains_key(a) implies exists|i: int|
            0 <= i < s.len() && #[trigger] s[i].address@ == a by {
            if a == last.address@ {
                assert(s[s.len() - 1].address@ == a);
            } else {
                assert(entries_map(s0).contains_key(a));
                let i = choose|i: int| 0 <= i < s0.len() && #[trigger] s0[i].address@ == a;
                assert(s0[i] == s[i]);
                assert(s[i].address@ == a);
            }
        }
        assert forall|a: Seq<u8>|
            (exists|i: int| 0 <= i < s.len() && #[trigger] s[i].address@ == a) implies #[trigger] entries_map(
            s,
        ).contains_key(a) by {
            let i = choose|i: int| 0 <= i < s.len() && #[trigger] s[i].address@ == a;
            if i < s.len() - 1 {
                assert(s0[i] == s[i]);
                assert(s0[i].address@ == a);
                assert(entries_map(s0).contains_key(a));
            } else {
                assert(a == last.address@);
            }
        }
    }
}

/// Under distinct addresses, the represented map holds each stored record at
/// its address.
proof fn lemma_entries_map_index(s: Seq<StoredRecord>, i: int)
    requires
        addrs_distinct(s),
        0 <= i < s.len(),
    ensures
        entries_map(s).contains_key(s[i].address@),
        entries_map(s)[s[i].address@] == s[i]@,
    decreases s.len(),
{
    if i == s.len() - 1 {
    } else {
        assert(addrs_distinct(s.drop_last()));
        lemma_entries_map_index(s.drop_last(), i);
        assert(s.drop_last()[i] == s[i]);
        assert(s[i].address@ != s.last().address@);
    }
}

/// Appending a record inserts it into the represented map.
proof fn lemma_entries_map_push(s: Seq<StoredRecord>, e: StoredRecord)
    ensures
        entries_map(s.push(e)) == entries_map(s).insert(e.address@, e@),
{
    assert(s.push(e).drop_last() =~= s);
    assert(s.push(e).last() == e);
}

/// Under distinct addresses, replacing the record at an index by one with the
/// same address overwrites that address in the represented map.
proof fn lemma_entries_map_update(s: Seq<StoredRecord>, i: int, e: StoredRecord)
    requires
        addrs_distinct(s),
        0 <= i < s.len(),
        e.address@ == s[i].address@,
    ensures
        entries_map(s.update(i, e)) == entries_map(s).insert(e.address@, e@),
    decreases s.len(),
{
    let t = s.update(i, e);
    if i == s.len() - 1 {
        assert(t.drop_last() =~= s.drop_last());
        assert(t.last() == e);
        assert(entries_map(t) == entries_map(s.drop_last()).insert(e.address@, e@));
        assert(entries_map(s.drop_last()).insert(s.last().address@, s.last()@).insert(
            e.address@,
            e@,
        ) =~= entries_map(s.drop_last()).insert(e.address@, e@));
    } else {
        assert(addrs_distinct(s.drop_last()));
        assert(s.drop_last()[i] == s[i]);
        lemma_entries_map_update(s.drop_last(), i, e);
        assert(t.drop_last() =~= s.drop_last().update(i, e));
        assert(t.last() == s.last());
        assert(entries_map(t) == entries_map(s.drop_last()).insert(e.address@, e@).insert(
            s.last().address@,
            s.last()@,
        ));
        assert(s.last().address@ != e.address@);
        assert(entries_map(s.drop_last()).insert(e.address@, e@).insert(
            s.last().address@,
            s.last()@,
        ) =~= entries_map(s.drop_last()).insert(s.last().address@, s.last()@).insert(
            e.address@,
            e@,
        ));
    }
}

/// A sound sequence of stored records represents a map whose names are all
/// bounded and whose tags are all consistent with the derivation.
proof fn lemma_wf_view_invariants(s: Seq<StoredRecord>)
    requires
        addrs_distinct(s),
        forall|i: int| 0 <= i < s.len() ==> #[trigger] entry_wf(s[i]),
    ensures
        crate::model::names_bounded(entries_map(s)),
        crate::model::tags_consistent(entries_map(s)),
{
    lemma_entries_map_domain(s);
    assert forall|a: Seq<u8>| #[trigger] entries_map(s).contains_key(a) implies entries_map(
        s,
    )[a].stats.name.len() <= crate::model::name_bound() && derived_for(entries_map(s)[a].owner)
        == Some((a, entries_map(s)[a].stats.bump)) by {
        let i = choose|i: int| 0 <= i < s.len() && #[trigger] s[i].address@ == a;
        lemma_entries_map_index(s, i);
        assert(entry_wf(s[i]));
    }
}

/// The record store: at most one record per derived address.
pub struct UserRecordStore {
    records: Vec<StoredRecord>,
}

impl View for UserRecordStore {
    type V = StoreModel;

    closed spec fn view(&self) -> StoreModel {
        entries_map(self.records@)
    }
}

impl UserRecordStore {
    /// Every stored record is sound and no two share an address.
    #[verifier::type_invariant]
    spec fn wf(&self) -> bool {
        &&& addrs_distinct(self.records@)
        &&& forall|i: int| 0 <= i < self.records@.len() ==> #[trigger] entry_wf(self.records@[i])
    }

    /// An empty store.
    pub fn new() -> (r: UserRecordStore)
        ensures
            r@ == StoreModel::empty(),
            crate::model::names_bounded(r@),
            crate::model::tags_consistent(r@),
    {
        let r = UserRecordStore { records: Vec::new() };
        proof {
            assert(r@ =~= StoreModel::empty());
        }
        r
    }

    /// The index of the record stored at an address, if any.
    fn find_by_address(&self, address: &Vec<u8>) -> (r: Option<usize>)
        ensures
            (match r {
                Some(i) => i < self.records@.len() && self.records@[i as int].address@
                    == address@,
                None => forall|i: int|
                    0 <= i < self.records@.len() ==> #[trigger] self.records@[i].address@
                        != address@,
            }),
    {
        let mut i: usize = 0;
        while i < self.records.len()
            invariant
                i <= self.records@.len(),
                forall|j: int| 0 <= j < i ==> #[trigger] self.records@[j].address@ != address@,
            decreases self.records@.len() - i,
        {
            if bytes_eq(&self.records[i].address, address) {
                return Some(i);
            }
            i = i + 1;
        }
        None
    }

    /// Create the record of an identity: derive its address, refuse an
    /// occupied address or an over-long name, and store the name with level 0
    /// and the derivation's tag.
    pub fn create_user_stats(&mut self, ctx: &CreateUserStats, name: Vec<u8>) -> (r: Result<
        (),
        ErrorCode,
    >)
        ensures
            r == create_result(old(self)@, ctx.user@, ctx.user_is_signer, name@),
            final(self)@ == create_state(old(self)@, ctx.user@, ctx.user_is_signer, name@),
            crate::model::names_bounded(final(self)@),
            crate::model::tags_consistent(final(self)@),
    {
        proof {
            use_type_invariant(&*self);
            lemma_entries_map_domain(self.records@);
            lemma_wf_view_invariants(self.records@);
        }
        if !ctx.user_is_signer {
            return Err(ErrorCode::Unauthorized);
        }
        match derive_record_address(&ctx.user) {
            None => Err(ErrorCode::AddressTagMismatch),
            Some(ab) => {
                let (address, bump) = ab;
                match self.find_by_address(&address) {
                    Some(_i) => Err(ErrorCode::RecordAlreadyExists),
                    None => {
                        if name.len() > 200 {
                            return Err(ErrorCode::NameTooLong);
                        }
                        let owner = clone_bytes(&ctx.user);
                        let entry = StoredRecord {
                            owner,
                            address,
                            stats: UserStats { level: 0, name, bump },
                        };
                        let mut records: Vec<StoredRecord> = Vec::new();
                        std::mem::swap(&mut records, &mut self.records);
                        let ghost old_records = records@;
                        records.push(entry);
                        proof {
                            lemma_entries_map_push(old_records, entry);
                            assert forall|k: int|
                                0 <= k < records@.len() implies #[trigger] entry_wf(
                                records@[k],
                            ) by {
                                if k < old_records.len() {
                                    assert(records@[k] == old_records[k]);
                                    assert(entry_wf(old_records[k]));
                                }
                            }
                            assert(addrs_distinct(records@)) by {
                                assert forall|i: int, j: int|
                                    #![trigger records@[i].address, records@[j].address]
                                    0 <= i < j < records@.len() implies records@[i].address@
                                    != records@[j].address@ by {
                                    if j == records@.len() - 1 {
                                        assert(old_records[i].address@ != address@);
                                    }
                                }
                            }
                            lemma_wf_view_invariants(records@);
                        }
                        self.records = records;
                        Ok(())
                    },
                }
            },
        }
    }

    /// Rename the record of an identity: derive its address, re-verify the
    /// stored tag against the derivation, refuse an over-long name, and
    /// overwrite the name in place, leaving level and tag unchanged.
    pub fn change_user_name(&mut self, ctx: &ChangeUserName, new_name: Vec<u8>) -> (r: Result<
        (),
        ErrorCode,
    >)
        ensures
            r == rename_result(old(self)@, ctx.user@, ctx.user_is_signer, new_name@),
            final(self)@ == rename_state(old(self)@, ctx.user@, ctx.user_is_signer, new_name@),
            crate::model::names_bounded(final(self)@),
            crate::model::tags_consistent(final(self)@),
    {
        proof {
            use_type_invariant(&*self);
            lemma_entries_map_domain(self.records@);
            lemma_wf_view_invariants(self.records@);
        }
        if !ctx.user_is_signer {
            return Err(ErrorCode::Unauthorized);
        }
        match derive_record_address(&ctx.user) {
            None => Err(ErrorCode::AddressTagMismatch),
            Some(ab) => {
                let (address, bump) = ab;
                match self.find_by_address(&address) {
                    None => Err(ErrorCode::RecordNotFound),
                    Some(i) => {
                        proof {
                            lemma_entries_map_index(self.records@, i as int);
                        }
                        let stored_bump = self.records[i].stats.bump;
                        if stored_bump != bump {
                            return Err(ErrorCode::AddressTagMismatch);
                        }
                        if new_name.len() > 200 {
                            return Err(ErrorCode::NameTooLong);
                        }
                        let owner = clone_bytes(&self.records[i].owner);
                        let address_copy = clone_bytes(&self.records[i].address);
                        let level = self.records[i].stats.level;
                        let entry = StoredRecord {
                            owner,
                            address: address_copy,
                            stats: UserStats { level, name: new_name, bump: stored_bump },
                        };
                        let mut records: Vec<StoredRecord> = Vec::new();
                        std::mem::swap(&mut records, &mut self.records);
                        let ghost old_records = records@;
                        records[i] = entry;
                        proof {
                            lemma_entries_map_update(old_records, i as int, entry);
                            assert forall|k: int|
                                0 <= k < records@.len() implies #[trigger] entry_wf(
                                records@[k],
                            ) by {
                                if k != i {
                                    assert(records@[k] == old_records[k]);
                                    assert(entry_wf(old_records[k]));
                                } else {
                                    assert(entry_wf(old_records[i as int]));
                                }
                            }
                            assert(addrs_distinct(records@)) by {
                                assert forall|p: int, q: int|
                                    #![trigger records@[p].address, records@[q].address]
                                    0 <= p < q < records@.len() implies records@[p].address@
                                    != records@[q].address@ by {
                                    assert(old_records[p].address@ != old_records[q].address@);
                                }
                            }
                            lemma_wf_view_invariants(records@);
                        }
                        self.records = records;
                        Ok(())
                    },
                }
            },
        }
    }

    /// Load the record of an identity, if one stands at its derived address.
    pub fn get_user_stats(&self, user: &Vec<u8>) -> (r: Result<&UserStats, ErrorCode>)
        ensures
            (match lookup_spec(self@, user@) {
                Ok(v) => r matches Ok(s) && s@ == v.stats,
                Err(e) => r matches Err(e2) && e2 == e,
            }),
            crate::model::names_bounded(self@),
            crate::model::tags_consistent(self@),
    {
        proof {
            use_type_invariant(&*self);
            lemma_entries_map_domain(self.records@);
            lemma_wf_view_invariants(self.records@);
        }
        match derive_record_address(user) {
            None => Err(ErrorCode::AddressTagMismatch),
            Some(ab) => {
                let (address, _bump) = ab;
                match self.find_by_address(&address) {
                    None => Err(ErrorCode::RecordNotFound),
                    Some(i) => {
                        proof {
                            lemma_entries_map_index(self.records@, i as int);
                        }
                        Ok(&self.records[i].stats)
                    },
                }
            },
        }
    }
}

} // verus!
