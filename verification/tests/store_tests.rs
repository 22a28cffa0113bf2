use user_record_store::derive_record_address;
use user_record_store::ChangeUserName;
use user_record_store::CreateUserStats;
use user_record_store::ErrorCode;
use user_record_store::UserRecordStore;

fn create_ctx(user: &[u8], signed: bool) -> CreateUserStats {
    CreateUserStats { user: user.to_vec(), user_is_signer: signed }
}

fn rename_ctx(user: &[u8], signed: bool) -> ChangeUserName {
    ChangeUserName { user: user.to_vec(), user_is_signer: signed }
}

#[test]
fn scenario_create_then_rename() {
    let mut store = UserRecordStore::new();
    let user_a = b"userA".to_vec();

    assert_eq!(
        store.create_user_stats(&create_ctx(b"userA", true), b"Alice".to_vec()),
        Ok(())
    );
    let tag = {
        let stats = store.get_user_stats(&user_a).unwrap();
        assert_eq!(stats.level, 0);
        assert_eq!(stats.name, b"Alice".to_vec());
        stats.bump
    };

    assert_eq!(
        store.create_user_stats(&create_ctx(b"userA", true), b"Bob".to_vec()),
        Err(ErrorCode::RecordAlreadyExists)
    );

    assert_eq!(
        store.change_user_name(&rename_ctx(b"userA", true), vec![b'A'; 201]),
        Err(ErrorCode::NameTooLong)
    );
    assert_eq!(store.get_user_stats(&user_a).unwrap().name, b"Alice".to_vec());

    assert_eq!(
        store.change_user_name(&rename_ctx(b"userA", true), b"Alice2".to_vec()),
        Ok(())
    );
    let stats = store.get_user_stats(&user_a).unwrap();
    assert_eq!(stats.name, b"Alice2".to_vec());
    assert_eq!(stats.level, 0);
    assert_eq!(stats.bump, tag);
}

#[test]
fn create_twice_fails_with_record_already_exists() {
    let mut store = UserRecordStore::new();
    assert_eq!(
        store.create_user_stats(&create_ctx(b"u1", true), b"first".to_vec()),
        Ok(())
    );
    assert_eq!(
        store.create_user_stats(&create_ctx(b"u1", true), b"second".to_vec()),
        Err(ErrorCode::RecordAlreadyExists)
    );
    assert_eq!(store.get_user_stats(&b"u1".to_vec()).unwrap().name, b"first".to_vec());
}

#[test]
fn create_name_bound_is_200_bytes() {
    let mut store = UserRecordStore::new();
    assert_eq!(
        store.create_user_stats(&create_ctx(b"long", true), vec![b'x'; 201]),
        Err(ErrorCode::NameTooLong)
    );
    assert_eq!(
        store.get_user_stats(&b"long".to_vec()),
        Err(ErrorCode::RecordNotFound)
    );
    assert_eq!(
        store.create_user_stats(&create_ctx(b"long", true), vec![b'x'; 200]),
        Ok(())
    );
    assert_eq!(store.get_user_stats(&b"long".to_vec()).unwrap().name.len(), 200);
}

#[test]
fn rename_name_bound_is_200_bytes() {
    let mut store = UserRecordStore::new();
    assert_eq!(
        store.create_user_stats(&create_ctx(b"ren", true), b"short".to_vec()),
        Ok(())
    );
    assert_eq!(
        store.change_user_name(&rename_ctx(b"ren", true), vec![b'y'; 201]),
        Err(ErrorCode::NameTooLong)
    );
    assert_eq!(store.get_user_stats(&b"ren".to_vec()).unwrap().name, b"short".to_vec());
    assert_eq!(
        store.change_user_name(&rename_ctx(b"ren", true), vec![b'y'; 200]),
        Ok(())
    );
    assert_eq!(store.get_user_stats(&b"ren".to_vec()).unwrap().name.len(), 200);
}

#[test]
fn unsigned_calls_are_unauthorized() {
    let mut store = UserRecordStore::new();
    assert_eq!(
        store.create_user_stats(&create_ctx(b"u2", false), b"name".to_vec()),
        Err(ErrorCode::Unauthorized)
    );
    assert_eq!(
        store.change_user_name(&rename_ctx(b"u2", false), b"name".to_vec()),
        Err(ErrorCode::Unauthorized)
    );
    assert_eq!(
        store.get_user_stats(&b"u2".to_vec()),
        Err(ErrorCode::RecordNotFound)
    );
}

#[test]
fn rename_without_record_fails_with_record_not_found() {
    let mut store = UserRecordStore::new();
    assert_eq!(
        store.change_user_name(&rename_ctx(b"absent", true), b"name".to_vec()),
        Err(ErrorCode::RecordNotFound)
    );
}

#[test]
fn tag_is_stable_across_renames() {
    let mut store = UserRecordStore::new();
    assert_eq!(
        store.create_user_stats(&create_ctx(b"u3", true), b"alice".to_vec()),
        Ok(())
    );
    let tag = store.get_user_stats(&b"u3".to_vec()).unwrap().bump;
    for i in 0..5u8 {
        assert_eq!(
            store.change_user_name(&rename_ctx(b"u3", true), vec![b'a' + i; 3]),
            Ok(())
        );
        assert_eq!(store.get_user_stats(&b"u3".to_vec()).unwrap().bump, tag);
    }
}

#[test]
fn read_after_create_and_rename() {
    let mut store = UserRecordStore::new();
    assert_eq!(
        store.create_user_stats(&create_ctx(b"u4", true), b"alice".to_vec()),
        Ok(())
    );
    let tag = store.get_user_stats(&b"u4".to_vec()).unwrap().bump;
    assert_eq!(
        store.change_user_name(&rename_ctx(b"u4", true), b"bob".to_vec()),
        Ok(())
    );
    let stats = store.get_user_stats(&b"u4".to_vec()).unwrap();
    assert_eq!(stats.name, b"bob".to_vec());
    assert_eq!(stats.level, 0);
    assert_eq!(stats.bump, tag);
}

#[test]
fn two_identities_have_separate_records() {
    let mut store = UserRecordStore::new();
    assert_eq!(
        store.create_user_stats(&create_ctx(b"ida", true), b"a".to_vec()),
        Ok(())
    );
    assert_eq!(
        store.create_user_stats(&create_ctx(b"idb", true), b"b".to_vec()),
        Ok(())
    );
    assert_eq!(
        store.change_user_name(&rename_ctx(b"ida", true), b"a2".to_vec()),
        Ok(())
    );
    assert_eq!(store.get_user_stats(&b"ida".to_vec()).unwrap().name, b"a2".to_vec());
    assert_eq!(store.get_user_stats(&b"idb".to_vec()).unwrap().name, b"b".to_vec());
}

#[test]
fn empty_name_is_accepted() {
    let mut store = UserRecordStore::new();
    assert_eq!(
        store.create_user_stats(&create_ctx(b"empty", true), Vec::new()),
        Ok(())
    );
    let stats = store.get_user_stats(&b"empty".to_vec()).unwrap();
    assert_eq!(stats.name.len(), 0);
    assert_eq!(stats.level, 0);
}

#[test]
fn derivation_matches_the_outside_function() {
    let owner = b"userA".to_vec();
    let (address, tag) = derive_record_address(&owner).unwrap();

    let program_id = solana_pubkey::Pubkey::from_str_const(
        "Fg6PaFpoGXkYsidMpWTK6W2BeZ7FEfcYkg476zPFsLnS",
    );
    let (expected_address, expected_tag) =
        solana_pubkey::Pubkey::find_program_address(&[b"user-stats", b"userA"], &program_id);

    assert_eq!(address, expected_address.to_bytes().to_vec());
    assert_eq!(tag, expected_tag);
    assert_eq!(address.len(), 32);
    assert_ne!(address, owner);
}

#[test]
fn stored_tag_matches_the_derivation() {
    let mut store = UserRecordStore::new();
    assert_eq!(
        store.create_user_stats(&create_ctx(b"userA", true), b"Alice".to_vec()),
        Ok(())
    );
    let stats_tag = store.get_user_stats(&b"userA".to_vec()).unwrap().bump;
    let (_, derived_tag) = derive_record_address(&b"userA".to_vec()).unwrap();
    assert_eq!(stats_tag, derived_tag);
}
