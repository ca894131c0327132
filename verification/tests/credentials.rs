use service_actix::auth::{
    access, create_api_key, is_key_allowed_access, issue_api_key, key_from_entropy, key_of_draw,
    revoke_api_key, store_api_key, stored, GenerationError, IssueError, StorageError,
};
use service_actix::db::{ApiEndpoint, MemoryDb, Query, Reply};
use service_actix::{delete_api_key, request_api_key, validator, Decision};

#[test]
fn key_reads_entropy_as_lower_case_hex() {
    let entropy: Vec<u8> = (0u8..16).collect();
    assert_eq!(
        key_from_entropy(&entropy),
        Ok("000102030405060708090a0b0c0d0e0f".to_string())
    );
    let entropy = [0xffu8, 0xa0, 0x5b, 0x10, 0x01, 0x7f, 0x80, 0xc3, 0x99, 0xde, 0xad, 0xbe, 0xef, 0x00, 0x42, 0x24];
    assert_eq!(
        key_from_entropy(&entropy),
        Ok("ffa05b10017f80c399deadbeef004224".to_string())
    );
}

#[test]
fn key_carries_all_of_longer_entropy() {
    let entropy = [0xabu8; 20];
    let key = key_from_entropy(&entropy).unwrap();
    assert_eq!(key.len(), 40);
    assert_eq!(key, "ab".repeat(20));
}

#[test]
fn short_entropy_is_refused() {
    assert_eq!(key_from_entropy(&[]), Err(GenerationError::InsufficientEntropy));
    assert_eq!(key_from_entropy(&[7u8; 15]), Err(GenerationError::InsufficientEntropy));
    assert!(key_from_entropy(&[7u8; 16]).is_ok());
}

#[test]
fn different_entropy_gives_different_keys() {
    let mut first = [0u8; 16];
    let mut second = [0u8; 16];
    first[15] = 0x01;
    second[15] = 0x10;
    assert_ne!(key_from_entropy(&first), key_from_entropy(&second));
}

#[test]
fn created_keys_are_printable_and_fresh() {
    let first = create_api_key().unwrap();
    let second = create_api_key().unwrap();
    for key in [&first, &second] {
        assert_eq!(key.len(), 32);
        assert!(key.chars().all(|c| matches!(c, '0'..='9' | 'a'..='f')));
        assert_ne!(key.as_str(), "0".repeat(32));
    }
    assert_ne!(first, second);
}

#[test]
fn request_api_key_endpoint() {
    let mut db = MemoryDb::new();
    let key = create_api_key().unwrap();
    let reply = db.execute(&Query::StoreApiKey { api_key: key.clone() });
    let body = request_api_key(key, reply).unwrap();
    assert_ne!(body.trim_ascii().len(), 0);
}

#[test]
fn a_failed_draw_gives_no_key() {
    let filled = [0x5au8; 16];
    assert_eq!(
        key_of_draw(Err(getrandom::Error::UNSUPPORTED), &filled),
        Err(GenerationError::EntropyUnavailable)
    );
    assert_eq!(
        key_of_draw(Err(getrandom::Error::UNSUPPORTED), &[]),
        Err(GenerationError::EntropyUnavailable)
    );
}

#[test]
fn a_draw_that_succeeded_reads_as_its_key() {
    let filled = [0x5au8; 16];
    assert_eq!(key_of_draw(Ok(()), &filled), Ok("5a".repeat(16)));
    assert_eq!(key_of_draw(Ok(()), &filled), key_from_entropy(&filled));
    assert_eq!(key_of_draw(Ok(()), &filled[..15]), Err(GenerationError::InsufficientEntropy));
}

#[test]
fn issue_response_is_the_key_and_a_line_end() {
    let body = request_api_key("00ff".to_string(), Reply::Stored);
    assert_eq!(body, Ok("00ff\r\n".to_string()));
    assert_eq!(body.unwrap().trim_end(), "00ff");
}

#[test]
fn issue_hands_out_no_key_unless_stored() {
    assert_eq!(
        request_api_key("k".to_string(), Reply::Duplicate),
        Err(IssueError::Generation(GenerationError::Collision))
    );
    for reply in [Reply::Failed, Reply::Revoked, Reply::Recorded, Reply::Allowed(true)] {
        assert_eq!(
            request_api_key("k".to_string(), reply),
            Err(IssueError::Storage(StorageError))
        );
    }
}

#[test]
fn replies_are_read_strictly() {
    assert_eq!(stored(Reply::Stored), Ok(()));
    assert_eq!(stored(Reply::Duplicate), Err(IssueError::Generation(GenerationError::Collision)));
    assert_eq!(stored(Reply::Failed), Err(IssueError::Storage(StorageError)));
    assert_eq!(access(Reply::Allowed(true)), Ok(true));
    assert_eq!(access(Reply::Allowed(false)), Ok(false));
    assert_eq!(access(Reply::Failed), Err(StorageError));
    assert_eq!(access(Reply::Stored), Err(StorageError));
    assert_eq!(delete_api_key(Reply::Revoked), Ok(()));
    assert_eq!(delete_api_key(Reply::Failed), Err(StorageError));
    assert_eq!(delete_api_key(Reply::Allowed(false)), Err(StorageError));
}

#[test]
fn validator_maps_each_lookup() {
    assert_eq!(validator(Ok(true)), Decision::Allow);
    assert_eq!(validator(Ok(false)), Decision::Deny);
    assert_eq!(validator(Err(StorageError)), Decision::Error);
}

#[test]
fn stored_keys_are_allowed_and_others_denied() {
    let mut db = MemoryDb::new();
    assert_eq!(store_api_key(&mut db, "alpha"), Ok(()));
    assert_eq!(store_api_key(&mut db, "beta"), Ok(()));
    assert_eq!(validator(is_key_allowed_access(&mut db, "alpha")), Decision::Allow);
    assert_eq!(validator(is_key_allowed_access(&mut db, "beta")), Decision::Allow);
    assert_eq!(validator(is_key_allowed_access(&mut db, "gamma")), Decision::Deny);
    assert_eq!(validator(is_key_allowed_access(&mut db, "")), Decision::Deny);
}

#[test]
fn keys_match_character_for_character() {
    let mut db = MemoryDb::new();
    store_api_key(&mut db, "Key-1").unwrap();
    assert_eq!(is_key_allowed_access(&mut db, "Key-1"), Ok(true));
    assert_eq!(is_key_allowed_access(&mut db, "key-1"), Ok(false));
    assert_eq!(is_key_allowed_access(&mut db, "Key-1 "), Ok(false));
    assert_eq!(is_key_allowed_access(&mut db, " Key-1"), Ok(false));
    assert_eq!(is_key_allowed_access(&mut db, "Key-"), Ok(false));
}

#[test]
fn revocation_takes_effect_at_once() {
    let mut db = MemoryDb::new();
    let key = create_api_key().unwrap();
    store_api_key(&mut db, &key).unwrap();
    assert_eq!(validator(is_key_allowed_access(&mut db, &key)), Decision::Allow);
    assert_eq!(revoke_api_key(&mut db, &key), Ok(()));
    assert_eq!(validator(is_key_allowed_access(&mut db, &key)), Decision::Deny);
}

#[test]
fn revocation_leaves_other_keys_alone() {
    let mut db = MemoryDb::new();
    for key in ["a", "b", "c"] {
        store_api_key(&mut db, key).unwrap();
    }
    revoke_api_key(&mut db, "b").unwrap();
    assert_eq!(is_key_allowed_access(&mut db, "a"), Ok(true));
    assert_eq!(is_key_allowed_access(&mut db, "b"), Ok(false));
    assert_eq!(is_key_allowed_access(&mut db, "c"), Ok(true));
}

#[test]
fn revoking_twice_or_an_unknown_key_succeeds() {
    let mut db = MemoryDb::new();
    assert_eq!(revoke_api_key(&mut db, "never-issued"), Ok(()));
    store_api_key(&mut db, "k").unwrap();
    assert_eq!(revoke_api_key(&mut db, "k"), Ok(()));
    assert_eq!(revoke_api_key(&mut db, "k"), Ok(()));
    assert_eq!(is_key_allowed_access(&mut db, "k"), Ok(false));
}

#[test]
fn a_revoked_key_can_be_stored_again_but_a_held_one_cannot() {
    let mut db = MemoryDb::new();
    assert_eq!(store_api_key(&mut db, "k"), Ok(()));
    assert_eq!(
        store_api_key(&mut db, "k"),
        Err(IssueError::Generation(GenerationError::Collision))
    );
    assert_eq!(is_key_allowed_access(&mut db, "k"), Ok(true));
    revoke_api_key(&mut db, "k").unwrap();
    assert_eq!(store_api_key(&mut db, "k"), Ok(()));
}

#[test]
fn an_offline_medium_fails_without_changing() {
    let mut db = MemoryDb::new();
    store_api_key(&mut db, "held").unwrap();
    db.set_online(false);
    assert_eq!(store_api_key(&mut db, "new"), Err(IssueError::Storage(StorageError)));
    assert_eq!(revoke_api_key(&mut db, "held"), Err(StorageError));
    assert_eq!(is_key_allowed_access(&mut db, "held"), Err(StorageError));
    assert_eq!(validator(is_key_allowed_access(&mut db, "held")), Decision::Error);
    let record = Query::RecordApiUsage {
        api_key: "held".to_string(),
        endpoint: ApiEndpoint::ChangeSign,
        called_at: 1,
    };
    assert_eq!(db.execute(&record), Reply::Failed);
    db.set_online(true);
    assert_eq!(is_key_allowed_access(&mut db, "held"), Ok(true));
    assert_eq!(is_key_allowed_access(&mut db, "new"), Ok(false));
}

#[test]
fn the_medium_answers_each_query() {
    let mut db = MemoryDb::new();
    let store = Query::StoreApiKey { api_key: "k".to_string() };
    let check = Query::CheckApiKey { api_key: "k".to_string() };
    let revoke = Query::RevokeApiKey { api_key: "k".to_string() };
    let record = Query::RecordApiUsage {
        api_key: "k".to_string(),
        endpoint: ApiEndpoint::ChangeSign,
        called_at: 1_700_000_000_000_000,
    };
    assert_eq!(db.execute(&check), Reply::Allowed(false));
    assert_eq!(db.execute(&store), Reply::Stored);
    assert_eq!(db.execute(&store), Reply::Duplicate);
    assert_eq!(db.execute(&check), Reply::Allowed(true));
    assert_eq!(db.execute(&record), Reply::Recorded);
    assert_eq!(db.execute(&revoke), Reply::Revoked);
    assert_eq!(db.execute(&revoke), Reply::Revoked);
    assert_eq!(db.execute(&check), Reply::Allowed(false));
}

#[test]
fn two_issued_keys_differ() {
    let mut db = MemoryDb::new();
    let first = issue_api_key(&mut db).unwrap();
    let second = issue_api_key(&mut db).unwrap();
    assert_ne!(first, second);
    assert_eq!(is_key_allowed_access(&mut db, &first), Ok(true));
    assert_eq!(is_key_allowed_access(&mut db, &second), Ok(true));
}

#[test]
fn nothing_is_issued_while_the_medium_is_offline() {
    let mut db = MemoryDb::new();
    db.set_online(false);
    assert_eq!(issue_api_key(&mut db), Err(IssueError::Storage(StorageError)));
    db.set_online(true);
    let key = issue_api_key(&mut db).unwrap();
    assert_eq!(key.len(), 32);
    assert_eq!(is_key_allowed_access(&mut db, &key), Ok(true));
}
