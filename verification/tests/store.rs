use zkp_auth::error::AuthError;
use zkp_auth::bignat::{decode, BigNat};
use zkp_auth::store::{ChallengeSession, StateStore};

fn num(v: u64) -> BigNat {
    decode(&v.to_be_bytes())
}

fn session(user_id: &str, r1: u64, r2: u64, c: u64) -> ChallengeSession {
    ChallengeSession { user_id: user_id.to_string(), r1: num(r1), r2: num(r2), c: num(c) }
}

#[test]
fn empty_store_finds_nothing() {
    let store = StateStore::new();
    assert_eq!(store.get_user("zaphod").unwrap_err(), AuthError::NotFound);
    assert_eq!(store.get_session("a1").unwrap_err(), AuthError::NotFound);
    assert_eq!(store.get_user("").unwrap_err(), AuthError::NotFound);
}

#[test]
fn put_user_then_get_user() {
    let mut store = StateStore::new();
    store.put_user("zaphod".to_string(), num(2), num(3));
    let record = store.get_user("zaphod").unwrap();
    assert_eq!(record.y1, num(2));
    assert_eq!(record.y2, num(3));
    assert_eq!(store.get_user("ford").unwrap_err(), AuthError::NotFound);
    assert_eq!(store.get_user("Zaphod").unwrap_err(), AuthError::NotFound);
}

#[test]
fn put_user_replaces_the_record() {
    let mut store = StateStore::new();
    store.put_user("zaphod".to_string(), num(2), num(3));
    store.put_user("zaphod".to_string(), num(12), num(13));
    let record = store.get_user("zaphod").unwrap();
    assert_eq!(record.y1, num(12));
    assert_eq!(record.y2, num(13));
}

#[test]
fn users_do_not_disturb_each_other() {
    let mut store = StateStore::new();
    store.put_user("zaphod".to_string(), num(2), num(3));
    store.put_user("ford".to_string(), num(4), num(5));
    store.put_user("".to_string(), num(6), num(7));
    assert_eq!(store.get_user("zaphod").unwrap().y1, num(2));
    assert_eq!(store.get_user("zaphod").unwrap().y2, num(3));
    assert_eq!(store.get_user("ford").unwrap().y1, num(4));
    assert_eq!(store.get_user("ford").unwrap().y2, num(5));
    assert_eq!(store.get_user("").unwrap().y1, num(6));
}

#[test]
fn put_session_then_get_session() {
    let mut store = StateStore::new();
    assert_eq!(store.put_session("a1".to_string(), session("zaphod", 8, 4, 4)), Ok(()));
    let found = store.get_session("a1").unwrap();
    assert_eq!(found.user_id, "zaphod");
    assert_eq!(found.r1, num(8));
    assert_eq!(found.r2, num(4));
    assert_eq!(found.c, num(4));
    assert_eq!(store.get_session("a2").unwrap_err(), AuthError::NotFound);
}

#[test]
fn put_session_does_not_overwrite() {
    let mut store = StateStore::new();
    assert_eq!(store.put_session("a1".to_string(), session("zaphod", 8, 4, 4)), Ok(()));
    assert_eq!(
        store.put_session("a1".to_string(), session("ford", 1, 2, 3)),
        Err(AuthError::Internal)
    );
    let found = store.get_session("a1").unwrap();
    assert_eq!(found.user_id, "zaphod");
    assert_eq!(found.r1, num(8));
    assert_eq!(found.r2, num(4));
    assert_eq!(found.c, num(4));
}

#[test]
fn the_two_maps_are_independent() {
    let mut store = StateStore::new();
    store.put_user("same".to_string(), num(2), num(3));
    assert_eq!(store.get_session("same").unwrap_err(), AuthError::NotFound);
    assert_eq!(store.put_session("same".to_string(), session("nobody", 8, 4, 4)), Ok(()));
    assert_eq!(store.get_user("same").unwrap().y1, num(2));
    assert_eq!(store.get_session("same").unwrap().user_id, "nobody");
    assert_eq!(store.get_user("nobody").unwrap_err(), AuthError::NotFound);
}

#[test]
fn several_sessions_of_one_user() {
    let mut store = StateStore::new();
    assert_eq!(store.put_session("a1".to_string(), session("zaphod", 1, 2, 3)), Ok(()));
    assert_eq!(store.put_session("a2".to_string(), session("zaphod", 4, 5, 6)), Ok(()));
    assert_eq!(store.get_session("a1").unwrap().c, num(3));
    assert_eq!(store.get_session("a2").unwrap().c, num(6));
}
