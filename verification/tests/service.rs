use zkp_auth::error::AuthError;
use zkp_auth::params::Params;
use zkp_auth::protocol::calculate_response;
use zkp_auth::bignat::{decode, encode, modpow, BigNat};
use zkp_auth::service::MyAuth;

fn num(v: u64) -> BigNat {
    decode(&v.to_be_bytes())
}

fn small_group() -> Params {
    Params::new(num(23), num(11), num(4), num(9)).unwrap()
}

/// The bytes of `g^e mod p` and `h^e mod p`.
fn commitments(params: &Params, e: &BigNat) -> (Vec<u8>, Vec<u8>) {
    (
        encode(&modpow(params.g(), e, params.p())),
        encode(&modpow(params.h(), e, params.p())),
    )
}

fn plus_one(s: &BigNat) -> Vec<u8> {
    (num_bigint::BigUint::from_bytes_be(&encode(s)) + 1u32).to_bytes_be()
}

fn is_hyphenated_uuid(s: &str) -> bool {
    s.len() == 36
        && s.char_indices().all(|(i, ch)| match i {
            8 | 13 | 18 | 23 => ch == '-',
            _ => ch.is_ascii_digit() || ('a'..='f').contains(&ch),
        })
}

#[test]
fn handshake_with_the_standard_group() {
    let mut auth = MyAuth::new(Params::standard().unwrap());
    let params = Params::standard().unwrap();
    let x = num(42);
    let (y1, y2) = commitments(&params, &x);
    auth.register("zaphod".to_string(), &y1, &y2);

    let k = num(7);
    let (r1, r2) = commitments(&params, &k);
    let issued = auth.create_authentication_challenge("zaphod".to_string(), &r1, &r2).unwrap();
    let c = decode(&issued.c);

    let s = calculate_response(&x, &k, &c, params.q());
    let session_id = auth.verify_authentication(&issued.auth_id, &encode(&s)).unwrap();
    assert!(!session_id.is_empty());
    assert!(is_hyphenated_uuid(&session_id));

    assert_eq!(
        auth.verify_authentication(&issued.auth_id, &plus_one(&s)),
        Err(AuthError::Unauthenticated)
    );
}

#[test]
fn handshake_with_a_small_group() {
    let params = small_group();
    let mut auth = MyAuth::new(small_group());
    for x in 0..11u64 {
        let user = format!("user-{}", x);
        let (y1, y2) = commitments(&params, &num(x));
        auth.register(user.clone(), &y1, &y2);
        for k in 0..11u64 {
            let (r1, r2) = commitments(&params, &num(k));
            let issued = auth.create_authentication_challenge(user.clone(), &r1, &r2).unwrap();
            let c = decode(&issued.c);
            let s = calculate_response(&num(x), &num(k), &c, params.q());
            assert!(auth.verify_authentication(&issued.auth_id, &encode(&s)).is_ok());
            assert_eq!(
                auth.verify_authentication(&issued.auth_id, &plus_one(&s)),
                Err(AuthError::Unauthenticated)
            );
        }
    }
}

#[test]
fn challenge_is_below_q_and_canonical() {
    let mut auth = MyAuth::new(small_group());
    auth.register("zaphod".to_string(), &[2], &[3]);
    for _ in 0..40 {
        let issued = auth.create_authentication_challenge("zaphod".to_string(), &[8], &[4]).unwrap();
        assert_eq!(issued.c.len(), 1);
        assert!(issued.c[0] < 11);
        assert!(is_hyphenated_uuid(&issued.auth_id));
    }
}

#[test]
fn challenges_get_distinct_identifiers() {
    let mut auth = MyAuth::new(small_group());
    auth.register("zaphod".to_string(), &[2], &[3]);
    let first = auth.create_authentication_challenge("zaphod".to_string(), &[8], &[4]).unwrap();
    let second = auth.create_authentication_challenge("zaphod".to_string(), &[8], &[4]).unwrap();
    assert_ne!(first.auth_id, second.auth_id);
}

#[test]
fn challenge_for_unknown_user_is_not_found() {
    let mut auth = MyAuth::new(small_group());
    assert_eq!(
        auth.create_authentication_challenge("zaphod".to_string(), &[8], &[4]).unwrap_err(),
        AuthError::NotFound
    );
    auth.register("ford".to_string(), &[2], &[3]);
    assert_eq!(
        auth.create_authentication_challenge("zaphod".to_string(), &[8], &[4]).unwrap_err(),
        AuthError::NotFound
    );
    assert_eq!(
        auth.open_challenge("zaphod".to_string(), &[8], &[4], "a1".to_string(), num(4)).unwrap_err(),
        AuthError::NotFound
    );
    // nothing was filed
    assert_eq!(auth.check_answer("a1", &[5]), Err(AuthError::NotFound));
}

#[test]
fn answer_to_unknown_challenge_is_not_found() {
    let mut auth = MyAuth::new(small_group());
    assert_eq!(auth.verify_authentication("a1", &[5]), Err(AuthError::NotFound));
    assert_eq!(auth.check_answer("a1", &[5]), Err(AuthError::NotFound));
    auth.register("zaphod".to_string(), &[2], &[3]);
    assert_eq!(auth.verify_authentication("a1", &[5]), Err(AuthError::NotFound));
    assert_eq!(auth.verify_authentication("zaphod", &[5]), Err(AuthError::NotFound));
    auth.open_challenge("zaphod".to_string(), &[8], &[4], "a1".to_string(), num(4)).unwrap();
    assert_eq!(auth.verify_authentication("a2", &[5]), Err(AuthError::NotFound));
    assert_eq!(auth.verify_authentication("", &[5]), Err(AuthError::NotFound));
}

#[test]
fn open_challenge_hands_back_what_it_filed() {
    let mut auth = MyAuth::new(small_group());
    auth.register("zaphod".to_string(), &[2], &[3]);
    let issued =
        auth.open_challenge("zaphod".to_string(), &[8], &[4], "a1".to_string(), num(4)).unwrap();
    assert_eq!(issued.auth_id, "a1");
    assert_eq!(issued.c, vec![4u8]);
    // x = 6, k = 7, c = 4: s = 5
    assert_eq!(auth.check_answer("a1", &[5]), Ok(()));
    assert_eq!(auth.check_answer("a1", &[0, 0, 5]), Ok(()));
    assert_eq!(auth.check_answer("a1", &[16]), Ok(()));
    for s in [0u8, 1, 2, 3, 4, 6, 7, 8, 9, 10] {
        assert_eq!(auth.check_answer("a1", &[s]), Err(AuthError::Unauthenticated));
    }
}

#[test]
fn taken_identifier_is_an_internal_error() {
    let mut auth = MyAuth::new(small_group());
    auth.register("zaphod".to_string(), &[2], &[3]);
    auth.open_challenge("zaphod".to_string(), &[8], &[4], "a1".to_string(), num(4)).unwrap();
    assert_eq!(
        auth.open_challenge("zaphod".to_string(), &[1], &[1], "a1".to_string(), num(0)).unwrap_err(),
        AuthError::Internal
    );
    // the first challenge is still the one on file
    assert_eq!(auth.check_answer("a1", &[5]), Ok(()));
    // an unknown user is reported before the taken identifier
    assert_eq!(
        auth.open_challenge("ford".to_string(), &[1], &[1], "a1".to_string(), num(0)).unwrap_err(),
        AuthError::NotFound
    );
}

#[test]
fn a_challenge_can_be_answered_again() {
    let mut auth = MyAuth::new(small_group());
    auth.register("zaphod".to_string(), &[2], &[3]);
    auth.open_challenge("zaphod".to_string(), &[8], &[4], "a1".to_string(), num(4)).unwrap();
    assert_eq!(auth.verify_authentication("a1", &[6]), Err(AuthError::Unauthenticated));
    assert_eq!(auth.verify_authentication("a1", &[7]), Err(AuthError::Unauthenticated));
    let first = auth.verify_authentication("a1", &[5]).unwrap();
    let second = auth.verify_authentication("a1", &[5]).unwrap();
    assert!(is_hyphenated_uuid(&first));
    assert!(is_hyphenated_uuid(&second));
    assert_ne!(first, second);
}

#[test]
fn registering_again_replaces_the_commitments() {
    let mut auth = MyAuth::new(small_group());
    auth.register("zaphod".to_string(), &[2], &[3]);
    auth.open_challenge("zaphod".to_string(), &[8], &[4], "a1".to_string(), num(4)).unwrap();
    assert_eq!(auth.check_answer("a1", &[5]), Ok(()));
    // x = 7: y1 = 4^7 mod 23 = 8, y2 = 9^7 mod 23 = 4
    auth.register("zaphod".to_string(), &[8], &[4]);
    assert_eq!(auth.check_answer("a1", &[5]), Err(AuthError::Unauthenticated));
    // s = (7 - 4 * 7) mod 11 = 1
    assert_eq!(auth.check_answer("a1", &[1]), Ok(()));
}

#[test]
fn commitments_are_stored_without_validation() {
    let mut auth = MyAuth::new(small_group());
    // neither 5 nor 0 is in the subgroup
    auth.register("zaphod".to_string(), &[5], &[0]);
    let empty: [u8; 0] = [];
    auth.register("ford".to_string(), &empty, &empty);
    assert!(auth.create_authentication_challenge("zaphod".to_string(), &[8], &[4]).is_ok());
    assert!(auth.create_authentication_challenge("ford".to_string(), &empty, &[0, 0]).is_ok());
}

#[test]
fn two_registrations_are_both_kept() {
    let params = small_group();
    for order in [["zaphod", "ford"], ["ford", "zaphod"]] {
        let mut auth = MyAuth::new(small_group());
        for name in order {
            let x = if name == "zaphod" { num(6) } else { num(9) };
            let (y1, y2) = commitments(&params, &x);
            auth.register(name.to_string(), &y1, &y2);
        }
        let (r1, r2) = commitments(&params, &num(7));
        auth.open_challenge("zaphod".to_string(), &r1, &r2, "a1".to_string(), num(4)).unwrap();
        auth.open_challenge("ford".to_string(), &r1, &r2, "a2".to_string(), num(4)).unwrap();
        let s_zaphod = calculate_response(&num(6), &num(7), &num(4), params.q());
        let s_ford = calculate_response(&num(9), &num(7), &num(4), params.q());
        assert_ne!(s_zaphod, s_ford);
        assert_eq!(auth.check_answer("a1", &encode(&s_zaphod)), Ok(()));
        assert_eq!(auth.check_answer("a2", &encode(&s_ford)), Ok(()));
        assert_eq!(auth.check_answer("a1", &encode(&s_ford)), Err(AuthError::Unauthenticated));
        assert_eq!(auth.check_answer("a2", &encode(&s_zaphod)), Err(AuthError::Unauthenticated));
    }
}

#[test]
fn service_keeps_its_parameters() {
    let mut auth = MyAuth::new(small_group());
    auth.register("zaphod".to_string(), &[2], &[3]);
    assert_eq!(*auth.params().p(), num(23));
    assert_eq!(*auth.params().q(), num(11));
    assert_eq!(*auth.params().g(), num(4));
    assert_eq!(*auth.params().h(), num(9));
}

#[test]
fn first_challenge_on_a_fresh_service_is_issued() {
    let params = Params::standard().unwrap();
    let mut auth = MyAuth::new(Params::standard().unwrap());
    let (y1, y2) = commitments(&params, &num(42));
    auth.register("zaphod".to_string(), &y1, &y2);
    let (r1, r2) = commitments(&params, &num(7));
    let issued = auth.create_authentication_challenge("zaphod".to_string(), &r1, &r2).unwrap();
    assert!(!issued.auth_id.is_empty());
    assert_eq!(issued.auth_id.len(), 36);
    let q = num_bigint::BigUint::from_bytes_be(&encode(params.q()));
    assert!(num_bigint::BigUint::from_bytes_be(&issued.c) < q);
    assert_eq!(encode(&decode(&issued.c)), issued.c);
}

#[test]
fn challenges_are_issued_while_others_are_open() {
    let mut auth = MyAuth::new(small_group());
    auth.register("zaphod".to_string(), &[2], &[3]);
    // identifiers of another length cannot be drawn, so they never collide
    auth.open_challenge("zaphod".to_string(), &[8], &[4], "a1".to_string(), num(4)).unwrap();
    for _ in 0..20 {
        assert!(auth.create_authentication_challenge("zaphod".to_string(), &[8], &[4]).is_ok());
    }
}
