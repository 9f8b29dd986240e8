use upload_gateway::token::{
    create_jwt_token, lookup_claim, mint_deletion_token, prepare_deletion, verify_jwt_token,
    DeletionError,
};

const SECRET: &str = "gateway-signing-key";

#[test]
fn minted_deletion_token_round_trips_with_both_claims() {
    let token = mint_deletion_token(SECRET, "a1b2c3.png", "4_z_file_id_001").unwrap();
    let req = match prepare_deletion(SECRET, &token) {
        Ok(req) => req,
        Err(_) => panic!("a freshly minted token must verify"),
    };
    assert_eq!(req.filename, "a1b2c3.png");
    assert_eq!(req.file_id, "4_z_file_id_001");
}

#[test]
fn sign_and_verify_round_trip_preserves_claims() {
    let claims = vec![
        (String::from("file_id"), String::from("id-9")),
        (String::from("filename"), String::from("x.gif")),
    ];
    let token = create_jwt_token(SECRET, &claims).unwrap();
    // The token is a real compact JWT, not the claims handed back.
    assert_eq!(token.bytes().filter(|b| *b == b'.').count(), 2);
    assert!(!token.contains("x.gif"));
    let verified = verify_jwt_token(SECRET, &token).unwrap();
    assert_eq!(verified, claims);
}

#[test]
fn empty_token_is_rejected_outright() {
    assert!(matches!(
        prepare_deletion(SECRET, ""),
        Err(DeletionError::EmptyToken)
    ));
}

#[test]
fn token_signed_with_another_secret_fails_verification() {
    let token = mint_deletion_token("other-key", "f.png", "id-1").unwrap();
    assert!(matches!(
        prepare_deletion(SECRET, &token),
        Err(DeletionError::VerificationFailed(_))
    ));
    assert!(verify_jwt_token(SECRET, &token).is_err());
}

#[test]
fn garbage_token_fails_verification() {
    assert!(matches!(
        prepare_deletion(SECRET, "not-a-token"),
        Err(DeletionError::VerificationFailed(_))
    ));
}

#[test]
fn token_without_file_id_claim_is_rejected() {
    let claims = vec![(String::from("filename"), String::from("x.gif"))];
    let token = create_jwt_token(SECRET, &claims).unwrap();
    assert!(matches!(
        prepare_deletion(SECRET, &token),
        Err(DeletionError::MissingFileId)
    ));
}

#[test]
fn token_without_filename_claim_is_rejected() {
    let claims = vec![(String::from("file_id"), String::from("id-1"))];
    let token = create_jwt_token(SECRET, &claims).unwrap();
    assert!(matches!(
        prepare_deletion(SECRET, &token),
        Err(DeletionError::MissingFilename)
    ));
}

#[test]
fn lookup_finds_the_first_pair_with_the_key() {
    let claims = vec![
        (String::from("a"), String::from("1")),
        (String::from("b"), String::from("2")),
    ];
    assert_eq!(lookup_claim(&claims, "a"), Some(String::from("1")));
    assert_eq!(lookup_claim(&claims, "b"), Some(String::from("2")));
    assert_eq!(lookup_claim(&claims, "c"), None);
    assert_eq!(lookup_claim(&Vec::new(), "a"), None);
}

#[test]
fn signing_always_succeeds_and_is_deterministic() {
    let claims = vec![
        (String::from("file_id"), String::from("id-7")),
        (String::from("filename"), String::from("y.webm")),
    ];
    let first = create_jwt_token(SECRET, &claims).unwrap();
    let second = create_jwt_token(SECRET, &claims).unwrap();
    assert_eq!(first, second);
    let minted_once = mint_deletion_token(SECRET, "y.webm", "id-7").unwrap();
    let minted_again = mint_deletion_token(SECRET, "y.webm", "id-7").unwrap();
    assert_eq!(minted_once, minted_again);
    // Signing never fails, even on empty claims or an empty secret.
    assert!(create_jwt_token("", &Vec::new()).is_ok());
}
