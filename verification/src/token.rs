//! Capability tokens: a signed token minted after a successful upload
//! carries the stored object's name and storage identifier as claims, and
//! presenting it is the sole authorization for deleting that object.
//!
//! Signing and verification are done by the `jwt` crate over an
//! HMAC-SHA-256 key; both are deterministic in the secret and the payload,
//! so their results are named here and every rule around them is verified
//! against those names.
//!
//! Open question, left visible on purpose: the capability carries no
//! expiry claim and no replay protection, so possession alone authorizes
//! deletion for as long as the secret stands.  Whether to add freshness or
//! single-use enforcement is a decision for the gateway's operator, not
//! one this module makes in passing.

use vstd::prelude::*;
use hmac::Hmac;
use hmac::Mac;
use jwt::SignWithKey;
use jwt::VerifyWithKey;
use sha2::Sha256;
use std::collections::BTreeMap;

verus! {

/// The error type of the `jwt` crate, carried through opaquely so that the
/// caller can report what went wrong.
#[verifier::external_type_specification]
#[verifier::external_body]
pub struct ExJwtError(jwt::Error);

/// The claims of a token, as key/value pairs of character sequences.
pub open spec fn claims_view(claims: Seq<(String, String)>) -> Seq<(Seq<char>, Seq<char>)> {
    claims.map_values(|p: (String, String)| (p.0@, p.1@))
}

/// The token that signing a set of claims with a secret yields.  Signing
/// with an HMAC-SHA-256 key is deterministic in the secret and the claims.
pub uninterp spec fn jwt_token_of(
    secret: Seq<char>,
    claims: Seq<(Seq<char>, Seq<char>)>,
) -> Seq<char>;

/// The claims a token yields under a secret: the key/value pairs, ordered
/// by key with each key at most once, or nothing when the token does not
/// verify.  Verification with an HMAC-SHA-256 key is deterministic in the
/// secret and the token.
pub uninterp spec fn jwt_claims_of(secret: Seq<char>, token: Seq<char>) -> Option<
    Seq<(Seq<char>, Seq<char>)>,
>;

/// Relies on `jwt::SignWithKey` for `BTreeMap` claims with an
/// `Hmac<Sha256>` key: the signed compact token is a function of the secret
/// and the claims alone.  Signing a string-to-string map never fails — the
/// HMAC key accepts any length, the fixed header and the map serialize
/// without error, the HMAC sign is total, and the algorithm-mismatch arm is
/// unreachable because the header is built from the key's own algorithm.
#[verifier::external_body]
fn sign_claims(secret: &str, claims: &Vec<(String, String)>) -> (r: Result<String, jwt::Error>)
    ensures
        r is Ok,
        r matches Ok(t) ==> t@ == jwt_token_of(secret@, claims_view(claims@)),
{
    let key: Hmac<Sha256> = Hmac::new_from_slice(secret.as_bytes()).unwrap();
    let map: BTreeMap<&str, &str> = claims.iter().map(|p| (p.0.as_str(), p.1.as_str())).collect();
    map.sign_with_key(&key)
}

/// Relies on `jwt::VerifyWithKey` for `BTreeMap` claims with an
/// `Hmac<Sha256>` key: whether a token verifies, and the claims it then
/// carries, are a function of the secret and the token alone; the map comes
/// back ordered by key, each key once.
#[verifier::external_body]
fn verify_claims(secret: &str, token: &str) -> (r: Result<Vec<(String, String)>, jwt::Error>)
    ensures
        r matches Ok(v) ==> jwt_claims_of(secret@, token@) == Some(claims_view(v@)),
        r is Err ==> jwt_claims_of(secret@, token@) is None,
{
    let key: Hmac<Sha256> = Hmac::new_from_slice(secret.as_bytes()).unwrap();
    let map: BTreeMap<String, String> = token.verify_with_key(&key)?;
    Ok(map.into_iter().collect())
}

/// Sign a set of claims with the gateway's secret.  Signing always
/// succeeds, and the token is exactly the one the secret and the claims
/// determine: two calls with equal secret and claims return the same
/// token.
pub fn create_jwt_token(secret: &str, claims: &Vec<(String, String)>) -> (r: Result<
    String,
    jwt::Error,
>)
    ensures
        r matches Ok(t) && t@ == jwt_token_of(secret@, claims_view(claims@)),
{
    sign_claims(secret, claims)
}

/// Verify a token against the gateway's secret and hand back its claims as
/// key/value pairs, ordered by key.  Success and content are exactly what
/// the secret and the token determine.
pub fn verify_jwt_token(secret: &str, token: &str) -> (r: Result<
    Vec<(String, String)>,
    jwt::Error,
>)
    ensures
        r matches Ok(v) ==> jwt_claims_of(secret@, token@) == Some(claims_view(v@)),
        r is Err ==> jwt_claims_of(secret@, token@) is None,
{
    verify_claims(secret, token)
}

/// The value under `key` in a claims list: the first pair with that key,
/// which in a list ordered by distinct keys is the only one.
pub open spec fn claim_lookup(claims: Seq<(Seq<char>, Seq<char>)>, key: Seq<char>) -> Option<
    Seq<char>,
>
    decreases claims.len(),
{
    if claims.len() == 0 {
        None
    } else if claims.first().0 == key {
        Some(claims.first().1)
    } else {
        claim_lookup(claims.drop_first(), key)
    }
}

/// Skipping a non-matching head leaves a lookup unchanged.
proof fn lemma_claim_lookup_skip(claims: Seq<(Seq<char>, Seq<char>)>, key: Seq<char>, i: int)
    requires
        0 <= i < claims.len(),
        claims[i].0 != key,
        claim_lookup(claims, key) == claim_lookup(claims.skip(i), key),
    ensures
        claim_lookup(claims, key) == claim_lookup(claims.skip(i + 1), key),
{
    assert(claims.skip(i).first() == claims[i]);
    assert(claims.skip(i).drop_first() =~= claims.skip(i + 1));
}

/// Find the value stored under `key` in a claims list.
pub fn lookup_claim(claims: &Vec<(String, String)>, key: &str) -> (r: Option<String>)
    ensures
        match claim_lookup(claims_view(claims@), key@) {
            Some(v) => r matches Some(s) && s@ == v,
            None => r is None,
        },
{
    let ghost cv = claims_view(claims@);
    proof {
        assert(cv.skip(0) =~= cv);
    }
    let key_owned: String = key.to_owned();
    let mut i: usize = 0;
    while i < claims.len()
        invariant
            i <= claims@.len(),
            cv == claims_view(claims@),
            key_owned@ == key@,
            claim_lookup(cv, key@) == claim_lookup(cv.skip(i as int), key@),
        decreases claims@.len() - i,
    {
        if claims[i].0 == key_owned {
            proof {
                assert(cv.skip(i as int).first() == cv[i as int]);
                assert(cv[i as int].0 == key@);
            }
            return Some(claims[i].1.clone());
        }
        proof {
            assert(cv[i as int] == (claims@[i as int].0@, claims@[i as int].1@));
            lemma_claim_lookup_skip(cv, key@, i as int);
        }
        i = i + 1;
    }
    proof {
        assert(cv.skip(i as int) =~= Seq::<(Seq<char>, Seq<char>)>::empty());
    }
    None
}

/// The query payload of the deletion endpoint: the capability token as it
/// arrived, still unverified.
pub struct DeletionToken {
    /// The compact token string presented by the caller.
    pub token_str: String,
}

/// The two claims a deletion capability must carry.
pub struct DeletionRequest {
    /// The stored object's name.
    pub filename: String,
    /// The storage-assigned identifier of the stored object.
    pub file_id: String,
}

/// Why a presented deletion capability was rejected.  Every rejection
/// happens before any storage call is made.
pub enum DeletionError {
    /// No token was presented.
    EmptyToken,
    /// The token did not verify against the gateway's secret.
    VerificationFailed(jwt::Error),
    /// The verified claims lack `file_id`.
    MissingFileId,
    /// The verified claims lack `filename`.
    MissingFilename,
}

/// The claims a deletion capability is minted with: the storage identifier
/// and the stored name, keyed in order.
pub open spec fn deletion_claims_of(filename: Seq<char>, file_id: Seq<char>) -> Seq<
    (Seq<char>, Seq<char>),
> {
    seq![("file_id"@, file_id), ("filename"@, filename)]
}

/// Mint the deletion capability for a freshly stored object.  Minting
/// always succeeds, and the token is exactly the one the secret and the
/// two claims determine.
pub fn mint_deletion_token(secret: &str, filename: &str, file_id: &str) -> (r: Result<
    String,
    jwt::Error,
>)
    ensures
        r matches Ok(t) && t@ == jwt_token_of(
            secret@,
            deletion_claims_of(filename@, file_id@),
        ),
{
    let mut claims: Vec<(String, String)> = Vec::new();
    claims.push((String::from_str("file_id"), file_id.to_owned()));
    claims.push((String::from_str("filename"), filename.to_owned()));
    proof {
        assert(claims_view(claims@) =~= deletion_claims_of(filename@, file_id@));
    }
    create_jwt_token(secret, &claims)
}

/// Check a presented deletion capability and extract the object it names.
///
/// An empty token is rejected outright; one that does not verify is
/// rejected with the verifier's error; one whose claims lack `file_id` or
/// `filename` is rejected naming the first missing claim.  Only a token
/// carrying both claims yields a request, and it carries their exact
/// values.
pub fn prepare_deletion(secret: &str, token: &str) -> (r: Result<DeletionRequest, DeletionError>)
    ensures
        token@.len() == 0 ==> (r matches Err(e) && e is EmptyToken),
        token@.len() > 0 ==> match jwt_claims_of(secret@, token@) {
            None => r matches Err(e) && e is VerificationFailed,
            Some(claims) => {
                if claim_lookup(claims, "file_id"@) is None {
                    r matches Err(e) && e is MissingFileId
                } else if claim_lookup(claims, "filename"@) is None {
                    r matches Err(e) && e is MissingFilename
                } else {
                    r matches Ok(d) && Some(d.file_id@) == claim_lookup(claims, "file_id"@)
                        && Some(d.filename@) == claim_lookup(claims, "filename"@)
                }
            },
        },
{
    if token.unicode_len() == 0 {
        return Err(DeletionError::EmptyToken);
    }
    let claims = match verify_jwt_token(secret, token) {
        Ok(c) => c,
        Err(e) => {
            return Err(DeletionError::VerificationFailed(e));
        },
    };
    let file_id = match lookup_claim(&claims, "file_id") {
        Some(v) => v,
        None => {
            return Err(DeletionError::MissingFileId);
        },
    };
    let filename = match lookup_claim(&claims, "filename") {
        Some(v) => v,
        None => {
            return Err(DeletionError::MissingFilename);
        },
    };
    Ok(DeletionRequest { filename, file_id })
}

} // verus!
