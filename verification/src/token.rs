//! Device tokens: issuing and verifying the bearer tokens that devices
//! present with each reading.
//!
//! The token itself is a signed JWT made and checked by the `jsonwebtoken`
//! crate, taken on trust behind the two wrappers below. With a fixed
//! algorithm and no time-dependent claims, the token is a function of the
//! device identity and the secret alone, so it is named `jwt_of` and every
//! contract speaks of that name.

use vstd::prelude::*;
use vstd::slice::{slice_subrange, slice_index_get};

verus! {

/// The claims carried by a device token.
#[derive(Clone, Copy, PartialEq, Eq, Structural, Debug)]
pub struct Claims {
    /// Identity of the device the token was issued to.
    pub device_id: i32,
}

/// This library's token failures.
#[derive(Clone, Copy, PartialEq, Eq, Structural, Debug)]
pub enum TokenError {
    /// The token could not be created.
    CreationFailed,
    /// The token is not a valid token for any device under this secret.
    InvalidToken,
}

/// The error type of the `jsonwebtoken` crate.
#[verifier::external_type_specification]
#[verifier::external_body]
pub struct ExJwtError(jsonwebtoken::errors::Error);

/// The canonical token for a device identity under a secret.
pub uninterp spec fn jwt_of(device_id: i32, secret: Seq<u8>) -> Seq<char>;

/// What the raw decode of a token yields: the decoded device identity, if
/// the token's signature and claims check out.
type DecodedId = Result<Option<i64>, jsonwebtoken::errors::Error>;

/// Whether a raw decode result is right for this token and secret: if the
/// token is the canonical token of some device identity, the decode yielded
/// exactly that identity.
pub open spec fn decodes_device(r: DecodedId, token: Seq<char>, secret: Seq<u8>) -> bool {
    forall|d: i32| token == jwt_of(d, secret) ==> (r matches Ok(c) && c == Some(d as i64))
}

/// Relies on jsonwebtoken::encode with a fixed HS256 header: the token is a
/// deterministic function of the claims and the secret alone.
#[verifier::external_body]
fn jwt_encode_device(device_id: i32, secret: &[u8]) -> (r: Result<
    String,
    jsonwebtoken::errors::Error,
>)
    ensures
        r matches Ok(t) ==> t@ == jwt_of(device_id, secret@),
{
    let mut claims = serde_json::Map::new();
    claims.insert("device_id".to_string(), serde_json::Value::from(device_id));
    jsonwebtoken::encode(
        &jsonwebtoken::Header::new(jsonwebtoken::Algorithm::HS256),
        &serde_json::Value::Object(claims),
        &jsonwebtoken::EncodingKey::from_secret(secret),
    )
}

/// Relies on jsonwebtoken::decode with HS256, expiry validation off and no
/// required claims: the canonical token of a device identity under the same
/// secret decodes to exactly that identity.
#[verifier::external_body]
fn jwt_decode_device(token: &str, secret: &[u8]) -> (r: DecodedId)
    ensures
        decodes_device(r, token@, secret@),
{
    let mut validation = jsonwebtoken::Validation::new(jsonwebtoken::Algorithm::HS256);
    validation.validate_exp = false;
    validation.required_spec_claims.clear();
    let data = jsonwebtoken::decode::<serde_json::Value>(
        token,
        &jsonwebtoken::DecodingKey::from_secret(secret),
        &validation,
    )?;
    Ok(data.claims.get("device_id").and_then(serde_json::Value::as_i64))
}

/// Issues the token for a device identity under the given secret.
pub fn generate_token(device_id: i32, secret: &[u8]) -> (r: Result<String, TokenError>)
    ensures
        r matches Ok(t) ==> t@ == jwt_of(device_id, secret@),
{
    match jwt_encode_device(device_id, secret) {
        Ok(t) => Ok(t),
        Err(_) => Err(TokenError::CreationFailed),
    }
}

/// Verifies a presented token under the given secret; the token issued for
/// a device always verifies back to that device's claims.
pub fn verify_token(token: &str, secret: &[u8]) -> (r: Result<Claims, TokenError>)
    ensures
        forall|d: i32|
            token@ == jwt_of(d, secret@) ==> (r matches Ok(c) && c == (Claims { device_id: d })),
{
    match jwt_decode_device(token, secret) {
        Ok(Some(v)) => {
            if i32::MIN as i64 <= v && v <= i32::MAX as i64 {
                Ok(Claims { device_id: v as i32 })
            } else {
                Err(TokenError::InvalidToken)
            }
        },
        _ => Err(TokenError::InvalidToken),
    }
}

/// The authorization scheme's prefix, as bytes: `Bearer `.
pub open spec fn bearer_prefix() -> Seq<u8> {
    seq![
        'B' as u8,
        'e' as u8,
        'a' as u8,
        'r' as u8,
        'e' as u8,
        'r' as u8,
        ' ' as u8,
    ]
}

/// The non-empty token after the `Bearer ` prefix of an authorization
/// header, if the header carries one.
pub open spec fn bearer_token_of(header: Seq<u8>) -> Option<Seq<u8>> {
    if header.len() > 7 && header.subrange(0, 7) == bearer_prefix() {
        Some(header.subrange(7, header.len() as int))
    } else {
        None
    }
}

/// Extracts the non-empty token after the `Bearer ` prefix of an
/// authorization header; anything else is rejected.
pub fn parse_bearer(header: &[u8]) -> (token: Option<&[u8]>)
    ensures
        token matches Some(t) ==> bearer_token_of(header@) == Some(t@),
        token is None ==> bearer_token_of(header@) is None,
{
    if header.len() <= 7 {
        return None;
    }
    let b0 = *slice_index_get(header, 0);
    let b1 = *slice_index_get(header, 1);
    let b2 = *slice_index_get(header, 2);
    let b3 = *slice_index_get(header, 3);
    let b4 = *slice_index_get(header, 4);
    let b5 = *slice_index_get(header, 5);
    let b6 = *slice_index_get(header, 6);
    if b0 == 66 && b1 == 101 && b2 == 97 && b3 == 114 && b4 == 101 && b5 == 114 && b6 == 32 {
        assert(header@.subrange(0, 7) =~= bearer_prefix());
        let token = slice_subrange(header, 7, header.len());
        Some(token)
    } else {
        assert(header@.subrange(0, 7) != bearer_prefix()) by {
            if header@.subrange(0, 7) == bearer_prefix() {
                assert(header@.subrange(0, 7)[0] == 'B' as u8);
            }
        }
        None
    }
}

} // verus!
