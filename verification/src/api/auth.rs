//! Authentication: the bearer token of a request, and the caller's identity
//! from the claims of a verified token.
use vstd::prelude::*;

use crate::api::error::{plain_api_error, ApiError, ApiErrorView, STATUS_FORBIDDEN, STATUS_UNAUTHORIZED};
use serde_json::Value;

use crate::json::{map_get, JsonMap, JsonNumber, JsonValue, JsonView};
use crate::text::{chars_of, owned, starts_with_chars, string_of_range};

verus! {

pub open spec fn unauthorized(message: Seq<char>) -> ApiErrorView {
    plain_api_error(STATUS_UNAUTHORIZED, "unauthorized"@, message)
}

pub open spec fn forbidden(message: Seq<char>) -> ApiErrorView {
    plain_api_error(STATUS_FORBIDDEN, "forbidden"@, message)
}

/// The token of an `Authorization` header value (absent when the request
/// has none, or when its value is not visible ASCII): what follows the
/// `Bearer ` prefix.
pub fn bearer_token(header: Option<&str>) -> (r: Result<String, ApiError>)
    ensures
        match header {
            None => r matches Err(e) && e@ == unauthorized("missing authorization header"@),
            Some(h) => if "Bearer "@.is_prefix_of(h@) {
                r matches Ok(t) && t@ == h@.skip(7)
            } else {
                r matches Err(e) && e@ == unauthorized("invalid authorization header"@)
            },
        },
{
    let h = match header {
        Some(h) => h,
        None => {
            return Err(ApiError::unauthorized("missing authorization header"));
        },
    };
    let cs = chars_of(h);
    let prefix = chars_of("Bearer ");
    proof {
        reveal_strlit("Bearer ");
    }
    if starts_with_chars(&cs, &prefix) {
        assert(prefix@.len() == 7);
        Ok(string_of_range(&cs, 7, cs.len()))
    } else {
        Err(ApiError::unauthorized("invalid authorization header"))
    }
}

/// The string claim `key` of a claims object.
pub open spec fn claim_str(claims: JsonView, key: Seq<char>) -> Option<Seq<char>> {
    match claims {
        JsonView::Object(m) => match map_get(m, key) {
            Some(JsonView::Str(s)) => Some(s),
            _ => None,
        },
        _ => None,
    }
}

fn get_str<'a>(claims: &'a JsonValue, key: &str) -> (r: Option<&'a str>)
    ensures
        match claim_str(claims.view(), key@) {
            Some(s) => r matches Some(t) && t@ == s,
            None => r is None,
        },
{
    match claims {
        JsonValue::Object(m) => {
            assert(claims.view()->Object_0 =~= m.view());
            match m.get(key) {
                Some(v) => v.as_str(),
                None => None,
            }
        },
        _ => None,
    }
}

/// The caller's identity from a set of claims, as user id, organization id
/// and organization display name, or the error that stops at it.
pub open spec fn identity_outcome(claims: JsonView, org_claim: Seq<char>) -> Result<
    (Seq<char>, Seq<char>, Seq<char>),
    ApiErrorView,
> {
    match (claim_str(claims, "sub"@), claim_str(claims, org_claim)) {
        (None, _) => Err(unauthorized("token missing sub"@)),
        (Some(_), None) => Err(forbidden("no active organization"@)),
        (Some(user), Some(org)) => Ok(
            (
                user,
                org,
                match claim_str(claims, "org_name"@) {
                    Some(name) => name,
                    None => org,
                },
            ),
        ),
    }
}

/// The caller's identity once a token's signature and claims were checked:
/// `None` stands for a token that did not pass, `Some` for its claims.
pub open spec fn decoded_outcome(decoded: Option<JsonView>, org_claim: Seq<char>) -> Result<
    (Seq<char>, Seq<char>, Seq<char>),
    ApiErrorView,
> {
    match decoded {
        None => Err(unauthorized("token validation failed"@)),
        Some(claims) => identity_outcome(claims, org_claim),
    }
}

pub open spec fn opt_json_view(o: Option<JsonValue>) -> Option<JsonView> {
    match o {
        Some(c) => Some(c.view()),
        None => None,
    }
}

pub open spec fn identity_view(r: Result<(String, String, String), ApiError>) -> Result<
    (Seq<char>, Seq<char>, Seq<char>),
    ApiErrorView,
> {
    match r {
        Ok(ids) => Ok((ids.0@, ids.1@, ids.2@)),
        Err(e) => Err(e@),
    }
}

/// The caller's identity from a verified token's claims: the user id from
/// `sub`, the organization from `org_claim`, and the organization's display
/// name from `org_name`, falling back to the organization id.
pub fn identity_from_claims(claims: &JsonValue, org_claim: &str) -> (r: Result<(String, String, String), ApiError>)
    ensures
        identity_view(r) == identity_outcome(claims.view(), org_claim@),
{
    let user_id = match get_str(claims, "sub") {
        Some(s) => owned(s),
        None => {
            return Err(ApiError::unauthorized("token missing sub"));
        },
    };
    let org_id = match get_str(claims, org_claim) {
        Some(s) => owned(s),
        None => {
            return Err(ApiError::forbidden("no active organization"));
        },
    };
    let display_name = match get_str(claims, "org_name") {
        Some(s) => owned(s),
        None => org_id.clone(),
    };
    Ok((user_id, org_id, display_name))
}

/// The caller's identity from the outcome of checking a token: `None` (the
/// token did not pass) is refused, else the claims decide.
pub fn identity_after_decode(decoded: Option<JsonValue>, org_claim: &str) -> (r: Result<
    (String, String, String),
    ApiError,
>)
    ensures
        identity_view(r) == decoded_outcome(opt_json_view(decoded), org_claim@),
{
    match decoded {
        None => Err(ApiError::unauthorized("token validation failed")),
        Some(claims) => identity_from_claims(&claims, org_claim),
    }
}

/// What `jsonwebtoken::decode_header` finds of a token's key id: `None` where
/// the header segment does not decode, else the header's `kid`.
pub uninterp spec fn jwt_header_kid(token: Seq<char>) -> Option<Option<Seq<char>>>;

pub open spec fn kid_view(r: Option<Option<String>>) -> Option<Option<Seq<char>>> {
    match r {
        None => None,
        Some(None) => Some(None),
        Some(Some(k)) => Some(Some(k@)),
    }
}

/// Calls `jsonwebtoken::decode_header`, which decodes the header of a token
/// without checking its signature. Claimed: the result is the header's `kid`,
/// or `None` where decoding fails, and depends on the token alone.
#[verifier::external_body]
fn decode_kid(token: &str) -> (r: Option<Option<String>>)
    ensures
        kid_view(r) == jwt_header_kid(token@),
{
    match jsonwebtoken::decode_header(token) {
        Ok(header) => Some(header.kid),
        Err(_) => None,
    }
}

/// The key id named in a token's header, by which its signing key is found.
pub fn token_kid(token: &str) -> (r: Result<String, ApiError>)
    ensures
        match jwt_header_kid(token@) {
            None => r matches Err(e) && e@ == unauthorized("invalid token"@),
            Some(None) => r matches Err(e) && e@ == unauthorized("token missing kid"@),
            Some(Some(k)) => r matches Ok(t) && t@ == k,
        },
{
    match decode_kid(token) {
        None => Err(ApiError::unauthorized("invalid token")),
        Some(None) => Err(ApiError::unauthorized("token missing kid")),
        Some(Some(k)) => Ok(k),
    }
}

#[verifier::external_type_specification]
#[verifier::external_body]
pub struct ExDecodingKey(jsonwebtoken::DecodingKey);

#[verifier::external_type_specification]
#[verifier::external_body]
pub struct ExSerdeJsonValue(serde_json::Value);

/// The signature algorithm a token must be signed with.
#[derive(Debug, Clone, Copy, PartialEq, Eq, Structural)]
pub enum TokenAlgorithm {
    Rs256,
}

/// What a token is checked against besides its signature and expiry: the
/// algorithm, the issuer, and the audience where one is configured (no
/// audience check otherwise).
#[derive(Debug, Clone, PartialEq)]
pub struct TokenChecks {
    pub algorithm: TokenAlgorithm,
    pub issuer: String,
    pub audience: Option<String>,
}

/// The checks for tokens of the configured issuer and audience: RS256
/// signatures, that issuer, and that audience when one is given.
pub fn token_checks(issuer: &str, audience: Option<&str>) -> (r: TokenChecks)
    ensures
        r.algorithm == TokenAlgorithm::Rs256,
        r.issuer@ == issuer@,
        match audience {
            Some(a) => r.audience matches Some(x) && x@ == a@,
            None => r.audience is None,
        },
{
    TokenChecks {
        algorithm: TokenAlgorithm::Rs256,
        issuer: owned(issuer),
        audience: match audience {
            Some(a) => Some(owned(a)),
            None => None,
        },
    }
}

/// The claims of a token as JSON: what its payload segment decodes to,
/// which depends on the token alone (`None` where it does not decode).
pub uninterp spec fn jwt_claims(token: Seq<char>) -> Option<JsonView>;

/// Calls `jsonwebtoken::decode` with the algorithm, the issuer and the
/// audience of `checks` (no audience check where it has none), and converts
/// the claims it gives. Claimed: a token that passes gives its own claims,
/// and an `iss` claim given as a string is the configured issuer (the
/// validation refuses any other, `validation.rs`). Whether it passes rests
/// on the signature and on the clock (the expiry check panics only where
/// the clock reads before 1970), so `None` is any refusal.
#[verifier::external_body]
fn decode_checked(token: &str, key: &jsonwebtoken::DecodingKey, checks: &TokenChecks) -> (r: Option<JsonValue>)
    ensures
        r matches Some(c) ==> jwt_claims(token@) == Some(c.view()) && (claim_str(c.view(), "iss"@) matches Some(
            iss,
        ) ==> iss == checks.issuer@),
{
    let algorithm = match checks.algorithm {
        TokenAlgorithm::Rs256 => jsonwebtoken::Algorithm::RS256,
    };
    let mut validation = jsonwebtoken::Validation::new(algorithm);
    validation.set_issuer(&[&checks.issuer]);
    match &checks.audience {
        Some(a) => validation.set_audience(&[a]),
        None => validation.validate_aud = false,
    }
    jsonwebtoken::decode::<Value>(token, key, &validation).ok().map(|data| json_of_claims(data.claims))
}

/// Converts a `serde_json::Value` into a `JsonValue`, variant for variant; a
/// number becomes `Int` where `as_i64` gives one, else `Large` where `as_u64`
/// does, else `Fraction` of its text. Nothing is claimed of the result.
#[verifier::external_body]
fn json_of_claims(v: Value) -> (r: JsonValue) {
    match v {
        Value::Null => JsonValue::Null,
        Value::Bool(b) => JsonValue::Bool(b),
        Value::Number(n) => JsonValue::Number(match (n.as_i64(), n.as_u64()) {
            (Some(i), _) => JsonNumber::Int(i),
            (None, Some(u)) => JsonNumber::Large(u),
            (None, None) => JsonNumber::Fraction(n.to_string()),
        }),
        Value::String(s) => JsonValue::Str(s),
        Value::Array(xs) => JsonValue::Array(xs.into_iter().map(json_of_claims).collect()),
        Value::Object(m) => JsonValue::Object(
            JsonMap { entries: m.into_iter().map(|(k, x)| (k, json_of_claims(x))).collect() },
        ),
    }
}

/// Checks a token against its signing key and `checks`, then reads the
/// caller's identity from the token's own claims. Whether the check passes
/// rests on the signature and the clock: the result is the refusal, or the
/// identity that the token's claims give, and such claims never name an
/// issuer other than the configured one.
pub fn verify_token(token: &str, key: &jsonwebtoken::DecodingKey, checks: &TokenChecks, org_claim: &str) -> (r:
    Result<(String, String, String), ApiError>)
    ensures
        identity_view(r) == decoded_outcome(None, org_claim@) || (jwt_claims(token@) matches Some(c)
            && identity_view(r) == decoded_outcome(Some(c), org_claim@) && (claim_str(c, "iss"@) matches Some(
            iss,
        ) ==> iss == checks.issuer@)),
{
    let decoded = decode_checked(token, key, checks);
    identity_after_decode(decoded, org_claim)
}

} // verus!
