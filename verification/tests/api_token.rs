use jsonwebtoken::DecodingKey;
use polymix::api::auth::{identity_after_decode, token_checks, token_kid, verify_token, TokenAlgorithm};
use polymix::api::error::{STATUS_FORBIDDEN, STATUS_UNAUTHORIZED};
use polymix::json::{JsonMap, JsonValue};

// Public half of an RSA test key; the tokens below were signed with its
// private half, with issuer `test-issuer` and key id `key-1`.
const KEY_N: &str = "nnNHpOU7gFJrUtsJoakE5K1eK20zKXNhoDzJfkNwedMTbmGak-z3GmnCk0DiO-pWnvPauxN1L1zNhiKNejIydmMiqmcw9zmlgPB-pSEkLJP2WfB0SzmtduY2q3oDwSLwQv4hCHtkdxhLW9uKod6NZOpW5u0xHxGyNp05HRPyHgFMv4yTV1zm1Wcf7fz8ET8I5KeLG_4HwVdGhOflLKiPEWXXv_1smekezCoRyxenlnhl1Bv7QpG4gTDEKCVJsUJeN6YDGT3qywuzBvwo5cHUUXiyKBilHtgkjQQVDwAdAEKeGO96vFEuyjUIRXTHzKbPQwude_cnS4bhbsxjHD6GrQ";
const KEY_E: &str = "AQAB";

const HEADER: &str = "eyJhbGciOiJSUzI1NiIsInR5cCI6IkpXVCIsImtpZCI6ImtleS0xIn0";

// sub user-1, org_id org-1, expiring in 2100.
const WITH_ORG: &str = "eyJpc3MiOiJ0ZXN0LWlzc3VlciIsInN1YiI6InVzZXItMSIsImV4cCI6NDEwMjQ0NDgwMCwib3JnX2lkIjoib3JnLTEifQ.Neue-F1KUaF1kiIqQ3fymP9E0Vhy8d3ycv-gNqKWIngjinwf5CRhm04eCBADnRCjjwGPtfQHelBkbApVU-PqCfmyKKDFO8yrzvVs_J4-stQj6xdHxEY2IrAsBZXQPkWekuQeVWCl28UDQJQCj_hginXRX3uR3SoAu6kxQScBSqEweH00y6gUFRX1pE10BGAn4W4DFZSboXZ1jGBMGBiDABkl4s07ucNJkikmLFPgP19EEM4hjZgm1DF2OPP_s2vNFOYIN1WHEVzaS2nHZbMa0nb8LeORPeorvT9ZeeUjQYuzeylMDhsXAkry2y49sDD9BNK_OcjaIpZRHeb8cM5gYA";
// sub user-1, no organization, expiring in 2100.
const WITHOUT_ORG: &str = "eyJpc3MiOiJ0ZXN0LWlzc3VlciIsInN1YiI6InVzZXItMSIsImV4cCI6NDEwMjQ0NDgwMH0.UNvDN8kvvSkxh6HVFuViFPRtHVdz_EqhCsqPQMCIpf0VLkm-q39XhuHxDdYm_gUOp488_pNznM0JF1MXJ0IchLeU0qniA8lU3ZJXgE_MzkiAovmCg604ipN2-MeOMpsLla8_wKcB94Y8MN46y3IpAnuA4laammC1QzswvIroZgm4zKpl-tr9jKg96v8aBc4nEBmgBpJO9pNoIuvn5LtQ1WteZ_DTbFaDsSE10TW1cE7Bn9GNyPC93TZkUXG4ilyuR1DTo3coUfOKNjCmiu-aaPxnD4LhVDsN58nOPTByyoZ6fYyA17CFoflzXdAS_ab_oJnXEKBj83yLRStMi9LCoA";
// sub user-1, org_id org-1, org_name "Adamant Print GmbH", expiring in 2100.
const WITH_ORG_NAME: &str = "eyJpc3MiOiJ0ZXN0LWlzc3VlciIsInN1YiI6InVzZXItMSIsImV4cCI6NDEwMjQ0NDgwMCwib3JnX2lkIjoib3JnLTEiLCJvcmdfbmFtZSI6IkFkYW1hbnQgUHJpbnQgR21iSCJ9.QJBFZav-UX7riw6fwpYZhAmsw37PkrIoDEVFTbEAT47Z0PisQbhDwdc825yRuJBDTLkOKtF7O1xl5VsTnLSgu6imRxG8cYG2ffQITyO2f0Hi10AgvdsuJe-S3cBnV55X8a8up9bDwfEiG0DYYzGIzTI7o50JEnCK24N0B-HhYbPNLhWph60sT8GCi08jlI1gXi5xG-4JoY4nTJdtaQo9-6ADDvH79hWQbY_zmeA-spywCtbjXboGNrGGeXBM0ClUcmwUr4pFmpGPIiV8zj3VKLJHQpC_Y7MR8rknMCiReOWtebJzJaMbqyTXE0_JL-tfqdtuWMsniGwtoUeTeJu3Hg";
// sub user-1, org_id org-1, expired in 2001.
const EXPIRED: &str = "eyJpc3MiOiJ0ZXN0LWlzc3VlciIsInN1YiI6InVzZXItMSIsImV4cCI6MTAwMDAwMDAwMCwib3JnX2lkIjoib3JnLTEifQ.jUDt31hv5QAnxnUZYcRuhoui1ad_BtpIdE3TKF-A48xSV5lXT_b9WZXfC5CyJWhWEIUTr1wxftXS6cnire2EyDshxxthefUNEPpoDBspMH3pGF3WFIAgAiDy-7rIdhWMdyDRIKiAhYbqq3a6EYqyOtPVQv2OKvhdN6ttedqKxN60-QX2tuACXMkHROaE2nn2CORoOK-JhG9DBejnJDnvSnWzJRmzw9-CavQU3SLeg2xY7V4xnHjRy2dBC5YXV2XQBfzRHhVSb76AjGcktJHPy3FpUZ4eWLZhDdQOXe-pZiFIlbUEHyfVVNayRnhC2rWEuLspr71MTiKMKyGt5unVBw";

fn token(rest: &str) -> String {
    format!("{HEADER}.{rest}")
}

fn key() -> DecodingKey {
    DecodingKey::from_rsa_components(KEY_N, KEY_E).unwrap()
}

#[test]
fn malformed_token_is_unauthorized() {
    let err = token_kid("not-a-jwt").unwrap_err();
    assert_eq!(err.status, STATUS_UNAUTHORIZED);
    assert_eq!(err.message, "invalid token");
}

#[test]
fn token_without_kid_is_unauthorized() {
    // Header {"alg":"RS256","typ":"JWT"}, empty claims.
    let err = token_kid("eyJhbGciOiJSUzI1NiIsInR5cCI6IkpXVCJ9.e30.c2ln").unwrap_err();
    assert_eq!(err.status, STATUS_UNAUTHORIZED);
    assert_eq!(err.message, "token missing kid");
}

#[test]
fn token_kid_reads_the_header() {
    assert_eq!(token_kid(&token(WITH_ORG)).unwrap(), "key-1");
}

#[test]
fn valid_token_authenticates() {
    let (user_id, org_id, display_name) =
        verify_token(&token(WITH_ORG), &key(), &token_checks("test-issuer", None), "org_id").unwrap();
    assert_eq!(user_id, "user-1");
    assert_eq!(org_id, "org-1");
    assert_eq!(display_name, "org-1");
}

#[test]
fn verified_token_without_org_is_forbidden() {
    let err = verify_token(&token(WITHOUT_ORG), &key(), &token_checks("test-issuer", None), "org_id").unwrap_err();
    assert_eq!(err.status, STATUS_FORBIDDEN);
    assert_eq!(err.message, "no active organization");
}

#[test]
fn verified_token_carries_the_org_name() {
    let (_, _, display_name) =
        verify_token(&token(WITH_ORG_NAME), &key(), &token_checks("test-issuer", None), "org_id").unwrap();
    assert_eq!(display_name, "Adamant Print GmbH");
}

#[test]
fn wrong_issuer_fails_validation() {
    let err = verify_token(&token(WITH_ORG), &key(), &token_checks("other-issuer", None), "org_id").unwrap_err();
    assert_eq!(err.status, STATUS_UNAUTHORIZED);
    assert_eq!(err.message, "token validation failed");
}

#[test]
fn expired_token_fails_validation() {
    let err = verify_token(&token(EXPIRED), &key(), &token_checks("test-issuer", None), "org_id").unwrap_err();
    assert_eq!(err.message, "token validation failed");
}

#[test]
fn audience_is_checked_only_when_configured() {
    // The token carries no `aud` claim, which passes either way.
    assert!(verify_token(&token(WITH_ORG), &key(), &token_checks("test-issuer", Some("api")), "org_id").is_ok());
}

#[test]
fn undecoded_token_is_refused_before_the_claims() {
    let err = identity_after_decode(None, "org_id").unwrap_err();
    assert_eq!(err.status, STATUS_UNAUTHORIZED);
    assert_eq!(err.message, "token validation failed");
    let mut m = JsonMap::new();
    m.insert("sub".to_string(), JsonValue::Str("u".to_string()));
    m.insert("org_id".to_string(), JsonValue::Str("o".to_string()));
    let ids = identity_after_decode(Some(JsonValue::Object(m)), "org_id").unwrap();
    assert_eq!(ids, ("u".to_string(), "o".to_string(), "o".to_string()));
}

#[test]
fn token_checks_carry_the_configuration() {
    let checks = token_checks("test-issuer", Some("api"));
    assert_eq!(checks.algorithm, TokenAlgorithm::Rs256);
    assert_eq!(checks.issuer, "test-issuer");
    assert_eq!(checks.audience.as_deref(), Some("api"));
    assert_eq!(token_checks("i", None).audience, None);
}
