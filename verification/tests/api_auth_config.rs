use polymix::api::auth::{bearer_token, identity_from_claims};
use polymix::api::config::{auth_endpoints, parse_cors_allowed_origins, ConfigError};
use polymix::api::error::{STATUS_FORBIDDEN, STATUS_UNAUTHORIZED};
use polymix::domain::pricing::PricingEntity;
use polymix::json::{JsonMap, JsonValue};

#[test]
fn missing_header_is_unauthorized() {
    let err = bearer_token(None).unwrap_err();
    assert_eq!(err.status, STATUS_UNAUTHORIZED);
    assert_eq!(err.message, "missing authorization header");
}

#[test]
fn non_bearer_header_is_unauthorized() {
    let err = bearer_token(Some("Basic dXNlcjpwYXNz")).unwrap_err();
    assert_eq!(err.status, STATUS_UNAUTHORIZED);
    assert_eq!(err.message, "invalid authorization header");
}

#[test]
fn header_extraction_is_independent_of_token_validity() {
    let token = bearer_token(Some("Bearer not-a-jwt")).unwrap();
    assert_eq!(token, "not-a-jwt");
    assert_eq!(bearer_token(Some("Bearer ")).unwrap(), "");
    assert!(bearer_token(Some("bearer x")).is_err());
}

fn claims(pairs: &[(&str, &str)]) -> JsonValue {
    let mut m = JsonMap::new();
    for (k, v) in pairs {
        m.insert(k.to_string(), JsonValue::Str(v.to_string()));
    }
    JsonValue::Object(m)
}

#[test]
fn missing_sub_is_unauthorized() {
    let err = identity_from_claims(&claims(&[("org_id", "org-1")]), "org_id").unwrap_err();
    assert_eq!(err.status, STATUS_UNAUTHORIZED);
    assert_eq!(err.message, "token missing sub");
}

#[test]
fn missing_org_claim_is_forbidden() {
    let err = identity_from_claims(&claims(&[("iss", "test-issuer"), ("sub", "user-1")]), "org_id").unwrap_err();
    assert_eq!(err.status, STATUS_FORBIDDEN);
    assert_eq!(err.message, "no active organization");
}

#[test]
fn valid_claims_authenticate() {
    let (user_id, org_id, display_name) =
        identity_from_claims(&claims(&[("sub", "user-1"), ("org_id", "org-1")]), "org_id").unwrap();
    assert_eq!(user_id, "user-1");
    assert_eq!(org_id, "org-1");
    assert_eq!(display_name, "org-1");
}

#[test]
fn org_name_claim_is_used_as_display_name() {
    let (_, _, display_name) = identity_from_claims(
        &claims(&[("sub", "user-1"), ("org_id", "org-1"), ("org_name", "Adamant Print GmbH")]),
        "org_id",
    )
    .unwrap();
    assert_eq!(display_name, "Adamant Print GmbH");
}

#[test]
fn non_string_claims_count_as_missing() {
    let mut m = JsonMap::new();
    m.insert("sub".to_string(), JsonValue::Bool(true));
    let err = identity_from_claims(&JsonValue::Object(m), "org_id").unwrap_err();
    assert_eq!(err.message, "token missing sub");
    assert_eq!(identity_from_claims(&JsonValue::Null, "org_id").unwrap_err().message, "token missing sub");
}

#[test]
fn unset_in_dev_mode_is_permissive() {
    let result = parse_cors_allowed_origins(None, true).unwrap();
    assert_eq!(result, None);
}

#[test]
fn unset_outside_dev_mode_fails_startup() {
    let err = parse_cors_allowed_origins(None, false).unwrap_err();
    assert!(err.message().contains("CORS_ALLOWED_ORIGINS"));
    assert_eq!(err, ConfigError::MissingCorsOrigins);
}

#[test]
fn set_splits_trims_and_drops_empty_entries() {
    let result = parse_cors_allowed_origins(Some(" https://a.example , https://b.example ,"), false).unwrap();
    assert_eq!(result, Some(vec!["https://a.example".to_string(), "https://b.example".to_string()]));
}

#[test]
fn set_in_dev_mode_still_takes_the_explicit_value() {
    let result = parse_cors_allowed_origins(Some("https://a.example"), true).unwrap();
    assert_eq!(result, Some(vec!["https://a.example".to_string()]));
}

#[test]
fn invalid_origin_fails_startup() {
    let err = parse_cors_allowed_origins(Some("not a valid header value \u{0}"), false).unwrap_err();
    assert!(err.message().contains("invalid origin"));
    assert_eq!(
        err.message(),
        "CORS_ALLOWED_ORIGINS contains an invalid origin: not a valid header value \u{0}"
    );
}

#[test]
fn header_value_check_accepts_tabs_and_non_ascii_and_rejects_delete() {
    assert!(parse_cors_allowed_origins(Some("a\tb,https://ü.example"), false).is_ok());
    assert!(parse_cors_allowed_origins(Some("https://ok.example,bad\u{7f}"), false).is_err());
    assert_eq!(parse_cors_allowed_origins(Some(" , ,"), false).unwrap(), Some(vec![]));
}

#[test]
fn dev_mode_defaults_the_auth_endpoints_to_the_local_issuer() {
    let (issuer, jwks) = auth_endpoints(8080, true, None, None).unwrap();
    assert_eq!(issuer, "http://localhost:8080");
    assert_eq!(jwks, "http://localhost:8080/dev/jwks.json");
    let (issuer, jwks) = auth_endpoints(8080, true, Some("https://id.example".to_string()), None).unwrap();
    assert_eq!(issuer, "https://id.example");
    assert_eq!(jwks, "http://localhost:8080/dev/jwks.json");
}

#[test]
fn outside_dev_mode_the_auth_endpoints_are_required() {
    assert_eq!(auth_endpoints(8080, false, None, None).unwrap_err(), ConfigError::MissingIssuer);
    assert_eq!(
        auth_endpoints(8080, false, Some("i".to_string()), None).unwrap_err(),
        ConfigError::MissingJwksUrl
    );
    assert_eq!(ConfigError::MissingIssuer.message(), "AUTH_ISSUER is required");
    let (i, j) = auth_endpoints(1, false, Some("i".to_string()), Some("j".to_string())).unwrap();
    assert_eq!((i.as_str(), j.as_str()), ("i", "j"));
}

#[test]
fn list_queries_default_and_clamp() {
    use_list_defaults();
}

fn use_list_defaults() {
    assert_eq!(polymix::api::routes::default_page(), 1);
    assert_eq!(polymix::api::routes::default_limit(), 25);
    assert_eq!(polymix::api::routes::default_sort(), "-created_at");
    let q: polymix::domain::quote::QuoteListQuery = polymix::api::routes::quotes::ListParams {
        page: 0,
        limit: 1000,
        sort: "name".to_string(),
        customer_id: None,
        status: None,
        q: None,
    }
    .into();
    assert_eq!((q.page, q.limit), (1, 100));
}

#[test]
fn search_query_is_trimmed_and_blank_means_no_search() {
    use_search();
}

fn use_search() {
    use_search_inner(polymix::api::routes::search::SearchParams { q: Some("  acme ".to_string()) }, Some("acme"));
    use_search_inner(polymix::api::routes::search::SearchParams { q: Some("   ".to_string()) }, None);
    use_search_inner(polymix::api::routes::search::SearchParams { q: None }, None);
    assert_eq!(polymix::api::routes::search::HITS_PER_ENTITY, 5);
}

fn use_search_inner(p: polymix::api::routes::search::SearchParams, want: Option<&str>) {
    assert_eq!(polymix::api::routes::search::search_query(&p).as_deref(), want);
}

#[test]
fn catalog_segments_map_to_entities_or_404() {
    let e = polymix::api::routes::pricing::parse_entity("materials").unwrap();
    assert_eq!(e, PricingEntity::Material);
    assert_eq!(e.sort_field(), "name");
    assert_eq!(PricingEntity::Policy.sort_field(), "currency");
    let err = polymix::api::routes::pricing::parse_entity("widgets").unwrap_err();
    assert_eq!(err.status, polymix::api::error::STATUS_NOT_FOUND);
    assert_eq!(err.message, "unknown catalog entity");
}
