use polymix::domain::customer::{
    can_order, can_transition, validate_transition, Address, Contact, CustomerKind, CustomerStatus,
    NewCustomer,
};
use polymix::domain::error::{DomainError, FieldErrors};
use polymix::domain::money::Money;

fn valid_contact(is_primary: bool) -> Contact {
    Contact {
        name: "Ada Lovelace".to_string(),
        role: Some("директор".to_string()),
        email: Some("ada@adamant-print.example".to_string()),
        phone: None,
        is_primary,
    }
}

fn base_customer(kind: CustomerKind) -> NewCustomer {
    NewCustomer {
        kind,
        name: "Друкарня «Аркуш»".to_string(),
        legal_name: None,
        edrpou: None,
        tax_id: None,
        vat_ipn: None,
        tags: vec![],
        industry: None,
        source: None,
        website: None,
        contacts: vec![],
        legal_address: None,
        delivery_address: None,
        payment_terms_days: 0,
        credit_limit: None,
        default_currency: None,
        default_discount_bp: 0,
        iban: None,
        bank_name: None,
        notes: None,
        status: None,
    }
}

fn details_of(err: DomainError) -> FieldErrors {
    match err {
        DomainError::Validation(details) => details,
        _ => panic!("expected Validation error"),
    }
}

fn code_of(details: &FieldErrors, key: &str) -> String {
    details.get(key).unwrap().code.clone()
}

#[test]
fn empty_name_is_invalid() {
    let mut data = base_customer(CustomerKind::LegalEntity);
    data.name = String::new();
    let details = details_of(data.validate_domain().unwrap_err());
    assert!(details.contains_key("name"));
}

#[test]
fn valid_legal_entity_passes() {
    let mut data = base_customer(CustomerKind::LegalEntity);
    data.edrpou = Some("12345678".to_string());
    assert!(data.validate_domain().is_ok());
}

#[test]
fn edrpou_rejected_for_fop() {
    let mut data = base_customer(CustomerKind::Fop);
    data.edrpou = Some("12345678".to_string());
    let details = details_of(data.validate_domain().unwrap_err());
    assert_eq!(code_of(&details, "edrpou"), "not_applicable_for_kind");
}

#[test]
fn malformed_edrpou_is_invalid() {
    let mut data = base_customer(CustomerKind::LegalEntity);
    data.edrpou = Some("1234".to_string());
    let details = details_of(data.validate_domain().unwrap_err());
    assert_eq!(code_of(&details, "edrpou"), "invalid_edrpou");
}

#[test]
fn tax_id_rejected_for_legal_entity() {
    let mut data = base_customer(CustomerKind::LegalEntity);
    data.tax_id = Some("1234567890".to_string());
    let details = details_of(data.validate_domain().unwrap_err());
    assert_eq!(code_of(&details, "tax_id"), "not_applicable_for_kind");
}

#[test]
fn valid_tax_id_for_fop_and_individual() {
    let mut fop = base_customer(CustomerKind::Fop);
    fop.tax_id = Some("1234567890".to_string());
    assert!(fop.validate_domain().is_ok());

    let mut individual = base_customer(CustomerKind::Individual);
    individual.tax_id = Some("1234567890".to_string());
    assert!(individual.validate_domain().is_ok());
}

#[test]
fn vat_ipn_valid_for_any_kind() {
    let mut fop = base_customer(CustomerKind::Fop);
    fop.vat_ipn = Some("123456789012".to_string());
    assert!(fop.validate_domain().is_ok());
}

#[test]
fn malformed_vat_ipn_is_invalid() {
    let mut data = base_customer(CustomerKind::LegalEntity);
    data.vat_ipn = Some("123".to_string());
    let details = details_of(data.validate_domain().unwrap_err());
    assert_eq!(code_of(&details, "vat_ipn"), "invalid_vat_ipn");
}

#[test]
fn valid_iban_passes() {
    let mut data = base_customer(CustomerKind::LegalEntity);
    data.iban = Some(format!("UA{}", "1".repeat(27)));
    assert!(data.validate_domain().is_ok());
}

#[test]
fn malformed_iban_is_invalid() {
    let mut data = base_customer(CustomerKind::LegalEntity);
    data.iban = Some("DE89370400440532013000".to_string());
    let details = details_of(data.validate_domain().unwrap_err());
    assert_eq!(code_of(&details, "iban"), "invalid_iban");
}

#[test]
fn multiple_primary_contacts_is_invalid() {
    let mut data = base_customer(CustomerKind::LegalEntity);
    data.contacts = vec![valid_contact(true), valid_contact(true)];
    let details = details_of(data.validate_domain().unwrap_err());
    assert_eq!(code_of(&details, "contacts"), "multiple_primary_contacts");
}

#[test]
fn single_primary_contact_is_valid() {
    let mut data = base_customer(CustomerKind::LegalEntity);
    data.contacts = vec![valid_contact(true), valid_contact(false)];
    assert!(data.validate_domain().is_ok());
}

#[test]
fn contact_with_empty_name_is_invalid() {
    let mut data = base_customer(CustomerKind::LegalEntity);
    let mut contact = valid_contact(false);
    contact.name = String::new();
    data.contacts = vec![contact];
    let details = details_of(data.validate_domain().unwrap_err());
    assert!(details.contains_key("contacts[0].name"));
}

#[test]
fn contact_with_malformed_email_is_invalid() {
    let mut data = base_customer(CustomerKind::LegalEntity);
    let mut contact = valid_contact(false);
    contact.email = Some("not-an-email".to_string());
    data.contacts = vec![contact];
    let details = details_of(data.validate_domain().unwrap_err());
    assert!(details.contains_key("contacts[0].email"));
}

#[test]
fn short_country_code_is_invalid() {
    let mut data = base_customer(CustomerKind::LegalEntity);
    data.legal_address = Some(Address {
        street: None,
        zip: None,
        city: None,
        country: Some("Germany".to_string()),
    });
    let details = details_of(data.validate_domain().unwrap_err());
    assert!(details.contains_key("legal_address.country"));
}

#[test]
fn payment_terms_days_out_of_range_is_invalid() {
    let mut data = base_customer(CustomerKind::LegalEntity);
    data.payment_terms_days = 400;
    let details = details_of(data.validate_domain().unwrap_err());
    assert!(details.contains_key("payment_terms_days"));
}

#[test]
fn default_discount_bp_out_of_range_is_invalid() {
    let mut data = base_customer(CustomerKind::LegalEntity);
    data.default_discount_bp = 10001;
    let details = details_of(data.validate_domain().unwrap_err());
    assert!(details.contains_key("default_discount_bp"));
}

#[test]
fn negative_credit_limit_is_invalid() {
    let mut data = base_customer(CustomerKind::LegalEntity);
    data.credit_limit = Some(Money { amount_minor: -1, currency: "UAH".to_string() });
    let details = details_of(data.validate_domain().unwrap_err());
    assert!(details.contains_key("credit_limit.amount_minor"));
}

#[test]
fn lowercase_default_currency_is_invalid() {
    let mut data = base_customer(CustomerKind::LegalEntity);
    data.default_currency = Some("uah".to_string());
    let details = details_of(data.validate_domain().unwrap_err());
    assert_eq!(code_of(&details, "default_currency"), "invalid_currency_code");
}

#[test]
fn lowercase_credit_limit_currency_is_invalid() {
    let mut data = base_customer(CustomerKind::LegalEntity);
    data.credit_limit = Some(Money { amount_minor: 100, currency: "uah".to_string() });
    let details = details_of(data.validate_domain().unwrap_err());
    assert_eq!(code_of(&details, "credit_limit.currency"), "invalid_currency_code");
}

#[test]
fn creation_status_accepts_none_lead_or_active() {
    let mut data = base_customer(CustomerKind::LegalEntity);
    assert!(data.validate_creation_status().is_ok());
    data.status = Some(0);
    assert!(data.validate_creation_status().is_ok());
    data.status = Some(1);
    assert!(data.validate_creation_status().is_ok());
}

#[test]
fn creation_status_rejects_anything_else() {
    let mut data = base_customer(CustomerKind::LegalEntity);
    data.status = Some(2);
    let details = details_of(data.validate_creation_status().unwrap_err());
    assert_eq!(code_of(&details, "status"), "invalid_creation_status");
}

#[test]
fn normalize_trims_lowercases_drops_empties_and_dedupes() {
    let mut data = base_customer(CustomerKind::LegalEntity);
    data.tags = vec![
        "  Опт ".to_string(),
        "опт".to_string(),
        "".to_string(),
        "  ".to_string(),
        "Постійний".to_string(),
    ];
    data.normalize();
    assert_eq!(data.tags, vec!["опт".to_string(), "постійний".to_string()]);
}

#[test]
fn normalize_twice_changes_nothing() {
    let mut data = base_customer(CustomerKind::LegalEntity);
    data.tags = vec![" Print ".to_string(), "print".to_string(), "VIP".to_string(), " ".to_string()];
    data.normalize();
    let once = data.clone();
    data.normalize();
    assert_eq!(data, once);
    assert_eq!(data.tags, vec!["print".to_string(), "vip".to_string()]);
}

#[test]
fn resolve_default_currency_fills_only_when_absent() {
    let mut with_default = base_customer(CustomerKind::LegalEntity);
    with_default.resolve_default_currency("UAH");
    assert_eq!(with_default.default_currency.as_deref(), Some("UAH"));

    let mut with_explicit = base_customer(CustomerKind::LegalEntity);
    with_explicit.default_currency = Some("USD".to_string());
    with_explicit.resolve_default_currency("UAH");
    assert_eq!(with_explicit.default_currency.as_deref(), Some("USD"));
}

#[test]
fn can_order_only_for_lead_and_active() {
    assert!(can_order(CustomerStatus::Lead));
    assert!(can_order(CustomerStatus::Active));
    assert!(!can_order(CustomerStatus::Inactive));
    assert!(!can_order(CustomerStatus::Blocked));
}

#[test]
fn transition_matrix_matches_lifecycle_diagram() {
    let (lead, active, inactive, blocked) =
        (CustomerStatus::Lead, CustomerStatus::Active, CustomerStatus::Inactive, CustomerStatus::Blocked);
    let statuses = [lead, active, inactive, blocked];
    let allowed: &[(CustomerStatus, CustomerStatus)] = &[
        (lead, active),
        (active, inactive),
        (active, blocked),
        (inactive, active),
        (inactive, blocked),
        (blocked, active),
    ];
    for &from in &statuses {
        for &to in &statuses {
            let expected = allowed.contains(&(from, to));
            assert_eq!(can_transition(from, to), expected, "{from:?} -> {to:?} expected {expected}");
            assert_eq!(validate_transition(from, to).is_ok(), expected);
        }
    }
}

#[test]
fn status_codes_round_trip() {
    for s in [CustomerStatus::Lead, CustomerStatus::Active, CustomerStatus::Inactive, CustomerStatus::Blocked] {
        assert_eq!(CustomerStatus::from_code(s.code()), Some(s));
    }
    assert_eq!(CustomerStatus::from_code(4), None);
    for k in [CustomerKind::LegalEntity, CustomerKind::Fop, CustomerKind::Individual] {
        assert_eq!(CustomerKind::from_code(k.code()), Some(k));
    }
    assert_eq!(CustomerStatus::Blocked.key(), "blocked");
}

#[test]
fn valid_email_contact_is_accepted_and_uppercase_tags_are_lowered() {
    let mut data = base_customer(CustomerKind::LegalEntity);
    data.contacts = vec![valid_contact(false)];
    assert!(data.validate_domain().is_ok());
    data.tags = vec!["VIP".to_string(), "vip ".to_string()];
    data.normalize();
    assert_eq!(data.tags, vec!["vip".to_string()]);
}
