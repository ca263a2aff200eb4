//! Customers: kind and status codes, lifecycle, creation validation, tag
//! normalization.
use vstd::prelude::*;

use validator::ValidateEmail;

use crate::domain::error::{
    errors_result, plain_error, put_new, unit_result_is, validation_error, ConflictReason,
    DomainError, DomainErrorView, ErrorEntries, FieldErrors,
};
use crate::domain::money::Money;
use crate::text::{append_decimal, chars_of, decimal, join, owned, str_eq, trim};

verus! {

#[derive(Debug, Clone, Copy, PartialEq, Eq, Structural)]
pub enum CustomerKind {
    LegalEntity,
    Fop,
    Individual,
}

impl CustomerKind {
    pub open spec fn spec_code(self) -> u8 {
        match self {
            CustomerKind::LegalEntity => 0,
            CustomerKind::Fop => 1,
            CustomerKind::Individual => 2,
        }
    }

    pub fn code(self) -> (r: u8)
        ensures
            r == self.spec_code(),
    {
        match self {
            CustomerKind::LegalEntity => 0,
            CustomerKind::Fop => 1,
            CustomerKind::Individual => 2,
        }
    }

    pub fn key(self) -> (r: &'static str)
        ensures
            r@ == match self {
                CustomerKind::LegalEntity => "legal_entity"@,
                CustomerKind::Fop => "fop"@,
                CustomerKind::Individual => "individual"@,
            },
    {
        match self {
            CustomerKind::LegalEntity => "legal_entity",
            CustomerKind::Fop => "fop",
            CustomerKind::Individual => "individual",
        }
    }

    pub open spec fn spec_from_code(code: u8) -> Option<CustomerKind> {
        if code == 0 {
            Some(CustomerKind::LegalEntity)
        } else if code == 1 {
            Some(CustomerKind::Fop)
        } else if code == 2 {
            Some(CustomerKind::Individual)
        } else {
            None
        }
    }

    pub fn from_code(code: u8) -> (r: Option<CustomerKind>)
        ensures
            r == CustomerKind::spec_from_code(code),
    {
        if code == 0 {
            Some(CustomerKind::LegalEntity)
        } else if code == 1 {
            Some(CustomerKind::Fop)
        } else if code == 2 {
            Some(CustomerKind::Individual)
        } else {
            None
        }
    }
}

#[derive(Debug, Clone, Copy, PartialEq, Eq, Structural)]
pub enum CustomerStatus {
    Lead,
    Active,
    Inactive,
    Blocked,
}

pub open spec fn customer_status_key(s: CustomerStatus) -> Seq<char> {
    match s {
        CustomerStatus::Lead => "lead"@,
        CustomerStatus::Active => "active"@,
        CustomerStatus::Inactive => "inactive"@,
        CustomerStatus::Blocked => "blocked"@,
    }
}

impl CustomerStatus {
    pub open spec fn spec_code(self) -> u8 {
        match self {
            CustomerStatus::Lead => 0,
            CustomerStatus::Active => 1,
            CustomerStatus::Inactive => 2,
            CustomerStatus::Blocked => 3,
        }
    }

    pub fn code(self) -> (r: u8)
        ensures
            r == self.spec_code(),
    {
        match self {
            CustomerStatus::Lead => 0,
            CustomerStatus::Active => 1,
            CustomerStatus::Inactive => 2,
            CustomerStatus::Blocked => 3,
        }
    }

    pub fn key(self) -> (r: &'static str)
        ensures
            r@ == customer_status_key(self),
    {
        match self {
            CustomerStatus::Lead => "lead",
            CustomerStatus::Active => "active",
            CustomerStatus::Inactive => "inactive",
            CustomerStatus::Blocked => "blocked",
        }
    }

    pub open spec fn spec_from_code(code: u8) -> Option<CustomerStatus> {
        if code == 0 {
            Some(CustomerStatus::Lead)
        } else if code == 1 {
            Some(CustomerStatus::Active)
        } else if code == 2 {
            Some(CustomerStatus::Inactive)
        } else if code == 3 {
            Some(CustomerStatus::Blocked)
        } else {
            None
        }
    }

    pub fn from_code(code: u8) -> (r: Option<CustomerStatus>)
        ensures
            r == CustomerStatus::spec_from_code(code),
    {
        if code == 0 {
            Some(CustomerStatus::Lead)
        } else if code == 1 {
            Some(CustomerStatus::Active)
        } else if code == 2 {
            Some(CustomerStatus::Inactive)
        } else if code == 3 {
            Some(CustomerStatus::Blocked)
        } else {
            None
        }
    }

    /// The variant name, as in messages.
    pub fn debug_name(self) -> (r: &'static str)
        ensures
            r@ == customer_status_name(self),
    {
        match self {
            CustomerStatus::Lead => "Lead",
            CustomerStatus::Active => "Active",
            CustomerStatus::Inactive => "Inactive",
            CustomerStatus::Blocked => "Blocked",
        }
    }
}

pub open spec fn customer_status_name(s: CustomerStatus) -> Seq<char> {
    match s {
        CustomerStatus::Lead => "Lead"@,
        CustomerStatus::Active => "Active"@,
        CustomerStatus::Inactive => "Inactive"@,
        CustomerStatus::Blocked => "Blocked"@,
    }
}

/// A lead or active customer may order (a lead's first order makes it
/// active).
pub open spec fn spec_can_order(status: CustomerStatus) -> bool {
    status == CustomerStatus::Lead || status == CustomerStatus::Active
}

pub fn can_order(status: CustomerStatus) -> (r: bool)
    ensures
        r == spec_can_order(status),
{
    match status {
        CustomerStatus::Lead | CustomerStatus::Active => true,
        _ => false,
    }
}

/// Customer lifecycle: `lead -> active`; `active <-> inactive`; either can be
/// `blocked`; `blocked -> active`. No other move is allowed.
pub open spec fn customer_transition_allowed(current: CustomerStatus, target: CustomerStatus) -> bool {
    match current {
        CustomerStatus::Lead => target == CustomerStatus::Active,
        CustomerStatus::Active => target == CustomerStatus::Inactive || target
            == CustomerStatus::Blocked,
        CustomerStatus::Inactive => target == CustomerStatus::Active || target
            == CustomerStatus::Blocked,
        CustomerStatus::Blocked => target == CustomerStatus::Active,
    }
}

/// A customer never becomes a lead again; a lead can only be activated;
/// active and inactive customers can be blocked; a blocked customer can
/// only be reactivated; and active and inactive customers move into each
/// other.
pub proof fn lemma_customer_lifecycle(current: CustomerStatus, target: CustomerStatus)
    ensures
        !customer_transition_allowed(current, CustomerStatus::Lead),
        customer_transition_allowed(CustomerStatus::Lead, target) <==> target == CustomerStatus::Active,
        customer_transition_allowed(current, CustomerStatus::Blocked) <==> (current == CustomerStatus::Active
            || current == CustomerStatus::Inactive),
        customer_transition_allowed(CustomerStatus::Blocked, target) <==> target == CustomerStatus::Active,
        customer_transition_allowed(CustomerStatus::Active, CustomerStatus::Inactive),
        customer_transition_allowed(CustomerStatus::Inactive, CustomerStatus::Active),
        !customer_transition_allowed(current, current),
{
}

/// Only leads and active customers may order.
pub proof fn lemma_who_may_order(status: CustomerStatus)
    ensures
        spec_can_order(status) <==> !(status == CustomerStatus::Inactive || status == CustomerStatus::Blocked),
{
}

pub fn can_transition(current: CustomerStatus, target: CustomerStatus) -> (r: bool)
    ensures
        r == customer_transition_allowed(current, target),
{
    match current {
        CustomerStatus::Lead => target == CustomerStatus::Active,
        CustomerStatus::Active => target == CustomerStatus::Inactive || target
            == CustomerStatus::Blocked,
        CustomerStatus::Inactive => target == CustomerStatus::Active || target
            == CustomerStatus::Blocked,
        CustomerStatus::Blocked => target == CustomerStatus::Active,
    }
}

/// A disallowed move is a transition conflict.
pub fn validate_transition(current: CustomerStatus, target: CustomerStatus) -> (r: Result<(), DomainError>)
    ensures
        customer_transition_allowed(current, target) ==> r is Ok,
        !customer_transition_allowed(current, target) ==> (r matches Err(e) && e@
            == DomainErrorView::Conflict(
            ConflictReason::CustomerStatusTransition { from: current, to: target },
        )),
{
    if can_transition(current, target) {
        Ok(())
    } else {
        Err(
            DomainError::Conflict(
                ConflictReason::CustomerStatusTransition { from: current, to: target },
            ),
        )
    }
}

#[derive(Debug, Clone, PartialEq)]
pub struct Address {
    pub street: Option<String>,
    pub zip: Option<String>,
    pub city: Option<String>,
    pub country: Option<String>,
}

#[derive(Debug, Clone, PartialEq)]
pub struct Contact {
    pub name: String,
    pub role: Option<String>,
    pub email: Option<String>,
    pub phone: Option<String>,
    pub is_primary: bool,
}

#[derive(Debug, Clone, PartialEq)]
pub struct Customer {
    pub id: String,
    pub number: String,
    pub kind: CustomerKind,
    pub name: String,
    pub legal_name: Option<String>,
    pub edrpou: Option<String>,
    pub tax_id: Option<String>,
    pub vat_ipn: Option<String>,
    pub status: CustomerStatus,
    pub tags: Vec<String>,
    pub industry: Option<String>,
    pub source: Option<String>,
    pub website: Option<String>,
    pub contacts: Vec<Contact>,
    pub legal_address: Option<Address>,
    pub delivery_address: Option<Address>,
    pub payment_terms_days: u16,
    pub credit_limit: Option<Money>,
    pub default_currency: String,
    pub default_discount_bp: u16,
    pub iban: Option<String>,
    pub bank_name: Option<String>,
    pub notes: Option<String>,
    pub created_at: String,
    pub updated_at: String,
}

#[derive(Debug, Clone, PartialEq)]
pub struct NewCustomer {
    pub kind: CustomerKind,
    pub name: String,
    pub legal_name: Option<String>,
    pub edrpou: Option<String>,
    pub tax_id: Option<String>,
    pub vat_ipn: Option<String>,
    pub tags: Vec<String>,
    pub industry: Option<String>,
    pub source: Option<String>,
    pub website: Option<String>,
    pub contacts: Vec<Contact>,
    pub legal_address: Option<Address>,
    pub delivery_address: Option<Address>,
    pub payment_terms_days: u16,
    pub credit_limit: Option<Money>,
    pub default_currency: Option<String>,
    pub default_discount_bp: u16,
    pub iban: Option<String>,
    pub bank_name: Option<String>,
    pub notes: Option<String>,
    /// Accepted only at creation, and only `0` (lead) or `1` (active).
    pub status: Option<u8>,
}

/// Whether `s` is an email address as the validator crate judges it.
pub uninterp spec fn email_valid(s: Seq<char>) -> bool;

/// `validator::ValidateEmail::validate_email` on a string (the HTML5 form
/// rules, with an IDN fallback): the result is named; the crate's source
/// shows that an empty string, or one without `@`, is refused.
#[verifier::external_body]
fn email_ok(s: &str) -> (r: bool)
    ensures
        r == email_valid(s@),
        (s@.len() == 0 || !s@.contains('@')) ==> !r,
{
    s.validate_email()
}

pub open spec fn is_digit(c: char) -> bool {
    '0' <= c && c <= '9'
}

/// Exactly `n` ASCII digits.
pub open spec fn all_digits(s: Seq<char>, n: int) -> bool {
    s.len() == n && forall|i: int| 0 <= i < s.len() ==> is_digit(#[trigger] s[i])
}

/// Exactly three ASCII capitals.
pub open spec fn upper_alpha3(s: Seq<char>) -> bool {
    s.len() == 3 && forall|i: int| 0 <= i < s.len() ==> 'A' <= #[trigger] s[i] && s[i] <= 'Z'
}

/// `UA` followed by 27 ASCII digits.
pub open spec fn iban_ok(s: Seq<char>) -> bool {
    s.len() == 29 && s[0] == 'U' && s[1] == 'A' && forall|i: int| 2 <= i < s.len() ==> is_digit(#[trigger] s[i])
}

fn is_all_digits(value: &str, len: usize) -> (r: bool)
    ensures
        r == all_digits(value@, len as int),
{
    let cs = chars_of(value);
    if cs.len() != len {
        return false;
    }
    let mut i: usize = 0;
    while i < cs.len()
        invariant
            i <= cs.len(),
            cs@ == value@,
            forall|j: int| 0 <= j < i ==> is_digit(#[trigger] cs@[j]),
        decreases cs.len() - i,
    {
        if !('0' <= cs[i] && cs[i] <= '9') {
            return false;
        }
        i += 1;
    }
    true
}

fn is_upper_alpha3(value: &str) -> (r: bool)
    ensures
        r == upper_alpha3(value@),
{
    let cs = chars_of(value);
    if cs.len() != 3 {
        return false;
    }
    let mut i: usize = 0;
    while i < cs.len()
        invariant
            i <= cs.len(),
            cs@ == value@,
            forall|j: int| 0 <= j < i ==> 'A' <= #[trigger] cs@[j] && cs@[j] <= 'Z',
        decreases cs.len() - i,
    {
        if !('A' <= cs[i] && cs[i] <= 'Z') {
            return false;
        }
        i += 1;
    }
    true
}

fn is_valid_iban(value: &str) -> (r: bool)
    ensures
        r == iban_ok(value@),
{
    let cs = chars_of(value);
    if cs.len() != 29 || cs[0] != 'U' || cs[1] != 'A' {
        return false;
    }
    let mut i: usize = 2;
    while i < cs.len()
        invariant
            2 <= i <= cs.len(),
            cs@ == value@,
            forall|j: int| 2 <= j < i ==> is_digit(#[trigger] cs@[j]),
        decreases cs.len() - i,
    {
        if !('0' <= cs[i] && cs[i] <= '9') {
            return false;
        }
        i += 1;
    }
    true
}

/// The path of field `f` of contact `i`.
pub open spec fn contact_key(i: int, f: Seq<char>) -> Seq<char> {
    "contacts["@ + decimal(i as nat) + "]."@ + f
}

/// Errors of the contacts `cs`, added to `e` in order: a name is required,
/// an email must be valid.
pub open spec fn contacts_errors(e: ErrorEntries, cs: Seq<Contact>) -> ErrorEntries
    decreases cs.len(),
{
    if cs.len() == 0 {
        e
    } else {
        let prev = contacts_errors(e, cs.drop_last());
        let i = cs.len() - 1;
        let c = cs.last();
        let e1 = if c.name@.len() < 1 {
            put_new(prev, contact_key(i, "name"@), plain_error("required"@))
        } else {
            prev
        };
        if c.email matches Some(m) && !email_valid(m@) {
            put_new(e1, contact_key(i, "email"@), plain_error("invalid_email"@))
        } else {
            e1
        }
    }
}

/// An address's country, when given, is a two-letter code.
pub open spec fn address_errors(e: ErrorEntries, key: Seq<char>, a: Option<Address>) -> ErrorEntries {
    if a matches Some(addr) && addr.country matches Some(c) && c@.len() != 2 {
        put_new(e, key, plain_error("invalid_country_code"@))
    } else {
        e
    }
}

/// A money value is non-negative with a three-letter currency.
pub open spec fn money_errors(e: ErrorEntries, prefix: Seq<char>, m: Money) -> ErrorEntries {
    let e1 = if m.amount_minor < 0 {
        put_new(e, prefix + "amount_minor"@, plain_error("not_negative"@))
    } else {
        e
    };
    if m.currency@.len() != 3 {
        put_new(e1, prefix + "currency"@, plain_error("invalid_currency_code"@))
    } else {
        e1
    }
}

/// The number of primary contacts.
pub open spec fn primary_count(cs: Seq<Contact>) -> nat
    decreases cs.len(),
{
    if cs.len() == 0 {
        0
    } else {
        primary_count(cs.drop_last()) + if cs.last().is_primary {
            1nat
        } else {
            0nat
        }
    }
}

/// The field-shape checks: name, contacts, addresses, payment terms, credit
/// limit, discount.
pub open spec fn shape_errors(c: NewCustomer) -> ErrorEntries {
    let e1 = if c.name@.len() < 1 {
        put_new(Seq::empty(), "name"@, plain_error("required"@))
    } else {
        Seq::empty()
    };
    let e2 = contacts_errors(e1, c.contacts@);
    let e3 = address_errors(e2, "legal_address.country"@, c.legal_address);
    let e4 = address_errors(e3, "delivery_address.country"@, c.delivery_address);
    let e5 = if c.payment_terms_days > 365 {
        put_new(e4, "payment_terms_days"@, plain_error("out_of_range"@))
    } else {
        e4
    };
    let e6 = match c.credit_limit {
        Some(m) => money_errors(e5, "credit_limit."@, m),
        None => e5,
    };
    if c.default_discount_bp > 10000 {
        put_new(e6, "default_discount_bp"@, plain_error("out_of_range"@))
    } else {
        e6
    }
}

/// The kind-conditional and cross-field rules, each recorded unless its
/// path already has an error.
pub open spec fn business_errors(c: NewCustomer, e0: ErrorEntries) -> ErrorEntries {
    let legal = c.kind == CustomerKind::LegalEntity;
    let e1 = match c.edrpou {
        Some(x) => if !legal {
            put_new(e0, "edrpou"@, plain_error("not_applicable_for_kind"@))
        } else if !all_digits(x@, 8) {
            put_new(e0, "edrpou"@, plain_error("invalid_edrpou"@))
        } else {
            e0
        },
        None => e0,
    };
    let e2 = match c.tax_id {
        Some(x) => if legal {
            put_new(e1, "tax_id"@, plain_error("not_applicable_for_kind"@))
        } else if !all_digits(x@, 10) {
            put_new(e1, "tax_id"@, plain_error("invalid_tax_id"@))
        } else {
            e1
        },
        None => e1,
    };
    let e3 = match c.vat_ipn {
        Some(x) => if !all_digits(x@, 12) {
            put_new(e2, "vat_ipn"@, plain_error("invalid_vat_ipn"@))
        } else {
            e2
        },
        None => e2,
    };
    let e4 = match c.iban {
        Some(x) => if !iban_ok(x@) {
            put_new(e3, "iban"@, plain_error("invalid_iban"@))
        } else {
            e3
        },
        None => e3,
    };
    let e5 = if primary_count(c.contacts@) > 1 {
        put_new(e4, "contacts"@, plain_error("multiple_primary_contacts"@))
    } else {
        e4
    };
    let e6 = match c.default_currency {
        Some(x) => if !upper_alpha3(x@) {
            put_new(e5, "default_currency"@, plain_error("invalid_currency_code"@))
        } else {
            e5
        },
        None => e5,
    };
    match c.credit_limit {
        Some(m) => if !upper_alpha3(m.currency@) {
            put_new(e6, "credit_limit.currency"@, plain_error("invalid_currency_code"@))
        } else {
            e6
        },
        None => e6,
    }
}

pub open spec fn customer_errors(c: NewCustomer) -> ErrorEntries {
    business_errors(c, shape_errors(c))
}

/// `"contacts[{i}].{field}"`.
fn contact_path(i: usize, field: &str) -> (r: String)
    ensures
        r@ == contact_key(i as int, field@),
{
    let mut s = owned("contacts[");
    append_decimal(&mut s, i);
    s.append("].");
    s.append(field);
    s
}

impl NewCustomer {
    fn contacts_check(&self, e: &mut FieldErrors)
        ensures
            final(e)@ == contacts_errors(old(e)@, self.contacts@),
    {
        let ghost e0 = e@;
        let mut i: usize = 0;
        while i < self.contacts.len()
            invariant
                i <= self.contacts.len(),
                e0 == old(e)@,
                e@ == contacts_errors(e0, self.contacts@.take(i as int)),
            decreases self.contacts.len() - i,
        {
            assert(self.contacts@.take(i + 1).drop_last() =~= self.contacts@.take(i as int));
            let c = &self.contacts[i];
            if chars_of(c.name.as_str()).len() < 1 {
                e.put(contact_path(i, "name").as_str(), "required");
            }
            match &c.email {
                Some(m) => {
                    if !email_ok(m.as_str()) {
                        e.put(contact_path(i, "email").as_str(), "invalid_email");
                    }
                },
                None => {},
            }
            i += 1;
        }
        assert(self.contacts@.take(self.contacts.len() as int) =~= self.contacts@);
    }

    fn address_check(e: &mut FieldErrors, key: &str, a: &Option<Address>)
        ensures
            final(e)@ == address_errors(old(e)@, key@, *a),
    {
        match a {
            Some(addr) => match &addr.country {
                Some(c) => {
                    if chars_of(c.as_str()).len() != 2 {
                        e.put(key, "invalid_country_code");
                    }
                },
                None => {},
            },
            None => {},
        }
    }

    fn primary_contacts(&self) -> (r: usize)
        ensures
            r == primary_count(self.contacts@),
    {
        let mut n: usize = 0;
        let mut i: usize = 0;
        while i < self.contacts.len()
            invariant
                i <= self.contacts.len(),
                n == primary_count(self.contacts@.take(i as int)),
                n <= i,
            decreases self.contacts.len() - i,
        {
            assert(self.contacts@.take(i + 1).drop_last() =~= self.contacts@.take(i as int));
            if self.contacts[i].is_primary {
                n += 1;
            }
            i += 1;
        }
        assert(self.contacts@.take(self.contacts.len() as int) =~= self.contacts@);
        n
    }

    /// Field checks plus the kind-conditional and cross-field rules.
    /// Checksums of the registry numbers are not checked (format only).
    pub fn validate_domain(&self) -> (r: Result<(), DomainError>)
        ensures
            unit_result_is(r, errors_result(customer_errors(*self))),
    {
        let mut e = FieldErrors::new();
        if chars_of(self.name.as_str()).len() < 1 {
            e.put("name", "required");
        }
        self.contacts_check(&mut e);
        NewCustomer::address_check(&mut e, "legal_address.country", &self.legal_address);
        NewCustomer::address_check(&mut e, "delivery_address.country", &self.delivery_address);
        if self.payment_terms_days > 365 {
            e.put("payment_terms_days", "out_of_range");
        }
        match &self.credit_limit {
            Some(m) => {
                if m.amount_minor < 0 {
                    e.put(join("credit_limit.", "amount_minor").as_str(), "not_negative");
                }
                if chars_of(m.currency.as_str()).len() != 3 {
                    e.put(join("credit_limit.", "currency").as_str(), "invalid_currency_code");
                }
            },
            None => {},
        }
        if self.default_discount_bp > 10000 {
            e.put("default_discount_bp", "out_of_range");
        }
        assert(e@ == shape_errors(*self));
        let legal = self.kind == CustomerKind::LegalEntity;
        match &self.edrpou {
            Some(x) => {
                if !legal {
                    e.put("edrpou", "not_applicable_for_kind");
                } else if !is_all_digits(x.as_str(), 8) {
                    e.put("edrpou", "invalid_edrpou");
                }
            },
            None => {},
        }
        match &self.tax_id {
            Some(x) => {
                if legal {
                    e.put("tax_id", "not_applicable_for_kind");
                } else if !is_all_digits(x.as_str(), 10) {
                    e.put("tax_id", "invalid_tax_id");
                }
            },
            None => {},
        }
        match &self.vat_ipn {
            Some(x) => {
                if !is_all_digits(x.as_str(), 12) {
                    e.put("vat_ipn", "invalid_vat_ipn");
                }
            },
            None => {},
        }
        match &self.iban {
            Some(x) => {
                if !is_valid_iban(x.as_str()) {
                    e.put("iban", "invalid_iban");
                }
            },
            None => {},
        }
        if self.primary_contacts() > 1 {
            e.put("contacts", "multiple_primary_contacts");
        }
        match &self.default_currency {
            Some(x) => {
                if !is_upper_alpha3(x.as_str()) {
                    e.put("default_currency", "invalid_currency_code");
                }
            },
            None => {},
        }
        match &self.credit_limit {
            Some(m) => {
                if !is_upper_alpha3(m.currency.as_str()) {
                    e.put("credit_limit.currency", "invalid_currency_code");
                }
            },
            None => {},
        }
        crate::domain::error::into_result(e)
    }

    /// Creation-only: `status` may be absent or `0` (lead) or `1` (active);
    /// anything else is refused.
    pub fn validate_creation_status(&self) -> (r: Result<(), DomainError>)
        ensures
            match self.status {
                None => r is Ok,
                Some(s) => if s <= 1 {
                    r is Ok
                } else {
                    r matches Err(x) && x@ == validation_error(
                        "status"@,
                        "invalid_creation_status"@,
                    )
                },
            },
    {
        match self.status {
            None => Ok(()),
            Some(s) => {
                if s <= 1 {
                    Ok(())
                } else {
                    Err(DomainError::Validation(FieldErrors::single("status", "invalid_creation_status")))
                }
            },
        }
    }

    /// Fills `default_currency` from the tenant's default when it was omitted.
    pub fn resolve_default_currency(&mut self, tenant_default_currency: &str)
        ensures
            *final(self) == (NewCustomer { default_currency: final(self).default_currency, ..*old(self) }),
            old(self).default_currency is Some ==> final(self).default_currency == old(self).default_currency,
            old(self).default_currency is None ==> (final(self).default_currency matches Some(c) && c@
                == tenant_default_currency@),
    {
        if self.default_currency.is_none() {
            self.default_currency = Some(owned(tenant_default_currency));
        }
    }
}

/// The Unicode lowercase form of a string, as `str::to_lowercase` gives it.
pub uninterp spec fn lowercase(s: Seq<char>) -> Seq<char>;

/// `str::to_lowercase`: the full Unicode lowercase mapping, context rules
/// included. The result is named, not spelled out.
#[verifier::external_body]
fn to_lower(s: &str) -> (r: String)
    ensures
        r@ == lowercase(s@),
{
    s.to_lowercase()
}

/// Tags trimmed and lowercased, empty ones dropped, each kept once (at its
/// first occurrence).
pub open spec fn normalized_tags(tags: Seq<Seq<char>>) -> Seq<Seq<char>>
    decreases tags.len(),
{
    if tags.len() == 0 {
        Seq::empty()
    } else {
        let prev = normalized_tags(tags.drop_last());
        let t = lowercase(crate::text::trimmed(tags.last()));
        if t.len() == 0 || prev.contains(t) {
            prev
        } else {
            prev.push(t)
        }
    }
}

/// Normalized tags are never empty and never repeat.
pub proof fn lemma_normalized_tags_distinct(tags: Seq<Seq<char>>)
    ensures
        forall|i: int| 0 <= i < normalized_tags(tags).len() ==> (#[trigger] normalized_tags(tags)[i]).len() > 0,
        forall|i: int, j: int|
            0 <= i < j < normalized_tags(tags).len() ==> #[trigger] normalized_tags(tags)[i]
                != #[trigger] normalized_tags(tags)[j],
    decreases tags.len(),
{
    if tags.len() > 0 {
        lemma_normalized_tags_distinct(tags.drop_last());
        let prev = normalized_tags(tags.drop_last());
        let t = lowercase(crate::text::trimmed(tags.last()));
        if !(t.len() == 0 || prev.contains(t)) {
            let r = prev.push(t);
            assert forall|i: int, j: int| 0 <= i < j < r.len() implies r[i] != r[j] by {
                if j == prev.len() {
                    assert(prev[i] == r[i]);
                    if r[i] == t {
                        assert(prev.contains(t));
                    }
                } else {
                    assert(prev[i] != prev[j]);
                }
            }
            assert forall|i: int| 0 <= i < r.len() implies (#[trigger] r[i]).len() > 0 by {
                if i < prev.len() {
                    assert(prev[i].len() > 0);
                }
            }
        }
    }
}

/// Tags that are already trimmed, lowercase, non-empty and distinct come
/// out of normalization as they went in.
proof fn lemma_normalized_tags_fixed(s: Seq<Seq<char>>)
    requires
        forall|i: int| 0 <= i < s.len() ==> (#[trigger] s[i]).len() > 0,
        forall|i: int, j: int| 0 <= i < j < s.len() ==> #[trigger] s[i] != #[trigger] s[j],
        forall|i: int| 0 <= i < s.len() ==> lowercase(crate::text::trimmed(#[trigger] s[i])) == s[i],
    ensures
        normalized_tags(s) == s,
    decreases s.len(),
{
    if s.len() > 0 {
        let p = s.drop_last();
        assert forall|i: int, j: int| 0 <= i < j < p.len() implies #[trigger] p[i] != #[trigger] p[j] by {
            assert(s[i] != s[j]);
        }
        assert forall|i: int| 0 <= i < p.len() implies lowercase(crate::text::trimmed(#[trigger] p[i]))
            == p[i] by {
            assert(s[i] == p[i]);
        }
        lemma_normalized_tags_fixed(p);
        let t = s.last();
        assert(lowercase(crate::text::trimmed(s[s.len() - 1])) == s[s.len() - 1]);
        if p.contains(t) {
            let k = choose|k: int| 0 <= k < p.len() && p[k] == t;
            assert(s[k] != s[s.len() - 1]);
        }
        assert(s[s.len() - 1].len() > 0);
        assert(p.push(t) =~= s);
    }
}

/// Normalizing tags a second time changes nothing, wherever trimming and
/// lowercasing a normalized tag gives the tag back.
pub proof fn lemma_normalize_idempotent(tags: Seq<Seq<char>>)
    requires
        forall|i: int|
            0 <= i < normalized_tags(tags).len() ==> lowercase(
                crate::text::trimmed(#[trigger] normalized_tags(tags)[i]),
            ) == normalized_tags(tags)[i],
    ensures
        normalized_tags(normalized_tags(tags)) == normalized_tags(tags),
{
    lemma_normalized_tags_distinct(tags);
    lemma_normalized_tags_fixed(normalized_tags(tags));
}

/// Calling `normalize` a second time changes nothing: given `c1` as
/// `normalize` leaves `c0` and `c2` as it leaves `c1` (both by its
/// contract), `c2` holds the tags of `c1` and every other field of it,
/// wherever trimming and lowercasing a normalized tag gives the tag back.
pub proof fn lemma_normalize_twice(c0: NewCustomer, c1: NewCustomer, c2: NewCustomer)
    requires
        strings_view(c1.tags@) == normalized_tags(strings_view(c0.tags@)),
        c1 == (NewCustomer { tags: c1.tags, ..c0 }),
        strings_view(c2.tags@) == normalized_tags(strings_view(c1.tags@)),
        c2 == (NewCustomer { tags: c2.tags, ..c1 }),
        forall|i: int|
            0 <= i < strings_view(c1.tags@).len() ==> lowercase(
                crate::text::trimmed(#[trigger] strings_view(c1.tags@)[i]),
            ) == strings_view(c1.tags@)[i],
    ensures
        strings_view(c2.tags@) == strings_view(c1.tags@),
        c2 == (NewCustomer { tags: c2.tags, ..c1 }),
{
    lemma_normalize_idempotent(strings_view(c0.tags@));
}

pub open spec fn strings_view(v: Seq<String>) -> Seq<Seq<char>> {
    v.map_values(|s: String| s@)
}

fn contains_str(v: &Vec<String>, s: &str) -> (r: bool)
    ensures
        r == strings_view(v@).contains(s@),
{
    let mut i: usize = 0;
    while i < v.len()
        invariant
            i <= v.len(),
            forall|j: int| 0 <= j < i ==> v@[j]@ != s@,
        decreases v.len() - i,
    {
        if str_eq(v[i].as_str(), s) {
            assert(strings_view(v@)[i as int] == s@);
            return true;
        }
        i += 1;
    }
    assert forall|j: int| 0 <= j < strings_view(v@).len() implies strings_view(v@)[j] != s@ by {
        assert(strings_view(v@)[j] == v@[j]@);
    }
    false
}

impl NewCustomer {
    /// Trims, lowercases, drops empties and dedupes the tags. Normalization
    /// always succeeds and touches nothing else.
    pub fn normalize(&mut self)
        ensures
            strings_view(final(self).tags@) == normalized_tags(strings_view(old(self).tags@)),
            *final(self) == (NewCustomer { tags: final(self).tags, ..*old(self) }),
    {
        let ghost tv = strings_view(self.tags@);
        let mut out: Vec<String> = Vec::new();
        let mut i: usize = 0;
        assert(tv.take(0) =~= Seq::<Seq<char>>::empty());
        assert(strings_view(out@) =~= Seq::<Seq<char>>::empty());
        while i < self.tags.len()
            invariant
                i <= self.tags.len(),
                tv == strings_view(self.tags@),
                strings_view(out@) == normalized_tags(tv.take(i as int)),
            decreases self.tags.len() - i,
        {
            assert(tv.take(i + 1).drop_last() =~= tv.take(i as int));
            assert(tv.take(i + 1).last() == self.tags@[i as int]@);
            let t = to_lower(trim(self.tags[i].as_str()).as_str());
            if chars_of(t.as_str()).len() > 0 && !contains_str(&out, t.as_str()) {
                let ghost before = out@;
                out.push(t);
                assert(strings_view(out@) =~= strings_view(before).push(out@[before.len() as int]@));
            }
            i += 1;
        }
        assert(tv.take(self.tags.len() as int) =~= tv);
        self.tags = out;
    }
}

#[derive(Debug, Clone, PartialEq)]
pub struct ListQuery {
    pub page: u32,
    pub limit: u32,
    pub sort: String,
    /// Full-text filter; when present, results are ranked and `sort` ignored.
    pub q: Option<String>,
    pub status: Option<CustomerStatus>,
    /// Exact match against the normalized tag.
    pub tag: Option<String>,
}

#[derive(Debug, Clone, PartialEq)]
pub struct Paged<T> {
    pub items: Vec<T>,
    pub total: u64,
    pub page: u32,
    pub limit: u32,
}

/// A status's wire code reads back as the status, and every code that
/// reads as a status is that status's code.
pub proof fn lemma_customer_status_code_round_trip(s: CustomerStatus, code: u8)
    ensures
        CustomerStatus::spec_from_code(s.spec_code()) == Some(s),
        CustomerStatus::spec_from_code(code) matches Some(t) ==> t.spec_code() == code,
{
}

/// A kind's wire code reads back as the kind, and every code that reads as
/// a kind is that kind's code.
pub proof fn lemma_customer_kind_code_round_trip(k: CustomerKind, code: u8)
    ensures
        CustomerKind::spec_from_code(k.spec_code()) == Some(k),
        CustomerKind::spec_from_code(code) matches Some(t) ==> t.spec_code() == code,
{
}

} // verus!
