//! Money in integer minor units with a currency code.
use vstd::prelude::*;

use crate::domain::error::{errors_result, plain_error, put_new, unit_result_is, DomainError, ErrorEntries, FieldErrors};
use crate::engine::money::{spec_round_half_up, tdiv};
use crate::text::{chars_of, owned};

verus! {

#[derive(Debug, Clone, PartialEq)]
pub struct Money {
    pub amount_minor: i64,
    pub currency: String,
}

impl Money {
    pub fn zero(currency: &str) -> (r: Money)
        ensures
            r.amount_minor == 0,
            r.currency@ == currency@,
    {
        Money { amount_minor: 0, currency: owned(currency) }
    }

    /// The amount is not negative and the currency has three characters.
    pub open spec fn spec_errors(self) -> ErrorEntries {
        let e1 = if self.amount_minor < 0 {
            put_new(Seq::empty(), "amount_minor"@, plain_error("not_negative"@))
        } else {
            Seq::empty()
        };
        if self.currency@.len() != 3 {
            put_new(e1, "currency"@, plain_error("invalid_currency_code"@))
        } else {
            e1
        }
    }

    pub fn validate(&self) -> (r: Result<(), DomainError>)
        ensures
            unit_result_is(r, errors_result(self.spec_errors())),
    {
        let mut e = FieldErrors::new();
        if self.amount_minor < 0 {
            e.put("amount_minor", "not_negative");
        }
        if chars_of(self.currency.as_str()).len() != 3 {
            e.put("currency", "invalid_currency_code");
        }
        crate::domain::error::into_result(e)
    }
}

/// `numerator / denominator` rounded half up, as `(n + d / 2) / d`. Money
/// amounts and basis points are never negative here.
pub fn round_half_up(numerator: i64, denominator: i64) -> (r: i64)
    requires
        denominator != 0,
        crate::engine::money::fits_i64(numerator + tdiv(denominator as int, 2)),
        !(numerator + tdiv(denominator as int, 2) == i64::MIN && denominator == -1),
    ensures
        r == spec_round_half_up(numerator as int, denominator as int),
{
    crate::engine::money::round_half_up(numerator, denominator)
}

} // verus!
