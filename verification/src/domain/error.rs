//! Domain errors: not found, field validation, conflicts, store failures.
use vstd::prelude::*;

use crate::domain::customer::CustomerStatus;
use crate::domain::invoice::InvoiceStatus;
use crate::domain::order::OrderStatus;
use crate::domain::quote::QuoteStatus;
use crate::seqs::{first_match, lemma_first_match_is, lemma_first_match_none};
use crate::text::{decimal, decimal_string, join, owned, str_eq};

verus! {

/// A small string-to-string map: entries in insertion order, one per key.
#[derive(Debug, PartialEq)]
pub struct StrMap {
    pub entries: Vec<(String, String)>,
}

pub open spec fn str_pairs_view(v: Seq<(String, String)>) -> Seq<(Seq<char>, Seq<char>)> {
    v.map_values(|e: (String, String)| (e.0@, e.1@))
}

/// Whether an entry has key `k`.
pub open spec fn pair_key_is(k: Seq<char>) -> spec_fn((Seq<char>, Seq<char>)) -> bool {
    |e: (Seq<char>, Seq<char>)| e.0 == k
}

/// The value stored under `k`.
pub open spec fn pairs_get(m: Seq<(Seq<char>, Seq<char>)>, k: Seq<char>) -> Option<Seq<char>> {
    match first_match(m, pair_key_is(k)) {
        Some(i) => Some(m[i].1),
        None => None,
    }
}

impl View for StrMap {
    type V = Seq<(Seq<char>, Seq<char>)>;

    open spec fn view(&self) -> Seq<(Seq<char>, Seq<char>)> {
        str_pairs_view(self.entries@)
    }
}

impl StrMap {
    pub fn new() -> (r: StrMap)
        ensures
            r@ == Seq::<(Seq<char>, Seq<char>)>::empty(),
    {
        let r = StrMap { entries: Vec::new() };
        assert(r@ =~= Seq::<(Seq<char>, Seq<char>)>::empty());
        r
    }

    /// A map holding `pairs`, later pairs replacing earlier ones of the same key.
    pub fn from_pairs(pairs: Vec<(String, String)>) -> (r: StrMap)
        ensures
            forall|k: Seq<char>| #[trigger] pairs_get(r@, k) == last_pair_value(str_pairs_view(pairs@), k),
    {
        let ghost pv = str_pairs_view(pairs@);
        let mut m = StrMap::new();
        let mut i: usize = 0;
        while i < pairs.len()
            invariant
                i <= pairs.len(),
                pv == str_pairs_view(pairs@),
                forall|k: Seq<char>| #[trigger] pairs_get(m@, k) == last_pair_value(pv.take(i as int), k),
            decreases pairs.len() - i,
        {
            assert(pv.take(i + 1).drop_last() =~= pv.take(i as int));
            assert(pv.take(i + 1).last() == (pairs@[i as int].0@, pairs@[i as int].1@));
            m.insert(pairs[i].0.clone(), pairs[i].1.clone());
            i += 1;
        }
        assert(pv.take(pairs.len() as int) =~= pv);
        m
    }

    fn find(&self, key: &str) -> (r: Option<usize>)
        ensures
            match r {
                Some(i) => i < self.entries.len() && first_match(self@, pair_key_is(key@)) == Some(
                    i as int,
                ),
                None => first_match(self@, pair_key_is(key@)) is None,
            },
    {
        let ghost p = pair_key_is(key@);
        let mut i: usize = 0;
        while i < self.entries.len()
            invariant
                i <= self.entries.len(),
                p == pair_key_is(key@),
                forall|j: int| 0 <= j < i ==> !p(#[trigger] self@[j]),
            decreases self.entries.len() - i,
        {
            if str_eq(self.entries[i].0.as_str(), key) {
                proof {
                    lemma_first_match_is(self@, p, i as int);
                }
                return Some(i);
            }
            i += 1;
        }
        proof {
            lemma_first_match_none(self@, p);
        }
        None
    }

    pub fn get(&self, key: &str) -> (r: Option<&String>)
        ensures
            match r {
                Some(v) => pairs_get(self@, key@) == Some(v@),
                None => pairs_get(self@, key@) is None,
            },
    {
        match self.find(key) {
            Some(i) => Some(&self.entries[i].1),
            None => None,
        }
    }

    pub fn contains_key(&self, key: &str) -> (r: bool)
        ensures
            r == (pairs_get(self@, key@) is Some),
    {
        self.find(key).is_some()
    }

    pub fn len(&self) -> (r: usize)
        ensures
            r == self@.len(),
    {
        self.entries.len()
    }

    pub fn is_empty(&self) -> (r: bool)
        ensures
            r == (self@.len() == 0),
    {
        self.entries.len() == 0
    }

    /// Store `value` under `key`, replacing what the key held.
    pub fn insert(&mut self, key: String, value: String)
        ensures
            forall|k: Seq<char>| #[trigger] pairs_get(final(self)@, k) == if k == key@ {
                Some(value@)
            } else {
                pairs_get(old(self)@, k)
            },
    {
        let ghost kv = key@;
        let ghost vv = value@;
        match self.find(key.as_str()) {
            Some(i) => {
                self.entries.set(i, (key, value));
                assert(self@ =~= old(self)@.update(i as int, (kv, vv)));
                assert forall|k: Seq<char>| #[trigger] pairs_get(self@, k) == if k == kv {
                    Some(vv)
                } else {
                    pairs_get(old(self)@, k)
                } by {
                    lemma_update_lookup(old(self)@, i as int, kv, vv, k);
                }
            },
            None => {
                self.entries.push((key, value));
                assert(self@ =~= old(self)@.push((kv, vv)));
                assert forall|k: Seq<char>| #[trigger] pairs_get(self@, k) == if k == kv {
                    Some(vv)
                } else {
                    pairs_get(old(self)@, k)
                } by {
                    lemma_push_lookup(old(self)@, kv, vv, k);
                }
            },
        }
    }
}

/// The value of the last pair with key `k`.
pub open spec fn last_pair_value(s: Seq<(Seq<char>, Seq<char>)>, k: Seq<char>) -> Option<Seq<char>>
    decreases s.len(),
{
    if s.len() == 0 {
        None
    } else if s.last().0 == k {
        Some(s.last().1)
    } else {
        last_pair_value(s.drop_last(), k)
    }
}

proof fn lemma_update_lookup(
    m: Seq<(Seq<char>, Seq<char>)>,
    i: int,
    kv: Seq<char>,
    vv: Seq<char>,
    k: Seq<char>,
)
    requires
        0 <= i < m.len(),
        first_match(m, pair_key_is(kv)) == Some(i),
    ensures
        pairs_get(m.update(i, (kv, vv)), k) == if k == kv {
            Some(vv)
        } else {
            pairs_get(m, k)
        },
{
    let r = m.update(i, (kv, vv));
    crate::seqs::lemma_first_match(m, pair_key_is(kv));
    crate::seqs::lemma_first_match(m, pair_key_is(k));
    if k == kv {
        assert forall|j: int| 0 <= j < i implies !pair_key_is(k)(#[trigger] r[j]) by {
            assert(r[j] == m[j]);
        }
        lemma_first_match_is(r, pair_key_is(k), i);
    } else {
        match first_match(m, pair_key_is(k)) {
            Some(j) => {
                assert forall|l: int| 0 <= l < j implies !pair_key_is(k)(#[trigger] r[l]) by {
                    if l != i {
                        assert(r[l] == m[l]);
                    }
                }
                assert(j != i);
                lemma_first_match_is(r, pair_key_is(k), j);
            },
            None => {
                assert forall|l: int| 0 <= l < r.len() implies !pair_key_is(k)(#[trigger] r[l]) by {
                    if l != i {
                        assert(r[l] == m[l]);
                    }
                }
                lemma_first_match_none(r, pair_key_is(k));
            },
        }
    }
}

proof fn lemma_push_lookup(m: Seq<(Seq<char>, Seq<char>)>, kv: Seq<char>, vv: Seq<char>, k: Seq<char>)
    requires
        first_match(m, pair_key_is(kv)) is None,
    ensures
        pairs_get(m.push((kv, vv)), k) == if k == kv {
            Some(vv)
        } else {
            pairs_get(m, k)
        },
{
    let r = m.push((kv, vv));
    crate::seqs::lemma_first_match(m, pair_key_is(kv));
    crate::seqs::lemma_first_match(m, pair_key_is(k));
    match first_match(m, pair_key_is(k)) {
        Some(j) => {
            assert forall|l: int| 0 <= l < j implies !pair_key_is(k)(#[trigger] r[l]) by {
                assert(r[l] == m[l]);
            }
            lemma_first_match_is(r, pair_key_is(k), j);
        },
        None => {
            if k == kv {
                assert forall|l: int| 0 <= l < m.len() implies !pair_key_is(k)(#[trigger] r[l]) by {
                    assert(r[l] == m[l]);
                }
                lemma_first_match_is(r, pair_key_is(k), m.len() as int);
            } else {
                assert forall|l: int| 0 <= l < r.len() implies !pair_key_is(k)(#[trigger] r[l]) by {
                    if l < m.len() {
                        assert(r[l] == m[l]);
                    }
                }
                lemma_first_match_none(r, pair_key_is(k));
            }
        },
    }
}

/// Why one field failed validation: a stable code the frontend translates,
/// and the dynamic values its message interpolates.
#[derive(Debug, PartialEq)]
pub struct FieldError {
    pub code: String,
    pub params: StrMap,
}

pub struct FieldErrorView {
    pub code: Seq<char>,
    pub params: Seq<(Seq<char>, Seq<char>)>,
}

impl View for FieldError {
    type V = FieldErrorView;

    open spec fn view(&self) -> FieldErrorView {
        FieldErrorView { code: self.code@, params: self.params@ }
    }
}

/// A field error with `code` and no parameters.
pub open spec fn plain_error(code: Seq<char>) -> FieldErrorView {
    FieldErrorView { code, params: Seq::empty() }
}

impl FieldError {
    pub fn code(code: &str) -> (r: FieldError)
        ensures
            r@ == plain_error(code@),
    {
        FieldError { code: owned(code), params: StrMap::new() }
    }

    pub fn with_params(code: &str, params: StrMap) -> (r: FieldError)
        ensures
            r.code@ == code@,
            r.params == params,
    {
        FieldError { code: owned(code), params }
    }
}

/// Field errors by field path (`name`, `contacts[0].email`, …), one per path.
#[derive(Debug, PartialEq)]
pub struct FieldErrors {
    pub entries: Vec<(String, FieldError)>,
}

pub type ErrorEntries = Seq<(Seq<char>, FieldErrorView)>;

pub open spec fn error_key_is(k: Seq<char>) -> spec_fn((Seq<char>, FieldErrorView)) -> bool {
    |e: (Seq<char>, FieldErrorView)| e.0 == k
}

/// The error recorded for path `k`.
pub open spec fn errors_get(m: ErrorEntries, k: Seq<char>) -> Option<FieldErrorView> {
    match first_match(m, error_key_is(k)) {
        Some(i) => Some(m[i].1),
        None => None,
    }
}

/// `m` with `(k, e)` added unless `k` already has an error (the first error
/// recorded for a path is kept).
pub open spec fn put_new(m: ErrorEntries, k: Seq<char>, e: FieldErrorView) -> ErrorEntries {
    if first_match(m, error_key_is(k)) is Some {
        m
    } else {
        m.push((k, e))
    }
}

impl View for FieldErrors {
    type V = ErrorEntries;

    open spec fn view(&self) -> ErrorEntries {
        self.entries@.map_values(|e: (String, FieldError)| (e.0@, e.1@))
    }
}

impl FieldErrors {
    pub fn new() -> (r: FieldErrors)
        ensures
            r@ == Seq::<(Seq<char>, FieldErrorView)>::empty(),
    {
        let r = FieldErrors { entries: Vec::new() };
        assert(r@ =~= Seq::<(Seq<char>, FieldErrorView)>::empty());
        r
    }

    /// One error, `code` at `field`.
    pub fn single(field: &str, code: &str) -> (r: FieldErrors)
        ensures
            r@ == seq![(field@, plain_error(code@))],
    {
        let mut v: Vec<(String, FieldError)> = Vec::new();
        v.push((owned(field), FieldError::code(code)));
        let r = FieldErrors { entries: v };
        assert(r@ =~= seq![(field@, plain_error(code@))]);
        r
    }

    fn find(&self, key: &str) -> (r: Option<usize>)
        ensures
            match r {
                Some(i) => i < self.entries.len() && first_match(self@, error_key_is(key@)) == Some(
                    i as int,
                ),
                None => first_match(self@, error_key_is(key@)) is None,
            },
    {
        let ghost p = error_key_is(key@);
        let mut i: usize = 0;
        while i < self.entries.len()
            invariant
                i <= self.entries.len(),
                p == error_key_is(key@),
                forall|j: int| 0 <= j < i ==> !p(#[trigger] self@[j]),
            decreases self.entries.len() - i,
        {
            if str_eq(self.entries[i].0.as_str(), key) {
                proof {
                    lemma_first_match_is(self@, p, i as int);
                }
                return Some(i);
            }
            i += 1;
        }
        proof {
            lemma_first_match_none(self@, p);
        }
        None
    }

    pub fn get(&self, key: &str) -> (r: Option<&FieldError>)
        ensures
            match r {
                Some(v) => errors_get(self@, key@) == Some(v@),
                None => errors_get(self@, key@) is None,
            },
    {
        match self.find(key) {
            Some(i) => Some(&self.entries[i].1),
            None => None,
        }
    }

    pub fn contains_key(&self, key: &str) -> (r: bool)
        ensures
            r == (errors_get(self@, key@) is Some),
    {
        self.find(key).is_some()
    }

    pub fn len(&self) -> (r: usize)
        ensures
            r == self@.len(),
    {
        self.entries.len()
    }

    pub fn is_empty(&self) -> (r: bool)
        ensures
            r == (self@.len() == 0),
    {
        self.entries.len() == 0
    }

    /// Record `code` at `key` unless `key` already has an error.
    pub fn put(&mut self, key: &str, code: &str)
        ensures
            final(self)@ == put_new(old(self)@, key@, plain_error(code@)),
    {
        if self.find(key).is_none() {
            let e = FieldError::code(code);
            let ghost ev = e@;
            self.entries.push((owned(key), e));
            assert(self@ =~= old(self)@.push((key@, ev)));
        }
    }
}

/// The English text of a conflict.
pub open spec fn conflict_message(r: ConflictReason) -> Seq<char> {
    match r {
        ConflictReason::CustomerHasOrders => "customer has orders and cannot be deleted"@,
        ConflictReason::CustomerModified => "customer was modified by someone else since it was loaded"@,
        ConflictReason::CustomerNotActiveForOrder => "customer is not active"@,
        ConflictReason::OrderHasInvoice => "order has an invoice and cannot be deleted"@,
        ConflictReason::OrderNotConfirmedForInvoice => "order must be confirmed before it can be invoiced"@,
        ConflictReason::OrderAlreadyInvoiced => "order already has an invoice"@,
        ConflictReason::InvoiceNotDraft => "invoice can only be edited while in draft status; void and reissue instead"@,
        ConflictReason::InvoiceCannotBeDeleted => "invoices cannot be deleted; void them instead"@,
        ConflictReason::QuoteNotDraft => "quote can only be edited while in draft status; clone it to revise"@,
        ConflictReason::QuoteNotAccepted => "quote must be accepted before it can be converted to an order"@,
        ConflictReason::QuoteAlreadyConverted => "quote has already been converted to an order"@,
        ConflictReason::QuoteExpired => "quote has expired"@,
        ConflictReason::QuoteConvertRequiresCustomer => "prospect quote must be assigned a customer before conversion"@,
        ConflictReason::OrderStatusTransition { from, to } => "cannot transition order from "@
            + crate::domain::order::order_status_name(from) + " to "@
            + crate::domain::order::order_status_name(to),
        ConflictReason::QuoteStatusTransition { from, to } => "cannot transition quote from "@
            + crate::domain::quote::quote_status_name(from) + " to "@
            + crate::domain::quote::quote_status_name(to),
        ConflictReason::InvoiceStatusTransition { from, to } => "cannot transition invoice from "@
            + crate::domain::invoice::invoice_status_name(from) + " to "@
            + crate::domain::invoice::invoice_status_name(to),
        ConflictReason::CustomerStatusTransition { from, to } => "cannot transition customer from "@
            + crate::domain::customer::customer_status_name(from) + " to "@
            + crate::domain::customer::customer_status_name(to),
    }
}

/// Stable, localization-friendly reason for a [`DomainError::Conflict`].
#[derive(Debug, Clone, Copy, PartialEq, Eq, Structural)]
pub enum ConflictReason {
    CustomerHasOrders,
    CustomerModified,
    CustomerNotActiveForOrder,
    OrderHasInvoice,
    OrderNotConfirmedForInvoice,
    OrderAlreadyInvoiced,
    InvoiceNotDraft,
    InvoiceCannotBeDeleted,
    QuoteNotDraft,
    QuoteNotAccepted,
    QuoteAlreadyConverted,
    QuoteExpired,
    QuoteConvertRequiresCustomer,
    OrderStatusTransition { from: OrderStatus, to: OrderStatus },
    QuoteStatusTransition { from: QuoteStatus, to: QuoteStatus },
    InvoiceStatusTransition { from: InvoiceStatus, to: InvoiceStatus },
    CustomerStatusTransition { from: CustomerStatus, to: CustomerStatus },
}

/// The stable code of a conflict.
pub open spec fn conflict_code(r: ConflictReason) -> Seq<char> {
    match r {
        ConflictReason::CustomerHasOrders => "customer_has_orders"@,
        ConflictReason::CustomerModified => "customer_modified"@,
        ConflictReason::CustomerNotActiveForOrder => "customer_not_active_for_order"@,
        ConflictReason::OrderHasInvoice => "order_has_invoice"@,
        ConflictReason::OrderNotConfirmedForInvoice => "order_not_confirmed_for_invoice"@,
        ConflictReason::OrderAlreadyInvoiced => "order_already_invoiced"@,
        ConflictReason::InvoiceNotDraft => "invoice_not_draft"@,
        ConflictReason::InvoiceCannotBeDeleted => "invoice_cannot_be_deleted"@,
        ConflictReason::QuoteNotDraft => "quote_not_draft"@,
        ConflictReason::QuoteNotAccepted => "quote_not_accepted"@,
        ConflictReason::QuoteAlreadyConverted => "quote_already_converted"@,
        ConflictReason::QuoteExpired => "quote_expired"@,
        ConflictReason::QuoteConvertRequiresCustomer => "quote_convert_requires_customer"@,
        ConflictReason::OrderStatusTransition { .. } => "order_status_transition"@,
        ConflictReason::QuoteStatusTransition { .. } => "quote_status_transition"@,
        ConflictReason::InvoiceStatusTransition { .. } => "invoice_status_transition"@,
        ConflictReason::CustomerStatusTransition { .. } => "customer_status_transition"@,
    }
}

/// Which kind of conflict `r` is, its payload aside.
pub open spec fn conflict_kind(r: ConflictReason) -> int {
    match r {
        ConflictReason::CustomerHasOrders => 0,
        ConflictReason::CustomerModified => 1,
        ConflictReason::CustomerNotActiveForOrder => 2,
        ConflictReason::OrderHasInvoice => 3,
        ConflictReason::OrderNotConfirmedForInvoice => 4,
        ConflictReason::OrderAlreadyInvoiced => 5,
        ConflictReason::InvoiceNotDraft => 6,
        ConflictReason::InvoiceCannotBeDeleted => 7,
        ConflictReason::QuoteNotDraft => 8,
        ConflictReason::QuoteNotAccepted => 9,
        ConflictReason::QuoteAlreadyConverted => 10,
        ConflictReason::QuoteExpired => 11,
        ConflictReason::QuoteConvertRequiresCustomer => 12,
        ConflictReason::OrderStatusTransition { .. } => 13,
        ConflictReason::QuoteStatusTransition { .. } => 14,
        ConflictReason::InvoiceStatusTransition { .. } => 15,
        ConflictReason::CustomerStatusTransition { .. } => 16,
    }
}

/// The kind a conflict code names, told apart by its length and its
/// first, seventh and ninth characters.
spec fn code_kind(c: Seq<char>) -> int {
    if c.len() == 19 && c[0] == 'c' && c[6] == 'e' && c[8] == '_' {
        0
    } else if c.len() == 17 && c[0] == 'c' && c[6] == 'e' && c[8] == '_' {
        1
    } else if c.len() == 29 && c[0] == 'c' && c[6] == 'e' && c[8] == '_' {
        2
    } else if c.len() == 17 && c[0] == 'o' && c[6] == 'h' && c[8] == 's' {
        3
    } else if c.len() == 31 && c[0] == 'o' && c[6] == 'n' && c[8] == 't' {
        4
    } else if c.len() == 22 && c[0] == 'o' && c[6] == 'a' && c[8] == 'r' {
        5
    } else if c.len() == 17 && c[0] == 'i' && c[6] == 'e' && c[8] == 'n' {
        6
    } else if c.len() == 25 && c[0] == 'i' && c[6] == 'e' && c[8] == 'c' {
        7
    } else if c.len() == 15 && c[0] == 'q' && c[6] == 'n' && c[8] == 't' {
        8
    } else if c.len() == 18 && c[0] == 'q' && c[6] == 'n' && c[8] == 't' {
        9
    } else if c.len() == 23 && c[0] == 'q' && c[6] == 'a' && c[8] == 'r' {
        10
    } else if c.len() == 13 && c[0] == 'q' && c[6] == 'e' && c[8] == 'p' {
        11
    } else if c.len() == 31 && c[0] == 'q' && c[6] == 'c' && c[8] == 'n' {
        12
    } else if c.len() == 23 && c[0] == 'o' && c[6] == 's' && c[8] == 'a' {
        13
    } else if c.len() == 23 && c[0] == 'q' && c[6] == 's' && c[8] == 'a' {
        14
    } else if c.len() == 25 && c[0] == 'i' && c[6] == 'e' && c[8] == 's' {
        15
    } else if c.len() == 26 && c[0] == 'c' && c[6] == 'e' && c[8] == '_' {
        16
    } else {
        -1
    }
}

/// The code of conflict kind `k`.
spec fn kind_code(k: int) -> Seq<char> {
    if k == 0 {
        "customer_has_orders"@
    } else if k == 1 {
        "customer_modified"@
    } else if k == 2 {
        "customer_not_active_for_order"@
    } else if k == 3 {
        "order_has_invoice"@
    } else if k == 4 {
        "order_not_confirmed_for_invoice"@
    } else if k == 5 {
        "order_already_invoiced"@
    } else if k == 6 {
        "invoice_not_draft"@
    } else if k == 7 {
        "invoice_cannot_be_deleted"@
    } else if k == 8 {
        "quote_not_draft"@
    } else if k == 9 {
        "quote_not_accepted"@
    } else if k == 10 {
        "quote_already_converted"@
    } else if k == 11 {
        "quote_expired"@
    } else if k == 12 {
        "quote_convert_requires_customer"@
    } else if k == 13 {
        "order_status_transition"@
    } else if k == 14 {
        "quote_status_transition"@
    } else if k == 15 {
        "invoice_status_transition"@
    } else {
        "customer_status_transition"@
    }
}

proof fn lemma_code_names_kind(r: ConflictReason)
    ensures
        code_kind(conflict_code(r)) == conflict_kind(r),
        conflict_code(r) == kind_code(conflict_kind(r)),
        conflict_code(r).len() > 0,
{
    reveal_strlit("customer_has_orders");
    reveal_strlit("customer_modified");
    reveal_strlit("customer_not_active_for_order");
    reveal_strlit("order_has_invoice");
    reveal_strlit("order_not_confirmed_for_invoice");
    reveal_strlit("order_already_invoiced");
    reveal_strlit("invoice_not_draft");
    reveal_strlit("invoice_cannot_be_deleted");
    reveal_strlit("quote_not_draft");
    reveal_strlit("quote_not_accepted");
    reveal_strlit("quote_already_converted");
    reveal_strlit("quote_expired");
    reveal_strlit("quote_convert_requires_customer");
    reveal_strlit("order_status_transition");
    reveal_strlit("quote_status_transition");
    reveal_strlit("invoice_status_transition");
    reveal_strlit("customer_status_transition");
}

/// Conflict codes are never empty, and two conflicts share a code exactly
/// when they are of the same kind: the code names the kind and ignores the
/// statuses a transition conflict carries.
pub proof fn lemma_conflict_codes_unique(r1: ConflictReason, r2: ConflictReason)
    ensures
        conflict_code(r1).len() > 0,
        conflict_code(r1) == conflict_code(r2) <==> conflict_kind(r1) == conflict_kind(r2),
{
    lemma_code_names_kind(r1);
    lemma_code_names_kind(r2);
}

/// The `from`/`to` status codes a transition conflict reports: numeric codes
/// for orders, quotes and customers, snake_case keys for invoices.
pub open spec fn conflict_details(r: ConflictReason) -> Option<(Seq<char>, Seq<char>)> {
    match r {
        ConflictReason::OrderStatusTransition { from, to } => Some(
            (decimal(from.spec_code() as nat), decimal(to.spec_code() as nat)),
        ),
        ConflictReason::QuoteStatusTransition { from, to } => Some(
            (decimal(from.spec_code() as nat), decimal(to.spec_code() as nat)),
        ),
        ConflictReason::InvoiceStatusTransition { from, to } => Some(
            (crate::domain::invoice::invoice_status_key(from), crate::domain::invoice::invoice_status_key(to)),
        ),
        ConflictReason::CustomerStatusTransition { from, to } => Some(
            (decimal(from.spec_code() as nat), decimal(to.spec_code() as nat)),
        ),
        _ => None,
    }
}

impl ConflictReason {
    pub fn code(&self) -> (r: &'static str)
        ensures
            r@ == conflict_code(*self),
    {
        match self {
            ConflictReason::CustomerHasOrders => "customer_has_orders",
            ConflictReason::CustomerModified => "customer_modified",
            ConflictReason::CustomerNotActiveForOrder => "customer_not_active_for_order",
            ConflictReason::OrderHasInvoice => "order_has_invoice",
            ConflictReason::OrderNotConfirmedForInvoice => "order_not_confirmed_for_invoice",
            ConflictReason::OrderAlreadyInvoiced => "order_already_invoiced",
            ConflictReason::InvoiceNotDraft => "invoice_not_draft",
            ConflictReason::InvoiceCannotBeDeleted => "invoice_cannot_be_deleted",
            ConflictReason::QuoteNotDraft => "quote_not_draft",
            ConflictReason::QuoteNotAccepted => "quote_not_accepted",
            ConflictReason::QuoteAlreadyConverted => "quote_already_converted",
            ConflictReason::QuoteExpired => "quote_expired",
            ConflictReason::QuoteConvertRequiresCustomer => "quote_convert_requires_customer",
            ConflictReason::OrderStatusTransition { .. } => "order_status_transition",
            ConflictReason::QuoteStatusTransition { .. } => "quote_status_transition",
            ConflictReason::InvoiceStatusTransition { .. } => "invoice_status_transition",
            ConflictReason::CustomerStatusTransition { .. } => "customer_status_transition",
        }
    }

    /// Machine-readable `from`/`to` payload of transition conflicts.
    pub fn details(&self) -> (r: Option<StrMap>)
        ensures
            match conflict_details(*self) {
                Some(d) => r matches Some(m) && m@ == seq![("from"@, d.0), ("to"@, d.1)],
                None => r is None,
            },
    {
        let pair: Option<(String, String)> = match self {
            ConflictReason::OrderStatusTransition { from, to } => Some(
                (decimal_string(from.code() as usize), decimal_string(to.code() as usize)),
            ),
            ConflictReason::QuoteStatusTransition { from, to } => Some(
                (decimal_string(from.code() as usize), decimal_string(to.code() as usize)),
            ),
            ConflictReason::InvoiceStatusTransition { from, to } => Some(
                (owned(from.key()), owned(to.key())),
            ),
            ConflictReason::CustomerStatusTransition { from, to } => Some(
                (decimal_string(from.code() as usize), decimal_string(to.code() as usize)),
            ),
            _ => None,
        };
        match pair {
            Some((f, t)) => {
                let mut v: Vec<(String, String)> = Vec::new();
                v.push((owned("from"), f));
                v.push((owned("to"), t));
                let m = StrMap { entries: v };
                let ghost d = conflict_details(*self)->0;
                assert(m@ =~= seq![("from"@, d.0), ("to"@, d.1)]);
                Some(m)
            },
            None => None,
        }
    }

    /// The English text (server logs and the API `message` field).
    pub fn message(&self) -> (r: String)
        ensures
            r@ == conflict_message(*self),
    {
        match self {
            ConflictReason::CustomerHasOrders => owned("customer has orders and cannot be deleted"),
            ConflictReason::CustomerModified => owned(
                "customer was modified by someone else since it was loaded",
            ),
            ConflictReason::CustomerNotActiveForOrder => owned("customer is not active"),
            ConflictReason::OrderHasInvoice => owned("order has an invoice and cannot be deleted"),
            ConflictReason::OrderNotConfirmedForInvoice => owned(
                "order must be confirmed before it can be invoiced",
            ),
            ConflictReason::OrderAlreadyInvoiced => owned("order already has an invoice"),
            ConflictReason::InvoiceNotDraft => owned(
                "invoice can only be edited while in draft status; void and reissue instead",
            ),
            ConflictReason::InvoiceCannotBeDeleted => owned(
                "invoices cannot be deleted; void them instead",
            ),
            ConflictReason::QuoteNotDraft => owned(
                "quote can only be edited while in draft status; clone it to revise",
            ),
            ConflictReason::QuoteNotAccepted => owned(
                "quote must be accepted before it can be converted to an order",
            ),
            ConflictReason::QuoteAlreadyConverted => owned(
                "quote has already been converted to an order",
            ),
            ConflictReason::QuoteExpired => owned("quote has expired"),
            ConflictReason::QuoteConvertRequiresCustomer => owned(
                "prospect quote must be assigned a customer before conversion",
            ),
            ConflictReason::OrderStatusTransition { from, to } => transition_text(
                "cannot transition order from ",
                from.debug_name(),
                to.debug_name(),
            ),
            ConflictReason::QuoteStatusTransition { from, to } => transition_text(
                "cannot transition quote from ",
                from.debug_name(),
                to.debug_name(),
            ),
            ConflictReason::InvoiceStatusTransition { from, to } => transition_text(
                "cannot transition invoice from ",
                from.debug_name(),
                to.debug_name(),
            ),
            ConflictReason::CustomerStatusTransition { from, to } => transition_text(
                "cannot transition customer from ",
                from.debug_name(),
                to.debug_name(),
            ),
        }
    }
}

fn transition_text(lead: &str, from: &str, to: &str) -> (r: String)
    ensures
        r@ == lead@ + from@ + " to "@ + to@,
{
    let mut s = owned(lead);
    s.append(from);
    s.append(" to ");
    s.append(to);
    s
}

#[derive(Debug, PartialEq)]
pub enum DomainError {
    NotFound,
    Validation(FieldErrors),
    Conflict(ConflictReason),
    Store(String),
}

pub enum DomainErrorView {
    NotFound,
    Validation(ErrorEntries),
    Conflict(ConflictReason),
    Store(Seq<char>),
}

impl View for DomainError {
    type V = DomainErrorView;

    open spec fn view(&self) -> DomainErrorView {
        match self {
            DomainError::NotFound => DomainErrorView::NotFound,
            DomainError::Validation(e) => DomainErrorView::Validation(e@),
            DomainError::Conflict(r) => DomainErrorView::Conflict(*r),
            DomainError::Store(s) => DomainErrorView::Store(s@),
        }
    }
}

/// One validation error: `code` at `field`.
pub open spec fn validation_error(field: Seq<char>, code: Seq<char>) -> DomainErrorView {
    DomainErrorView::Validation(seq![(field, plain_error(code))])
}

/// `Ok` when no field failed, else the failures as a validation error.
pub open spec fn errors_result(e: ErrorEntries) -> Result<(), DomainErrorView> {
    if e.len() == 0 {
        Ok(())
    } else {
        Err(DomainErrorView::Validation(e))
    }
}

/// `r` is the executable counterpart of `expected`.
pub open spec fn unit_result_is(r: Result<(), DomainError>, expected: Result<(), DomainErrorView>) -> bool {
    match expected {
        Ok(()) => r is Ok,
        Err(e) => r matches Err(x) && x@ == e,
    }
}

/// Finish a validation: `Ok` when no field failed.
pub fn into_result(e: FieldErrors) -> (r: Result<(), DomainError>)
    ensures
        unit_result_is(r, errors_result(e@)),
{
    if e.is_empty() {
        Ok(())
    } else {
        Err(DomainError::Validation(e))
    }
}

impl DomainError {
    /// The English text of the error.
    pub fn message(&self) -> (r: String)
        ensures
            r@ == match self {
                DomainError::NotFound => "not found"@,
                DomainError::Validation(_) => "validation failed"@,
                DomainError::Conflict(c) => "conflict: "@ + conflict_message(*c),
                DomainError::Store(s) => "store error: "@ + s@,
            },
    {
        match self {
            DomainError::NotFound => owned("not found"),
            DomainError::Validation(_) => owned("validation failed"),
            DomainError::Conflict(c) => {
                let m = c.message();
                join("conflict: ", m.as_str())
            },
            DomainError::Store(s) => join("store error: ", s.as_str()),
        }
    }
}

} // verus!
