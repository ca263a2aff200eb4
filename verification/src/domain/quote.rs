//! Quote documents: status lifecycle, adjustments, line totals, the party
//! rule, and splitting an engine price across order lines.
use vstd::prelude::*;

use crate::domain::error::{
    validation_error, ConflictReason, DomainError, DomainErrorView, FieldErrors,
};
use crate::engine::money::{fits_i64, tdiv};
use crate::engine::price::Breakdown;
use crate::engine::resolve::{JobSpec, Selection};
use crate::seqs::sum;
use crate::text::{append_decimal, chars_of, decimal, owned, trim, trimmed};

verus! {

#[derive(Debug, Clone, Copy, PartialEq, Eq, Structural)]
pub enum QuoteStatus {
    Draft,
    Sent,
    Accepted,
    Declined,
    Expired,
}

impl QuoteStatus {
    pub open spec fn spec_code(self) -> u8 {
        match self {
            QuoteStatus::Draft => 0,
            QuoteStatus::Sent => 1,
            QuoteStatus::Accepted => 2,
            QuoteStatus::Declined => 3,
            QuoteStatus::Expired => 4,
        }
    }

    pub fn code(self) -> (r: u8)
        ensures
            r == self.spec_code(),
    {
        match self {
            QuoteStatus::Draft => 0,
            QuoteStatus::Sent => 1,
            QuoteStatus::Accepted => 2,
            QuoteStatus::Declined => 3,
            QuoteStatus::Expired => 4,
        }
    }

    pub fn key(self) -> (r: &'static str)
        ensures
            r@ == match self {
                QuoteStatus::Draft => "draft"@,
                QuoteStatus::Sent => "sent"@,
                QuoteStatus::Accepted => "accepted"@,
                QuoteStatus::Declined => "declined"@,
                QuoteStatus::Expired => "expired"@,
            },
    {
        match self {
            QuoteStatus::Draft => "draft",
            QuoteStatus::Sent => "sent",
            QuoteStatus::Accepted => "accepted",
            QuoteStatus::Declined => "declined",
            QuoteStatus::Expired => "expired",
        }
    }

    pub open spec fn spec_from_code(code: u8) -> Option<QuoteStatus> {
        if code == 0 {
            Some(QuoteStatus::Draft)
        } else if code == 1 {
            Some(QuoteStatus::Sent)
        } else if code == 2 {
            Some(QuoteStatus::Accepted)
        } else if code == 3 {
            Some(QuoteStatus::Declined)
        } else if code == 4 {
            Some(QuoteStatus::Expired)
        } else {
            None
        }
    }

    pub fn from_code(code: u8) -> (r: Option<QuoteStatus>)
        ensures
            r == QuoteStatus::spec_from_code(code),
    {
        if code == 0 {
            Some(QuoteStatus::Draft)
        } else if code == 1 {
            Some(QuoteStatus::Sent)
        } else if code == 2 {
            Some(QuoteStatus::Accepted)
        } else if code == 3 {
            Some(QuoteStatus::Declined)
        } else if code == 4 {
            Some(QuoteStatus::Expired)
        } else {
            None
        }
    }

    pub fn debug_name(self) -> (r: &'static str)
        ensures
            r@ == quote_status_name(self),
    {
        match self {
            QuoteStatus::Draft => "Draft",
            QuoteStatus::Sent => "Sent",
            QuoteStatus::Accepted => "Accepted",
            QuoteStatus::Declined => "Declined",
            QuoteStatus::Expired => "Expired",
        }
    }
}

pub open spec fn quote_status_name(s: QuoteStatus) -> Seq<char> {
    match s {
        QuoteStatus::Draft => "Draft"@,
        QuoteStatus::Sent => "Sent"@,
        QuoteStatus::Accepted => "Accepted"@,
        QuoteStatus::Declined => "Declined"@,
        QuoteStatus::Expired => "Expired"@,
    }
}

/// Only drafts are content-mutable; a sent quote is revised by cloning.
pub fn can_edit(status: QuoteStatus) -> (r: bool)
    ensures
        r == (status == QuoteStatus::Draft),
{
    status == QuoteStatus::Draft
}

/// `draft -> sent -> accepted`; `sent -> declined | expired`;
/// `accepted -> expired`.
pub open spec fn quote_transition_allowed(current: QuoteStatus, target: QuoteStatus) -> bool {
    match current {
        QuoteStatus::Draft => target == QuoteStatus::Sent,
        QuoteStatus::Sent => target == QuoteStatus::Accepted || target == QuoteStatus::Declined
            || target == QuoteStatus::Expired,
        QuoteStatus::Accepted => target == QuoteStatus::Expired,
        QuoteStatus::Declined | QuoteStatus::Expired => false,
    }
}

/// How far along its lifecycle a quote is: drafted, sent, accepted, or
/// closed (declined or expired).
pub open spec fn quote_stage(s: QuoteStatus) -> int {
    match s {
        QuoteStatus::Draft => 0,
        QuoteStatus::Sent => 1,
        QuoteStatus::Accepted => 2,
        QuoteStatus::Declined | QuoteStatus::Expired => 3,
    }
}

/// A quote only moves forward: every allowed move goes to a later stage, so
/// nothing ever returns to draft. A sent quote goes exactly to accepted,
/// declined or expired; a draft only to sent.
pub proof fn lemma_quote_lifecycle(current: QuoteStatus, target: QuoteStatus)
    ensures
        quote_transition_allowed(current, target) ==> quote_stage(current) < quote_stage(target),
        !quote_transition_allowed(current, QuoteStatus::Draft),
        quote_transition_allowed(QuoteStatus::Sent, target) <==> (target == QuoteStatus::Accepted || target
            == QuoteStatus::Declined || target == QuoteStatus::Expired),
        quote_transition_allowed(QuoteStatus::Draft, target) <==> target == QuoteStatus::Sent,
{
}

/// A disallowed move is a transition conflict.
pub fn validate_transition(current: QuoteStatus, target: QuoteStatus) -> (r: Result<(), DomainError>)
    ensures
        quote_transition_allowed(current, target) ==> r is Ok,
        !quote_transition_allowed(current, target) ==> (r matches Err(e) && e@
            == DomainErrorView::Conflict(
            ConflictReason::QuoteStatusTransition { from: current, to: target },
        )),
{
    let allowed = match current {
        QuoteStatus::Draft => target == QuoteStatus::Sent,
        QuoteStatus::Sent => target == QuoteStatus::Accepted || target == QuoteStatus::Declined
            || target == QuoteStatus::Expired,
        QuoteStatus::Accepted => target == QuoteStatus::Expired,
        QuoteStatus::Declined | QuoteStatus::Expired => false,
    };
    if allowed {
        Ok(())
    } else {
        Err(DomainError::Conflict(ConflictReason::QuoteStatusTransition { from: current, to: target }))
    }
}

#[derive(Debug, Clone, Copy, PartialEq, Eq, Structural)]
pub enum AdjustmentKind {
    /// Replaces the policy band multiplier (basis points, must be > 0).
    MarginOverride { multiplier_bp: u32 },
    /// Off the engine price (basis points, `0..=10_000`).
    Discount { percent_bp: u32 },
    /// Manual final price in minor units (must be >= 0).
    PriceOverride { total_minor: i64 },
}

#[derive(Debug, PartialEq)]
pub struct Adjustment {
    pub kind: AdjustmentKind,
    pub reason: Option<String>,
}

/// Whether an adjustment's parameter is in range.
pub open spec fn adjustment_ok(k: AdjustmentKind) -> bool {
    match k {
        AdjustmentKind::MarginOverride { multiplier_bp } => multiplier_bp > 0,
        AdjustmentKind::Discount { percent_bp } => percent_bp <= 10000,
        AdjustmentKind::PriceOverride { total_minor } => total_minor >= 0,
    }
}

/// The final total an adjustment makes of an engine total.
pub open spec fn apply_spec(k: AdjustmentKind, engine_total: int) -> int {
    match k {
        AdjustmentKind::MarginOverride { .. } => engine_total,
        AdjustmentKind::Discount { percent_bp } => engine_total - tdiv(engine_total * percent_bp, 10000),
        AdjustmentKind::PriceOverride { total_minor } => total_minor as int,
    }
}

/// A valid discount on a non-negative engine total never raises it and
/// never makes it negative.
pub proof fn lemma_discount_bounded(percent_bp: u32, engine_total: int)
    requires
        percent_bp <= 10000,
        engine_total >= 0,
    ensures
        0 <= apply_spec(AdjustmentKind::Discount { percent_bp }, engine_total) <= engine_total,
{
    let p = engine_total * percent_bp;
    assert(0 <= p <= engine_total * 10000) by (nonlinear_arith)
        requires
            percent_bp <= 10000,
            engine_total >= 0,
            p == engine_total * percent_bp;
    assert(0 <= p / 10000 <= engine_total) by (nonlinear_arith)
        requires
            0 <= p <= engine_total * 10000;
}

impl Adjustment {
    fn validate(&self, field: &str) -> (r: Result<(), DomainError>)
        ensures
            adjustment_ok(self.kind) ==> r is Ok,
            !adjustment_ok(self.kind) ==> (r matches Err(e) && e@ == validation_error(
                field@,
                "invalid_adjustment"@,
            )),
    {
        let ok = match self.kind {
            AdjustmentKind::MarginOverride { multiplier_bp } => multiplier_bp > 0,
            AdjustmentKind::Discount { percent_bp } => percent_bp <= 10_000,
            AdjustmentKind::PriceOverride { total_minor } => total_minor >= 0,
        };
        if ok {
            Ok(())
        } else {
            Err(validation(field, "invalid_adjustment"))
        }
    }

    /// The final total in minor units: a margin override was already priced
    /// by the engine (passed through), a discount comes off the engine total
    /// (rounded toward zero), a price override replaces it.
    pub fn apply(&self, engine_total_minor: i64) -> (r: i64)
        requires
            self.kind matches AdjustmentKind::Discount { percent_bp } ==> fits_i64(
                engine_total_minor * percent_bp,
            ),
    ensures
            r == apply_spec(self.kind, engine_total_minor as int),
    {
        match self.kind {
            AdjustmentKind::MarginOverride { .. } => engine_total_minor,
            AdjustmentKind::Discount { percent_bp } => {
                let off = crate::engine::money::div_toward_zero(
                    engine_total_minor * percent_bp as i64,
                    10_000,
                );
                proof {
                    let t = engine_total_minor * percent_bp;
                    lemma_tdiv_small(t);
                    if engine_total_minor >= 0 {
                        assert(t >= 0) by (nonlinear_arith)
                            requires
                                engine_total_minor >= 0,
                                t == engine_total_minor * percent_bp,
                                percent_bp >= 0;
                    } else {
                        assert(t <= 0) by (nonlinear_arith)
                            requires
                                engine_total_minor < 0,
                                t == engine_total_minor * percent_bp,
                                percent_bp >= 0;
                    }
                }
                engine_total_minor - off
            },
            AdjustmentKind::PriceOverride { total_minor } => total_minor,
        }
    }
}

/// Dividing a machine integer by 10000 leaves it far inside machine range,
/// with the sign kept.
proof fn lemma_tdiv_small(t: int)
    requires
        fits_i64(t),
    ensures
        -922337203685478int <= tdiv(t, 10000) <= 922337203685478int,
        t >= 0 ==> tdiv(t, 10000) >= 0,
        t <= 0 ==> tdiv(t, 10000) <= 0,
{
    if t >= 0 {
        assert(t / 10000 <= 922337203685478int) by (nonlinear_arith)
            requires
                0 <= t <= 9223372036854775807int;
    } else {
        assert((-t) / 10000 <= 922337203685478int) by (nonlinear_arith)
            requires
                0 < -t <= 9223372036854775808int;
    }
}

pub struct AdjustmentView {
    pub kind: AdjustmentKind,
    pub reason: Option<Seq<char>>,
}

impl View for Adjustment {
    type V = AdjustmentView;

    open spec fn view(&self) -> AdjustmentView {
        AdjustmentView { kind: self.kind, reason: crate::engine::resolve::opt_str_view(self.reason) }
    }
}

pub open spec fn opt_adjustment_view(a: Option<Adjustment>) -> Option<AdjustmentView> {
    match a {
        Some(x) => Some(x@),
        None => None,
    }
}

pub fn clone_adjustment(a: &Adjustment) -> (r: Adjustment)
    ensures
        r@ == a@,
{
    Adjustment {
        kind: a.kind,
        reason: match &a.reason {
            Some(s) => Some(s.clone()),
            None => None,
        },
    }
}

/// The stored pricing of an engine-priced line: the band breakdown, the
/// engine total, the adjustment, and the final total.
#[derive(Debug, PartialEq)]
pub struct EnginePricing {
    pub breakdown: Breakdown,
    /// What the policy's own band produced (no adjustment).
    pub engine_total_minor: i64,
    pub adjustment: Option<Adjustment>,
    /// `engine_total_minor` with the adjustment applied.
    pub final_total_minor: i64,
}

pub struct EnginePricingView {
    pub breakdown: crate::engine::price::BreakdownView,
    pub engine_total_minor: i64,
    pub adjustment: Option<AdjustmentView>,
    pub final_total_minor: i64,
}

impl View for EnginePricing {
    type V = EnginePricingView;

    open spec fn view(&self) -> EnginePricingView {
        EnginePricingView {
            breakdown: self.breakdown@,
            engine_total_minor: self.engine_total_minor,
            adjustment: opt_adjustment_view(self.adjustment),
            final_total_minor: self.final_total_minor,
        }
    }
}

#[derive(Debug, PartialEq)]
pub enum QuoteLine {
    Template { line_id: String, template: String, selection: Selection, qty: u32, pricing: EnginePricing },
    Spec { line_id: String, job_spec: JobSpec, description: String, qty: u32, pricing: EnginePricing },
    Manual { line_id: String, description: String, qty: u32, unit_minor: i64 },
}

/// A line's contribution to the quote total.
pub open spec fn line_total(l: QuoteLine) -> int {
    match l {
        QuoteLine::Template { pricing, .. } => pricing.final_total_minor as int,
        QuoteLine::Spec { pricing, .. } => pricing.final_total_minor as int,
        QuoteLine::Manual { qty, unit_minor, .. } => qty * unit_minor,
    }
}

pub open spec fn line_id_of(l: QuoteLine) -> Seq<char> {
    match l {
        QuoteLine::Template { line_id, .. } => line_id@,
        QuoteLine::Spec { line_id, .. } => line_id@,
        QuoteLine::Manual { line_id, .. } => line_id@,
    }
}

impl QuoteLine {
    pub fn line_id(&self) -> (r: &str)
        ensures
            r@ == line_id_of(*self),
    {
        match self {
            QuoteLine::Template { line_id, .. } => line_id.as_str(),
            QuoteLine::Spec { line_id, .. } => line_id.as_str(),
            QuoteLine::Manual { line_id, .. } => line_id.as_str(),
        }
    }

    /// The line's contribution to the quote total in minor units.
    pub fn total_minor(&self) -> (r: i64)
        requires
            fits_i64(line_total(*self)),
        ensures
            r == line_total(*self),
    {
        match self {
            QuoteLine::Template { pricing, .. } => pricing.final_total_minor,
            QuoteLine::Spec { pricing, .. } => pricing.final_total_minor,
            QuoteLine::Manual { qty, unit_minor, .. } => *qty as i64 * *unit_minor,
        }
    }
}

pub open spec fn line_totals(lines: Seq<QuoteLine>) -> Seq<int> {
    lines.map_values(|l: QuoteLine| line_total(l))
}

/// Sum of every line's total, in the quote currency.
pub fn quote_total_minor(lines: &[QuoteLine]) -> (r: i64)
    requires
        forall|i: int| 0 <= i < lines@.len() ==> fits_i64(#[trigger] line_totals(lines@)[i]),
        crate::domain::order::prefix_sums_fit(line_totals(lines@)),
    ensures
        r == sum(line_totals(lines@)),
{
    let ghost ts = line_totals(lines@);
    let mut acc: i64 = 0;
    let mut i: usize = 0;
    assert(ts.take(0) =~= Seq::<int>::empty());
    while i < lines.len()
        invariant
            i <= lines.len(),
            ts == line_totals(lines@),
            forall|j: int| 0 <= j < lines@.len() ==> fits_i64(#[trigger] ts[j]),
            crate::domain::order::prefix_sums_fit(ts),
            acc == sum(ts.take(i as int)),
        decreases lines.len() - i,
    {
        assert(ts.take(i + 1).drop_last() =~= ts.take(i as int));
        assert(fits_i64(sum(ts.take(i + 1))));
        assert(fits_i64(ts[i as int]));
        acc = acc + lines[i].total_minor();
        i += 1;
    }
    assert(ts.take(lines.len() as int) =~= ts);
    acc
}

#[derive(Debug, Clone, PartialEq)]
pub struct Prospect {
    pub name: String,
    pub email: Option<String>,
    pub phone: Option<String>,
}

#[derive(Debug, PartialEq)]
pub struct Quote {
    pub id: String,
    pub number: String,
    pub customer_id: Option<String>,
    /// Resolved from the customer record at read time.
    pub customer_name: Option<String>,
    pub prospect: Option<Prospect>,
    pub currency: String,
    pub status: QuoteStatus,
    pub valid_until: Option<String>,
    pub lines: Vec<QuoteLine>,
    /// Set iff the quote has an engine-priced line.
    pub pricelist_version: Option<i64>,
    pub notes: Option<String>,
    pub created_by: String,
    /// The quote this one was cloned from.
    pub revises: Option<String>,
    /// Set once converted; one order per quote.
    pub order_id: Option<String>,
    pub total_minor: i64,
    pub created_at: String,
    pub updated_at: String,
}

/// One line of a submitted quote: specs and adjustments, never prices.
#[derive(Debug, PartialEq)]
pub enum NewQuoteLine {
    Template {
        line_id: Option<String>,
        template: String,
        selection: Selection,
        qty: u32,
        adjustment: Option<Adjustment>,
    },
    Spec {
        line_id: Option<String>,
        job_spec: JobSpec,
        description: String,
        qty: u32,
        adjustment: Option<Adjustment>,
    },
    Manual { line_id: Option<String>, description: String, qty: u32, unit_minor: i64 },
}

/// The path of field `name` of line `i`.
pub open spec fn line_key(i: int, name: Seq<char>) -> Seq<char> {
    "lines["@ + decimal(i as nat) + "]."@ + name
}

pub open spec fn line_qty(l: NewQuoteLine) -> u32 {
    match l {
        NewQuoteLine::Template { qty, .. } => qty,
        NewQuoteLine::Spec { qty, .. } => qty,
        NewQuoteLine::Manual { qty, .. } => qty,
    }
}

pub open spec fn line_adjustment(l: NewQuoteLine) -> Option<Adjustment> {
    match l {
        NewQuoteLine::Template { adjustment, .. } => adjustment,
        NewQuoteLine::Spec { adjustment, .. } => adjustment,
        NewQuoteLine::Manual { .. } => None,
    }
}

/// The first problem of line `i`: a zero quantity, a negative manual unit
/// price, or an out-of-range adjustment.
pub open spec fn line_problem(l: NewQuoteLine, i: int) -> Option<DomainErrorView> {
    if line_qty(l) < 1 {
        Some(validation_error(line_key(i, "qty"@), "positive_quantity"@))
    } else if l matches NewQuoteLine::Manual { unit_minor, .. } && unit_minor < 0 {
        Some(validation_error(line_key(i, "unit_minor"@), "non_negative"@))
    } else if line_adjustment(l) matches Some(a) && !adjustment_ok(a.kind) {
        Some(validation_error(line_key(i, "adjustment"@), "invalid_adjustment"@))
    } else {
        None
    }
}

fn line_path(index: usize, name: &str) -> (r: String)
    ensures
        r@ == line_key(index as int, name@),
{
    let mut s = owned("lines[");
    append_decimal(&mut s, index);
    s.append("].");
    s.append(name);
    s
}

impl NewQuoteLine {
    fn validate(&self, index: usize) -> (r: Result<(), DomainError>)
        ensures
            match line_problem(*self, index as int) {
                None => r is Ok,
                Some(e) => r matches Err(x) && x@ == e,
            },
    {
        let qty = match self {
            NewQuoteLine::Template { qty, .. } => *qty,
            NewQuoteLine::Spec { qty, .. } => *qty,
            NewQuoteLine::Manual { qty, .. } => *qty,
        };
        if qty < 1 {
            return Err(validation(line_path(index, "qty").as_str(), "positive_quantity"));
        }
        match self {
            NewQuoteLine::Manual { unit_minor, .. } => {
                if *unit_minor < 0 {
                    return Err(validation(line_path(index, "unit_minor").as_str(), "non_negative"));
                }
            },
            NewQuoteLine::Template { adjustment, .. } => match adjustment {
                Some(adj) => {
                    return adj.validate(line_path(index, "adjustment").as_str());
                },
                None => {},
            },
            NewQuoteLine::Spec { adjustment, .. } => match adjustment {
                Some(adj) => {
                    return adj.validate(line_path(index, "adjustment").as_str());
                },
                None => {},
            },
        }
        Ok(())
    }

    pub fn adjustment(&self) -> (r: Option<&Adjustment>)
        ensures
            match line_adjustment(*self) {
                Some(a) => r == Some(&a),
                None => r is None,
            },
    {
        match self {
            NewQuoteLine::Template { adjustment, .. } => adjustment.as_ref(),
            NewQuoteLine::Spec { adjustment, .. } => adjustment.as_ref(),
            NewQuoteLine::Manual { .. } => None,
        }
    }
}

#[derive(Debug, PartialEq)]
pub struct NewQuote {
    pub customer_id: Option<String>,
    pub prospect: Option<Prospect>,
    pub currency: Option<String>,
    pub valid_until: Option<String>,
    pub notes: Option<String>,
    pub lines: Vec<NewQuoteLine>,
}

/// Exactly one party: a non-empty customer id without a prospect, or a
/// prospect whose name is not blank without a customer id.
pub open spec fn party_ok(q: NewQuote) -> bool {
    match (q.customer_id, q.prospect) {
        (Some(id), None) => id@.len() > 0,
        (None, Some(p)) => trimmed(p.name@).len() > 0,
        _ => false,
    }
}

/// Index of the first line with a problem.
pub open spec fn first_bad_line(lines: Seq<NewQuoteLine>, n: int) -> Option<int>
    decreases n,
{
    if n <= 0 {
        None
    } else {
        match first_bad_line(lines, n - 1) {
            Some(i) => Some(i),
            None => if line_problem(lines[n - 1], n - 1) is Some {
                Some(n - 1)
            } else {
                None
            },
        }
    }
}

impl NewQuote {
    /// Structural validation independent of pricing: exactly one party, and
    /// each line well formed (the first bad line is reported).
    pub fn validate_domain(&self) -> (r: Result<(), DomainError>)
        ensures
            !party_ok(*self) ==> (r matches Err(e) && e@ == validation_error(
                "customer_id"@,
                "party_required"@,
            )),
            party_ok(*self) ==> match first_bad_line(self.lines@, self.lines@.len() as int) {
                None => r is Ok,
                Some(i) => r matches Err(e) && Some(e@) == line_problem(self.lines@[i], i),
            },
    {
        let party = match (&self.customer_id, &self.prospect) {
            (Some(id), None) => chars_of(id.as_str()).len() > 0,
            (None, Some(p)) => chars_of(trim(p.name.as_str()).as_str()).len() > 0,
            _ => false,
        };
        if !party {
            return Err(validation("customer_id", "party_required"));
        }
        let mut i: usize = 0;
        while i < self.lines.len()
            invariant
                i <= self.lines.len(),
                party_ok(*self),
                first_bad_line(self.lines@, i as int) is None,
            decreases self.lines.len() - i,
        {
            match self.lines[i].validate(i) {
                Ok(()) => {},
                Err(e) => {
                    proof {
                        lemma_first_bad_line_stays(self.lines@, i as int + 1, self.lines@.len() as int);
                    }
                    return Err(e);
                },
            }
            i += 1;
        }
        Ok(())
    }

    pub fn resolve_currency(&mut self, tenant_default_currency: &str)
        ensures
            *final(self) == (NewQuote { currency: final(self).currency, ..*old(self) }),
            old(self).currency is Some ==> final(self).currency == old(self).currency,
            old(self).currency is None ==> (final(self).currency matches Some(c) && c@
                == tenant_default_currency@),
    {
        if self.currency.is_none() {
            self.currency = Some(owned(tenant_default_currency));
        }
    }
}

proof fn lemma_first_bad_line_stays(lines: Seq<NewQuoteLine>, k: int, n: int)
    requires
        0 <= k <= n,
        first_bad_line(lines, k) is Some,
    ensures
        first_bad_line(lines, n) == first_bad_line(lines, k),
    decreases n - k,
{
    if n > k {
        lemma_first_bad_line_stays(lines, k, n - 1);
    }
}

/// A validation error with one field.
fn validation(field: &str, code: &str) -> (r: DomainError)
    ensures
        r@ == validation_error(field@, code@),
{
    DomainError::Validation(FieldErrors::single(field, code))
}

/// One order line from a converted quote line.
#[derive(Debug, Clone, PartialEq)]
pub struct ConvertedLine {
    pub description: String,
    pub qty: u32,
    pub unit_minor: i64,
    pub source_line_id: String,
}

/// The total an order line carries: quantity times unit price.
pub open spec fn converted_total(l: ConvertedLine) -> int {
    l.qty * l.unit_minor
}

/// Splits an engine-priced line's `final_total_minor` across `qty` units
/// without changing the accepted total: `final = qty*base + remainder` with
/// `0 <= remainder < qty`; `qty - remainder` units at `base`, then (when
/// `remainder > 0`) `remainder` units at `base + 1`, both with the source
/// `line_id`.
pub fn split_residual_minor(description: &str, qty: u32, final_total_minor: i64, line_id: &str) -> (r:
    Vec<ConvertedLine>)
    requires
        qty > 0,
    ensures
        split_shape(r@, qty, final_total_minor as int),
        forall|i: int| 0 <= i < r@.len() ==> (#[trigger] r@[i]).description@ == description@
            && r@[i].source_line_id@ == line_id@,
{
    let q = qty as i64;
    let (base, remainder) = floor_div_rem(final_total_minor, q);
    let mut lines: Vec<ConvertedLine> = Vec::new();
    let whole = q - remainder;
    if whole > 0 {
        lines.push(
            ConvertedLine {
                description: owned(description),
                qty: whole as u32,
                unit_minor: base,
                source_line_id: owned(line_id),
            },
        );
    }
    if remainder > 0 {
        proof {
            assert(base <= 4611686018427387904int) by (nonlinear_arith)
                requires
                    base == final_total_minor as int / q as int,
                    q >= 2,
                    final_total_minor <= 9223372036854775807int;
        }
        lines.push(
            ConvertedLine {
                description: owned(description),
                qty: remainder as u32,
                unit_minor: base + 1,
                source_line_id: owned(line_id),
            },
        );
    }
    lines
}

/// Floor division with the non-negative remainder.
fn floor_div_rem(a: i64, q: i64) -> (r: (i64, i64))
    requires
        q > 0,
    ensures
        r.0 == a as int / q as int,
        r.1 == a as int % q as int,
{
    proof {
        vstd::arithmetic::div_mod::lemma_fundamental_div_mod(a as int, q as int);
    }
    if a >= 0 {
        (a / q, a % q)
    } else {
        let m = -(a + 1);
        let k = m / q;
        let t = m % q;
        proof {
            vstd::arithmetic::div_mod::lemma_fundamental_div_mod(m as int, q as int);
            let b = -(k as int) - 1;
            let rr = q - 1 - t;
            assert(b * q + rr == a) by (nonlinear_arith)
                requires
                    m == q * k + t,
                    m == -(a + 1),
                    b == -(k as int) - 1,
                    rr == q - 1 - t;
            vstd::arithmetic::div_mod::lemma_fundamental_div_mod_converse(a as int, q as int, b, rr);
        }
        (-k - 1, q - 1 - t)
    }
}

/// The lines a split gives: `qty - rem` units at `base`, then (when
/// `rem > 0`) `rem` units at `base + 1`, where `total = qty*base + rem` and
/// `0 <= rem < qty`.
pub open spec fn split_shape(r: Seq<ConvertedLine>, qty: u32, total: int) -> bool {
    let base = total / qty as int;
    let rem = total % qty as int;
    &&& r.len() == if rem > 0 { 2int } else { 1int }
    &&& r[0].qty == qty - rem
    &&& r[0].unit_minor == base
    &&& rem > 0 ==> r[1].qty == rem && r[1].unit_minor == base + 1
}

/// The lines of a split carry exactly the accepted total and the quoted
/// quantity.
pub proof fn lemma_split_preserves_total(r: Seq<ConvertedLine>, qty: u32, total: int)
    requires
        qty > 0,
        split_shape(r, qty, total),
    ensures
        sum(r.map_values(|l: ConvertedLine| converted_total(l))) == total,
        sum(r.map_values(|l: ConvertedLine| l.qty as int)) == qty,
{
    let base = total / qty as int;
    let rem = total % qty as int;
    vstd::arithmetic::div_mod::lemma_fundamental_div_mod(total, qty as int);
    assert((qty - rem) * base + rem * (base + 1) == qty * base + rem) by (nonlinear_arith);
    let ts = r.map_values(|l: ConvertedLine| converted_total(l));
    let qs = r.map_values(|l: ConvertedLine| l.qty as int);
    assert(ts[0] == (qty - rem) * base);
    reveal_with_fuel(sum, 3);
    if rem > 0 {
        assert(ts[1] == rem * (base + 1));
        assert(ts.drop_last().drop_last() =~= Seq::<int>::empty());
        assert(qs.drop_last().drop_last() =~= Seq::<int>::empty());
        assert(ts.drop_last().last() == ts[0]);
        assert(qs.drop_last().last() == qs[0]);
        assert(sum(ts.drop_last()) == ts[0]);
        assert(sum(qs.drop_last()) == qs[0]);
    } else {
        assert(ts.drop_last() =~= Seq::<int>::empty());
        assert(qs.drop_last() =~= Seq::<int>::empty());
    }
}

#[derive(Debug, Clone, PartialEq)]
pub struct QuoteListQuery {
    pub page: u32,
    pub limit: u32,
    pub sort: String,
    pub customer_id: Option<String>,
    pub status: Option<QuoteStatus>,
    pub q: Option<String>,
}

/// The fully priced create/update payload: engine lines already carry their
/// pricing; `pricelist_version` is set iff a line is engine-priced.
#[derive(Debug, PartialEq)]
pub struct QuoteWrite {
    pub customer_id: Option<String>,
    pub prospect: Option<Prospect>,
    pub currency: String,
    pub valid_until: Option<String>,
    pub notes: Option<String>,
    pub lines: Vec<QuoteLine>,
    pub pricelist_version: Option<i64>,
    pub created_by: String,
}

/// A status's wire code reads back as the status, and every code that
/// reads as a status is that status's code.
pub proof fn lemma_quote_status_code_round_trip(s: QuoteStatus, code: u8)
    ensures
        QuoteStatus::spec_from_code(s.spec_code()) == Some(s),
        QuoteStatus::spec_from_code(code) matches Some(t) ==> t.spec_code() == code,
{
}

} // verus!
