//! Quote routes: list query, line pricing and repricing.
use vstd::prelude::*;

use crate::api::error::{domain_api_error, engine_api_error, plain_api_error, ApiError, ApiErrorView, STATUS_NOT_FOUND};
use crate::domain::error::{validation_error, ConflictReason, DomainError, DomainErrorView};
use crate::api::quote_pricing::{
    adj_view, no_policy_error, price_spec, price_spec_outcome, price_template,
    price_template_outcome, select_policy, selected_policy,
};
use crate::api::routes::{clamp_limit, clamp_page, limit_of, page_of};
use crate::domain::quote::{
    can_edit, first_bad_line, line_id_of, line_problem, line_total, opt_adjustment_view, party_ok,
    EnginePricingView, NewQuote, NewQuoteLine, Quote, QuoteLine, QuoteListQuery, QuoteStatus, QuoteWrite,
};
use crate::engine::model::{find_keyed, lookup, Keyed, PriceModel};
use crate::engine::money::fits_i64;
use crate::engine::outcome::Outcome;
use crate::engine::resolve::opt_str_view;
use crate::text::owned;

verus! {

#[derive(Debug, PartialEq)]
pub struct ListParams {
    pub page: u32,
    pub limit: u32,
    pub sort: String,
    pub customer_id: Option<String>,
    pub status: Option<QuoteStatus>,
    pub q: Option<String>,
}

impl From<ListParams> for QuoteListQuery {
    fn from(params: ListParams) -> (r: QuoteListQuery) {
        QuoteListQuery {
            page: clamp_page(params.page),
            limit: clamp_limit(params.limit),
            sort: params.sort,
            customer_id: params.customer_id,
            status: params.status,
            q: params.q,
        }
    }
}

impl vstd::std_specs::convert::FromSpecImpl<ListParams> for QuoteListQuery {
    open spec fn obeys_from_spec() -> bool {
        true
    }

    open spec fn from_spec(v: ListParams) -> QuoteListQuery {
        QuoteListQuery {
            page: page_of(v.page),
            limit: limit_of(v.limit),
            sort: v.sort,
            customer_id: v.customer_id,
            status: v.status,
            q: v.q,
        }
    }
}

#[derive(Debug, Clone, Copy, PartialEq, Eq, Structural)]
pub struct StatusBody {
    pub status: QuoteStatus,
}

/// A character of the Crockford base-32 alphabet that ULIDs are written in.
pub open spec fn crockford_char(c: char) -> bool {
    ('0' <= c && c <= '9') || ('A' <= c && c <= 'Z' && c != 'I' && c != 'L' && c != 'O' && c != 'U')
}

/// `ulid::Ulid::generate()` as text (`Display`): a fresh id from the clock
/// and a random source, written as 26 characters of the Crockford base-32
/// alphabet. Which id it is is not stated.
#[verifier::external_body]
fn new_ulid() -> (r: String)
    ensures
        r@.len() == 26,
        forall|i: int| 0 <= i < 26 ==> crockford_char(#[trigger] r@[i]),
{
    ulid::Ulid::generate().to_string()
}

/// The given line id, or a fresh ULID.
pub fn line_id_or_new(existing: Option<String>) -> (r: String)
    ensures
        match existing {
            Some(s) => r == s,
            None => r@.len() == 26 && forall|i: int| 0 <= i < 26 ==> crockford_char(#[trigger] r@[i]),
        },
{
    match existing {
        Some(s) => s,
        None => new_ulid(),
    }
}

/// The template a line names: by slug, else by id.
pub open spec fn find_template_spec(model: PriceModel, key: Seq<char>) -> Option<int> {
    match model.slug_target(key) {
        Some(id) => match lookup(model.templates@, id) {
            Some(i) => Some(i),
            None => lookup(model.templates@, key),
        },
        None => lookup(model.templates@, key),
    }
}

pub open spec fn unknown_template_error() -> ApiErrorView {
    plain_api_error(STATUS_NOT_FOUND, "not_found"@, "unknown template"@)
}

pub(crate) fn find_template<'a>(model: &'a PriceModel, key: &str) -> (r: Option<&'a crate::engine::model::ProductTemplate>)
    ensures
        match find_template_spec(*model, key@) {
            Some(i) => r == Some(&model.templates@[i]),
            None => r is None,
        },
{
    match model.template_by_slug(key) {
        Some(t) => Some(t),
        None => match find_keyed(&model.templates, key) {
            Some(i) => Some(&model.templates[i]),
            None => None,
        },
    }
}

/// How one line prices: a manual line is not priced; an engine line gets a
/// pricing or is refused with an error.
pub enum LinePricing {
    Manual,
    Engine(EnginePricingView),
    Refused(ApiErrorView),
    Aborts,
}

pub open spec fn from_outcome(o: Outcome<EnginePricingView>) -> LinePricing {
    match o {
        Outcome::Done(p) => LinePricing::Engine(p),
        Outcome::Fail(e) => LinePricing::Refused(engine_api_error(e)),
        Outcome::Aborts => LinePricing::Aborts,
    }
}

/// A spec line priced with the currency's policy.
pub open spec fn spec_line_pricing(
    model: PriceModel,
    currency: Seq<char>,
    job: crate::engine::resolve::JobSpecView,
    qty: u32,
    adj: Option<crate::domain::quote::AdjustmentView>,
) -> LinePricing {
    match selected_policy(model, currency) {
        None => LinePricing::Refused(no_policy_error()),
        Some(pi) => from_outcome(
            price_spec_outcome(model, model.pricing_policies@[pi], job, qty, adj),
        ),
    }
}

/// A template line priced with its template.
pub open spec fn template_line_pricing(
    model: PriceModel,
    key: Seq<char>,
    sel: Seq<(Seq<char>, crate::json::JsonView)>,
    qty: u32,
    adj: Option<crate::domain::quote::AdjustmentView>,
) -> LinePricing {
    match find_template_spec(model, key) {
        None => LinePricing::Refused(unknown_template_error()),
        Some(ti) => from_outcome(
            price_template_outcome(model, model.templates@[ti], sel, qty, adj),
        ),
    }
}

#[verifier::opaque]
pub open spec fn new_line_pricing(model: PriceModel, currency: Seq<char>, l: NewQuoteLine) -> LinePricing {
    match l {
        NewQuoteLine::Manual { .. } => LinePricing::Manual,
        NewQuoteLine::Spec { job_spec, qty, adjustment, .. } => spec_line_pricing(
            model,
            currency,
            job_spec@,
            qty,
            opt_adjustment_view(adjustment),
        ),
        NewQuoteLine::Template { template, selection, qty, adjustment, .. } => template_line_pricing(
            model,
            template@,
            selection.view(),
            qty,
            opt_adjustment_view(adjustment),
        ),
    }
}

#[verifier::opaque]
pub open spec fn stored_line_pricing(model: PriceModel, currency: Seq<char>, l: QuoteLine) -> LinePricing {
    match l {
        QuoteLine::Manual { .. } => LinePricing::Manual,
        QuoteLine::Spec { job_spec, qty, pricing, .. } => spec_line_pricing(
            model,
            currency,
            job_spec@,
            qty,
            opt_adjustment_view(pricing.adjustment),
        ),
        QuoteLine::Template { template, selection, qty, pricing, .. } => template_line_pricing(
            model,
            template@,
            selection.view(),
            qty,
            opt_adjustment_view(pricing.adjustment),
        ),
    }
}

/// Index of the first refused line among `ps[..n]`.
pub open spec fn first_refused(ps: Seq<LinePricing>, n: int) -> Option<int>
    decreases n,
{
    if n <= 0 {
        None
    } else {
        match first_refused(ps, n - 1) {
            Some(i) => Some(i),
            None => if ps[n - 1] is Refused {
                Some(n - 1)
            } else {
                None
            },
        }
    }
}

/// No line aborts before the first refusal (later lines are never priced).
pub open spec fn no_abort_before_refusal(ps: Seq<LinePricing>) -> bool {
    forall|i: int|
        0 <= i < ps.len() && first_refused(ps, i) is None ==> !(#[trigger] ps[i] is Aborts)
}

proof fn lemma_first_refused_stays(ps: Seq<LinePricing>, k: int, n: int)
    requires
        0 <= k <= n,
        first_refused(ps, k) is Some,
    ensures
        first_refused(ps, n) == first_refused(ps, k),
    decreases n - k,
{
    if n > k {
        lemma_first_refused_stays(ps, k, n - 1);
    }
}

/// A stored line carries the id it was submitted with (a fresh one when it
/// had none).
pub open spec fn keeps_id(given: Option<String>, line_id: String) -> bool {
    match given {
        Some(g) => line_id@ == g@,
        None => line_id@.len() == 26 && forall|i: int| 0 <= i < 26 ==> crockford_char(#[trigger] line_id@[i]),
    }
}

/// `out` is what pricing line `l` gives when its pricing is `p`.
#[verifier::opaque]
pub open spec fn priced_new_line(model: PriceModel, l: NewQuoteLine, p: LinePricing, out: QuoteLine) -> bool {
    match (l, out) {
        (
            NewQuoteLine::Manual { line_id: g, description: d, qty: q, unit_minor: u },
            QuoteLine::Manual { line_id, description, qty, unit_minor },
        ) => keeps_id(g, line_id) && description == d && qty == q && unit_minor == u,
        (
            NewQuoteLine::Spec { line_id: g, job_spec: j, description: d, qty: q, .. },
            QuoteLine::Spec { line_id, job_spec, description, qty, pricing },
        ) => keeps_id(g, line_id) && job_spec@ == j@ && description == d && qty == q && p
            == LinePricing::Engine(pricing@),
        (
            NewQuoteLine::Template { line_id: g, template: k, selection: s, qty: q, .. },
            QuoteLine::Template { line_id, template, selection, qty, pricing },
        ) => keeps_id(g, line_id) && (match find_template_spec(model, k@) {
            Some(ti) => template@ == model.templates@[ti].id@,
            None => false,
        }) && selection.view() == s.view() && qty == q && p == LinePricing::Engine(pricing@),
        _ => false,
    }
}

/// `out` is what repricing stored line `l` gives when its pricing is `p`:
/// everything but the pricing is kept.
#[verifier::opaque]
pub open spec fn repriced_line(l: QuoteLine, p: LinePricing, out: QuoteLine) -> bool {
    match (l, out) {
        (
            QuoteLine::Manual { line_id: g, description: d, qty: q, unit_minor: u },
            QuoteLine::Manual { line_id, description, qty, unit_minor },
        ) => line_id@ == g@ && description@ == d@ && qty == q && unit_minor == u,
        (
            QuoteLine::Spec { line_id: g, job_spec: j, description: d, qty: q, .. },
            QuoteLine::Spec { line_id, job_spec, description, qty, pricing },
        ) => line_id@ == g@ && job_spec@ == j@ && description@ == d@ && qty == q && p
            == LinePricing::Engine(pricing@),
        (
            QuoteLine::Template { line_id: g, template: k, selection: s, qty: q, .. },
            QuoteLine::Template { line_id, template, selection, qty, pricing },
        ) => line_id@ == g@ && template@ == k@ && selection.view() == s.view() && qty == q && p
            == LinePricing::Engine(pricing@),
        _ => false,
    }
}

pub open spec fn is_engine_new(l: NewQuoteLine) -> bool {
    !(l is Manual)
}

pub open spec fn is_engine_stored(l: QuoteLine) -> bool {
    !(l is Manual)
}

pub open spec fn new_pricings(model: PriceModel, currency: Seq<char>, ls: Seq<NewQuoteLine>) -> Seq<LinePricing> {
    ls.map_values(|l: NewQuoteLine| new_line_pricing(model, currency, l))
}

pub open spec fn stored_pricings(model: PriceModel, currency: Seq<char>, ls: Seq<QuoteLine>) -> Seq<LinePricing> {
    ls.map_values(|l: QuoteLine| stored_line_pricing(model, currency, l))
}

fn is_engine_line(l: &NewQuoteLine) -> (b: bool)
    ensures
        b == is_engine_new(*l),
{
    match l {
        NewQuoteLine::Manual { .. } => false,
        _ => true,
    }
}

/// `r` is what pricing the submitted `lines` gives: the first refused line's
/// error, or every line priced in order with the pricelist version set iff
/// some line is engine-priced.
pub open spec fn lines_priced(
    model: PriceModel,
    currency: Seq<char>,
    lines: Seq<NewQuoteLine>,
    r: Result<(Vec<QuoteLine>, Option<i64>), ApiError>,
) -> bool {
    let ps = new_pricings(model, currency, lines);
    match first_refused(ps, ps.len() as int) {
        Some(k) => r matches Err(x) && ps[k] == LinePricing::Refused(x@),
        None => r matches Ok(res) && res.0@.len() == lines.len() && (forall|i: int|
            0 <= i < lines.len() ==> priced_new_line(model, #[trigger] lines[i], ps[i], res.0@[i]))
            && res.1 == if exists|i: int| 0 <= i < lines.len() && is_engine_new(#[trigger] lines[i]) {
            Some(model.pricelist_version)
        } else {
            None
        },
    }
}

/// `r` is what repricing the stored `lines` gives, as `lines_priced` says
/// of submitted lines.
pub open spec fn lines_repriced(
    model: PriceModel,
    currency: Seq<char>,
    lines: Seq<QuoteLine>,
    r: Result<(Vec<QuoteLine>, Option<i64>), ApiError>,
) -> bool {
    let ps = stored_pricings(model, currency, lines);
    match first_refused(ps, ps.len() as int) {
        Some(k) => r matches Err(x) && ps[k] == LinePricing::Refused(x@),
        None => r matches Ok(res) && res.0@.len() == lines.len() && (forall|i: int|
            0 <= i < lines.len() ==> repriced_line(#[trigger] lines[i], ps[i], res.0@[i])) && res.1
            == if exists|i: int| 0 <= i < lines.len() && is_engine_stored(#[trigger] lines[i]) {
            Some(model.pricelist_version)
        } else {
            None
        },
    }
}

fn price_new_line(model: &PriceModel, currency: &str, line: NewQuoteLine) -> (r: Result<QuoteLine, ApiError>)
    requires
        !(new_line_pricing(*model, currency@, line) is Aborts),
    ensures
        match new_line_pricing(*model, currency@, line) {
            LinePricing::Refused(e) => r matches Err(x) && x@ == e,
            p => r matches Ok(out) && priced_new_line(*model, line, p, out),
        },
{
    proof {
        reveal(new_line_pricing);
        reveal(priced_new_line);
    }
    match line {
        NewQuoteLine::Manual { line_id, description, qty, unit_minor } => Ok(
            QuoteLine::Manual { line_id: line_id_or_new(line_id), description, qty, unit_minor },
        ),
        NewQuoteLine::Spec { line_id, job_spec, description, qty, adjustment } => {
            let policy = match select_policy(model, currency) {
                Ok(p) => p,
                Err(e) => {
                    return Err(e);
                },
            };
            let pricing = match price_spec(model, policy, &job_spec, qty, adjustment.as_ref()) {
                Ok(p) => p,
                Err(e) => {
                    return Err(e);
                },
            };
            Ok(QuoteLine::Spec { line_id: line_id_or_new(line_id), job_spec, description, qty, pricing })
        },
        NewQuoteLine::Template { line_id, template, selection, qty, adjustment } => {
            let tmpl = match find_template(model, template.as_str()) {
                Some(t) => t,
                None => {
                    return Err(ApiError::new(STATUS_NOT_FOUND, "not_found", "unknown template"));
                },
            };
            let pricing = match price_template(model, tmpl, &selection, qty, adjustment.as_ref()) {
                Ok(p) => p,
                Err(e) => {
                    return Err(e);
                },
            };
            Ok(
                QuoteLine::Template {
                    line_id: line_id_or_new(line_id),
                    template: tmpl.id.clone(),
                    selection,
                    qty,
                    pricing,
                },
            )
        },
    }
}

/// Price the submitted lines into stored lines, in order; the first refused
/// line fails the whole request. Also gives the pricelist version to stamp:
/// set iff some line is engine-priced.
pub fn price_lines(model: &PriceModel, currency: &str, lines: Vec<NewQuoteLine>) -> (r: Result<
    (Vec<QuoteLine>, Option<i64>),
    ApiError,
>)
    requires
        no_abort_before_refusal(new_pricings(*model, currency@, lines@)),
    ensures
        lines_priced(*model, currency@, lines@, r),
{
    let ghost all = lines@;
    let ghost ps = new_pricings(*model, currency@, lines@);
    let mut rest = lines;
    let mut out: Vec<QuoteLine> = Vec::new();
    let mut has_engine_line = false;
    let mut k: usize = 0;
    let n = rest.len();
    while rest.len() > 0
        invariant
            n == all.len(),
            all == lines@,
            ps == new_pricings(*model, currency@, all),
            ps.len() == all.len(),
            no_abort_before_refusal(ps),
            k + rest.len() == n,
            rest@ == all.skip(k as int),
            out.len() == k,
            first_refused(ps, k as int) is None,
            forall|i: int| 0 <= i < k ==> priced_new_line(*model, #[trigger] all[i], ps[i], out@[i]),
            has_engine_line == exists|i: int| 0 <= i < k && is_engine_new(#[trigger] all[i]),
        decreases rest.len(),
    {
        let line = rest.remove(0);
        assert(all[k as int] == line);
        assert(ps[k as int] == new_line_pricing(*model, currency@, line));
        let engine = is_engine_line(&line);
        match price_new_line(model, currency, line) {
            Ok(q) => {
                out.push(q);
            },
            Err(e) => {
                proof {
                    assert(ps[k as int] == LinePricing::Refused(e@));
                    assert(first_refused(ps, k + 1) == Some(k as int));
                    lemma_first_refused_stays(ps, k + 1, n as int);
                    assert(first_refused(ps, ps.len() as int) == Some(k as int));
                }
                return Err(e);
            },
        }
        if engine {
            has_engine_line = true;
        }
        k += 1;
        proof {
            assert(rest@ =~= all.skip(k as int));
            assert(!(ps[k - 1] is Refused));
        }
    }
    let version = if has_engine_line {
        Some(model.pricelist_version)
    } else {
        None
    };
    Ok((out, version))
}

fn reprice_line(model: &PriceModel, currency: &str, line: &QuoteLine) -> (r: Result<QuoteLine, ApiError>)
    requires
        !(stored_line_pricing(*model, currency@, *line) is Aborts),
    ensures
        match stored_line_pricing(*model, currency@, *line) {
            LinePricing::Refused(e) => r matches Err(x) && x@ == e,
            p => r matches Ok(out) && repriced_line(*line, p, out),
        },
{
    proof {
        reveal(stored_line_pricing);
        reveal(repriced_line);
    }
    match line {
        QuoteLine::Manual { line_id, description, qty, unit_minor } => Ok(
            QuoteLine::Manual {
                line_id: line_id.clone(),
                description: description.clone(),
                qty: *qty,
                unit_minor: *unit_minor,
            },
        ),
        QuoteLine::Spec { line_id, job_spec, description, qty, pricing } => {
            let policy = match select_policy(model, currency) {
                Ok(p) => p,
                Err(e) => {
                    return Err(e);
                },
            };
            let repriced = match price_spec(model, policy, job_spec, *qty, pricing.adjustment.as_ref()) {
                Ok(p) => p,
                Err(e) => {
                    return Err(e);
                },
            };
            Ok(
                QuoteLine::Spec {
                    line_id: line_id.clone(),
                    job_spec: job_spec.clone(),
                    description: description.clone(),
                    qty: *qty,
                    pricing: repriced,
                },
            )
        },
        QuoteLine::Template { line_id, template, selection, qty, pricing } => {
            let tmpl = match find_template(model, template.as_str()) {
                Some(t) => t,
                None => {
                    return Err(ApiError::new(STATUS_NOT_FOUND, "not_found", "unknown template"));
                },
            };
            let repriced = match price_template(model, tmpl, selection, *qty, pricing.adjustment.as_ref()) {
                Ok(p) => p,
                Err(e) => {
                    return Err(e);
                },
            };
            Ok(
                QuoteLine::Template {
                    line_id: line_id.clone(),
                    template: template.clone(),
                    selection: selection.clone(),
                    qty: *qty,
                    pricing: repriced,
                },
            )
        },
    }
}

fn is_engine_stored_line(l: &QuoteLine) -> (b: bool)
    ensures
        b == is_engine_stored(*l),
{
    match l {
        QuoteLine::Manual { .. } => false,
        _ => true,
    }
}

/// Re-price stored lines against the current model, in order, keeping line
/// ids, template keys and adjustments; manual lines are copied. The first
/// refused line fails the whole request. Also gives the pricelist version
/// to stamp: set iff some line is engine-priced.
pub fn reprice_lines(model: &PriceModel, currency: &str, lines: &[QuoteLine]) -> (r: Result<
    (Vec<QuoteLine>, Option<i64>),
    ApiError,
>)
    requires
        no_abort_before_refusal(stored_pricings(*model, currency@, lines@)),
    ensures
        lines_repriced(*model, currency@, lines@, r),
{
    let ghost ps = stored_pricings(*model, currency@, lines@);
    let mut out: Vec<QuoteLine> = Vec::new();
    let mut has_engine_line = false;
    let mut k: usize = 0;
    while k < lines.len()
        invariant
            k <= lines.len(),
            ps == stored_pricings(*model, currency@, lines@),
            ps.len() == lines@.len(),
            no_abort_before_refusal(ps),
            out.len() == k,
            first_refused(ps, k as int) is None,
            forall|i: int| 0 <= i < k ==> repriced_line(#[trigger] lines@[i], ps[i], out@[i]),
            has_engine_line == exists|i: int| 0 <= i < k && is_engine_stored(#[trigger] lines@[i]),
        decreases lines.len() - k,
    {
        let line = &lines[k];
        assert(ps[k as int] == stored_line_pricing(*model, currency@, *line));
        let engine = is_engine_stored_line(line);
        match reprice_line(model, currency, line) {
            Ok(q) => {
                out.push(q);
            },
            Err(e) => {
                proof {
                    assert(first_refused(ps, k + 1) == Some(k as int));
                    lemma_first_refused_stays(ps, k + 1, lines@.len() as int);
                }
                return Err(e);
            },
        }
        if engine {
            has_engine_line = true;
        }
        k += 1;
        proof {
            assert(!(ps[k - 1] is Refused));
        }
    }
    let version = if has_engine_line {
        Some(model.pricelist_version)
    } else {
        None
    };
    Ok((out, version))
}

impl Keyed for QuoteLine {
    open spec fn key_view(&self) -> Seq<char> {
        line_id_of(*self)
    }

    fn key(&self) -> (r: &String) {
        match self {
            QuoteLine::Template { line_id, .. } => line_id,
            QuoteLine::Spec { line_id, .. } => line_id,
            QuoteLine::Manual { line_id, .. } => line_id,
        }
    }
}

/// Every line's total fits in `i64`.
pub open spec fn totals_fit(ls: Seq<QuoteLine>) -> bool {
    forall|i: int| 0 <= i < ls.len() ==> fits_i64(line_total(#[trigger] ls[i]))
}

/// The ids of the old lines whose total moved: for each old line, in order,
/// the first new line with its id is looked up, and the id is listed when
/// that line exists and its total differs.
pub open spec fn changed_ids(old: Seq<QuoteLine>, new: Seq<QuoteLine>) -> Seq<Seq<char>>
    decreases old.len(),
{
    if old.len() == 0 {
        Seq::empty()
    } else {
        let rest = changed_ids(old.drop_last(), new);
        let o = old.last();
        match lookup(new, line_id_of(o)) {
            Some(j) => if line_total(new[j]) != line_total(o) {
                rest.push(line_id_of(o))
            } else {
                rest
            },
            None => rest,
        }
    }
}

/// The ids of the lines whose price changed on reprice.
pub fn changed_line_ids(old: &[QuoteLine], new: &Vec<QuoteLine>) -> (r: Vec<String>)
    requires
        totals_fit(old@),
        totals_fit(new@),
    ensures
        r@.map_values(|s: String| s@) == changed_ids(old@, new@),
{
    let mut out: Vec<String> = Vec::new();
    let mut i: usize = 0;
    while i < old.len()
        invariant
            i <= old.len(),
            totals_fit(old@),
            totals_fit(new@),
            out@.map_values(|s: String| s@) == changed_ids(old@.take(i as int), new@),
        decreases old.len() - i,
    {
        let o = &old[i];
        assert(old@.take(i + 1).drop_last() =~= old@.take(i as int));
        assert(old@.take(i + 1).last() == old@[i as int]);
        assert(fits_i64(line_total(old@[i as int])));
        match find_keyed(new, o.line_id()) {
            Some(j) => {
                assert(fits_i64(line_total(new@[j as int])));
                if new[j].total_minor() != o.total_minor() {
                    let id = owned(o.line_id());
                    let ghost before = out@;
                    out.push(id);
                    assert(out@.map_values(|s: String| s@) =~= before.map_values(|s: String| s@).push(id@));
                }
            },
            None => {},
        }
        i += 1;
    }
    assert(old@.take(old.len() as int) =~= old@);
    out
}

/// Fill the tenant's default currency and validate the submitted quote:
/// the first step of create and update, before the price model is read.
pub fn prepare(body: &mut NewQuote, tenant_currency: &str) -> (r: Result<(), ApiError>)
    ensures
        *final(body) == (NewQuote { currency: final(body).currency, ..*old(body) }),
        old(body).currency is Some ==> final(body).currency == old(body).currency,
        old(body).currency is None ==> (final(body).currency matches Some(c) && c@ == tenant_currency@),
        !party_ok(*old(body)) ==> (r matches Err(e) && e@ == domain_api_error(
            validation_error("customer_id"@, "party_required"@),
        )),
        party_ok(*old(body)) ==> match first_bad_line(old(body).lines@, old(body).lines@.len() as int) {
            None => r is Ok,
            Some(i) => r matches Err(e) && Some(e@) == match line_problem(old(body).lines@[i], i) {
                Some(d) => Some(domain_api_error(d)),
                None => None,
            },
        },
{
    body.resolve_currency(tenant_currency);
    match body.validate_domain() {
        Ok(()) => Ok(()),
        Err(e) => Err(ApiError::from_domain(e)),
    }
}

/// Price a prepared quote into the write to persist: the submitted lines
/// priced in the quote currency, the other fields carried over.
pub fn write_quote(model: &PriceModel, body: NewQuote, created_by: String) -> (r: Result<QuoteWrite, ApiError>)
    requires
        body.currency is Some,
        no_abort_before_refusal(new_pricings(*model, body.currency->0@, body.lines@)),
    ensures
        ({
            let cur = body.currency->0;
            let ps = new_pricings(*model, cur@, body.lines@);
            match first_refused(ps, ps.len() as int) {
                Some(k) => r matches Err(x) && ps[k] == LinePricing::Refused(x@),
                None => r matches Ok(w) && w.customer_id == body.customer_id && w.prospect
                    == body.prospect && w.currency == cur && w.valid_until == body.valid_until
                    && w.notes == body.notes && w.created_by == created_by && lines_priced(
                    *model,
                    cur@,
                    body.lines@,
                    Ok((w.lines, w.pricelist_version)),
                ),
            }
        }),
{
    let currency = match body.currency {
        Some(c) => c,
        None => String::new(),
    };
    let priced = price_lines(model, currency.as_str(), body.lines);
    match priced {
        Ok((lines, pricelist_version)) => Ok(
            QuoteWrite {
                customer_id: body.customer_id,
                prospect: body.prospect,
                currency,
                valid_until: body.valid_until,
                notes: body.notes,
                lines,
                pricelist_version,
                created_by,
            },
        ),
        Err(e) => Err(e),
    }
}

/// Reprice a stored quote: only a draft can be repriced; its lines are
/// repriced against the current model and the ids of the lines whose total
/// moved are listed. Gives the write to persist and those ids.
pub fn reprice_quote(model: &PriceModel, existing: Quote) -> (r: Result<(QuoteWrite, Vec<String>), ApiError>)
    requires
        existing.status == QuoteStatus::Draft ==> no_abort_before_refusal(
            stored_pricings(*model, existing.currency@, existing.lines@),
        ),
        totals_fit(existing.lines@),
    ensures
        existing.status != QuoteStatus::Draft ==> (r matches Err(x) && x@ == domain_api_error(
            DomainErrorView::Conflict(ConflictReason::QuoteNotDraft),
        )),
        existing.status == QuoteStatus::Draft ==> ({
            let ps = stored_pricings(*model, existing.currency@, existing.lines@);
            match first_refused(ps, ps.len() as int) {
                Some(k) => r matches Err(x) && ps[k] == LinePricing::Refused(x@),
                None => r matches Ok(res) && lines_repriced(
                    *model,
                    existing.currency@,
                    existing.lines@,
                    Ok((res.0.lines, res.0.pricelist_version)),
                ) && res.1@.map_values(|s: String| s@) == changed_ids(existing.lines@, res.0.lines@)
                    && res.0.customer_id == existing.customer_id && res.0.prospect == existing.prospect
                    && res.0.currency == existing.currency && res.0.valid_until == existing.valid_until
                    && res.0.notes == existing.notes && res.0.created_by == existing.created_by,
            }
        }),
{
    if !can_edit(existing.status) {
        return Err(ApiError::from_domain(DomainError::Conflict(ConflictReason::QuoteNotDraft)));
    }
    let repriced = reprice_lines(model, existing.currency.as_str(), existing.lines.as_slice());
    let (lines, pricelist_version) = match repriced {
        Ok(res) => res,
        Err(e) => {
            return Err(e);
        },
    };
    proof {
        reveal(repriced_line);
        assert forall|i: int| 0 <= i < lines@.len() implies fits_i64(line_total(#[trigger] lines@[i])) by {
            assert(repriced_line(existing.lines@[i], stored_pricings(*model, existing.currency@, existing.lines@)[i], lines@[i]));
            assert(fits_i64(line_total(existing.lines@[i])));
        }
    }
    let changed = changed_line_ids(existing.lines.as_slice(), &lines);
    let write = QuoteWrite {
        customer_id: existing.customer_id,
        prospect: existing.prospect,
        currency: existing.currency,
        valid_until: existing.valid_until,
        notes: existing.notes,
        lines,
        pricelist_version,
        created_by: existing.created_by,
    };
    Ok((write, changed))
}

/// The adjustment a stored line carries (none for a manual line).
pub open spec fn stored_adjustment(l: QuoteLine) -> Option<crate::domain::quote::AdjustmentView> {
    match l {
        QuoteLine::Manual { .. } => None,
        QuoteLine::Spec { pricing, .. } => opt_adjustment_view(pricing.adjustment),
        QuoteLine::Template { pricing, .. } => opt_adjustment_view(pricing.adjustment),
    }
}

/// Repricing a line keeps its id and its adjustment; a manual line is kept
/// as it was.
pub proof fn lemma_reprice_keeps_ids_and_adjustments(model: PriceModel, currency: Seq<char>, l: QuoteLine, out: QuoteLine)
    requires
        repriced_line(l, stored_line_pricing(model, currency, l), out),
    ensures
        line_id_of(out) == line_id_of(l),
        stored_adjustment(out) == stored_adjustment(l),
        l is Manual ==> out is Manual && line_total(out) == line_total(l),
{
    reveal(repriced_line);
    reveal(stored_line_pricing);
    match l {
        QuoteLine::Spec { job_spec, qty, pricing, .. } => {
            match selected_policy(model, currency) {
                Some(pi) => crate::api::quote_pricing::lemma_spec_pricing_keeps_adjustment(
                    model,
                    model.pricing_policies@[pi],
                    job_spec@,
                    qty,
                    opt_adjustment_view(pricing.adjustment),
                ),
                None => {},
            }
        },
        QuoteLine::Template { template, selection, qty, pricing, .. } => {
            match find_template_spec(model, template@) {
                Some(ti) => crate::api::quote_pricing::lemma_template_pricing_keeps_adjustment(
                    model,
                    model.templates@[ti],
                    selection.view(),
                    qty,
                    opt_adjustment_view(pricing.adjustment),
                ),
                None => {},
            }
        },
        QuoteLine::Manual { .. } => {},
    }
}

} // verus!
