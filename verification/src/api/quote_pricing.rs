//! Engine pricing for the quote and estimate routes: a submitted spec plus
//! an optional adjustment becomes the stored pricing record, and a currency
//! picks the pricing policy.
use vstd::prelude::*;

use crate::api::error::{engine_api_error, plain_api_error, ApiError, ApiErrorView, STATUS_UNPROCESSABLE};
use crate::domain::quote::{
    apply_spec, clone_adjustment, opt_adjustment_view, Adjustment, AdjustmentKind, AdjustmentView,
    EnginePricing, EnginePricingView,
};
use crate::engine::model::{PriceModel, PricingPolicy, ProductTemplate};
use crate::engine::money::fits_i64;
use crate::engine::outcome::Outcome;
use crate::engine::price::{at_quantity, price_at, price_at_spec, price_job, price_job_spec, BreakdownView};
use crate::engine::resolve::{JobSpec, JobSpecView, Selection};
use crate::json::JsonView;
use crate::text::{seq_lt, str_eq, str_lt};

verus! {

/// Scanning `ps[..n]`: index of the policy with the smallest id among those
/// in `currency` (among all, when `currency` is `None`).
pub open spec fn policy_scan(ps: Seq<PricingPolicy>, currency: Option<Seq<char>>, n: int) -> Option<int>
    decreases n,
{
    if n <= 0 {
        None
    } else {
        let prev = policy_scan(ps, currency, n - 1);
        let p = ps[n - 1];
        let eligible = match currency {
            Some(c) => p.currency@ == c,
            None => true,
        };
        if eligible && (prev is None || seq_lt(p.id@, ps[prev->0].id@)) {
            Some(n - 1)
        } else {
            prev
        }
    }
}

pub proof fn lemma_policy_scan_bounds(ps: Seq<PricingPolicy>, currency: Option<Seq<char>>, n: int)
    requires
        n <= ps.len(),
    ensures
        policy_scan(ps, currency, n) matches Some(i) ==> 0 <= i < n,
    decreases n,
{
    if n > 0 {
        lemma_policy_scan_bounds(ps, currency, n - 1);
    }
}

/// The policy for `currency`: the first (by id) denominated in it, else the
/// first of any currency.
pub open spec fn selected_policy(model: PriceModel, currency: Seq<char>) -> Option<int> {
    let ps = model.pricing_policies@;
    match policy_scan(ps, Some(currency), ps.len() as int) {
        Some(i) => Some(i),
        None => policy_scan(ps, None, ps.len() as int),
    }
}

pub open spec fn no_policy_error() -> ApiErrorView {
    plain_api_error(
        STATUS_UNPROCESSABLE,
        "no_pricing_policy"@,
        "no pricing policy is configured for this tenant"@,
    )
}

fn scan_policies(model: &PriceModel, currency: Option<&str>) -> (r: Option<usize>)
    ensures
        match r {
            Some(i) => i < model.pricing_policies.len() && policy_scan(
                model.pricing_policies@,
                match currency {
                    Some(c) => Some(c@),
                    None => None,
                },
                model.pricing_policies@.len() as int,
            ) == Some(i as int),
            None => policy_scan(
                model.pricing_policies@,
                match currency {
                    Some(c) => Some(c@),
                    None => None,
                },
                model.pricing_policies@.len() as int,
            ) is None,
        },
{
    let ghost ps = model.pricing_policies@;
    let ghost cv: Option<Seq<char>> = match currency {
        Some(c) => Some(c@),
        None => None,
    };
    let mut best: Option<usize> = None;
    let mut i: usize = 0;
    while i < model.pricing_policies.len()
        invariant
            i <= model.pricing_policies.len(),
            ps == model.pricing_policies@,
            cv == match currency {
                Some(c) => Some(c@),
                None => None::<Seq<char>>,
            },
            match best {
                Some(k) => k < i && policy_scan(ps, cv, i as int) == Some(k as int),
                None => policy_scan(ps, cv, i as int) is None,
            },
        decreases model.pricing_policies.len() - i,
    {
        let p = &model.pricing_policies[i];
        let eligible = match currency {
            Some(c) => str_eq(p.currency.as_str(), c),
            None => true,
        };
        if eligible {
            let take = match best {
                None => true,
                Some(k) => str_lt(p.id.as_str(), model.pricing_policies[k].id.as_str()),
            };
            if take {
                best = Some(i);
            }
        }
        i += 1;
    }
    best
}

/// The pricing policy for `currency`: the first (by id) denominated in it,
/// else the first of any currency. A tenant with no policy can price
/// nothing: a 422.
pub fn select_policy<'a>(model: &'a PriceModel, currency: &str) -> (r: Result<&'a PricingPolicy, ApiError>)
    ensures
        match selected_policy(*model, currency@) {
            Some(i) => r matches Ok(p) && *p == model.pricing_policies@[i],
            None => r matches Err(e) && e@ == no_policy_error(),
        },
{
    match scan_policies(model, Some(currency)) {
        Some(i) => Ok(&model.pricing_policies[i]),
        None => match scan_policies(model, None) {
            Some(i) => Ok(&model.pricing_policies[i]),
            None => Err(
                ApiError::new(
                    STATUS_UNPROCESSABLE,
                    "no_pricing_policy",
                    "no pricing policy is configured for this tenant",
                ),
            ),
        },
    }
}

/// The stored pricing given the band breakdown `b`: the final total is the
/// engine total unless an adjustment changes it; a margin override takes
/// the total of `override_price` (the spec priced with the override).
pub open spec fn pricing_with(
    b: BreakdownView,
    adj: Option<AdjustmentView>,
    override_price: Outcome<BreakdownView>,
) -> Outcome<EnginePricingView> {
    let engine = b.total_minor as i64;
    match adj {
        None => Outcome::Done(
            EnginePricingView { breakdown: b, engine_total_minor: engine, adjustment: None, final_total_minor: engine },
        ),
        Some(a) => match a.kind {
            AdjustmentKind::MarginOverride { .. } => match override_price {
                Outcome::Done(b2) => Outcome::Done(
                    EnginePricingView {
                        breakdown: b,
                        engine_total_minor: engine,
                        adjustment: Some(a),
                        final_total_minor: b2.total_minor as i64,
                    },
                ),
                Outcome::Fail(e) => Outcome::Fail(e),
                Outcome::Aborts => Outcome::Aborts,
            },
            AdjustmentKind::Discount { percent_bp } => if !fits_i64(engine * percent_bp) {
                Outcome::Aborts
            } else {
                Outcome::Done(
                    EnginePricingView {
                        breakdown: b,
                        engine_total_minor: engine,
                        adjustment: Some(a),
                        final_total_minor: apply_spec(a.kind, engine as int) as i64,
                    },
                )
            },
            AdjustmentKind::PriceOverride { .. } => Outcome::Done(
                EnginePricingView {
                    breakdown: b,
                    engine_total_minor: engine,
                    adjustment: Some(a),
                    final_total_minor: apply_spec(a.kind, engine as int) as i64,
                },
            ),
        },
    }
}

/// The margin an adjustment overrides, if it is an override.
pub open spec fn override_of(adj: Option<AdjustmentView>) -> Option<u32> {
    match adj {
        Some(a) => match a.kind {
            AdjustmentKind::MarginOverride { multiplier_bp } => Some(multiplier_bp),
            _ => None,
        },
        None => None,
    }
}

/// What pricing one spec at `qty` comes to.
pub open spec fn price_spec_outcome(
    model: PriceModel,
    policy: PricingPolicy,
    job: JobSpecView,
    qty: u32,
    adj: Option<AdjustmentView>,
) -> Outcome<EnginePricingView> {
    let spec = at_quantity(job, qty);
    match price_job_spec(model, policy, spec, None) {
        Outcome::Done(b) => pricing_with(
            b,
            adj,
            match override_of(adj) {
                Some(m) => price_job_spec(model, policy, spec, Some(m)),
                None => Outcome::Aborts,
            },
        ),
        Outcome::Fail(e) => Outcome::Fail(e),
        Outcome::Aborts => Outcome::Aborts,
    }
}

/// What pricing a template selection at `qty` comes to.
pub open spec fn price_template_outcome(
    model: PriceModel,
    t: ProductTemplate,
    sel: Seq<(Seq<char>, JsonView)>,
    qty: u32,
    adj: Option<AdjustmentView>,
) -> Outcome<EnginePricingView> {
    match price_at_spec(model, t, sel, qty, None) {
        Outcome::Done(b) => pricing_with(
            b,
            adj,
            match override_of(adj) {
                Some(m) => price_at_spec(model, t, sel, qty, Some(m)),
                None => Outcome::Aborts,
            },
        ),
        Outcome::Fail(e) => Outcome::Fail(e),
        Outcome::Aborts => Outcome::Aborts,
    }
}

/// `r` is the executable counterpart of pricing outcome `o`.
pub open spec fn pricing_result(r: Result<EnginePricing, ApiError>, o: Outcome<EnginePricingView>) -> bool {
    match o {
        Outcome::Done(v) => r matches Ok(p) && p@ == v,
        Outcome::Fail(e) => r matches Err(x) && x@ == engine_api_error(e),
        Outcome::Aborts => false,
    }
}

pub open spec fn adj_view(a: Option<&Adjustment>) -> Option<AdjustmentView> {
    match a {
        Some(x) => Some(x@),
        None => None,
    }
}

fn finish_pricing(
    breakdown: crate::engine::price::Breakdown,
    adjustment: Option<&Adjustment>,
    override_total: Option<i64>,
) -> (r: EnginePricing)
    requires
        match adjustment {
            Some(a) => match a.kind {
                AdjustmentKind::MarginOverride { .. } => override_total is Some,
                AdjustmentKind::Discount { percent_bp } => fits_i64(breakdown.total_minor * percent_bp),
                _ => true,
            },
            None => true,
        },
    ensures
        r.breakdown == breakdown,
        r.engine_total_minor == breakdown.total_minor,
        opt_adjustment_view(r.adjustment) == adj_view(adjustment),
        r.final_total_minor == match adjustment {
            None => breakdown.total_minor,
            Some(a) => match a.kind {
                AdjustmentKind::MarginOverride { .. } => override_total->0,
                _ => apply_spec(a.kind, breakdown.total_minor as int) as i64,
            },
        },
{
    let engine_total_minor = breakdown.total_minor;
    let final_total_minor = match adjustment {
        Some(adj) => match adj.kind {
            AdjustmentKind::MarginOverride { .. } => match override_total {
                Some(t) => t,
                None => engine_total_minor,
            },
            _ => adj.apply(engine_total_minor),
        },
        None => engine_total_minor,
    };
    let adjustment = match adjustment {
        Some(a) => Some(clone_adjustment(a)),
        None => None,
    };
    EnginePricing { breakdown, engine_total_minor, adjustment, final_total_minor }
}

/// Price one spec at `qty`. The engine total is always the policy-band
/// price; the final total applies the adjustment: a margin override is
/// priced again through the engine, a discount or price override is applied
/// to the engine result. The stored breakdown is always the band breakdown.
pub fn price_spec(
    model: &PriceModel,
    policy: &PricingPolicy,
    job_spec: &JobSpec,
    qty: u32,
    adjustment: Option<&Adjustment>,
) -> (r: Result<EnginePricing, ApiError>)
    requires
        !(price_spec_outcome(*model, *policy, job_spec@, qty, adj_view(adjustment)) is Aborts),
    ensures
        pricing_result(r, price_spec_outcome(*model, *policy, job_spec@, qty, adj_view(adjustment))),
{
    let mut spec = job_spec.clone();
    spec.quantity = qty;
    assert(spec@ == at_quantity(job_spec@, qty));
    let breakdown = match price_job(model, policy, &spec, None) {
        Ok(b) => b,
        Err(e) => {
            return Err(ApiError::from_engine(e));
        },
    };
    let override_total = match adjustment {
        Some(adj) => match adj.kind {
            AdjustmentKind::MarginOverride { multiplier_bp } => match price_job(
                model,
                policy,
                &spec,
                Some(multiplier_bp),
            ) {
                Ok(b2) => Some(b2.total_minor),
                Err(e) => {
                    return Err(ApiError::from_engine(e));
                },
            },
            _ => None,
        },
        None => None,
    };
    proof {
        let b = breakdown@;
        assert(b.total_minor as i64 == breakdown.total_minor);
        assert(price_job_spec(*model, *policy, spec@, None) == Outcome::Done(b));
        match adjustment {
            Some(a) => match a.kind {
                AdjustmentKind::Discount { percent_bp } => {
                    assert(adj_view(adjustment) == Some(a@));
                    assert(!(pricing_with(b, Some(a@), Outcome::Aborts) is Aborts));
                    assert(fits_i64(breakdown.total_minor * percent_bp));
                },
                _ => {},
            },
            None => {},
        }
    }
    Ok(finish_pricing(breakdown, adjustment, override_total))
}

/// The template analogue of [`price_spec`]: resolve the selection at `qty`
/// and price it with the template's own policy, with the same adjustment
/// rules.
pub fn price_template(
    model: &PriceModel,
    template: &ProductTemplate,
    selection: &Selection,
    qty: u32,
    adjustment: Option<&Adjustment>,
) -> (r: Result<EnginePricing, ApiError>)
    requires
        !(price_template_outcome(*model, *template, selection.view(), qty, adj_view(adjustment)) is Aborts),
    ensures
        pricing_result(
            r,
            price_template_outcome(*model, *template, selection.view(), qty, adj_view(adjustment)),
        ),
{
    let breakdown = match price_at(model, template, selection, qty, None) {
        Ok(b) => b,
        Err(e) => {
            return Err(ApiError::from_engine(e));
        },
    };
    let override_total = match adjustment {
        Some(adj) => match adj.kind {
            AdjustmentKind::MarginOverride { multiplier_bp } => match price_at(
                model,
                template,
                selection,
                qty,
                Some(multiplier_bp),
            ) {
                Ok(b2) => Some(b2.total_minor),
                Err(e) => {
                    return Err(ApiError::from_engine(e));
                },
            },
            _ => None,
        },
        None => None,
    };
    proof {
        let b = breakdown@;
        assert(b.total_minor as i64 == breakdown.total_minor);
    }
    Ok(finish_pricing(breakdown, adjustment, override_total))
}

/// The engine total and breakdown a line stores are the policy-band price
/// whatever the adjustment: pricing with one agrees with pricing without one
/// on both, and without one the final total is the engine total.
pub proof fn lemma_engine_price_ignores_adjustment(
    model: PriceModel,
    policy: PricingPolicy,
    job: JobSpecView,
    t: ProductTemplate,
    sel: Seq<(Seq<char>, JsonView)>,
    qty: u32,
    adj: Option<AdjustmentView>,
)
    ensures
        price_spec_outcome(model, policy, job, qty, adj) matches Outcome::Done(p) ==> (price_spec_outcome(
            model,
            policy,
            job,
            qty,
            None,
        ) matches Outcome::Done(p0) && p0.breakdown == p.breakdown && p0.engine_total_minor
            == p.engine_total_minor && p0.final_total_minor == p0.engine_total_minor),
        price_template_outcome(model, t, sel, qty, adj) matches Outcome::Done(p) ==> (price_template_outcome(
            model,
            t,
            sel,
            qty,
            None,
        ) matches Outcome::Done(p0) && p0.breakdown == p.breakdown && p0.engine_total_minor
            == p.engine_total_minor && p0.final_total_minor == p0.engine_total_minor),
{
}

/// A spec line records the adjustment it was priced with.
pub proof fn lemma_spec_pricing_keeps_adjustment(
    model: PriceModel,
    policy: PricingPolicy,
    job: JobSpecView,
    qty: u32,
    adj: Option<AdjustmentView>,
)
    ensures
        price_spec_outcome(model, policy, job, qty, adj) matches Outcome::Done(p) ==> p.adjustment == adj,
{
}

/// A template line records the adjustment it was priced with.
pub proof fn lemma_template_pricing_keeps_adjustment(
    model: PriceModel,
    t: ProductTemplate,
    sel: Seq<(Seq<char>, JsonView)>,
    qty: u32,
    adj: Option<AdjustmentView>,
)
    ensures
        price_template_outcome(model, t, sel, qty, adj) matches Outcome::Done(p) ==> p.adjustment == adj,
{
}

} // verus!
