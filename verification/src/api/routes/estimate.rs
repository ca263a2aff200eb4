//! The calculator: a spec priced at each requested quantity, and a template
//! selection priced along its quantity ladder with the resolved spec echoed
//! back. Nothing is stored.
use vstd::prelude::*;

use crate::api::error::{engine_api_error, plain_api_error, ApiError, ApiErrorView, STATUS_NOT_FOUND};
use crate::api::quote_pricing::{no_policy_error, select_policy, selected_policy};
use crate::api::routes::quotes::{find_template, find_template_spec, unknown_template_error};
use crate::engine::model::{PriceModel, PricingPolicy, ProductTemplate};
use crate::engine::outcome::{
    collect, lemma_collect_end, lemma_collect_start, lemma_collect_step, prepend, Outcome,
};
use crate::engine::price::{
    at_quantity, price_at, price_at_spec, price_job, price_job_spec, quote_template, quote_template_spec,
    Breakdown, BreakdownView, LadderEntry, Quote, QuoteView,
};
use crate::engine::resolve::{resolve, resolve_spec, JobSpec, JobSpecView, Selection};
use crate::json::JsonView;

verus! {

#[derive(Debug, PartialEq)]
pub struct EstimateBody {
    pub job_spec: JobSpec,
    pub quantities: Vec<u32>,
    pub margin_override_bp: Option<u32>,
}

#[derive(Debug, PartialEq)]
pub struct TemplateEstimateBody {
    pub template: String,
    pub selection: Selection,
    pub quantities: Option<Vec<u32>>,
    pub margin_override_bp: Option<u32>,
}

pub open spec fn breakdowns_view(v: Seq<Breakdown>) -> Seq<BreakdownView> {
    v.map_values(|b: Breakdown| b@)
}

/// The spec priced at each quantity.
pub open spec fn job_outcomes(
    model: PriceModel,
    policy: PricingPolicy,
    job: JobSpecView,
    qs: Seq<u32>,
    margin_override: Option<u32>,
) -> Seq<Outcome<BreakdownView>> {
    qs.map_values(|q: u32| price_job_spec(model, policy, at_quantity(job, q), margin_override))
}

/// Price `job` at each quantity, in order; the first engine error stops.
pub fn price_quantities(
    model: &PriceModel,
    policy: &PricingPolicy,
    job: &JobSpec,
    quantities: &[u32],
    margin_override: Option<u32>,
) -> (r: Result<Vec<Breakdown>, ApiError>)
    requires
        !(collect(job_outcomes(*model, *policy, job@, quantities@, margin_override)) is Aborts),
    ensures
        match collect(job_outcomes(*model, *policy, job@, quantities@, margin_override)) {
            Outcome::Done(bs) => r matches Ok(v) && breakdowns_view(v@) == bs,
            Outcome::Fail(e) => r matches Err(x) && x@ == engine_api_error(e),
            Outcome::Aborts => false,
        },
{
    let ghost os = job_outcomes(*model, *policy, job@, quantities@, margin_override);
    let mut out: Vec<Breakdown> = Vec::new();
    let mut i: usize = 0;
    proof {
        lemma_collect_start(os);
        assert(breakdowns_view(out@) =~= Seq::<BreakdownView>::empty());
    }
    while i < quantities.len()
        invariant
            i <= quantities.len(),
            os == job_outcomes(*model, *policy, job@, quantities@, margin_override),
            !(collect(os) is Aborts),
            collect(os) == prepend(breakdowns_view(out@), collect(os.skip(i as int))),
        decreases quantities.len() - i,
    {
        proof {
            lemma_collect_step(os, i as int, breakdowns_view(out@));
        }
        let mut spec = job.clone();
        spec.quantity = quantities[i];
        assert(spec@ == at_quantity(job@, quantities@[i as int]));
        match price_job(model, policy, &spec, margin_override) {
            Ok(b) => {
                let ghost before = breakdowns_view(out@);
                out.push(b);
                assert(breakdowns_view(out@) =~= before.push(b@));
            },
            Err(e) => {
                return Err(ApiError::from_engine(e));
            },
        }
        i += 1;
    }
    proof {
        lemma_collect_end(os, breakdowns_view(out@));
    }
    Ok(out)
}

/// A direct spec priced at each requested quantity under the policy of the
/// tenant's default currency; gives the policy and the breakdowns.
pub fn estimate<'a>(model: &'a PriceModel, tenant_currency: &str, body: &EstimateBody) -> (r: Result<
    (&'a PricingPolicy, Vec<Breakdown>),
    ApiError,
>)
    requires
        selected_policy(*model, tenant_currency@) matches Some(pi) ==> !(collect(
            job_outcomes(
                *model,
                model.pricing_policies@[pi],
                body.job_spec@,
                body.quantities@,
                body.margin_override_bp,
            ),
        ) is Aborts),
    ensures
        match selected_policy(*model, tenant_currency@) {
            None => r matches Err(x) && x@ == no_policy_error(),
            Some(pi) => match collect(
                job_outcomes(
                    *model,
                    model.pricing_policies@[pi],
                    body.job_spec@,
                    body.quantities@,
                    body.margin_override_bp,
                ),
            ) {
                Outcome::Done(bs) => r matches Ok(res) && *res.0 == model.pricing_policies@[pi]
                    && breakdowns_view(res.1@) == bs,
                Outcome::Fail(e) => r matches Err(x) && x@ == engine_api_error(e),
                Outcome::Aborts => false,
            },
        },
{
    let policy = match select_policy(model, tenant_currency) {
        Ok(p) => p,
        Err(e) => {
            return Err(e);
        },
    };
    match price_quantities(model, policy, &body.job_spec, body.quantities.as_slice(), body.margin_override_bp) {
        Ok(v) => Ok((policy, v)),
        Err(e) => Err(e),
    }
}

/// A template selection priced at each ladder quantity.
pub open spec fn ladder_outcomes(
    model: PriceModel,
    t: ProductTemplate,
    sel: Seq<(Seq<char>, JsonView)>,
    ladder: Seq<LadderEntry>,
    margin_override: Option<u32>,
) -> Seq<Outcome<BreakdownView>> {
    ladder.map_values(|e: LadderEntry| price_at_spec(model, t, sel, e.qty, margin_override))
}

/// The quantity the resolved spec is echoed at: the ladder's first, or one.
pub open spec fn echo_qty(ladder: Seq<LadderEntry>) -> u32 {
    if ladder.len() > 0 {
        ladder[0].qty
    } else {
        1
    }
}

/// What estimating a template selection comes to: its quote ladder, the
/// breakdown at each ladder quantity, and the spec resolved at the first.
pub open spec fn template_estimate_spec(
    model: PriceModel,
    t: ProductTemplate,
    sel: Seq<(Seq<char>, JsonView)>,
    requested: Option<Seq<u32>>,
    margin_override: Option<u32>,
) -> Outcome<(QuoteView, Seq<BreakdownView>, JobSpecView)> {
    match quote_template_spec(model, t, sel, requested, margin_override) {
        Outcome::Done(q) => match collect(ladder_outcomes(model, t, sel, q.ladder, margin_override)) {
            Outcome::Done(bs) => match resolve_spec(model, t, sel, echo_qty(q.ladder)) {
                Outcome::Done(j) => Outcome::Done((q, bs, j)),
                Outcome::Fail(e) => Outcome::Fail(e),
                Outcome::Aborts => Outcome::Aborts,
            },
            Outcome::Fail(e) => Outcome::Fail(e),
            Outcome::Aborts => Outcome::Aborts,
        },
        Outcome::Fail(e) => Outcome::Fail(e),
        Outcome::Aborts => Outcome::Aborts,
    }
}

/// The answer of a template estimate.
#[derive(Debug, PartialEq)]
pub struct TemplateEstimate {
    pub quote: Quote,
    pub breakdowns: Vec<Breakdown>,
    pub job_spec: JobSpec,
}

pub open spec fn opt_qs(q: Option<Vec<u32>>) -> Option<Seq<u32>> {
    match q {
        Some(v) => Some(v@),
        None => None,
    }
}

/// Price a template selection along its ladder: the template by slug or id
/// (unknown: 404), its quote, each ladder quantity's breakdown, and the
/// spec resolved at the first ladder quantity.
pub fn estimate_template(model: &PriceModel, body: &TemplateEstimateBody) -> (r: Result<TemplateEstimate, ApiError>)
    requires
        find_template_spec(*model, body.template@) matches Some(ti) ==> !(template_estimate_spec(
            *model,
            model.templates@[ti],
            body.selection.view(),
            opt_qs(body.quantities),
            body.margin_override_bp,
        ) is Aborts),
    ensures
        match find_template_spec(*model, body.template@) {
            None => r matches Err(x) && x@ == unknown_template_error(),
            Some(ti) => match template_estimate_spec(
                *model,
                model.templates@[ti],
                body.selection.view(),
                opt_qs(body.quantities),
                body.margin_override_bp,
            ) {
                Outcome::Done(res) => r matches Ok(est) && est.quote@ == res.0 && breakdowns_view(
                    est.breakdowns@,
                ) == res.1 && est.job_spec@ == res.2,
                Outcome::Fail(e) => r matches Err(x) && x@ == engine_api_error(e),
                Outcome::Aborts => false,
            },
        },
{
    let template = match find_template(model, body.template.as_str()) {
        Some(t) => t,
        None => {
            return Err(ApiError::new(STATUS_NOT_FOUND, "not_found", "unknown template"));
        },
    };
    let requested: Option<&[u32]> = match &body.quantities {
        Some(v) => Some(v.as_slice()),
        None => None,
    };
    let quote = match quote_template(model, template, &body.selection, requested, body.margin_override_bp) {
        Ok(q) => q,
        Err(e) => {
            return Err(ApiError::from_engine(e));
        },
    };
    let ghost os = ladder_outcomes(*model, *template, body.selection.view(), quote.ladder@, body.margin_override_bp);
    let mut breakdowns: Vec<Breakdown> = Vec::new();
    let mut i: usize = 0;
    proof {
        lemma_collect_start(os);
        assert(breakdowns_view(breakdowns@) =~= Seq::<BreakdownView>::empty());
    }
    while i < quote.ladder.len()
        invariant
            i <= quote.ladder.len(),
            match find_template_spec(*model, body.template@) {
                Some(ti) => *template == model.templates@[ti],
                None => false,
            },
            quote_template_spec(
                *model,
                *template,
                body.selection.view(),
                opt_qs(body.quantities),
                body.margin_override_bp,
            ) == Outcome::Done(quote@),
            os == ladder_outcomes(*model, *template, body.selection.view(), quote.ladder@, body.margin_override_bp),
            !(collect(os) is Aborts),
            collect(os) == prepend(breakdowns_view(breakdowns@), collect(os.skip(i as int))),
        decreases quote.ladder.len() - i,
    {
        proof {
            lemma_collect_step(os, i as int, breakdowns_view(breakdowns@));
        }
        match price_at(model, template, &body.selection, quote.ladder[i].qty, body.margin_override_bp) {
            Ok(b) => {
                let ghost before = breakdowns_view(breakdowns@);
                breakdowns.push(b);
                assert(breakdowns_view(breakdowns@) =~= before.push(b@));
            },
            Err(e) => {
                return Err(ApiError::from_engine(e));
            },
        }
        i += 1;
    }
    proof {
        lemma_collect_end(os, breakdowns_view(breakdowns@));
    }
    let first_qty = if quote.ladder.len() > 0 {
        quote.ladder[0].qty
    } else {
        1
    };
    let job_spec = match resolve(model, template, &body.selection, first_qty) {
        Ok(j) => j,
        Err(e) => {
            return Err(ApiError::from_engine(e));
        },
    };
    Ok(TemplateEstimate { quote, breakdowns, job_spec })
}

} // verus!
