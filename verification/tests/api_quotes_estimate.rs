use polymix::api::error::{STATUS_CONFLICT, STATUS_NOT_FOUND, STATUS_UNPROCESSABLE};
use polymix::api::quote_pricing::{price_spec, price_template, select_policy};
use polymix::api::routes::estimate::{estimate, estimate_template, price_quantities, EstimateBody, TemplateEstimateBody};
use polymix::api::routes::quotes::{
    changed_line_ids, line_id_or_new, prepare, price_lines, reprice_lines, reprice_quote, write_quote,
};
use polymix::domain::quote::{
    Adjustment, AdjustmentKind, NewQuote, NewQuoteLine, Prospect, Quote, QuoteLine, QuoteStatus,
};
use polymix::engine::effect::Effect;
use polymix::engine::model::{
    Colors, CustomQuantity, Dataset, Format, Machine, MarginBand, Material, MaterialPricing, PriceModel,
    Printable, PricingPolicy, ProductTemplate, Rounding, RoundingMode, Technology,
};
use polymix::engine::resolve::{Component, JobSpec};
use polymix::json::JsonMap;

fn s(x: &str) -> String {
    x.to_string()
}

fn policy(id: &str, currency: &str, multiplier_bp: u32) -> PricingPolicy {
    PricingPolicy {
        id: s(id),
        currency: s(currency),
        margin_bands: vec![MarginBand { min_qty: 1, multiplier_bp }],
        rounding: Rounding { step_minor: 1, mode: RoundingMode::Up },
        min_price_minor: 0,
    }
}

fn template() -> ProductTemplate {
    ProductTemplate {
        id: s("product_template:flyer"),
        slug: s("flyer"),
        name: vec![(s("en"), s("Flyer"))],
        components: vec![s("cover")],
        pricing_policy: s("pricing_policy:eur"),
        quantities: vec![100, 250],
        custom_quantity: Some(CustomQuantity { min: 1, max: 5000 }),
        base_effects: vec![
            Effect::SetFormat { format: s("format:a5") },
            Effect::SetPages { target: s("cover"), value: polymix::engine::effect::NumOrInput::Literal(2) },
            Effect::SetColors { target: s("cover"), value: Colors { front: 4, back: 0 } },
            Effect::SetMaterial { target: s("cover"), material: s("material:paper") },
        ],
        parameters: vec![],
    }
}

fn model(version: i64, paper_price: i64) -> PriceModel {
    PriceModel::from_dataset(Dataset {
        pricelist_version: version,
        formats: vec![Format { id: s("format:a5"), name: s("A5"), trim_mm: [148, 210] }],
        materials: vec![Material {
            id: s("material:paper"),
            name: s("Paper"),
            kind: s("paper"),
            pricing: MaterialPricing::PerSheet { sheet_size_mm: [320, 450], price_micro: paper_price },
            printable: Some(Printable { grammage_gsm: 80 }),
            attrs: JsonMap::new(),
        }],
        machines: vec![Machine {
            id: s("machine:digi"),
            name: s("Digi"),
            technology: Technology::Digital,
            sheet_size_mm: [320, 450],
            duplex: true,
            max_grammage_gsm: 350,
            setup_micro: 2000000,
            waste_fixed_sheets: 10,
            waste_percent: 2,
            click_mono_micro: 8000,
            click_color_micro: 60000,
            plate_price_micro: 0,
            run_price_micro: 0,
        }],
        operations: vec![],
        pricing_policies: vec![policy("pricing_policy:uah", "UAH", 20000), policy("pricing_policy:eur", "EUR", 10000)],
        templates: vec![template()],
        compatibility_rules: vec![],
    })
}

fn job() -> JobSpec {
    JobSpec {
        format: s("format:a5"),
        quantity: 1,
        components: vec![Component {
            role: s("cover"),
            pages: 2,
            colors: Colors { front: 4, back: 0 },
            material: s("material:paper"),
            machine: None,
        }],
        operations: vec![],
        technology_allow: None,
    }
}

#[test]
fn policy_follows_the_currency_and_falls_back_to_the_first_by_id() {
    let m = model(1, 40000);
    assert_eq!(select_policy(&m, "EUR").unwrap().id, "pricing_policy:eur");
    assert_eq!(select_policy(&m, "UAH").unwrap().id, "pricing_policy:uah");
    assert_eq!(select_policy(&m, "USD").unwrap().id, "pricing_policy:eur");
    let mut empty = model(1, 40000);
    empty.pricing_policies.clear();
    let err = select_policy(&empty, "EUR").unwrap_err();
    assert_eq!(err.status, STATUS_UNPROCESSABLE);
    assert_eq!(err.code, "no_pricing_policy");
}

#[test]
fn spec_pricing_applies_the_adjustment_to_the_engine_total() {
    let m = model(1, 40000);
    let p = select_policy(&m, "EUR").unwrap();
    let plain = price_spec(&m, p, &job(), 100, None).unwrap();
    assert_eq!(plain.final_total_minor, plain.engine_total_minor);
    assert_eq!(plain.breakdown.total_minor, plain.engine_total_minor);
    let discount = Adjustment { kind: AdjustmentKind::Discount { percent_bp: 1000 }, reason: None };
    let discounted = price_spec(&m, p, &job(), 100, Some(&discount)).unwrap();
    assert_eq!(discounted.engine_total_minor, plain.engine_total_minor);
    assert_eq!(discounted.final_total_minor, discount.apply(plain.engine_total_minor));
    let doubled = Adjustment { kind: AdjustmentKind::MarginOverride { multiplier_bp: 20000 }, reason: None };
    let overridden = price_spec(&m, p, &job(), 100, Some(&doubled)).unwrap();
    assert!(overridden.final_total_minor > plain.final_total_minor);
}

#[test]
fn template_pricing_matches_spec_pricing_of_the_resolved_spec() {
    let m = model(1, 40000);
    let t = m.template_by_slug("flyer").unwrap();
    let p = select_policy(&m, "EUR").unwrap();
    let by_template = price_template(&m, t, &JsonMap::new(), 100, None).unwrap();
    let by_spec = price_spec(&m, p, &job(), 100, None).unwrap();
    assert_eq!(by_template.final_total_minor, by_spec.final_total_minor);
}

fn manual(id: Option<&str>) -> NewQuoteLine {
    NewQuoteLine::Manual { line_id: id.map(s), description: s("Delivery"), qty: 2, unit_minor: 18_500 }
}

#[test]
fn manual_lines_keep_ids_and_need_no_pricelist() {
    let m = model(7, 40000);
    let (lines, version) = price_lines(&m, "EUR", vec![manual(Some("l1")), manual(None)]).unwrap();
    assert_eq!(lines.len(), 2);
    assert_eq!(lines[0].line_id(), "l1");
    assert_eq!(lines[1].line_id().len(), 26);
    assert_eq!(version, None);
    assert_eq!(line_id_or_new(Some(s("x"))), "x");
    assert_ne!(line_id_or_new(None), line_id_or_new(None));
}

#[test]
fn engine_lines_are_priced_and_stamp_the_pricelist_version() {
    let m = model(7, 40000);
    let lines = vec![
        manual(Some("m")),
        NewQuoteLine::Spec { line_id: Some(s("s")), job_spec: job(), description: s("Flyers"), qty: 100, adjustment: None },
        NewQuoteLine::Template { line_id: Some(s("t")), template: s("flyer"), selection: JsonMap::new(), qty: 250, adjustment: None },
    ];
    let (out, version) = price_lines(&m, "EUR", lines).unwrap();
    assert_eq!(version, Some(7));
    match &out[2] {
        QuoteLine::Template { template, qty, pricing, .. } => {
            assert_eq!(template, "product_template:flyer");
            assert_eq!(*qty, 250);
            assert!(pricing.final_total_minor > 0);
        },
        _ => panic!("expected a template line"),
    }
}

#[test]
fn an_unknown_template_fails_the_whole_request() {
    let m = model(7, 40000);
    let lines = vec![
        manual(Some("m")),
        NewQuoteLine::Template { line_id: None, template: s("nope"), selection: JsonMap::new(), qty: 100, adjustment: None },
    ];
    let err = price_lines(&m, "EUR", lines).unwrap_err();
    assert_eq!(err.status, STATUS_NOT_FOUND);
    assert_eq!(err.message, "unknown template");
}

fn stored_quote(status: QuoteStatus, m: &PriceModel) -> Quote {
    let (lines, version) = price_lines(
        m,
        "EUR",
        vec![
            manual(Some("m")),
            NewQuoteLine::Template { line_id: Some(s("t")), template: s("flyer"), selection: JsonMap::new(), qty: 100, adjustment: None },
        ],
    )
    .unwrap();
    Quote {
        id: s("q1"),
        number: s("Q-000001"),
        customer_id: Some(s("c1")),
        customer_name: None,
        prospect: None,
        currency: s("EUR"),
        status,
        valid_until: None,
        lines,
        pricelist_version: version,
        notes: Some(s("n")),
        created_by: s("u1"),
        revises: None,
        order_id: None,
        total_minor: 0,
        created_at: s(""),
        updated_at: s(""),
    }
}

#[test]
fn reprice_flags_only_the_lines_whose_total_moved() {
    let old_model = model(1, 40000);
    let quote = stored_quote(QuoteStatus::Draft, &old_model);
    let new_model = model(2, 80000);
    let (repriced, version) = reprice_lines(&new_model, "EUR", &quote.lines).unwrap();
    assert_eq!(version, Some(2));
    assert_eq!(repriced[0], quote.lines[0]);
    let changed = changed_line_ids(&quote.lines, &repriced);
    assert_eq!(changed, vec![s("t")]);
    let same = changed_line_ids(&quote.lines, &reprice_lines(&old_model, "EUR", &quote.lines).unwrap().0);
    assert!(same.is_empty());
}

#[test]
fn reprice_of_a_draft_keeps_the_quote_fields() {
    let quote = stored_quote(QuoteStatus::Draft, &model(1, 40000));
    let (write, changed) = reprice_quote(&model(2, 80000), quote).unwrap();
    assert_eq!(write.customer_id.as_deref(), Some("c1"));
    assert_eq!(write.currency, "EUR");
    assert_eq!(write.created_by, "u1");
    assert_eq!(write.notes.as_deref(), Some("n"));
    assert_eq!(write.pricelist_version, Some(2));
    assert_eq!(changed, vec![s("t")]);
}

#[test]
fn reprice_of_a_sent_quote_is_a_conflict() {
    let quote = stored_quote(QuoteStatus::Sent, &model(1, 40000));
    let err = reprice_quote(&model(2, 80000), quote).unwrap_err();
    assert_eq!(err.status, STATUS_CONFLICT);
    assert_eq!(err.code, "quote_not_draft");
}

#[test]
fn prepare_fills_the_currency_and_checks_the_party() {
    let mut body = NewQuote {
        customer_id: None,
        prospect: Some(Prospect { name: s("Acme"), email: None, phone: None }),
        currency: None,
        valid_until: None,
        notes: None,
        lines: vec![manual(None)],
    };
    assert!(prepare(&mut body, "UAH").is_ok());
    assert_eq!(body.currency.as_deref(), Some("UAH"));
    let write = write_quote(&model(3, 40000), body, s("u9")).unwrap();
    assert_eq!(write.currency, "UAH");
    assert_eq!(write.created_by, "u9");
    assert_eq!(write.pricelist_version, None);

    let mut nobody = NewQuote { customer_id: None, prospect: None, currency: None, valid_until: None, notes: None, lines: vec![] };
    let err = prepare(&mut nobody, "UAH").unwrap_err();
    assert_eq!(err.status, STATUS_UNPROCESSABLE);
    assert_eq!(err.code, "validation_failed");
}

#[test]
fn estimate_prices_each_requested_quantity() {
    let m = model(1, 40000);
    let body = EstimateBody { job_spec: job(), quantities: vec![100, 500], margin_override_bp: None };
    let (policy, rows) = estimate(&m, "EUR", &body).unwrap();
    assert_eq!(policy.id, "pricing_policy:eur");
    assert_eq!(rows.len(), 2);
    assert!(rows[1].total_minor >= rows[0].total_minor);
    let p = select_policy(&m, "EUR").unwrap();
    let again = price_quantities(&m, p, &job(), &[100], None).unwrap();
    assert_eq!(again[0].total_minor, rows[0].total_minor);
}

#[test]
fn template_estimate_prices_the_ladder_and_echoes_the_spec() {
    let m = model(4, 40000);
    let body = TemplateEstimateBody {
        template: s("product_template:flyer"),
        selection: JsonMap::new(),
        quantities: None,
        margin_override_bp: None,
    };
    let est = estimate_template(&m, &body).unwrap();
    assert_eq!(est.quote.currency, "EUR");
    assert_eq!(est.quote.pricelist_version, 4);
    assert_eq!(est.breakdowns.len(), est.quote.ladder.len());
    for (entry, b) in est.quote.ladder.iter().zip(est.breakdowns.iter()) {
        assert_eq!(entry.total_minor, b.total_minor);
    }
    assert_eq!(est.job_spec.quantity, est.quote.ladder[0].qty);
    let missing = TemplateEstimateBody { template: s("nope"), selection: JsonMap::new(), quantities: None, margin_override_bp: None };
    assert_eq!(estimate_template(&m, &missing).unwrap_err().status, STATUS_NOT_FOUND);
}

#[test]
fn spec_quote_prices_each_quantity_in_order() {
    let m = model(1, 40000);
    let p = select_policy(&m, "EUR").unwrap();
    let ladder = polymix::engine::price::quote_spec(&m, p, &job(), &[100, 200], None).unwrap();
    assert_eq!(ladder.len(), 2);
    assert_eq!(ladder[0].qty, 100);
    assert_eq!(ladder[1].qty, 200);
    let one = price_quantities(&m, p, &job(), &[200], None).unwrap();
    assert_eq!(ladder[1].total_minor, one[0].total_minor);
}

#[test]
fn quote_total_sums_every_line() {
    let m = model(1, 40000);
    let (lines, _) = price_lines(
        &m,
        "EUR",
        vec![
            manual(Some("m")),
            NewQuoteLine::Template { line_id: Some(s("t")), template: s("flyer"), selection: JsonMap::new(), qty: 100, adjustment: None },
        ],
    )
    .unwrap();
    let total = polymix::domain::quote::quote_total_minor(&lines);
    assert_eq!(total, lines[0].total_minor() + lines[1].total_minor());
    assert_eq!(lines[0].total_minor(), 37_000);
}
