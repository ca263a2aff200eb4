use polymix::domain::error::DomainError;
use polymix::domain::pricing::{validate, CatalogDocument, PricingEntity};
use polymix::domain::quote::{
    can_edit, split_residual_minor, validate_transition, Adjustment, AdjustmentKind, NewQuote,
    Prospect, QuoteLine, QuoteStatus,
};
use polymix::engine::model::{
    Format, Machine, MarginBand, Material, MaterialPricing, Printable, PricingPolicy, Rounding,
    RoundingMode, Technology,
};
use polymix::json::JsonMap;

#[test]
fn draft_only_sends() {
    assert!(validate_transition(QuoteStatus::Draft, QuoteStatus::Sent).is_ok());
    assert!(validate_transition(QuoteStatus::Draft, QuoteStatus::Accepted).is_err());
}

#[test]
fn sent_can_accept_decline_or_expire() {
    for target in [QuoteStatus::Accepted, QuoteStatus::Declined, QuoteStatus::Expired] {
        assert!(validate_transition(QuoteStatus::Sent, target).is_ok());
    }
}

#[test]
fn accepted_only_expires() {
    assert!(validate_transition(QuoteStatus::Accepted, QuoteStatus::Expired).is_ok());
    assert!(validate_transition(QuoteStatus::Accepted, QuoteStatus::Declined).is_err());
}

#[test]
fn declined_and_expired_are_terminal() {
    assert!(validate_transition(QuoteStatus::Declined, QuoteStatus::Sent).is_err());
    assert!(validate_transition(QuoteStatus::Expired, QuoteStatus::Sent).is_err());
}

#[test]
fn only_drafts_edit() {
    assert!(can_edit(QuoteStatus::Draft));
    assert!(!can_edit(QuoteStatus::Sent));
}

#[test]
fn discount_applies_off_engine_total() {
    let adj = Adjustment { kind: AdjustmentKind::Discount { percent_bp: 1200 }, reason: None };
    assert_eq!(adj.apply(83_465), 83_465 - 10_015);
}

#[test]
fn price_override_replaces_total() {
    let adj = Adjustment {
        kind: AdjustmentKind::PriceOverride { total_minor: 180_000 },
        reason: Some("goodwill".into()),
    };
    assert_eq!(adj.apply(205_000), 180_000);
}

#[test]
fn margin_override_keeps_the_engine_total() {
    let adj = Adjustment { kind: AdjustmentKind::MarginOverride { multiplier_bp: 15000 }, reason: None };
    assert_eq!(adj.apply(12_345), 12_345);
}

#[test]
fn residual_split_preserves_total_when_divisible() {
    let total = 200 * 500;
    let lines = split_residual_minor("Book", 500, total, "l1");
    assert_eq!(lines.len(), 1);
    assert_eq!(lines[0].qty, 500);
    assert_eq!(lines[0].unit_minor, 200);
    let sum: i64 = lines.iter().map(|l| l.qty as i64 * l.unit_minor).sum();
    assert_eq!(sum, total);
}

#[test]
fn residual_split_allocates_remainder_to_second_line() {
    let lines = split_residual_minor("Slipcase", 3, 1000, "l2");
    assert_eq!(lines.len(), 2);
    assert_eq!(lines[0].qty, 2);
    assert_eq!(lines[0].unit_minor, 333);
    assert_eq!(lines[1].qty, 1);
    assert_eq!(lines[1].unit_minor, 334);
    let sum: i64 = lines.iter().map(|l| l.qty as i64 * l.unit_minor).sum();
    assert_eq!(sum, 1000);
    assert!(lines.iter().all(|l| l.source_line_id == "l2"));
}

#[test]
fn residual_split_of_a_negative_total_floors() {
    let lines = split_residual_minor("Credit", 3, -1000, "l3");
    let sum: i64 = lines.iter().map(|l| l.qty as i64 * l.unit_minor).sum();
    assert_eq!(sum, -1000);
    assert_eq!(lines[0].unit_minor, -334);
    assert_eq!(lines[0].qty, 1);
    assert_eq!(lines[1].unit_minor, -333);
    assert_eq!(lines[1].qty, 2);
}

#[test]
fn party_required_rejects_both_or_neither() {
    let neither = NewQuote {
        customer_id: None,
        prospect: None,
        currency: None,
        valid_until: None,
        notes: None,
        lines: vec![],
    };
    assert!(neither.validate_domain().is_err());

    let both = NewQuote {
        customer_id: Some("c1".into()),
        prospect: Some(Prospect { name: "Acme".into(), email: None, phone: None }),
        currency: None,
        valid_until: None,
        notes: None,
        lines: vec![],
    };
    assert!(both.validate_domain().is_err());

    let one = NewQuote {
        customer_id: None,
        prospect: Some(Prospect { name: "Acme".into(), email: None, phone: None }),
        currency: None,
        valid_until: None,
        notes: None,
        lines: vec![],
    };
    assert!(one.validate_domain().is_ok());
}

#[test]
fn manual_line_totals_qty_times_unit() {
    let line = QuoteLine::Manual {
        line_id: "l".into(),
        description: "Delivery".into(),
        qty: 2,
        unit_minor: 18_500,
    };
    assert_eq!(line.total_minor(), 37_000);
    assert_eq!(line.line_id(), "l");
}

#[test]
fn segment_round_trips_to_table() {
    assert_eq!(PricingEntity::from_segment("formats"), Some(PricingEntity::Format));
    assert_eq!(PricingEntity::from_segment("policies"), Some(PricingEntity::Policy));
    assert_eq!(PricingEntity::from_segment("widgets"), None);
    assert_eq!(PricingEntity::Policy.table(), "pricing_policy");
}

fn code_at(r: Result<(), DomainError>, key: &str) -> String {
    match r {
        Err(DomainError::Validation(e)) => e.get(key).unwrap().code.clone(),
        _ => panic!("expected Validation error"),
    }
}

fn format(id: &str, w: u32, h: u32) -> Option<CatalogDocument> {
    Some(CatalogDocument::Format(Format { id: id.to_string(), name: "F".to_string(), trim_mm: [w, h] }))
}

#[test]
fn format_portrait_invariant() {
    assert!(validate(PricingEntity::Format, &format("format:a5", 148, 210)).is_ok());
    assert_eq!(code_at(validate(PricingEntity::Format, &format("format:dl", 210, 99)), "trim_mm"), "portrait_required");
    assert_eq!(code_at(validate(PricingEntity::Format, &format("format:x", 0, 210)), "trim_mm"), "positive_dimensions");
}

fn paper(pricing: MaterialPricing, grammage: Option<u32>) -> Option<CatalogDocument> {
    Some(CatalogDocument::Material(Material {
        id: "material:offset_80".to_string(),
        name: "Offset 80 g".to_string(),
        kind: "paper".to_string(),
        pricing,
        printable: grammage.map(|g| Printable { grammage_gsm: g }),
        attrs: JsonMap::new(),
    }))
}

#[test]
fn material_printable_grammage_and_shape() {
    let sheet = MaterialPricing::PerSheet { sheet_size_mm: [320, 450], price_micro: 40000 };
    assert!(validate(PricingEntity::Material, &paper(sheet, Some(80))).is_ok());
    assert_eq!(code_at(validate(PricingEntity::Material, &paper(sheet, Some(0))), "printable"), "positive_grammage");
    // A document that did not read as any material shape.
    match validate(PricingEntity::Material, &None) {
        Err(DomainError::Validation(e)) => assert!(e.contains_key("_")),
        _ => panic!("expected Validation error"),
    }
}

fn machine(technology: Technology, plate: i64, run: i64, mono: i64, color: i64) -> Option<CatalogDocument> {
    Some(CatalogDocument::Machine(Machine {
        id: "machine:m".to_string(),
        name: "M".to_string(),
        technology,
        sheet_size_mm: [320, 450],
        duplex: true,
        max_grammage_gsm: 350,
        setup_micro: 2_000_000,
        waste_fixed_sheets: 10,
        waste_percent: 2,
        click_mono_micro: mono,
        click_color_micro: color,
        plate_price_micro: plate,
        run_price_micro: run,
    }))
}

#[test]
fn machine_technology_cost_split() {
    assert!(validate(PricingEntity::Machine, &machine(Technology::Digital, 0, 0, 8000, 60000)).is_ok());
    assert_eq!(
        code_at(validate(PricingEntity::Machine, &machine(Technology::Digital, 5000, 0, 8000, 60000)), "plate_price_micro"),
        "not_for_digital"
    );
    assert_eq!(
        code_at(validate(PricingEntity::Machine, &machine(Technology::Offset, 0, 15000, 0, 0)), "plate_price_micro"),
        "required_for_offset"
    );
}

fn policy(bands: Vec<(u32, u32)>) -> Option<CatalogDocument> {
    Some(CatalogDocument::Policy(PricingPolicy {
        id: "pricing_policy:standard".to_string(),
        currency: "EUR".to_string(),
        margin_bands: bands.into_iter().map(|(min_qty, multiplier_bp)| MarginBand { min_qty, multiplier_bp }).collect(),
        rounding: Rounding { step_minor: 10, mode: RoundingMode::Up },
        min_price_minor: 2500,
    }))
}

#[test]
fn policy_band_rules() {
    assert!(validate(PricingEntity::Policy, &policy(vec![(1, 17000), (250, 16000)])).is_ok());
    assert_eq!(code_at(validate(PricingEntity::Policy, &policy(vec![(5, 17000)])), "margin_bands"), "first_band_min_qty_one");
    assert_eq!(code_at(validate(PricingEntity::Policy, &policy(vec![(1, 17000), (1, 16000)])), "margin_bands"), "bands_ascending");
}

#[test]
fn entity_and_document_must_agree() {
    match validate(PricingEntity::Policy, &format("format:a5", 148, 210)) {
        Err(DomainError::Validation(e)) => assert!(e.contains_key("_")),
        _ => panic!("expected Validation error"),
    }
}
