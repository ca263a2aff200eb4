use polymix::engine::effect::{Effect, InputExpr, NumOrInput};
use polymix::engine::error::{EngineError, PriceError, ResolveError, SelectionReason};
use polymix::engine::model::{
    parse_colors, Colors, CustomQuantity, Dataset, Format, Machine, MarginBand, Material,
    MaterialPricing, NumericInput, Operation, OptionDef, Parameter, ParameterKind, PriceModel,
    Printable, PricingPolicy, ProductTemplate, Rounding, RoundingMode, Technology, UnitBasis,
};
use polymix::engine::money::{ceil_div, round_half_up};
use polymix::engine::price::{price_job, ups, Breakdown};
use polymix::engine::resolve::{resolve, Component, JobSpec, OperationInstance, Selection};
use polymix::engine::rules::{violations, CmpOp, CompatibilityRule, Condition};
use polymix::json::{JsonMap, JsonNumber, JsonValue};

// ---- catalog builders -------------------------------------------------------

fn s(x: &str) -> String {
    x.to_string()
}

fn policy_p() -> PricingPolicy {
    PricingPolicy {
        id: s("pricing_policy:p"),
        currency: s("EUR"),
        margin_bands: vec![MarginBand { min_qty: 1, multiplier_bp: 10000 }],
        rounding: Rounding { step_minor: 1, mode: RoundingMode::Up },
        min_price_minor: 0,
    }
}

fn material(id: &str, kind: &str, pricing: MaterialPricing, grammage: Option<u32>) -> Material {
    Material {
        id: s(id),
        name: s(id),
        kind: s(kind),
        pricing,
        printable: grammage.map(|g| Printable { grammage_gsm: g }),
        attrs: JsonMap::new(),
    }
}

fn operation(id: &str, basis: UnitBasis) -> Operation {
    Operation { id: s(id), name: s(id), setup_micro: 100000, unit_basis: basis, unit_price_micro: 2000 }
}

fn base_dataset(templates: Vec<ProductTemplate>) -> Dataset {
    let sheet = [320, 450];
    Dataset {
        pricelist_version: 1,
        formats: vec![
            Format { id: s("format:a5"), name: s("A5"), trim_mm: [148, 210] },
            Format { id: s("format:huge"), name: s("Huge"), trim_mm: [2000, 3000] },
        ],
        materials: vec![
            material("material:paper", "paper", MaterialPricing::PerSheet { sheet_size_mm: sheet, price_micro: 40000 }, Some(80)),
            material("material:board", "board", MaterialPricing::PerSheet { sheet_size_mm: sheet, price_micro: 0 }, Some(500)),
            material("material:mat_item", "x", MaterialPricing::PerItem { price_micro: 1000 }, None),
            material("material:mat_sheet", "x", MaterialPricing::PerSheet { sheet_size_mm: sheet, price_micro: 1000 }, None),
            material("material:mat_cm", "x", MaterialPricing::PerCm { price_micro: 1000 }, None),
            material("material:mat_m2", "x", MaterialPricing::PerM2 { price_micro: 1000 }, None),
        ],
        machines: vec![Machine {
            id: s("machine:digi"),
            name: s("Digi"),
            technology: Technology::Digital,
            sheet_size_mm: sheet,
            duplex: true,
            max_grammage_gsm: 350,
            setup_micro: 2000000,
            waste_fixed_sheets: 10,
            waste_percent: 2,
            click_mono_micro: 8000,
            click_color_micro: 60000,
            plate_price_micro: 0,
            run_price_micro: 0,
        }],
        operations: vec![
            operation("operation:cut", UnitBasis::PerItem),
            operation("operation:op_item", UnitBasis::PerItem),
            operation("operation:op_sheet", UnitBasis::PerSheet),
            operation("operation:op_cm", UnitBasis::PerCm),
            operation("operation:op_m2", UnitBasis::PerM2),
        ],
        pricing_policies: vec![policy_p()],
        templates,
        compatibility_rules: vec![],
    }
}

fn base_model() -> PriceModel {
    PriceModel::from_dataset(base_dataset(vec![]))
}

fn template(components: &[&str], base_effects: Vec<Effect>, parameters: Vec<Parameter>) -> ProductTemplate {
    ProductTemplate {
        id: s("product_template:t"),
        slug: s("t"),
        name: vec![(s("en"), s("T"))],
        components: components.iter().map(|c| s(c)).collect(),
        pricing_policy: s("pricing_policy:p"),
        quantities: vec![100],
        custom_quantity: Some(CustomQuantity { min: 1, max: 5000 }),
        base_effects,
        parameters,
    }
}

fn model_with_template(t: ProductTemplate) -> PriceModel {
    PriceModel::from_dataset(base_dataset(vec![t]))
}

fn resolve_broken(components: &[&str], base_effects: Vec<Effect>, parameters: Vec<Parameter>) -> EngineError {
    let model = model_with_template(template(components, base_effects, parameters));
    let t = model.template_by_slug("t").unwrap().clone();
    let selection = Selection::new();
    resolve(&model, &t, &selection, 100).expect_err("expected resolution to fail")
}

fn colors(front: u8, back: u8) -> Colors {
    Colors { front, back }
}

fn num(n: i64) -> JsonValue {
    JsonValue::Number(JsonNumber::Int(n))
}

fn str_value(v: &str) -> JsonValue {
    JsonValue::Str(s(v))
}

fn map(pairs: Vec<(&str, JsonValue)>) -> JsonMap {
    let mut m = JsonMap::new();
    for (k, v) in pairs {
        m.insert(s(k), v);
    }
    m
}

// ---- unit helpers -----------------------------------------------------------

#[test]
fn ceil_div_rounds_up_on_remainder() {
    assert_eq!(ceil_div(5000, 4), 1250);
    assert_eq!(ceil_div(5001, 4), 1251);
    assert_eq!(ceil_div(100, 100), 1);
}

#[test]
fn round_half_up_rounds_half_upward() {
    assert_eq!(round_half_up(29029, 10000), 3);
    assert_eq!(round_half_up(5, 10), 1);
    assert_eq!(round_half_up(4, 10), 0);
    assert_eq!(round_half_up(29030, 100), 290);
}

#[test]
fn band_selection_picks_largest_min_qty_not_exceeding_qty() {
    let policy = PricingPolicy {
        id: "pricing_policy:standard".into(),
        currency: "EUR".into(),
        margin_bands: vec![
            MarginBand { min_qty: 1, multiplier_bp: 17000 },
            MarginBand { min_qty: 250, multiplier_bp: 16000 },
            MarginBand { min_qty: 1000, multiplier_bp: 15000 },
        ],
        rounding: Rounding { step_minor: 10, mode: RoundingMode::Up },
        min_price_minor: 2500,
    };
    assert_eq!(policy.band_for(1).unwrap().multiplier_bp, 17000);
    assert_eq!(policy.band_for(100).unwrap().multiplier_bp, 17000);
    assert_eq!(policy.band_for(250).unwrap().multiplier_bp, 16000);
    assert_eq!(policy.band_for(999).unwrap().multiplier_bp, 16000);
    assert_eq!(policy.band_for(1000).unwrap().multiplier_bp, 15000);
    assert_eq!(policy.band_for(5000).unwrap().multiplier_bp, 15000);
}

#[test]
fn colors_round_trip_through_string() {
    let c = Colors { front: 4, back: 0 };
    assert_eq!(c.to_spec_string(), "4/0");
    assert_eq!(parse_colors("4/4"), Some(Colors { front: 4, back: 4 }));
}

#[test]
fn colors_rejects_bad_shapes() {
    for bad in ["9/0", "4", "4/4/4", "x/0", "4-0"] {
        assert!(parse_colors(bad).is_none(), "expected {bad} to be rejected");
    }
}

#[test]
fn ups_reference_values_on_sra3() {
    let sra3 = [320, 450];
    assert_eq!(ups(sra3, [105, 148]), 8, "A6");
    assert_eq!(ups(sra3, [99, 210]), 6, "DL");
    assert_eq!(ups(sra3, [148, 210]), 4, "A5");
    assert_eq!(ups(sra3, [210, 297]), 2, "A4");
}

#[test]
fn ups_grows_with_the_sheet_and_shrinks_with_the_trim() {
    let trim = [105, 148];
    assert!(ups([320, 450], trim) <= ups([330, 488], trim));
    assert!(ups([320, 450], [148, 210]) <= ups([320, 450], trim));
    assert_eq!(ups([320, 450], trim), ups([320, 450], [148, 105]));
}

#[test]
fn ups_is_zero_only_when_no_orientation_fits() {
    // Footprint 306 x 426 fits SRA3 one way only.
    assert_eq!(ups([320, 450], [300, 420]), 1);
    // Footprint 326 x 106: too wide straight, fits rotated (106 across 320).
    assert_eq!(ups([320, 450], [320, 100]), 3);
    // Footprint 456 x 456 fits neither way.
    assert_eq!(ups([320, 450], [450, 450]), 0);
}

// ---- resolution errors --------------------------------------------------------

#[test]
fn e101_unknown_target_role() {
    let err = resolve_broken(
        &["cover"],
        vec![Effect::SetPages { target: s("ghost"), value: NumOrInput::Literal(2) }],
        vec![],
    );
    assert!(matches!(err, EngineError::Resolve(ResolveError::UnknownRole(_))));
}

#[test]
fn e102_duplicate_add_operation() {
    let err = resolve_broken(
        &["cover"],
        vec![
            Effect::AddOperation { operation: s("operation:cut"), params: JsonMap::new() },
            Effect::AddOperation { operation: s("operation:cut"), params: JsonMap::new() },
        ],
        vec![],
    );
    assert!(matches!(err, EngineError::Resolve(ResolveError::DuplicateOperation(_))));
}

#[test]
fn e103_set_op_param_on_absent_operation() {
    let err = resolve_broken(
        &["cover"],
        vec![Effect::SetOpParam {
            operation: s("operation:cut"),
            param: s("material"),
            value: str_value("material:mat_item"),
        }],
        vec![],
    );
    assert!(matches!(err, EngineError::Resolve(ResolveError::OpParamOnAbsentOperation(_))));
}

#[test]
fn e104_add_component_on_existing_role() {
    let err = resolve_broken(
        &["cover"],
        vec![Effect::AddComponent { role: s("cover"), pages: 2, colors: colors(0, 0), material: s("material:paper") }],
        vec![],
    );
    assert!(matches!(err, EngineError::Resolve(ResolveError::ComponentExists(_))));
}

#[test]
fn e105_empty_technology_allow() {
    let err = resolve_broken(
        &["cover"],
        vec![
            Effect::ConstrainTechnology { allow: vec![Technology::Digital] },
            Effect::ConstrainTechnology { allow: vec![Technology::Offset] },
        ],
        vec![],
    );
    assert!(matches!(err, EngineError::Resolve(ResolveError::EmptyTechnologyAllow)));
}

#[test]
fn e106_incomplete_spec() {
    let err = resolve_broken(&["cover"], vec![Effect::SetFormat { format: s("format:a5") }], vec![]);
    assert!(matches!(err, EngineError::Resolve(ResolveError::IncompleteSpec(_))));
}

#[test]
fn e107_dangling_record_reference() {
    let err = resolve_broken(&["cover"], vec![Effect::SetFormat { format: s("format:nope") }], vec![]);
    assert!(matches!(err, EngineError::Resolve(ResolveError::DanglingReference(_))));
}

fn numeric(code: &str, min: u32, max: u32, step: u32, default: Option<u32>, effects: Vec<Effect>) -> Parameter {
    Parameter {
        code: s(code),
        label: vec![],
        kind: ParameterKind::Numeric { input: NumericInput { min, max, step }, default, effects },
    }
}

#[test]
fn e108_numeric_default_violates_input() {
    let err = resolve_broken(
        &["cover"],
        vec![Effect::SetFormat { format: s("format:a5") }],
        vec![numeric("n", 20, 200, 10, Some(25), vec![])],
    );
    assert!(matches!(err, EngineError::Resolve(ResolveError::BadNumericDefault(_))));
}

#[test]
fn e110_input_outside_numeric_parameter() {
    let err = resolve_broken(
        &["cover"],
        vec![Effect::SetPages { target: s("cover"), value: NumOrInput::Input { input: InputExpr { mul: 1, add: 0 } } }],
        vec![],
    );
    assert!(matches!(err, EngineError::Resolve(ResolveError::InputOutsideNumeric)));
}

// ---- rule evaluation ------------------------------------------------------------

fn spec(interior_pages: u32, with_spiral: bool) -> JobSpec {
    let operations = if with_spiral {
        vec![OperationInstance { operation: s("operation:spiral_binding"), params: JsonMap::new() }]
    } else {
        vec![]
    };
    JobSpec {
        format: s("format:a5"),
        quantity: 100,
        components: vec![Component {
            role: s("interior"),
            pages: interior_pages,
            colors: colors(4, 4),
            material: s("material:paper"),
            machine: None,
        }],
        operations,
        technology_allow: None,
    }
}

#[test]
fn rule_violated_when_condition_holds_and_require_fails() {
    let r = CompatibilityRule {
        id: s("r"),
        template: s("t"),
        when: Some(Condition::OpPresent { op_present: s("operation:spiral_binding") }),
        require: Condition::Attr { attr: s("component:interior.pages"), op: CmpOp::Gte, value: num(20) },
        message: vec![],
    };
    let rules = vec![r];
    assert_eq!(violations(&rules, &spec(100, true)).len(), 0, "satisfied");
    assert_eq!(violations(&rules, &spec(10, true)).len(), 1, "violated");
    assert_eq!(violations(&rules, &spec(10, false)).len(), 0, "when false");
}

#[test]
fn rule_when_absent_is_always_active_and_missing_attr_is_false() {
    let r = CompatibilityRule {
        id: s("r2"),
        template: s("t"),
        when: None,
        require: Condition::Attr { attr: s("component:ghost.pages"), op: CmpOp::Gte, value: num(1) },
        message: vec![],
    };
    let v = violations(&vec![r], &spec(100, true));
    assert_eq!(v.len(), 1);
    assert_eq!(v[0].rule_id, "r2");
}

#[test]
fn rule_combinators_and_membership() {
    let in_rule = CompatibilityRule {
        id: s("r3"),
        template: s("t"),
        when: None,
        require: Condition::Any {
            any: vec![
                Condition::Attr {
                    attr: s("format"),
                    op: CmpOp::In,
                    value: JsonValue::Array(vec![str_value("format:a4"), str_value("format:a5")]),
                },
                Condition::Not { not: Box::new(Condition::All { all: vec![] }) },
            ],
        },
        message: vec![],
    };
    assert_eq!(violations(&vec![in_rule], &spec(4, false)).len(), 0);
}

// ---- selection validation ------------------------------------------------------

fn option(code: &str, is_default: bool, available: bool, effects: Vec<Effect>) -> OptionDef {
    OptionDef { code: s(code), label: vec![], is_default, available, unavailable_message: None, effects }
}

fn select(code: &str, options: Vec<OptionDef>) -> Parameter {
    Parameter { code: s(code), label: vec![], kind: ParameterKind::Select { options } }
}

fn demo_select_template() -> ProductTemplate {
    template(
        &["cover"],
        vec![Effect::SetFormat { format: s("format:a5") }],
        vec![
            select(
                "fmt",
                vec![
                    option("a", true, true, vec![Effect::SetColors { target: s("cover"), value: colors(4, 0) }]),
                    option("b", false, true, vec![Effect::SetColors { target: s("cover"), value: colors(1, 1) }]),
                ],
            ),
            select(
                "mat",
                vec![option(
                    "p",
                    true,
                    true,
                    vec![Effect::SetMaterial { target: s("cover"), material: s("material:paper") }],
                )],
            ),
            numeric(
                "pg",
                2,
                200,
                2,
                Some(4),
                vec![Effect::SetPages { target: s("cover"), value: NumOrInput::Input { input: InputExpr { mul: 1, add: 0 } } }],
            ),
        ],
    )
}

fn resolve_selection(sel: JsonMap, qty: u32) -> Result<JobSpec, EngineError> {
    let model = model_with_template(demo_select_template());
    let t = model.template_by_slug("t").unwrap().clone();
    resolve(&model, &t, &sel, qty)
}

#[test]
fn unknown_key_is_rejected() {
    let err = resolve_selection(map(vec![("nope", str_value("x"))]), 100).unwrap_err();
    assert!(matches!(err, EngineError::InvalidSelection { reason: SelectionReason::UnknownParameter, .. }));
}

#[test]
fn missing_select_and_numeric_take_their_defaults() {
    let spec = resolve_selection(JsonMap::new(), 100).unwrap();
    let cover = &spec.components[0];
    assert_eq!(cover.colors, Colors { front: 4, back: 0 }, "select default a");
    assert_eq!(cover.pages, 4, "numeric default");
    assert_eq!(cover.material, "material:paper");
    assert_eq!(spec.format, "format:a5");
    assert_eq!(spec.quantity, 100);
}

#[test]
fn explicit_selection_overrides_defaults() {
    let spec = resolve_selection(map(vec![("fmt", str_value("b")), ("pg", num(8))]), 50).unwrap();
    assert_eq!(spec.components[0].colors, Colors { front: 1, back: 1 });
    assert_eq!(spec.components[0].pages, 8);
    assert_eq!(spec.quantity, 50);
}

#[test]
fn unknown_option_is_rejected() {
    let err = resolve_selection(map(vec![("fmt", str_value("zzz"))]), 100).unwrap_err();
    assert!(matches!(err, EngineError::InvalidSelection { reason: SelectionReason::UnknownOption, .. }));
}

#[test]
fn numeric_out_of_range_is_rejected() {
    let err = resolve_selection(map(vec![("pg", num(3))]), 100).unwrap_err();
    assert!(matches!(err, EngineError::InvalidSelection { reason: SelectionReason::OutOfRange, .. }));
}

#[test]
fn unavailable_option_is_rejected_both_explicitly_and_via_default() {
    let tmpl = template(
        &["cover"],
        vec![Effect::SetFormat { format: s("format:a5") }],
        vec![select(
            "x",
            vec![option("a", true, false, vec![Effect::SetColors { target: s("cover"), value: colors(4, 0) }])],
        )],
    );
    let model = model_with_template(tmpl);
    let t = model.template_by_slug("t").unwrap().clone();
    let via_default = resolve(&model, &t, &Selection::new(), 100).unwrap_err();
    let explicit = resolve(&model, &t, &map(vec![("x", str_value("a"))]), 100).unwrap_err();
    for err in [via_default, explicit] {
        assert!(matches!(err, EngineError::InvalidSelection { reason: SelectionReason::OptionUnavailable, .. }));
    }
}

// ---- pricing errors -------------------------------------------------------------

fn price_spec(job: JobSpec) -> Result<Breakdown, EngineError> {
    let model = base_model();
    let policy = model.pricing_policies.iter().find(|p| p.id == "pricing_policy:p").unwrap().clone();
    price_job(&model, &policy, &job, None)
}

fn job(format: &str, role: &str, c: Colors, material: &str, operations: Vec<OperationInstance>) -> JobSpec {
    JobSpec {
        format: s(format),
        quantity: 100,
        components: vec![Component { role: s(role), pages: 2, colors: c, material: s(material), machine: None }],
        operations,
        technology_allow: None,
    }
}

#[test]
fn e201_no_capable_machine() {
    let err = price_spec(job("format:a5", "cover", colors(4, 0), "material:board", vec![])).unwrap_err();
    assert!(matches!(err, EngineError::Price(PriceError::NoCapableMachine(_))));
}

#[test]
fn e202_item_larger_than_sheet() {
    let err = price_spec(job("format:huge", "cover", colors(0, 0), "material:paper", vec![])).unwrap_err();
    assert!(matches!(err, EngineError::Price(PriceError::ItemLargerThanSheet(_))));
}

#[test]
fn e204_material_basis_mismatch() {
    let ops = vec![OperationInstance {
        operation: s("operation:op_item"),
        params: map(vec![("material", str_value("material:mat_cm"))]),
    }];
    let err = price_spec(job("format:a5", "backing", colors(0, 0), "material:board", ops)).unwrap_err();
    assert!(matches!(err, EngineError::Price(PriceError::MaterialBasisMismatch(_))));
}

const OP_SETUP: i64 = 100000;

fn op_cost(op_id: &str, params: JsonMap) -> Result<i64, EngineError> {
    let ops = vec![OperationInstance { operation: s(op_id), params }];
    let bd = price_spec(job("format:a5", "backing", colors(0, 0), "material:board", ops))?;
    Ok(bd.operations[0].cost_micro)
}

#[test]
fn units_multiplier_doubles_unit_term_for_every_basis() {
    let cases = [
        ("operation:op_item", "material:mat_item"),
        ("operation:op_sheet", "material:mat_sheet"),
        ("operation:op_cm", "material:mat_cm"),
        ("operation:op_m2", "material:mat_m2"),
    ];
    for (op, material) in cases {
        let absent = op_cost(op, map(vec![("material", str_value(material))])).unwrap();
        let one = op_cost(op, map(vec![("material", str_value(material)), ("units_multiplier", num(1))])).unwrap();
        let two = op_cost(op, map(vec![("material", str_value(material)), ("units_multiplier", num(2))])).unwrap();
        assert_eq!(absent, one, "{op}: absent multiplier behaves as 1");
        assert_eq!(two - OP_SETUP, 2 * (one - OP_SETUP), "{op}: units_multiplier 2 doubles the unit term");
    }
}

#[test]
fn units_multiplier_invalid_values_are_e205() {
    for bad in [num(0), JsonValue::Number(JsonNumber::Fraction(s("1.5")))] {
        let err = op_cost(
            "operation:op_item",
            map(vec![("material", str_value("material:mat_item")), ("units_multiplier", bad)]),
        )
        .unwrap_err();
        assert!(matches!(err, EngineError::Price(PriceError::InvalidReservedParam(_))));
    }
}

#[test]
fn priced_job_has_consistent_totals() {
    let bd = price_spec(job("format:a5", "cover", colors(4, 0), "material:paper", vec![])).unwrap();
    assert_eq!(bd.components.len(), 1);
    assert_eq!(bd.components[0].machine_id.as_deref(), Some("machine:digi"));
    assert!(bd.total_minor >= 0);
    assert_eq!(bd.unit_minor, round_half_up(bd.total_minor, 100));
}

#[test]
fn pricing_the_same_request_twice_gives_the_same_breakdown() {
    let first = price_spec(job("format:a5", "cover", colors(4, 4), "material:paper", vec![]));
    let second = price_spec(job("format:a5", "cover", colors(4, 4), "material:paper", vec![]));
    assert_eq!(first, second);
    let t = demo_select_template();
    let model = model_with_template(t);
    let tmpl = model.template_by_slug("t").unwrap().clone();
    let a = polymix::engine::price::quote_template(&model, &tmpl, &Selection::new(), None, None);
    let b = polymix::engine::price::quote_template(&model, &tmpl, &Selection::new(), None, None);
    assert_eq!(a, b);
}
