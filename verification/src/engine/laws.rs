//! Properties of the engine that span its functions or hold of all inputs.
use vstd::prelude::*;

use crate::engine::model::{
    band_index, band_scan, index_by_key, last_with_key, lemma_index_by_key_lookup, lookup,
    Dataset, Keyed, MarginBand, PriceModel, PricingPolicy, ProductTemplate,
};
use crate::engine::money::{spec_ceil_div, spec_round_half_up};
use crate::engine::price::{
    above, best_scan, eligible, extra_quantities, insert_sorted, ladder_spec, margin_spec,
    cost_operation_spec, footprint, reserved_spec, run_cost, ups_spec, CostCtx, price_all_spec,
    quote_template_spec, resolve_all_spec, Quote, machine_cost_spec, machine_sheets,
};
use crate::engine::model::{Colors, Technology};
use crate::engine::effect::{InputExpr, NumOrInput};
use crate::engine::rules::{
    eval_attr_spec, eval_spec, violations_spec, AttrView, CmpOp, CompatibilityRule, Condition,
};
use crate::json::{JsonValue, NumberView};
use crate::engine::model::UnitBasis;
use crate::engine::resolve::OpView;
use crate::json::map_get;
use vstd::arithmetic::div_mod::{
    lemma_basic_div, lemma_div_basics, lemma_div_is_ordered, lemma_div_is_ordered_by_denominator,
    lemma_div_pos_is_pos,
};
use crate::engine::model::Machine;
use crate::engine::effect::Effect;
use crate::engine::model::Parameter;
use crate::engine::outcome::{result_matches, Outcome};
use crate::engine::error::EngineError;
use crate::engine::resolve::{
    apply_effect_spec, apply_effects_spec, role_is, apply_param_spec, apply_params_spec, initial_builder,
    resolve_spec, BuilderView, CompBuilderView, JobSpecView, per_sheet_material, is_incomplete,
};
use crate::json::JsonView;
use crate::seqs::{first_match, lemma_first_match};

verus! {

/// Imposition does not depend on which way round the trim is given.
pub proof fn lemma_ups_symmetric(sheet: [u32; 2], t1: [u32; 2], t2: [u32; 2])
    requires
        t1@[0] == t2@[1],
        t1@[1] == t2@[0],
    ensures
        ups_spec(sheet, t1) == ups_spec(sheet, t2),
{
}

/// Products of non-negative factors grow with each factor.
proof fn lemma_mul_mono(a: int, b: int, c: int, d: int)
    requires
        0 <= a <= b,
        0 <= c <= d,
    ensures
        a * c <= b * d,
{
    assert(a * c <= b * d) by (nonlinear_arith)
        requires
            0 <= a <= b,
            0 <= c <= d,
    ;
}

/// How many whole footprints of side `f` fit along a sheet side `s`: none
/// exactly when the footprint is longer than the side.
proof fn lemma_fit_along(s: int, f: int)
    requires
        0 <= s,
        0 < f,
    ensures
        0 <= s / f,
        s / f == 0 <==> s < f,
{
    lemma_div_pos_is_pos(s, f);
    if s < f {
        lemma_basic_div(s, f);
    } else {
        lemma_div_basics(f);
        lemma_div_is_ordered(f, s, f);
    }
}

/// A product of two non-negative counts is zero exactly when one of them is.
proof fn lemma_mul_zero(a: int, b: int)
    requires
        0 <= a,
        0 <= b,
    ensures
        0 <= a * b,
        a * b == 0 <==> (a == 0 || b == 0),
{
    assert(0 <= a * b && (a * b == 0 <==> (a == 0 || b == 0))) by (nonlinear_arith)
        requires
            0 <= a,
            0 <= b,
    ;
}

/// A larger sheet never holds fewer items.
pub proof fn lemma_ups_grows_with_sheet(s1: [u32; 2], s2: [u32; 2], trim: [u32; 2])
    requires
        s1@[0] <= s2@[0],
        s1@[1] <= s2@[1],
    ensures
        ups_spec(s1, trim) <= ups_spec(s2, trim),
{
    let f0 = footprint(trim).0;
    let f1 = footprint(trim).1;
    let a0 = s1@[0] as int;
    let a1 = s1@[1] as int;
    let b0 = s2@[0] as int;
    let b1 = s2@[1] as int;
    lemma_fit_along(a0, f0);
    lemma_fit_along(a1, f1);
    lemma_fit_along(a0, f1);
    lemma_fit_along(a1, f0);
    lemma_div_is_ordered(a0, b0, f0);
    lemma_div_is_ordered(a1, b1, f1);
    lemma_div_is_ordered(a0, b0, f1);
    lemma_div_is_ordered(a1, b1, f0);
    lemma_mul_mono(a0 / f0, b0 / f0, a1 / f1, b1 / f1);
    lemma_mul_mono(a0 / f1, b0 / f1, a1 / f0, b1 / f0);
}

/// A smaller trim never fits fewer items on a sheet.
pub proof fn lemma_ups_shrinks_with_trim(sheet: [u32; 2], t1: [u32; 2], t2: [u32; 2])
    requires
        t2@[0] <= t1@[0],
        t2@[1] <= t1@[1],
    ensures
        ups_spec(sheet, t1) <= ups_spec(sheet, t2),
{
    let s0 = sheet@[0] as int;
    let s1 = sheet@[1] as int;
    let (f0, f1) = footprint(t1);
    let (g0, g1) = footprint(t2);
    lemma_fit_along(s0, f0);
    lemma_fit_along(s1, f1);
    lemma_fit_along(s0, f1);
    lemma_fit_along(s1, f0);
    lemma_div_is_ordered_by_denominator(s0, g0, f0);
    lemma_div_is_ordered_by_denominator(s1, g1, f1);
    lemma_div_is_ordered_by_denominator(s0, g1, f1);
    lemma_div_is_ordered_by_denominator(s1, g0, f0);
    lemma_mul_mono(s0 / f0, s0 / g0, s1 / f1, s1 / g1);
    lemma_mul_mono(s0 / f1, s0 / g1, s1 / f0, s1 / g0);
}

/// No item fits on a sheet exactly when, whichever way round it lies, one
/// side of its footprint (trim plus bleed) is longer than the sheet's.
pub proof fn lemma_ups_zero(sheet: [u32; 2], trim: [u32; 2])
    ensures
        ups_spec(sheet, trim) == 0 <==> ((sheet@[0] < footprint(trim).0 || sheet@[1] < footprint(
            trim,
        ).1) && (sheet@[0] < footprint(trim).1 || sheet@[1] < footprint(trim).0)),
{
    let s0 = sheet@[0] as int;
    let s1 = sheet@[1] as int;
    let (f0, f1) = footprint(trim);
    lemma_fit_along(s0, f0);
    lemma_fit_along(s1, f1);
    lemma_fit_along(s0, f1);
    lemma_fit_along(s1, f0);
    lemma_mul_zero(s0 / f0, s1 / f1);
    lemma_mul_zero(s0 / f1, s1 / f0);
}

/// Two instances of one operation that differ at most in their
/// `units_multiplier` parameter.
pub open spec fn same_but_multiplier(op1: OpView, op2: OpView) -> bool {
    &&& op1.operation == op2.operation
    &&& map_get(op1.params, "material"@) == map_get(op2.params, "material"@)
    &&& reserved_spec(op1.params, "edge_mm"@) == reserved_spec(op2.params, "edge_mm"@)
}

/// An operation priced without `units_multiplier` costs what it costs with
/// `units_multiplier` 1, whatever its basis.
pub proof fn lemma_absent_multiplier_is_one(
    model: PriceModel,
    trim: [u32; 2],
    qty: int,
    total_sheets: int,
    op1: OpView,
    op2: OpView,
)
    requires
        same_but_multiplier(op1, op2),
        reserved_spec(op1.params, "units_multiplier"@) == Some(None::<u32>),
        reserved_spec(op2.params, "units_multiplier"@) == Some(Some(1u32)),
    ensures
        cost_operation_spec(model, trim, qty, total_sheets, op1) == cost_operation_spec(
            model,
            trim,
            qty,
            total_sheets,
            op2,
        ),
{
}

/// For an operation priced per item or per sheet, `units_multiplier` `k`
/// multiplies the unit term of its cost by `k` and leaves the setup charged
/// once.
pub proof fn lemma_multiplier_scales_unit_term(
    model: PriceModel,
    trim: [u32; 2],
    qty: int,
    total_sheets: int,
    op1: OpView,
    op2: OpView,
    k: u32,
)
    requires
        same_but_multiplier(op1, op2),
        reserved_spec(op1.params, "units_multiplier"@) == Some(None::<u32>)
            || reserved_spec(op1.params, "units_multiplier"@) == Some(Some(1u32)),
        reserved_spec(op2.params, "units_multiplier"@) == Some(Some(k)),
        lookup(model.operations@, op1.operation) matches Some(i) && (model.operations@[i].unit_basis
            is PerItem || model.operations@[i].unit_basis is PerSheet),
        cost_operation_spec(model, trim, qty, total_sheets, op1) is Done,
        cost_operation_spec(model, trim, qty, total_sheets, op2) is Done,
    ensures
        ({
            let setup = model.operations@[lookup(model.operations@, op1.operation)->0].setup_micro as int;
            let c1 = cost_operation_spec(model, trim, qty, total_sheets, op1)->Done_0.cost_micro;
            let c2 = cost_operation_spec(model, trim, qty, total_sheets, op2)->Done_0.cost_micro;
            c2 - setup == k * (c1 - setup)
        }),
{
    let o = model.operations@[lookup(model.operations@, op1.operation)->0];
    let unit = crate::engine::price::op_unit_spec(model, o, op1)->Done_0;
    assert(crate::engine::price::op_unit_spec(model, o, op2) == crate::engine::price::op_unit_spec(
        model,
        o,
        op1,
    ));
    assert(k * (qty * unit) == k * qty * unit) by (nonlinear_arith);
    assert(k * (total_sheets * unit) == k * total_sheets * unit) by (nonlinear_arith);
}

/// Rounding half up to a multiple of an even unit `d` commutes with doubling
/// exactly when the remainder of `x` is below a quarter of `d` or at least
/// three quarters of it.
proof fn lemma_round_half_up_double(x: int, d: int)
    requires
        x >= 0,
        d > 0,
        d % 2 == 0,
        4 * (x % d) < d || 4 * (x % d) >= 3 * d,
    ensures
        spec_round_half_up(2 * x, d) == 2 * spec_round_half_up(x, d),
{
    let q = x / d;
    let r = x % d;
    let h = d / 2;
    vstd::arithmetic::div_mod::lemma_fundamental_div_mod(x, d);
    vstd::arithmetic::div_mod::lemma_mod_pos_bound(x, d);
    vstd::arithmetic::div_mod::lemma_fundamental_div_mod(d, 2);
    assert(2 * h == d);
    assert(x == q * d + r) by {
        vstd::arithmetic::mul::lemma_mul_is_commutative(q, d);
    }
    assert(q >= 0) by {
        lemma_div_pos_is_pos(x, d);
    }
    assert(2 * x == (2 * q) * d + 2 * r) by (nonlinear_arith)
        requires
            x == q * d + r,
    ;
    if 4 * r < d {
        assert(x + h == q * d + (r + h));
        vstd::arithmetic::div_mod::lemma_fundamental_div_mod_converse(x + h, d, q, r + h);
        assert(2 * x + h == (2 * q) * d + (2 * r + h));
        vstd::arithmetic::div_mod::lemma_fundamental_div_mod_converse(2 * x + h, d, 2 * q, 2 * r + h);
    } else {
        assert(x + h == (q + 1) * d + (r + h - d)) by (nonlinear_arith)
            requires
                x == q * d + r,
        ;
        vstd::arithmetic::div_mod::lemma_fundamental_div_mod_converse(x + h, d, q + 1, r + h - d);
        assert(2 * x + h == (2 * q + 2) * d + (2 * r + h - 2 * d)) by (nonlinear_arith)
            requires
                x == q * d + r,
        ;
        vstd::arithmetic::div_mod::lemma_fundamental_div_mod_converse(
            2 * x + h,
            d,
            2 * q + 2,
            2 * r + h - 2 * d,
        );
    }
}

/// For an operation priced per centimetre or per square metre, where the
/// cost is rounded half up, `units_multiplier` 2 doubles the unit term of
/// the cost exactly when the unrounded term at multiplier 1 leaves a
/// remainder below a quarter of the rounding unit or at least three
/// quarters of it; the setup is charged once.
pub proof fn lemma_multiplier_doubles_rounded_term(
    model: PriceModel,
    trim: [u32; 2],
    qty: int,
    total_sheets: int,
    op1: OpView,
    op2: OpView,
)
    requires
        same_but_multiplier(op1, op2),
        reserved_spec(op1.params, "units_multiplier"@) == Some(None::<u32>)
            || reserved_spec(op1.params, "units_multiplier"@) == Some(Some(1u32)),
        reserved_spec(op2.params, "units_multiplier"@) == Some(Some(2u32)),
        lookup(model.operations@, op1.operation) matches Some(i) && (model.operations@[i].unit_basis
            is PerCm || model.operations@[i].unit_basis is PerM2),
        cost_operation_spec(model, trim, qty, total_sheets, op1) is Done,
        cost_operation_spec(model, trim, qty, total_sheets, op2) is Done,
        ({
            let o = model.operations@[lookup(model.operations@, op1.operation)->0];
            let unit = crate::engine::price::op_unit_spec(model, o, op1)->Done_0;
            let x: int = if o.unit_basis is PerCm {
                qty * (match reserved_spec(op1.params, "edge_mm"@)->0 {
                    Some(e) => e as int,
                    None => trim@[1] as int,
                }) * unit
            } else {
                qty * (trim@[0] * trim@[1]) * unit
            };
            let d: int = if o.unit_basis is PerCm {
                10
            } else {
                1000000
            };
            x >= 0 && (4 * (x % d) < d || 4 * (x % d) >= 3 * d)
        }),
    ensures
        ({
            let setup = model.operations@[lookup(model.operations@, op1.operation)->0].setup_micro as int;
            let c1 = cost_operation_spec(model, trim, qty, total_sheets, op1)->Done_0.cost_micro;
            let c2 = cost_operation_spec(model, trim, qty, total_sheets, op2)->Done_0.cost_micro;
            c2 - setup == 2 * (c1 - setup)
        }),
{
    let o = model.operations@[lookup(model.operations@, op1.operation)->0];
    let unit = crate::engine::price::op_unit_spec(model, o, op1)->Done_0;
    assert(crate::engine::price::op_unit_spec(model, o, op2) == crate::engine::price::op_unit_spec(
        model,
        o,
        op1,
    ));
    if o.unit_basis is PerCm {
        let edge: int = match reserved_spec(op1.params, "edge_mm"@)->0 {
            Some(e) => e as int,
            None => trim@[1] as int,
        };
        let x = qty * edge * unit;
        assert(1 * qty * edge * unit == x && 2 * qty * edge * unit == 2 * x) by (nonlinear_arith)
            requires
                x == qty * edge * unit,
        ;
        assert(10int % 2 == 0);
        lemma_round_half_up_double(x, 10);
    } else {
        let area = trim@[0] * trim@[1];
        let x = qty * area * unit;
        assert(1 * qty * area * unit == x && 2 * qty * area * unit == 2 * x) by (nonlinear_arith)
            requires
                x == qty * area * unit,
        ;
        assert(1000000int % 2 == 0);
        lemma_round_half_up_double(x, 1000000);
    }
}

/// The band picked for `qty` has the largest `min_qty` not above `qty`, and
/// no band applies only when every band starts above `qty`.
pub proof fn lemma_band_for_is_largest_start(bands: Seq<MarginBand>, qty: u32)
    ensures
        match band_index(bands, qty) {
            Some(i) => 0 <= i < bands.len() && bands[i].min_qty <= qty && forall|j: int|
                0 <= j < bands.len() && (#[trigger] bands[j]).min_qty <= qty ==> bands[j].min_qty
                    <= bands[i].min_qty,
            None => forall|j: int| 0 <= j < bands.len() ==> (#[trigger] bands[j]).min_qty > qty,
        },
{
    lemma_band_scan_max(bands, qty, bands.len() as int);
}

proof fn lemma_band_scan_max(bands: Seq<MarginBand>, qty: u32, n: int)
    requires
        0 <= n <= bands.len(),
    ensures
        match band_scan(bands, qty, n) {
            Some(i) => 0 <= i < n && bands[i].min_qty <= qty && forall|j: int|
                0 <= j < n && (#[trigger] bands[j]).min_qty <= qty ==> bands[j].min_qty
                    <= bands[i].min_qty,
            None => forall|j: int| 0 <= j < n ==> (#[trigger] bands[j]).min_qty > qty,
        },
    decreases n,
{
    if n > 0 {
        lemma_band_scan_max(bands, qty, n - 1);
    }
}

/// The machine chosen for a printed component costs no more than any other
/// machine that could run it; no machine is chosen only when none can.
pub proof fn lemma_cheapest_machine(ms: Seq<Machine>, x: CostCtx)
    ensures
        match best_scan(ms, x, ms.len() as int) {
            Some(b) => 0 <= b < ms.len() && eligible(ms[b], x) && forall|j: int|
                0 <= j < ms.len() && eligible(#[trigger] ms[j], x) ==> run_cost(ms[b], x)
                    <= run_cost(ms[j], x),
            None => forall|j: int| 0 <= j < ms.len() ==> !eligible(#[trigger] ms[j], x),
        },
{
    lemma_best_scan_min(ms, x, ms.len() as int);
}

proof fn lemma_best_scan_min(ms: Seq<Machine>, x: CostCtx, n: int)
    requires
        0 <= n <= ms.len(),
    ensures
        match best_scan(ms, x, n) {
            Some(b) => 0 <= b < n && eligible(ms[b], x) && forall|j: int|
                0 <= j < n && eligible(#[trigger] ms[j], x) ==> run_cost(ms[b], x) <= run_cost(
                    ms[j],
                    x,
                ),
            None => forall|j: int| 0 <= j < n ==> !eligible(#[trigger] ms[j], x),
        },
    decreases n,
{
    if n > 0 {
        lemma_best_scan_min(ms, x, n - 1);
    }
}

/// Rounding up: `ceil_div(a, b)` is the least multiple count of `b` that
/// covers `a`.
pub proof fn lemma_ceil_div_covers(a: int, b: int)
    requires
        a >= 0,
        b > 0,
    ensures
        spec_ceil_div(a, b) * b >= a,
        (spec_ceil_div(a, b) - 1) * b < a,
{
    let q = (a + b - 1) / b;
    let r = (a + b - 1) % b;
    assert(q * b + r == a + b - 1 && 0 <= r < b) by {
        vstd::arithmetic::div_mod::lemma_fundamental_div_mod(a + b - 1, b);
        vstd::arithmetic::div_mod::lemma_mod_pos_bound(a + b - 1, b);
        vstd::arithmetic::mul::lemma_mul_is_commutative(q, b);
    }
    assert(q * b >= a) by (nonlinear_arith)
        requires
            q * b + r == a + b - 1,
            r < b,
    ;
    assert((q - 1) * b < a) by (nonlinear_arith)
        requires
            q * b + r == a + b - 1,
            0 <= r,
    ;
}

/// Rounding half up: `a` lies within half of `b` of `round_half_up(a, b) * b`.
pub proof fn lemma_round_half_up_nearest(a: int, b: int)
    requires
        a >= 0,
        b > 0,
    ensures
        spec_round_half_up(a, b) * b - b / 2 <= a,
        a < spec_round_half_up(a, b) * b + b - b / 2,
{
    let h = b / 2;
    let q = (a + h) / b;
    let r = (a + h) % b;
    assert(q * b + r == a + h && 0 <= r < b) by {
        vstd::arithmetic::div_mod::lemma_fundamental_div_mod(a + h, b);
        vstd::arithmetic::div_mod::lemma_mod_pos_bound(a + h, b);
        vstd::arithmetic::mul::lemma_mul_is_commutative(q, b);
    }
}

/// The quoted total never falls below the policy's minimum price.
pub proof fn lemma_total_at_least_minimum(
    policy: PricingPolicy,
    cost: int,
    qty: u32,
    margin_override: Option<u32>,
)
    ensures
        margin_spec(policy, cost, qty, margin_override) matches Some(p) ==> p.0
            >= policy.min_price_minor,
{
}

/// Strictly ascending.
pub open spec fn ascending(s: Seq<u32>) -> bool {
    forall|i: int, j: int| 0 <= i < j < s.len() ==> s[i] < s[j]
}

proof fn lemma_insert_sorted(e: Seq<u32>, x: u32)
    requires
        ascending(e),
    ensures
        ascending(insert_sorted(e, x)),
        forall|y: u32| insert_sorted(e, x).contains(y) <==> (e.contains(y) || y == x),
{
    let r = insert_sorted(e, x);
    if !e.contains(x) {
        lemma_first_match(e, above(x));
        match first_match(e, above(x)) {
            Some(k) => {
                assert forall|i: int, j: int| 0 <= i < j < r.len() implies r[i] < r[j] by {
                    if j < k {
                    } else if j == k {
                        assert(!above(x)(e[i]));
                        assert(e[i] != x);
                    } else if i < k {
                        assert(r[j] == e[j - 1]);
                    } else if i == k {
                        assert(r[j] == e[j - 1]);
                        assert(above(x)(e[k]));
                    } else {
                    }
                }
                assert forall|y: u32| r.contains(y) <==> (e.contains(y) || y == x) by {
                    if r.contains(y) {
                        let i = choose|i: int| 0 <= i < r.len() && r[i] == y;
                        if i < k {
                            assert(e[i] == y);
                        } else if i > k {
                            assert(e[i - 1] == y);
                        }
                    }
                    if e.contains(y) {
                        let i = choose|i: int| 0 <= i < e.len() && e[i] == y;
                        if i < k {
                            assert(r[i] == y);
                        } else {
                            assert(r[i + 1] == y);
                        }
                    }
                    if y == x {
                        assert(r[k] == x);
                    }
                }
            },
            None => {
                assert forall|i: int, j: int| 0 <= i < j < r.len() implies r[i] < r[j] by {
                    if j == e.len() {
                        assert(!above(x)(e[i]));
                        assert(e[i] != x);
                    }
                }
                assert forall|y: u32| r.contains(y) <==> (e.contains(y) || y == x) by {
                    if r.contains(y) {
                        let i = choose|i: int| 0 <= i < r.len() && r[i] == y;
                        if i < e.len() {
                            assert(e[i] == y);
                        }
                    }
                    if e.contains(y) {
                        let i = choose|i: int| 0 <= i < e.len() && e[i] == y;
                        assert(r[i] == y);
                    }
                    if y == x {
                        assert(r[e.len() as int] == x);
                    }
                }
            },
        }
    }
}

/// The custom quantities added to a ladder are ascending, without repeats,
/// and are exactly the requested quantities the template ladder lacks.
pub proof fn lemma_extra_quantities(t: ProductTemplate, req: Seq<u32>)
    ensures
        ascending(extra_quantities(t, req)),
        forall|y: u32|
            extra_quantities(t, req).contains(y) <==> (req.contains(y) && !t.quantities@.contains(y)),
    decreases req.len(),
{
    if req.len() > 0 {
        let prev = req.drop_last();
        lemma_extra_quantities(t, prev);
        let x = req.last();
        if !t.quantities@.contains(x) {
            lemma_insert_sorted(extra_quantities(t, prev), x);
        }
        assert forall|y: u32| req.contains(y) <==> (prev.contains(y) || y == x) by {
            if req.contains(y) {
                let i = choose|i: int| 0 <= i < req.len() && req[i] == y;
                if i < prev.len() {
                    assert(prev[i] == y);
                }
            }
            if prev.contains(y) {
                let i = choose|i: int| 0 <= i < prev.len() && prev[i] == y;
                assert(req[i] == y);
            }
        }
        let acc = extra_quantities(t, prev);
        assert(extra_quantities(t, req) == (if t.quantities@.contains(x) {
            acc
        } else {
            insert_sorted(acc, x)
        }));
        assert forall|y: u32|
            extra_quantities(t, req).contains(y) <==> (req.contains(y) && !t.quantities@.contains(
                y,
            )) by {
            assert(acc.contains(y) <==> (prev.contains(y) && !t.quantities@.contains(y)));
        }
    }
}

/// A quote ladder starts with the template's own quantities.
pub proof fn lemma_ladder_starts_with_template(t: ProductTemplate, requested: Option<Seq<u32>>)
    ensures
        ladder_spec(t, requested) matches Ok(qs) ==> qs.len() >= t.quantities@.len()
            && qs.take(t.quantities@.len() as int) == t.quantities@,
{
    if let Ok(qs) = ladder_spec(t, requested) {
        assert(qs.take(t.quantities@.len() as int) =~= t.quantities@);
    }
}

/// Looking a key up in records indexed from a dataset finds the last record
/// of the dataset with that key.
pub proof fn lemma_indexed_lookup<T: Keyed>(records: Seq<T>, k: Seq<char>)
    ensures
        match lookup(index_by_key(records), k) {
            Some(i) => last_with_key(records, k) == Some(index_by_key(records)[i]),
            None => last_with_key(records, k) is None,
        },
{
    lemma_index_by_key_lookup(records, k);
}

/// A model built from a dataset finds, for every id, the dataset's last
/// record with that id: formats, materials, machines, operations, pricing
/// policies and templates alike.
pub proof fn lemma_model_keeps_last_record(model: PriceModel, ds: Dataset, k: Seq<char>)
    requires
        model.built_from(ds),
    ensures
        match lookup(model.formats@, k) {
            Some(i) => last_with_key(ds.formats@, k) == Some(model.formats@[i]),
            None => last_with_key(ds.formats@, k) is None,
        },
        match lookup(model.materials@, k) {
            Some(i) => last_with_key(ds.materials@, k) == Some(model.materials@[i]),
            None => last_with_key(ds.materials@, k) is None,
        },
        match lookup(model.machines@, k) {
            Some(i) => last_with_key(ds.machines@, k) == Some(model.machines@[i]),
            None => last_with_key(ds.machines@, k) is None,
        },
        match lookup(model.operations@, k) {
            Some(i) => last_with_key(ds.operations@, k) == Some(model.operations@[i]),
            None => last_with_key(ds.operations@, k) is None,
        },
        match lookup(model.pricing_policies@, k) {
            Some(i) => last_with_key(ds.pricing_policies@, k) == Some(model.pricing_policies@[i]),
            None => last_with_key(ds.pricing_policies@, k) is None,
        },
        match lookup(model.templates@, k) {
            Some(i) => last_with_key(ds.templates@, k) == Some(model.templates@[i]),
            None => last_with_key(ds.templates@, k) is None,
        },
{
    lemma_index_by_key_lookup(ds.formats@, k);
    lemma_index_by_key_lookup(ds.materials@, k);
    lemma_index_by_key_lookup(ds.machines@, k);
    lemma_index_by_key_lookup(ds.operations@, k);
    lemma_index_by_key_lookup(ds.pricing_policies@, k);
    lemma_index_by_key_lookup(ds.templates@, k);
}

/// No component under construction is pinned to a machine.
pub open spec fn unpinned(b: BuilderView) -> bool {
    forall|i: int| 0 <= i < b.components.len() ==> (#[trigger] b.components[i]).machine is None
}

/// Every material set on a component under construction is priced per
/// sheet.
pub open spec fn per_sheet_components(model: PriceModel, b: BuilderView) -> bool {
    forall|i: int|
        0 <= i < b.components.len() ==> ((#[trigger] b.components[i]).material matches Some(m)
            ==> per_sheet_material(model, m))
}

proof fn lemma_effect_keeps_unpinned(model: PriceModel, b: BuilderView, e: Effect, input: Option<u32>)
    requires
        unpinned(b),
        per_sheet_components(model, b),
    ensures
        apply_effect_spec(model, b, e, input) matches Outcome::Done(b2) ==> unpinned(b2) && b2.quantity
            == b.quantity && per_sheet_components(model, b2),
{
    reveal(apply_effect_spec);
    match e {
        Effect::SetPages { target, .. } => lemma_first_match(b.components, role_is(target@)),
        Effect::SetColors { target, .. } => lemma_first_match(b.components, role_is(target@)),
        Effect::SetMaterial { target, .. } => lemma_first_match(b.components, role_is(target@)),
        _ => {},
    }
    match apply_effect_spec(model, b, e, input) {
        Outcome::Done(b2) => {
            assert forall|i: int| 0 <= i < b2.components.len() implies (#[trigger] b2.components[i]).machine is None by {
                if i < b.components.len() {
                    assert(b.components[i].machine is None);
                }
            }
            assert forall|i: int| 0 <= i < b2.components.len() implies ((#[trigger] b2.components[i]).material
                matches Some(m) ==> per_sheet_material(model, m)) by {
                if i < b.components.len() {
                    assert(b.components[i].material matches Some(m) ==> per_sheet_material(model, m));
                }
            }
        },
        _ => {},
    }
}

proof fn lemma_effects_keep_unpinned(model: PriceModel, b: BuilderView, es: Seq<Effect>, input: Option<u32>)
    requires
        unpinned(b),
        per_sheet_components(model, b),
    ensures
        apply_effects_spec(model, b, es, input) matches Outcome::Done(b2) ==> unpinned(b2) && b2.quantity
            == b.quantity && per_sheet_components(model, b2),
    decreases es.len(),
{
    if es.len() > 0 {
        lemma_effects_keep_unpinned(model, b, es.drop_last(), input);
        match apply_effects_spec(model, b, es.drop_last(), input) {
            Outcome::Done(b1) => lemma_effect_keeps_unpinned(model, b1, es.last(), input),
            _ => {},
        }
    }
}

proof fn lemma_params_keep_unpinned(
    model: PriceModel,
    b: BuilderView,
    ps: Seq<Parameter>,
    sel: Seq<(Seq<char>, JsonView)>,
)
    requires
        unpinned(b),
        per_sheet_components(model, b),
    ensures
        apply_params_spec(model, b, ps, sel) matches Outcome::Done(b2) ==> unpinned(b2) && b2.quantity
            == b.quantity && per_sheet_components(model, b2),
    decreases ps.len(),
{
    if ps.len() > 0 {
        lemma_params_keep_unpinned(model, b, ps.drop_last(), sel);
        match apply_params_spec(model, b, ps.drop_last(), sel) {
            Outcome::Done(b1) => {
                let p = ps.last();
                match p.kind {
                    crate::engine::model::ParameterKind::Select { options } => {
                        match crate::engine::resolve::choose_option_spec(p.code@, options@, sel) {
                            Outcome::Done(i) => lemma_effects_keep_unpinned(model, b1, options@[i].effects@, None),
                            _ => {},
                        }
                    },
                    crate::engine::model::ParameterKind::Numeric { input, default, effects } => {
                        match crate::engine::resolve::choose_numeric_spec(p.code@, input, default, sel) {
                            Outcome::Done(v) => lemma_effects_keep_unpinned(model, b1, effects@, Some(v)),
                            _ => {},
                        }
                    },
                }
            },
            _ => {},
        }
    }
}

/// A template never pins a component to a machine: every component of a
/// resolved spec leaves the machine to costing. A resolved spec is for the
/// quantity it was resolved at, and every material of its components is
/// priced per sheet.
pub proof fn lemma_resolved_specs_are_unpinned(
    model: PriceModel,
    t: ProductTemplate,
    sel: Seq<(Seq<char>, JsonView)>,
    qty: u32,
)
    ensures
        resolve_spec(model, t, sel, qty) matches Outcome::Done(j) ==> j.quantity == qty && forall|i: int|
            0 <= i < j.components.len() ==> (#[trigger] j.components[i]).machine is None
                && per_sheet_material(model, j.components[i].material),
{
    let b0 = initial_builder(t, qty);
    assert(unpinned(b0));
    assert(per_sheet_components(model, b0));
    lemma_effects_keep_unpinned(model, b0, t.base_effects@, None);
    match apply_effects_spec(model, b0, t.base_effects@, None) {
        Outcome::Done(b1) => {
            lemma_params_keep_unpinned(model, b1, t.parameters@, sel);
            match apply_params_spec(model, b1, t.parameters@, sel) {
                Outcome::Done(b2) => {
                    lemma_first_match(b2.components, is_incomplete());
                    match resolve_spec(model, t, sel, qty) {
                        Outcome::Done(j) => {
                            assert forall|i: int| 0 <= i < j.components.len() implies (#[trigger] j.components[i]).machine
                                is None && per_sheet_material(model, j.components[i].material) by {
                                let c = b2.components[i];
                                assert(!is_incomplete()(c));
                                assert(c.machine is None);
                                assert(c.material matches Some(m) ==> per_sheet_material(model, m));
                            }
                        },
                        _ => {},
                    }
                },
                _ => {},
            }
        },
        _ => {},
    }
}

/// Resolving a template at each ladder quantity gives one spec per
/// quantity, each for its own quantity.
proof fn lemma_resolve_all_quantities(
    model: PriceModel,
    t: ProductTemplate,
    sel: Seq<(Seq<char>, JsonView)>,
    qs: Seq<u32>,
)
    ensures
        resolve_all_spec(model, t, sel, qs) matches Outcome::Done(specs) ==> specs.len() == qs.len()
            && forall|i: int| 0 <= i < qs.len() ==> (#[trigger] specs[i]).quantity == qs[i],
    decreases qs.len(),
{
    if qs.len() > 0 {
        lemma_resolve_all_quantities(model, t, sel, qs.drop_last());
        lemma_resolved_specs_are_unpinned(model, t, sel, qs.last());
        match resolve_all_spec(model, t, sel, qs) {
            Outcome::Done(specs) => {
                let prev = resolve_all_spec(model, t, sel, qs.drop_last())->Done_0;
                assert forall|i: int| 0 <= i < qs.len() implies (#[trigger] specs[i]).quantity == qs[i] by {
                    if i < qs.len() - 1 {
                        assert(specs[i] == prev[i]);
                    }
                }
            },
            _ => {},
        }
    }
}

/// Pricing the specs of a ladder gives one entry per spec, at the spec's
/// quantity.
proof fn lemma_price_all_quantities(
    model: PriceModel,
    policy: PricingPolicy,
    specs: Seq<JobSpecView>,
    margin_override: Option<u32>,
)
    ensures
        price_all_spec(model, policy, specs, margin_override) matches Outcome::Done(ladder) ==> ladder.len()
            == specs.len() && forall|i: int| 0 <= i < specs.len() ==> (#[trigger] ladder[i]).qty
            == specs[i].quantity,
    decreases specs.len(),
{
    if specs.len() > 0 {
        lemma_price_all_quantities(model, policy, specs.drop_last(), margin_override);
        match price_all_spec(model, policy, specs, margin_override) {
            Outcome::Done(ladder) => {
                let prev = price_all_spec(model, policy, specs.drop_last(), margin_override)->Done_0;
                assert forall|i: int| 0 <= i < specs.len() implies (#[trigger] ladder[i]).qty
                    == specs[i].quantity by {
                    if i < specs.len() - 1 {
                        assert(ladder[i] == prev[i]);
                    }
                }
            },
            _ => {},
        }
    }
}

/// Quoting is deterministic: two quotes for the same model, template,
/// selection, requested quantities and margin override agree, down to the
/// error when there is one. A quote carries the template's pricing policy's
/// currency, the model's pricelist version, and one ladder entry per ladder
/// quantity, in ladder order.
pub proof fn lemma_quote_deterministic(
    model: PriceModel,
    t: ProductTemplate,
    sel: Seq<(Seq<char>, JsonView)>,
    requested: Option<Seq<u32>>,
    margin_override: Option<u32>,
    r1: Result<Quote, EngineError>,
    r2: Result<Quote, EngineError>,
)
    requires
        result_matches(r1, quote_template_spec(model, t, sel, requested, margin_override)),
        result_matches(r2, quote_template_spec(model, t, sel, requested, margin_override)),
    ensures
        match (r1, r2) {
            (Ok(q1), Ok(q2)) => q1@ == q2@,
            (Err(e1), Err(e2)) => e1.view() == e2.view(),
            _ => false,
        },
        quote_template_spec(model, t, sel, requested, margin_override) matches Outcome::Done(q) ==> {
            let policy = model.pricing_policies@[lookup(model.pricing_policies@, t.pricing_policy@)->0];
            let qs = ladder_spec(t, requested)->Ok_0;
            &&& q.currency == policy.currency@
            &&& q.pricelist_version == model.pricelist_version
            &&& q.ladder.len() == qs.len()
            &&& forall|i: int| 0 <= i < qs.len() ==> (#[trigger] q.ladder[i]).qty == qs[i]
        },
{
    match lookup(model.pricing_policies@, t.pricing_policy@) {
        Some(pi) => match ladder_spec(t, requested) {
            Ok(qs) => {
                lemma_resolve_all_quantities(model, t, sel, qs);
                match resolve_all_spec(model, t, sel, qs) {
                    Outcome::Done(specs) => {
                        lemma_price_all_quantities(model, model.pricing_policies@[pi], specs, margin_override);
                    },
                    _ => {},
                }
            },
            _ => {},
        },
        None => {},
    }
}

/// What a digital press charges for a run of `raw` sheets at paper price
/// `price`: with no ink on either side, the setup plus the paper of the run
/// sheets. Each printed side then adds one click per run sheet: the mono
/// click for a side with exactly one ink, the colour click for a side with
/// two or more. Front and back count alike.
pub proof fn lemma_digital_run_cost(m: Machine, raw: int, price: int, front: u8, back: u8)
    requires
        m.technology == Technology::Digital,
    ensures
        machine_cost_spec(m, raw, price, Colors { front: 0, back: 0 }) == m.setup_micro + machine_sheets(
            m,
            raw,
        ) * price,
        machine_cost_spec(m, raw, price, Colors { front: 1, back }) == machine_cost_spec(
            m,
            raw,
            price,
            Colors { front: 0, back },
        ) + machine_sheets(m, raw) * m.click_mono_micro,
        front >= 2 ==> machine_cost_spec(m, raw, price, Colors { front, back }) == machine_cost_spec(
            m,
            raw,
            price,
            Colors { front: 0, back },
        ) + machine_sheets(m, raw) * m.click_color_micro,
        machine_cost_spec(m, raw, price, Colors { front, back }) == machine_cost_spec(
            m,
            raw,
            price,
            Colors { front: back, back: front },
        ),
{
    let s = machine_sheets(m, raw);
    let mono = m.click_mono_micro as int;
    let color = m.click_color_micro as int;
    let b = crate::engine::price::side_price_spec(m, back);
    let f = crate::engine::price::side_price_spec(m, front);
    assert(s * (0 + 0) == 0) by (nonlinear_arith);
    assert(s * (mono + b) == s * (0 + b) + s * mono) by (nonlinear_arith);
    assert(s * (color + b) == s * (0 + b) + s * color) by (nonlinear_arith);
    assert(s * (f + b) == s * (b + f)) by (nonlinear_arith);
}

/// An `$input` field is linear in the numeric input: `mul` per unit of
/// input on top of `add` at input zero. A literal ignores the input, and an
/// `$input` field outside a numeric parameter has no value.
pub proof fn lemma_input_field_is_linear(mul: u32, add: u32, i: u32, v: u32)
    ensures
        (NumOrInput::Input { input: InputExpr { mul, add } }).spec_resolve(Some(0)) == Some(add as int),
        i < u32::MAX ==> (NumOrInput::Input { input: InputExpr { mul, add } }).spec_resolve(Some(
            (i + 1) as u32,
        ))->0 == (NumOrInput::Input { input: InputExpr { mul, add } }).spec_resolve(Some(i))->0 + mul,
        (NumOrInput::Input { input: InputExpr { mul, add } }).spec_resolve(Some(i)) == Some(
            i * mul + add,
        ),
        (NumOrInput::Input { input: InputExpr { mul, add } }).spec_resolve(None) is None,
        NumOrInput::Literal(v).spec_resolve(Some(i)) == Some(v as int),
        NumOrInput::Literal(v).spec_resolve(None) == Some(v as int),
{
    assert((i + 1) * mul + add == i * mul + add + mul) by (nonlinear_arith);
}

/// The order comparisons of a rule condition compare numbers: on a numeric
/// attribute `x` and an integer operand `y`, `lte` holds exactly when
/// `x <= y` and `gte` exactly when `x >= y`.
pub proof fn lemma_order_conditions(job: JobSpecView, attr: String, value: JsonValue, x: int, y: i64)
    requires
        eval_attr_spec(attr@, job) == Some(AttrView::Num(x)),
        value.view() == JsonView::Number(NumberView::Int(y)),
    ensures
        eval_spec(Condition::Attr { attr, op: CmpOp::Lte, value }, job) <==> x <= y,
        eval_spec(Condition::Attr { attr, op: CmpOp::Gte, value }, job) <==> x >= y,
{
}

/// A rule that always applies and requires the quantity to be at most `y`
/// is violated exactly by the jobs whose quantity exceeds `y`.
pub proof fn lemma_quantity_cap_rule(rule: CompatibilityRule, job: JobSpecView, y: i64)
    requires
        rule.when is None,
        rule.require matches Condition::Attr { attr, op, value } && attr@ == "quantity"@ && op
            == CmpOp::Lte && value.view() == JsonView::Number(NumberView::Int(y)),
    ensures
        violations_spec(seq![rule], job).len() == 0 <==> job.quantity <= y,
{
    assert(seq![rule].drop_last() =~= Seq::<CompatibilityRule>::empty());
    match rule.require {
        Condition::Attr { attr, op, value } => {
            assert(eval_attr_spec(attr@, job) == Some(AttrView::Num(job.quantity as int)));
            lemma_order_conditions(job, attr, value, job.quantity as int, y);
            assert(rule.require == Condition::Attr { attr, op: CmpOp::Lte, value });
        },
        _ => {},
    }
    let s = seq![rule];
    assert(s.last() == rule);
    assert(violations_spec(s.drop_last(), job) == Seq::<crate::engine::error::RuleViolationView>::empty());
    assert(crate::engine::rules::is_violated_spec(rule, job) <==> !eval_spec(rule.require, job));
}

/// What an offset press charges for a run: with no ink, the setup plus
/// paper and running cost per run sheet; each ink, front or back, adds one
/// plate.
pub proof fn lemma_offset_run_cost(m: Machine, raw: int, price: int, front: u8, back: u8)
    requires
        m.technology == Technology::Offset,
    ensures
        machine_cost_spec(m, raw, price, Colors { front: 0, back: 0 }) == m.setup_micro + machine_sheets(
            m,
            raw,
        ) * (price + m.run_price_micro),
        machine_cost_spec(m, raw, price, Colors { front, back }) == machine_cost_spec(
            m,
            raw,
            price,
            Colors { front: 0, back: 0 },
        ) + (front + back) * m.plate_price_micro,
{
    assert((0 + 0) * m.plate_price_micro == 0) by (nonlinear_arith);
}

/// The sheets a press runs: the raw sheets plus the waste percentage of
/// them, rounded up to a whole sheet, plus the fixed waste.
pub proof fn lemma_run_sheets(m: Machine, raw: int)
    requires
        raw >= 0,
    ensures
        (machine_sheets(m, raw) - m.waste_fixed_sheets) * 100 >= raw * (100 + m.waste_percent),
        (machine_sheets(m, raw) - m.waste_fixed_sheets - 1) * 100 < raw * (100 + m.waste_percent),
        machine_sheets(m, raw) >= raw + m.waste_fixed_sheets,
{
    let a = raw * (100 + m.waste_percent);
    assert(a >= raw * 100) by (nonlinear_arith)
        requires
            raw >= 0,
            a == raw * (100 + m.waste_percent),
            m.waste_percent >= 0,
    ;
    lemma_ceil_div_covers(a, 100);
    assert(crate::engine::money::spec_ceil_div(a, 100) >= raw) by (nonlinear_arith)
        requires
            crate::engine::money::spec_ceil_div(a, 100) * 100 >= a,
            a >= raw * 100,
    ;
}

/// Equality conditions compare numbers: on a numeric attribute `x` and an
/// integer operand `y`, `eq` holds exactly when `x == y` and `ne` exactly
/// when they differ.
pub proof fn lemma_numeric_equality_conditions(job: JobSpecView, attr: String, value: JsonValue, x: int, y: i64)
    requires
        eval_attr_spec(attr@, job) == Some(AttrView::Num(x)),
        value.view() == JsonView::Number(NumberView::Int(y)),
    ensures
        eval_spec(Condition::Attr { attr, op: CmpOp::Eq, value }, job) <==> x == y,
        eval_spec(Condition::Attr { attr, op: CmpOp::Ne, value }, job) <==> x != y,
{
}

/// Equality conditions compare text: on a text attribute `t` and a text
/// operand `u`, `eq` holds exactly when `t == u` and `ne` exactly when they
/// differ.
pub proof fn lemma_text_equality_conditions(
    job: JobSpecView,
    attr: String,
    value: JsonValue,
    t: Seq<char>,
    u: Seq<char>,
)
    requires
        eval_attr_spec(attr@, job) == Some(AttrView::Str(t)),
        value.view() == JsonView::Str(u),
    ensures
        eval_spec(Condition::Attr { attr, op: CmpOp::Eq, value }, job) <==> t == u,
        eval_spec(Condition::Attr { attr, op: CmpOp::Ne, value }, job) <==> t != u,
{
}

/// `in` holds of a numeric attribute `x` exactly when some element of the
/// operand list is the integer `x`.
pub proof fn lemma_in_condition(job: JobSpecView, attr: String, value: JsonValue, x: int, items: Seq<JsonView>)
    requires
        eval_attr_spec(attr@, job) == Some(AttrView::Num(x)),
        value.view() == JsonView::Array(items),
    ensures
        eval_spec(Condition::Attr { attr, op: CmpOp::In, value }, job) <==> exists|i: int|
            0 <= i < items.len() && (crate::json::spec_as_i64(#[trigger] items[i]) matches Some(y) && y == x),
{
    let left = AttrView::Num(x);
    assert(eval_spec(Condition::Attr { attr, op: CmpOp::In, value }, job) == crate::engine::rules::compare_spec(
        CmpOp::In,
        left,
        value.view(),
    ));
    if eval_spec(Condition::Attr { attr, op: CmpOp::In, value }, job) {
        let i = choose|i: int| 0 <= i < items.len() && crate::engine::rules::attr_equals(left, #[trigger] items[i]);
        assert(crate::json::spec_as_i64(items[i]) matches Some(y) && y == x);
    }
    if exists|i: int|
        0 <= i < items.len() && (crate::json::spec_as_i64(#[trigger] items[i]) matches Some(y) && y == x) {
        let i = choose|i: int|
            0 <= i < items.len() && (crate::json::spec_as_i64(#[trigger] items[i]) matches Some(y) && y == x);
        assert(crate::engine::rules::attr_equals(left, items[i]));
        assert(crate::engine::rules::compare_spec(CmpOp::In, left, value.view()));
    }
}

/// `set_pages` sets the pages of the first component with the target role
/// to the value the field takes for the input, and changes nothing else;
/// with no component of that role it fails.
pub proof fn lemma_set_pages_effect(
    model: PriceModel,
    b: BuilderView,
    target: String,
    value: NumOrInput,
    input: Option<u32>,
)
    ensures
        (forall|j: int| 0 <= j < b.components.len() ==> (#[trigger] b.components[j]).role != target@)
            ==> !(apply_effect_spec(model, b, Effect::SetPages { target, value }, input) is Done),
        apply_effect_spec(model, b, Effect::SetPages { target, value }, input) matches Outcome::Done(b2) ==> {
            &&& value.spec_resolve(input) is Some
            &&& exists|i: int|
                0 <= i < b.components.len() && (#[trigger] b.components[i]).role == target@ && (forall|j: int|
                    0 <= j < i ==> b.components[j].role != target@) && b2 == (BuilderView {
                    components: b.components.update(
                        i,
                        CompBuilderView {
                            pages: Some(value.spec_resolve(input)->0 as u32),
                            ..b.components[i]
                        },
                    ),
                    ..b
                })
            &&& value.spec_resolve(input)->0 == (value.spec_resolve(input)->0 as u32) as int
        },
{
    reveal(apply_effect_spec);
    lemma_first_match(b.components, role_is(target@));
}

/// `set_colors` sets the colours of the first component with the target
/// role and changes nothing else; with no component of that role it fails.
pub proof fn lemma_set_colors_effect(model: PriceModel, b: BuilderView, target: String, value: Colors, input: Option<u32>)
    ensures
        (forall|j: int| 0 <= j < b.components.len() ==> (#[trigger] b.components[j]).role != target@)
            ==> !(apply_effect_spec(model, b, Effect::SetColors { target, value }, input) is Done),
        apply_effect_spec(model, b, Effect::SetColors { target, value }, input) matches Outcome::Done(b2)
            ==> exists|i: int|
            0 <= i < b.components.len() && (#[trigger] b.components[i]).role == target@ && (forall|j: int|
                0 <= j < i ==> b.components[j].role != target@) && b2 == (BuilderView {
                components: b.components.update(i, CompBuilderView { colors: Some(value), ..b.components[i] }),
                ..b
            }),
{
    reveal(apply_effect_spec);
    lemma_first_match(b.components, role_is(target@));
}

/// `add_operation` appends an instance of a known operation with the given
/// parameters; it fails for an operation the model lacks or one the spec
/// already has.
pub proof fn lemma_add_operation_effect(
    model: PriceModel,
    b: BuilderView,
    operation: String,
    params: crate::json::JsonMap,
    input: Option<u32>,
)
    ensures
        apply_effect_spec(model, b, Effect::AddOperation { operation, params }, input) is Done <==> (lookup(
            model.operations@,
            operation@,
        ) is Some && forall|j: int| 0 <= j < b.operations.len() ==> (#[trigger] b.operations[j]).operation
            != operation@),
        apply_effect_spec(model, b, Effect::AddOperation { operation, params }, input) matches Outcome::Done(b2)
            ==> b2 == (BuilderView {
            operations: b.operations.push(OpView { operation: operation@, params: params.view() }),
            ..b
        }),
{
    reveal(apply_effect_spec);
    lemma_first_match(b.operations, crate::engine::resolve::op_is(operation@));
}

/// `constrain_technology` narrows the allowed technologies to those both
/// already allowed and newly allowed (keeping the earlier order), fails
/// when none is left, and sets the list outright when none was set.
pub proof fn lemma_constrain_technology_effect(
    model: PriceModel,
    b: BuilderView,
    allow: Vec<Technology>,
    input: Option<u32>,
)
    ensures
        b.technology_allow is None ==> apply_effect_spec(
            model,
            b,
            Effect::ConstrainTechnology { allow },
            input,
        ) == Outcome::Done(BuilderView { technology_allow: Some(allow@), ..b }),
        apply_effect_spec(model, b, Effect::ConstrainTechnology { allow }, input) matches Outcome::Done(b2)
            ==> b2 == (BuilderView { technology_allow: b2.technology_allow, ..b }) && b2.technology_allow is Some
            && (b.technology_allow matches Some(prev) ==> forall|t: Technology|
            b2.technology_allow->0.contains(t) <==> (prev.contains(t) && allow@.contains(t))),
        (b.technology_allow matches Some(prev) && forall|t: Technology| prev.contains(t) ==> !allow@.contains(t))
            ==> !(apply_effect_spec(model, b, Effect::ConstrainTechnology { allow }, input) is Done),
{
    reveal(apply_effect_spec);
    match b.technology_allow {
        Some(prev) => {
            lemma_keep_allowed_members(prev, allow@);
            let k = crate::engine::resolve::keep_allowed(prev, allow@);
            if k.len() > 0 {
                assert(k.contains(k[0]));
                assert(prev.contains(k[0]) && allow@.contains(k[0]));
            }
        },
        None => {},
    }
}

/// What survives of `prev` under `allow` is exactly what both hold.
proof fn lemma_keep_allowed_members(prev: Seq<Technology>, allow: Seq<Technology>)
    ensures
        forall|t: Technology|
            crate::engine::resolve::keep_allowed(prev, allow).contains(t) <==> (prev.contains(t)
                && allow.contains(t)),
    decreases prev.len(),
{
    if prev.len() > 0 {
        lemma_keep_allowed_members(prev.drop_last(), allow);
        let k0 = crate::engine::resolve::keep_allowed(prev.drop_last(), allow);
        let k = crate::engine::resolve::keep_allowed(prev, allow);
        assert forall|t: Technology| k.contains(t) <==> (prev.contains(t) && allow.contains(t)) by {
            if prev.contains(t) {
                let i = choose|i: int| 0 <= i < prev.len() && prev[i] == t;
                if i < prev.len() - 1 {
                    assert(prev.drop_last()[i] == t);
                }
            }
            if prev.drop_last().contains(t) {
                let i = choose|i: int| 0 <= i < prev.drop_last().len() && prev.drop_last()[i] == t;
                assert(prev[i] == t);
            }
            if allow.contains(prev.last()) {
                assert(k == k0.push(prev.last()));
                if k.contains(t) {
                    let i = choose|i: int| 0 <= i < k.len() && k[i] == t;
                    if i < k0.len() {
                        assert(k0[i] == t);
                    }
                }
                if k0.contains(t) {
                    let i = choose|i: int| 0 <= i < k0.len() && k0[i] == t;
                    assert(k[i] == t);
                }
                assert(k[k0.len() as int] == prev.last());
            }
        }
    }
}

/// The total of a quote: the marked-up cost (the override, else the
/// quantity's band multiplier, in basis points) rounded half up to micro
/// units, then up to whole minor units and up to the policy's step, and
/// never below the minimum price. It covers the marked-up cost, and is a
/// whole number of steps unless the minimum price lifted it. The unit price
/// is the total per item, rounded half up.
pub proof fn lemma_margin_rounding(policy: PricingPolicy, cost: int, qty: u32, margin_override: Option<u32>)
    requires
        cost >= 0,
        policy.rounding.step_minor > 0,
    ensures
        margin_spec(policy, cost, qty, margin_override) matches Some(p) ==> {
            let bp: int = match margin_override {
                Some(m) => m as int,
                None => crate::engine::model::band_multiplier(policy, qty) as int,
            };
            let step = policy.rounding.step_minor as int;
            &&& p.0 * 10000 >= spec_round_half_up(cost * bp, 10000)
            &&& p.0 >= policy.min_price_minor
            &&& (p.0 == policy.min_price_minor || p.0 % step == 0)
            &&& p.1 * qty - qty / 2 <= p.0 < p.1 * qty + qty - qty / 2
        },
{
    let bp: int = match margin_override {
        Some(m) => m as int,
        None => crate::engine::model::band_multiplier(policy, qty) as int,
    };
    let step = policy.rounding.step_minor as int;
    let a = cost * bp;
    if let Some(p) = margin_spec(policy, cost, qty, margin_override) {
        assert(a >= 0) by (nonlinear_arith)
            requires
                cost >= 0,
                bp >= 0,
                a == cost * bp,
        ;
        let price = spec_round_half_up(a, 10000);
        assert(price >= 0) by {
            vstd::arithmetic::div_mod::lemma_div_pos_is_pos(a + 5000, 10000);
        }
        let t1 = spec_ceil_div(price, 10000);
        lemma_ceil_div_covers(price, 10000);
        assert(t1 >= 0) by {
            vstd::arithmetic::div_mod::lemma_div_pos_is_pos(price + 9999, 10000);
        }
        let q = spec_ceil_div(t1, step);
        lemma_ceil_div_covers(t1, step);
        let t2 = q * step;
        assert(t2 % step == 0) by {
            vstd::arithmetic::div_mod::lemma_mod_multiples_basic(q, step);
        }
        assert(t2 * 10000 >= price) by (nonlinear_arith)
            requires
                t2 >= t1,
                t1 * 10000 >= price,
        ;
        let t3 = p.0;
        assert(t3 >= 0) by {
            assert(t3 >= t2);
            assert(t2 >= 0) by (nonlinear_arith)
                requires
                    t2 >= t1,
                    t1 >= 0,
            ;
        }
        assert(t3 * 10000 >= t2 * 10000) by (nonlinear_arith)
            requires
                t3 >= t2,
        ;
        assert(qty > 0);
        lemma_round_half_up_nearest(t3, qty as int);
    }
}

/// A machine can run a component exactly when each of these holds: its
/// technology is allowed (or none is constrained), it prints both sides
/// where the back is printed, the stock is printable and no heavier than
/// the machine takes, the stock's sheet is the machine's sheet, and at least
/// one item fits on that sheet.
pub proof fn lemma_capability(
    m: Machine,
    allow: Option<Seq<Technology>>,
    colors: Colors,
    printable: Option<crate::engine::model::Printable>,
    sheet: [u32; 2],
    trim: [u32; 2],
)
    ensures
        crate::engine::price::is_capable_spec(m, allow, colors, printable, sheet, trim) <==> {
            &&& (allow matches Some(a) ==> a.contains(m.technology))
            &&& (colors.back > 0 ==> m.duplex)
            &&& (printable matches Some(p) && p.grammage_gsm <= m.max_grammage_gsm)
            &&& sheet == m.sheet_size_mm
            &&& ups_spec(m.sheet_size_mm, trim) > 0
        },
{
    if sheet@[0] == m.sheet_size_mm@[0] && sheet@[1] == m.sheet_size_mm@[1] {
        assert(sheet@ =~= m.sheet_size_mm@);
        assert(sheet == m.sheet_size_mm);
    }
}

} // verus!
