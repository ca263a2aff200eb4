//! Pricing: a `JobSpec` becomes a cost [`Breakdown`], and a template +
//! selection becomes a price [`Quote`] ladder.
//!
//! A margin override replaces the policy band multiplier; [`Breakdown`] is the
//! back-office breakdown. All arithmetic is integer µ-units.
use vstd::prelude::*;

use crate::engine::error::{EngineError, EngineErrorView, PriceError, PriceErrorView, ResolveError, ResolveErrorView};
use crate::engine::model::{
    band_multiplier, find_keyed, lookup, Colors, Machine, PriceModel, PricingPolicy, Printable,
    Technology, UnitBasis,
};
use crate::engine::money::{
    ceil_div, fits_i64, round_half_up, spec_ceil_div, spec_round_half_up, tdiv, BLEED_MM,
    MICRO_PER_MINOR,
};
use crate::engine::outcome::{fail_resolve, result_matches, Outcome};
use crate::engine::resolve::{opt_str_view, Component, ComponentView, JobSpec, JobSpecView, OpView, OperationInstance};
use crate::json::{map_get, spec_as_u64, JsonView};
use crate::text::{seq_lt, str_eq, str_lt};
use crate::engine::model::ProductTemplate;
use crate::engine::resolve::{resolve, resolve_spec, Selection};
use crate::engine::rules::{violations_spec, CompatibilityRule};
use crate::engine::error::{RuleViolation, RuleViolationView};
use crate::seqs::{first_match, lemma_first_match_is, lemma_first_match_none};

verus! {

#[derive(Debug, PartialEq)]
pub struct Breakdown {
    pub components: Vec<ComponentCost>,
    pub operations: Vec<OperationCost>,
    pub cost_micro: i64,
    pub total_minor: i64,
    pub unit_minor: i64,
}

#[derive(Debug, PartialEq)]
pub struct ComponentCost {
    pub role: String,
    /// `None` for an unprinted (`0/0`) component — no machine involved.
    pub machine_id: Option<String>,
    pub sheets: u32,
    pub cost_micro: i64,
}

#[derive(Debug, PartialEq)]
pub struct OperationCost {
    pub operation: String,
    pub cost_micro: i64,
}

#[derive(Debug, Clone, Copy, PartialEq, Eq, Structural)]
pub struct LadderEntry {
    pub qty: u32,
    pub total_minor: i64,
    pub unit_minor: i64,
}

#[derive(Debug, PartialEq)]
pub struct Quote {
    pub currency: String,
    pub pricelist_version: i64,
    pub ladder: Vec<LadderEntry>,
}

pub struct ComponentCostView {
    pub role: Seq<char>,
    pub machine_id: Option<Seq<char>>,
    pub sheets: u32,
    pub cost_micro: int,
}

pub struct OperationCostView {
    pub operation: Seq<char>,
    pub cost_micro: int,
}

pub struct BreakdownView {
    pub components: Seq<ComponentCostView>,
    pub operations: Seq<OperationCostView>,
    pub cost_micro: int,
    pub total_minor: int,
    pub unit_minor: int,
}

pub struct QuoteView {
    pub currency: Seq<char>,
    pub pricelist_version: i64,
    pub ladder: Seq<LadderEntry>,
}

impl View for ComponentCost {
    type V = ComponentCostView;

    open spec fn view(&self) -> ComponentCostView {
        ComponentCostView {
            role: self.role@,
            machine_id: opt_str_view(self.machine_id),
            sheets: self.sheets,
            cost_micro: self.cost_micro as int,
        }
    }
}

impl View for OperationCost {
    type V = OperationCostView;

    open spec fn view(&self) -> OperationCostView {
        OperationCostView { operation: self.operation@, cost_micro: self.cost_micro as int }
    }
}

impl View for Breakdown {
    type V = BreakdownView;

    open spec fn view(&self) -> BreakdownView {
        BreakdownView {
            components: self.components@.map_values(|c: ComponentCost| c@),
            operations: self.operations@.map_values(|o: OperationCost| o@),
            cost_micro: self.cost_micro as int,
            total_minor: self.total_minor as int,
            unit_minor: self.unit_minor as int,
        }
    }
}

impl View for LadderEntry {
    type V = LadderEntry;

    open spec fn view(&self) -> LadderEntry {
        *self
    }
}

impl View for Quote {
    type V = QuoteView;

    open spec fn view(&self) -> QuoteView {
        QuoteView {
            currency: self.currency@,
            pricelist_version: self.pricelist_version,
            ladder: self.ladder@,
        }
    }
}

/// The footprint of a trimmed item on the sheet: trim plus bleed on each side.
pub open spec fn footprint(trim: [u32; 2]) -> (int, int) {
    (trim@[0] + 2 * BLEED_MM, trim@[1] + 2 * BLEED_MM)
}

pub open spec fn ups_straight(sheet: [u32; 2], trim: [u32; 2]) -> int {
    ((sheet@[0] as int) / footprint(trim).0) * ((sheet@[1] as int) / footprint(trim).1)
}

pub open spec fn ups_rotated(sheet: [u32; 2], trim: [u32; 2]) -> int {
    ((sheet@[0] as int) / footprint(trim).1) * ((sheet@[1] as int) / footprint(trim).0)
}

/// Imposition: how many trimmed items fit on a press sheet, the better of
/// both orientations.
pub open spec fn ups_spec(sheet: [u32; 2], trim: [u32; 2]) -> int {
    if ups_straight(sheet, trim) >= ups_rotated(sheet, trim) {
        ups_straight(sheet, trim)
    } else {
        ups_rotated(sheet, trim)
    }
}

/// The footprint and both counts fit `u32`.
pub open spec fn ups_defined(sheet: [u32; 2], trim: [u32; 2]) -> bool {
    &&& footprint(trim).0 <= u32::MAX
    &&& footprint(trim).1 <= u32::MAX
    &&& ups_straight(sheet, trim) <= u32::MAX
    &&& ups_rotated(sheet, trim) <= u32::MAX
}

/// Imposition: how many trimmed items fit on a press sheet, trying both
/// orientations. `0` means the item is larger than the sheet.
pub fn ups(sheet: [u32; 2], trim: [u32; 2]) -> (r: u32)
    requires
        ups_defined(sheet, trim),
    ensures
        r == ups_spec(sheet, trim),
{
    let fp0 = trim[0] + 2 * BLEED_MM;
    let fp1 = trim[1] + 2 * BLEED_MM;
    let straight = (sheet[0] / fp0) * (sheet[1] / fp1);
    let rotated = (sheet[0] / fp1) * (sheet[1] / fp0);
    if straight >= rotated {
        straight
    } else {
        rotated
    }
}

pub open spec fn side_price_spec(m: Machine, inks: u8) -> int {
    if inks == 0 {
        0
    } else if inks == 1 {
        m.click_mono_micro as int
    } else {
        m.click_color_micro as int
    }
}

/// Sheets a machine runs: the raw sheets plus percent waste (rounded up),
/// plus fixed waste.
pub open spec fn machine_sheets(m: Machine, raw: int) -> int {
    spec_ceil_div(raw * (100 + m.waste_percent), 100) + m.waste_fixed_sheets
}

/// What a machine charges for a run.
pub open spec fn machine_cost_spec(m: Machine, raw: int, price: int, colors: Colors) -> int {
    let s = machine_sheets(m, raw);
    match m.technology {
        Technology::Digital => m.setup_micro + s * price + s * (side_price_spec(m, colors.front)
            + side_price_spec(m, colors.back)),
        Technology::Offset => m.setup_micro + (colors.front + colors.back) * m.plate_price_micro + s
            * (price + m.run_price_micro),
    }
}

/// Every intermediate of [`machine_cost_spec`] fits machine arithmetic.
pub open spec fn machine_cost_defined(m: Machine, raw: int, price: int, colors: Colors) -> bool {
    let a = raw * (100 + m.waste_percent);
    let s = machine_sheets(m, raw);
    &&& fits_i64(a + 100)
    &&& fits_i64(a + 99)
    &&& fits_i64(s)
    &&& match m.technology {
        Technology::Digital => {
            let clicks = side_price_spec(m, colors.front) + side_price_spec(m, colors.back);
            &&& fits_i64(clicks)
            &&& fits_i64(s * price)
            &&& fits_i64(m.setup_micro + s * price)
            &&& fits_i64(s * clicks)
            &&& fits_i64(m.setup_micro + s * price + s * clicks)
        },
        Technology::Offset => {
            let plates = colors.front + colors.back;
            &&& plates <= u8::MAX
            &&& fits_i64(plates * m.plate_price_micro)
            &&& fits_i64(m.setup_micro + plates * m.plate_price_micro)
            &&& fits_i64(price + m.run_price_micro)
            &&& fits_i64(s * (price + m.run_price_micro))
            &&& fits_i64(m.setup_micro + plates * m.plate_price_micro + s * (price + m.run_price_micro))
        },
    }
}

fn side_price(machine: &Machine, inks: u8) -> (r: i64)
    ensures
        r == side_price_spec(*machine, inks),
{
    if inks == 0 {
        0
    } else if inks == 1 {
        machine.click_mono_micro
    } else {
        machine.click_color_micro
    }
}

/// `(sheets, cost_micro)` for one capable machine.
fn machine_cost(machine: &Machine, raw_sheets: i64, price_micro: i64, colors: Colors) -> (r: (
    i64,
    i64,
))
    requires
        raw_sheets >= 0,
        machine_cost_defined(*machine, raw_sheets as int, price_micro as int, colors),
    ensures
        r.0 == machine_sheets(*machine, raw_sheets as int),
        r.1 == machine_cost_spec(*machine, raw_sheets as int, price_micro as int, colors),
{
    let w = 100 + machine.waste_percent as i64;
    proof {
        assert(0 <= raw_sheets * w) by (nonlinear_arith)
            requires
                raw_sheets >= 0,
                w >= 0,
        ;
    }
    let sheets = ceil_div(raw_sheets * w, 100) + machine.waste_fixed_sheets as i64;
    let cost = match machine.technology {
        Technology::Digital => {
            let clicks = side_price(machine, colors.front) + side_price(machine, colors.back);
            machine.setup_micro + sheets * price_micro + sheets * clicks
        },
        Technology::Offset => {
            let plates = (colors.front + colors.back) as i64;
            machine.setup_micro + plates * machine.plate_price_micro + sheets * (price_micro
                + machine.run_price_micro)
        },
    };
    (sheets, cost)
}

/// Whether `allow` (when present) holds technology `t`.
pub open spec fn tech_allowed(allow: Option<Seq<Technology>>, t: Technology) -> bool {
    match allow {
        Some(a) => a.contains(t),
        None => true,
    }
}

/// A machine can run a component: allowed technology, duplex for a printed
/// back, a printable stock within its grammage, the stock's sheet size, and
/// an item that fits its sheet.
pub open spec fn is_capable_spec(
    m: Machine,
    allow: Option<Seq<Technology>>,
    colors: Colors,
    printable: Option<Printable>,
    sheet: [u32; 2],
    trim: [u32; 2],
) -> bool {
    &&& tech_allowed(allow, m.technology)
    &&& (colors.back == 0 || m.duplex)
    &&& (printable matches Some(p) && p.grammage_gsm <= m.max_grammage_gsm)
    &&& sheet@[0] == m.sheet_size_mm@[0]
    &&& sheet@[1] == m.sheet_size_mm@[1]
    &&& ups_spec(m.sheet_size_mm, trim) >= 1
}

fn techs_contain(allow: &[Technology], t: Technology) -> (r: bool)
    ensures
        r == allow@.contains(t),
{
    let mut i: usize = 0;
    while i < allow.len()
        invariant
            i <= allow.len(),
            forall|j: int| 0 <= j < i ==> allow@[j] != t,
        decreases allow.len() - i,
    {
        if allow[i] == t {
            return true;
        }
        i += 1;
    }
    false
}

fn is_capable(
    machine: &Machine,
    technology_allow: Option<&[Technology]>,
    colors: Colors,
    printable: Option<Printable>,
    sheet_size: [u32; 2],
    trim: [u32; 2],
) -> (r: bool)
    requires
        ups_defined(machine.sheet_size_mm, trim),
    ensures
        r == is_capable_spec(
            *machine,
            match technology_allow {
                Some(a) => Some(a@),
                None => None,
            },
            colors,
            printable,
            sheet_size,
            trim,
        ),
{
    let tech_ok = match technology_allow {
        Some(allow) => techs_contain(allow, machine.technology),
        None => true,
    };
    let duplex_ok = colors.back == 0 || machine.duplex;
    let grammage_ok = match printable {
        Some(p) => p.grammage_gsm <= machine.max_grammage_gsm,
        None => false,
    };
    let sheet_ok = sheet_size[0] == machine.sheet_size_mm[0] && sheet_size[1]
        == machine.sheet_size_mm[1];
    let fits = ups(machine.sheet_size_mm, trim) >= 1;
    tech_ok && duplex_ok && grammage_ok && sheet_ok && fits
}

/// What machine choice for one printed component depends on.
pub struct CostCtx {
    pub comp: ComponentView,
    pub allow: Option<Seq<Technology>>,
    pub printable: Option<Printable>,
    pub sheet: [u32; 2],
    pub trim: [u32; 2],
    pub raw: int,
    pub price: int,
}

/// The component is pinned to another machine.
pub open spec fn pinned_out(m: Machine, x: CostCtx) -> bool {
    x.comp.machine matches Some(pin) && m.id@ != pin
}

pub open spec fn eligible(m: Machine, x: CostCtx) -> bool {
    !pinned_out(m, x) && is_capable_spec(m, x.allow, x.comp.colors, x.printable, x.sheet, x.trim)
}

pub open spec fn run_cost(m: Machine, x: CostCtx) -> int {
    machine_cost_spec(m, x.raw, x.price, x.comp.colors)
}

/// `a` beats `b`: cheaper, or as cheap with the smaller id.
pub open spec fn cheaper(a: Machine, b: Machine, x: CostCtx) -> bool {
    run_cost(a, x) < run_cost(b, x) || (run_cost(a, x) == run_cost(b, x) && seq_lt(a.id@, b.id@))
}

/// Scanning `ms[..n]`: index of the cheapest eligible machine, ties going to
/// the smallest id.
pub open spec fn best_scan(ms: Seq<Machine>, x: CostCtx, n: int) -> Option<int>
    decreases n,
{
    if n <= 0 {
        None
    } else {
        let prev = best_scan(ms, x, n - 1);
        if eligible(ms[n - 1], x) && (prev is None || cheaper(ms[n - 1], ms[prev->0], x)) {
            Some(n - 1)
        } else {
            prev
        }
    }
}

pub proof fn lemma_best_scan_bounds(ms: Seq<Machine>, x: CostCtx, n: int)
    requires
        n <= ms.len(),
    ensures
        best_scan(ms, x, n) matches Some(i) ==> 0 <= i < n && eligible(ms[i], x),
    decreases n,
{
    if n > 0 {
        lemma_best_scan_bounds(ms, x, n - 1);
    }
}

/// Every machine the scan looks at can be measured and, when eligible,
/// costed in machine arithmetic.
pub open spec fn machines_defined(ms: Seq<Machine>, x: CostCtx) -> bool {
    forall|j: int|
        0 <= j < ms.len() && !pinned_out(#[trigger] ms[j], x) ==> ups_defined(ms[j].sheet_size_mm, x.trim)
            && (eligible(ms[j], x) ==> machine_cost_defined(ms[j], x.raw, x.price, x.comp.colors))
}

pub open spec fn price_err<T>(e: PriceErrorView) -> Outcome<T> {
    Outcome::Fail(EngineErrorView::Price(e))
}

/// The cost of one component at quantity `qty`.
pub open spec fn cost_component_spec(
    model: PriceModel,
    trim: [u32; 2],
    allow: Option<Seq<Technology>>,
    qty: int,
    c: ComponentView,
) -> Outcome<ComponentCostView> {
    match lookup(model.materials@, c.material) {
        None => fail_resolve(ResolveErrorView::DanglingReference(c.material)),
        Some(mi) => {
            let mat = model.materials@[mi];
            match mat.pricing.spec_sheet_size_mm() {
                None => fail_resolve(ResolveErrorView::DanglingReference(c.material)),
                Some(sheet) => if !ups_defined(sheet, trim) {
                    Outcome::Aborts
                } else if ups_spec(sheet, trim) == 0 {
                    price_err(PriceErrorView::ItemLargerThanSheet(c.role))
                } else {
                    let u = ups_spec(sheet, trim);
                    let leaves = spec_ceil_div(c.pages as int, 2);
                    let price = mat.pricing.spec_price_micro() as int;
                    if !fits_i64(qty * leaves + u) {
                        Outcome::Aborts
                    } else {
                        let raw = spec_ceil_div(qty * leaves, u);
                        if c.colors.front == 0 && c.colors.back == 0 {
                            if !fits_i64(raw * price) {
                                Outcome::Aborts
                            } else {
                                Outcome::Done(
                                    ComponentCostView {
                                        role: c.role,
                                        machine_id: None,
                                        sheets: raw as u32,
                                        cost_micro: raw * price,
                                    },
                                )
                            }
                        } else {
                            let x = CostCtx {
                                comp: c,
                                allow,
                                printable: mat.printable,
                                sheet,
                                trim,
                                raw,
                                price,
                            };
                            if !machines_defined(model.machines@, x) {
                                Outcome::Aborts
                            } else {
                                match best_scan(model.machines@, x, model.machines@.len() as int) {
                                    None => price_err(PriceErrorView::NoCapableMachine(c.role)),
                                    Some(k) => Outcome::Done(
                                        ComponentCostView {
                                            role: c.role,
                                            machine_id: Some(model.machines@[k].id@),
                                            sheets: machine_sheets(model.machines@[k], raw) as u32,
                                            cost_micro: run_cost(model.machines@[k], x),
                                        },
                                    ),
                                }
                            }
                        }
                    }
                },
            }
        },
    }
}

pub open spec fn techs_view(a: Option<&[Technology]>) -> Option<Seq<Technology>> {
    match a {
        Some(s) => Some(s@),
        None => None,
    }
}

fn cost_component(
    model: &PriceModel,
    trim: [u32; 2],
    technology_allow: Option<&[Technology]>,
    qty: u32,
    comp: &Component,
) -> (r: Result<ComponentCost, EngineError>)
    requires
        !(cost_component_spec(*model, trim, techs_view(technology_allow), qty as int, comp@) is Aborts),
    ensures
        result_matches(r, cost_component_spec(*model, trim, techs_view(technology_allow), qty as int, comp@)),
{
    let mi = match find_keyed(&model.materials, comp.material.as_str()) {
        Some(i) => i,
        None => {
            return Err(EngineError::Resolve(ResolveError::DanglingReference(comp.material.clone())));
        },
    };
    let material = &model.materials[mi];
    let sheet_size = match material.pricing.sheet_size_mm() {
        Some(s) => s,
        None => {
            return Err(EngineError::Resolve(ResolveError::DanglingReference(comp.material.clone())));
        },
    };
    let price_micro = material.pricing.price_micro();
    let ups_val = ups(sheet_size, trim);
    if ups_val == 0 {
        return Err(EngineError::Price(PriceError::ItemLargerThanSheet(comp.role.clone())));
    }
    let leaves = ceil_div(comp.pages as i64, 2);
    let q = qty as i64;
    proof {
        assert(0 <= leaves <= 2147483648) by {
            assert(leaves == (comp.pages + 1) / 2);
        }
        assert(0 <= q * leaves) by (nonlinear_arith)
            requires
                q >= 0,
                leaves >= 0,
        ;
    }
    let raw_sheets = ceil_div(q * leaves, ups_val as i64);
    proof {
        assert(raw_sheets >= 0);
    }
    if comp.colors.is_unprinted() {
        return Ok(
            ComponentCost {
                role: comp.role.clone(),
                machine_id: None,
                sheets: raw_sheets as u32,
                cost_micro: raw_sheets * price_micro,
            },
        );
    }
    let ghost x = CostCtx {
        comp: comp@,
        allow: techs_view(technology_allow),
        printable: material.printable,
        sheet: sheet_size,
        trim,
        raw: raw_sheets as int,
        price: price_micro as int,
    };
    let ghost ms = model.machines@;
    let printable = material.printable;
    // (index, sheets, cost) of the best machine so far
    let mut best: Option<(usize, i64, i64)> = None;
    let mut i: usize = 0;
    while i < model.machines.len()
        invariant
            i <= model.machines.len(),
            ms == model.machines@,
            machines_defined(ms, x),
            x.comp == comp@,
            x.allow == techs_view(technology_allow),
            x.printable == printable,
            x.sheet == sheet_size,
            x.trim == trim,
            x.raw == raw_sheets,
            x.price == price_micro,
            raw_sheets >= 0,
            match best {
                Some(b) => b.0 < i && best_scan(ms, x, i as int) == Some(b.0 as int) && b.1
                    == machine_sheets(ms[b.0 as int], x.raw) && b.2 == run_cost(ms[b.0 as int], x),
                None => best_scan(ms, x, i as int) is None,
            },
        decreases model.machines.len() - i,
    {
        proof {
            lemma_best_scan_bounds(ms, x, i as int);
        }
        let machine = &model.machines[i];
        let pinned_ok = match &comp.machine {
            Some(pin) => crate::text::str_eq(machine.id.as_str(), pin.as_str()),
            None => true,
        };
        if pinned_ok {
            assert(!pinned_out(ms[i as int], x));
            if is_capable(machine, technology_allow, comp.colors, printable, sheet_size, trim) {
                assert(eligible(ms[i as int], x));
                let (sheets, cost) = machine_cost(machine, raw_sheets, price_micro, comp.colors);
                let take = match best {
                    None => true,
                    Some(b) => cost < b.2 || (cost == b.2 && str_lt(
                        machine.id.as_str(),
                        model.machines[b.0].id.as_str(),
                    )),
                };
                if take {
                    best = Some((i, sheets, cost));
                }
            }
        }
        i += 1;
    }
    match best {
        None => Err(EngineError::Price(PriceError::NoCapableMachine(comp.role.clone()))),
        Some(b) => Ok(
            ComponentCost {
                role: comp.role.clone(),
                machine_id: Some(model.machines[b.0].id.clone()),
                sheets: b.1 as u32,
                cost_micro: b.2,
            },
        ),
    }
}

/// A reserved positive `u32` parameter of an operation: `Some(None)` when
/// absent, `None` when present but not an integer in `1..=u32::MAX`.
pub open spec fn reserved_spec(params: Seq<(Seq<char>, JsonView)>, key: Seq<char>) -> Option<Option<u32>> {
    match map_get(params, key) {
        None => Some(None),
        Some(JsonView::Number(n)) => match spec_as_u64(JsonView::Number(n)) {
            Some(v) => if v >= 1 && v <= u32::MAX {
                Some(Some(v as u32))
            } else {
                None
            },
            None => None,
        },
        Some(_) => None,
    }
}

fn reserved_u32(op: &OperationInstance, key: &str) -> (r: Result<Option<u32>, PriceError>)
    ensures
        match reserved_spec(op.params.view(), key@) {
            Some(v) => r == Ok::<Option<u32>, PriceError>(v),
            None => r matches Err(e) && e.view() == PriceErrorView::InvalidReservedParam(
                op.operation@,
            ),
        },
{
    match op.params.get(key) {
        None => Ok(None),
        Some(value) => {
            if value.is_number() {
                match value.as_u64() {
                    Some(v) => {
                        if v >= 1 && v <= 4294967295u64 {
                            Ok(Some(v as u32))
                        } else {
                            Err(PriceError::InvalidReservedParam(op.operation.clone()))
                        }
                    },
                    None => Err(PriceError::InvalidReservedParam(op.operation.clone())),
                }
            } else {
                Err(PriceError::InvalidReservedParam(op.operation.clone()))
            }
        },
    }
}

/// The unit price of an operation instance: the operation's own, plus a
/// consumed material's price when a `material` parameter names one (whose
/// basis must match the operation's, `E204`).
pub open spec fn op_unit_spec(model: PriceModel, o: crate::engine::model::Operation, op: OpView) -> Outcome<int> {
    match map_get(op.params, "material"@) {
        None => Outcome::Done(o.unit_price_micro as int),
        Some(JsonView::Str(mid)) => match lookup(model.materials@, mid) {
            None => fail_resolve(ResolveErrorView::DanglingReference(mid)),
            Some(mi) => {
                let mat = model.materials@[mi];
                if mat.pricing.spec_basis() != o.unit_basis {
                    price_err(PriceErrorView::MaterialBasisMismatch(op.operation))
                } else if !fits_i64(o.unit_price_micro + mat.pricing.spec_price_micro()) {
                    Outcome::Aborts
                } else {
                    Outcome::Done(o.unit_price_micro + mat.pricing.spec_price_micro())
                }
            },
        },
        Some(_) => fail_resolve(ResolveErrorView::DanglingReference(op.operation)),
    }
}

/// An operation's setup plus its scaled unit term, when that sum fits.
pub open spec fn op_total(setup: int, product: int) -> Outcome<int> {
    if fits_i64(setup + product) {
        Outcome::Done(setup + product)
    } else {
        Outcome::Aborts
    }
}

/// The cost of one operation instance.
pub open spec fn cost_operation_spec(
    model: PriceModel,
    trim: [u32; 2],
    qty: int,
    total_sheets: int,
    op: OpView,
) -> Outcome<OperationCostView> {
    match lookup(model.operations@, op.operation) {
        None => fail_resolve(ResolveErrorView::DanglingReference(op.operation)),
        Some(oi) => {
            let o = model.operations@[oi];
            match op_unit_spec(model, o, op) {
                Outcome::Fail(e) => Outcome::Fail(e),
                Outcome::Aborts => Outcome::Aborts,
                Outcome::Done(unit) => match reserved_spec(op.params, "units_multiplier"@) {
                    None => price_err(PriceErrorView::InvalidReservedParam(op.operation)),
                    Some(mo) => {
                        let m: int = match mo {
                            Some(v) => v as int,
                            None => 1,
                        };
                        let setup = o.setup_micro as int;
                        let total: Outcome<int> = match o.unit_basis {
                            UnitBasis::PerItem => if fits_i64(m * qty) && fits_i64(m * qty * unit) {
                                op_total(setup, m * qty * unit)
                            } else {
                                Outcome::Aborts
                            },
                            UnitBasis::PerSheet => if fits_i64(m * total_sheets) && fits_i64(
                                m * total_sheets * unit,
                            ) {
                                op_total(setup, m * total_sheets * unit)
                            } else {
                                Outcome::Aborts
                            },
                            UnitBasis::PerCm => match reserved_spec(op.params, "edge_mm"@) {
                                None => price_err(PriceErrorView::InvalidReservedParam(op.operation)),
                                Some(eo) => {
                                    let edge: int = match eo {
                                        Some(e) => e as int,
                                        None => trim@[1] as int,
                                    };
                                    let x = m * qty * edge * unit;
                                    if fits_i64(m * qty) && fits_i64(m * qty * edge) && fits_i64(x)
                                        && fits_i64(x + 5) {
                                        op_total(setup, spec_round_half_up(x, 10))
                                    } else {
                                        Outcome::Aborts
                                    }
                                },
                            },
                            UnitBasis::PerM2 => {
                                let area = trim@[0] * trim@[1];
                                let x = m * qty * area * unit;
                                if fits_i64(area) && fits_i64(m * qty) && fits_i64(m * qty * area)
                                    && fits_i64(x) && fits_i64(x + 500000) {
                                    op_total(setup, spec_round_half_up(x, 1000000))
                                } else {
                                    Outcome::Aborts
                                }
                            },
                        };
                        match total {
                            Outcome::Done(t) => Outcome::Done(
                                OperationCostView { operation: op.operation, cost_micro: t },
                            ),
                            Outcome::Fail(e) => Outcome::Fail(e),
                            Outcome::Aborts => Outcome::Aborts,
                        }
                    },
                },
            }
        },
    }
}

fn op_unit(model: &PriceModel, operation: &crate::engine::model::Operation, op: &OperationInstance) -> (r:
    Result<i64, EngineError>)
    requires
        !(op_unit_spec(*model, *operation, op@) is Aborts),
    ensures
        match op_unit_spec(*model, *operation, op@) {
            Outcome::Done(u) => r == Ok::<i64, EngineError>(u as i64),
            Outcome::Fail(e) => r matches Err(x) && x.view() == e,
            Outcome::Aborts => false,
        },
{
    let mut unit = operation.unit_price_micro;
    match op.params.get("material") {
        None => {},
        Some(material_value) => {
            let material_id = match material_value.as_str() {
                Some(m) => m,
                None => {
                    return Err(
                        EngineError::Resolve(ResolveError::DanglingReference(op.operation.clone())),
                    );
                },
            };
            let mi = match find_keyed(&model.materials, material_id) {
                Some(i) => i,
                None => {
                    return Err(
                        EngineError::Resolve(
                            ResolveError::DanglingReference(crate::text::owned(material_id)),
                        ),
                    );
                },
            };
            let material = &model.materials[mi];
            if material.pricing.basis() != operation.unit_basis {
                return Err(EngineError::Price(PriceError::MaterialBasisMismatch(op.operation.clone())));
            }
            unit = unit + material.pricing.price_micro();
        },
    }
    Ok(unit)
}

fn cost_operation(
    model: &PriceModel,
    trim: [u32; 2],
    qty: u32,
    total_sheets: i64,
    op: &OperationInstance,
) -> (r: Result<OperationCost, EngineError>)
    requires
        !(cost_operation_spec(*model, trim, qty as int, total_sheets as int, op@) is Aborts),
    ensures
        result_matches(r, cost_operation_spec(*model, trim, qty as int, total_sheets as int, op@)),
{
    let oi = match find_keyed(&model.operations, op.operation.as_str()) {
        Some(i) => i,
        None => {
            return Err(EngineError::Resolve(ResolveError::DanglingReference(op.operation.clone())));
        },
    };
    let operation = &model.operations[oi];
    let unit = match op_unit(model, operation, op) {
        Ok(u) => u,
        Err(e) => {
            return Err(e);
        },
    };
    let multiplier = match reserved_u32(op, "units_multiplier") {
        Ok(Some(v)) => v,
        Ok(None) => 1,
        Err(e) => {
            return Err(EngineError::Price(e));
        },
    };
    if multiplier < 1 {
        return Err(EngineError::Price(PriceError::InvalidReservedParam(op.operation.clone())));
    }
    let m = multiplier as i64;
    let q = qty as i64;
    let setup = operation.setup_micro;
    let cost = match operation.unit_basis {
        UnitBasis::PerItem => setup + m * q * unit,
        UnitBasis::PerSheet => setup + m * total_sheets * unit,
        UnitBasis::PerCm => {
            let edge = match reserved_u32(op, "edge_mm") {
                Ok(Some(e)) => e as i64,
                Ok(None) => trim[1] as i64,
                Err(e) => {
                    return Err(EngineError::Price(e));
                },
            };
            setup + round_half_up(m * q * edge * unit, 10)
        },
        UnitBasis::PerM2 => {
            let area = trim[0] as i64 * trim[1] as i64;
            setup + round_half_up(m * q * area * unit, 1_000_000)
        },
    };
    Ok(OperationCost { operation: op.operation.clone(), cost_micro: cost })
}

/// Total and unit price from cost: band (or override) margin, rounding up to
/// minor units and to the policy step, the minimum price, then the unit
/// price rounded half up. `None` when machine arithmetic would overflow or
/// divide by zero.
pub open spec fn margin_spec(policy: PricingPolicy, cost: int, qty: u32, margin_override: Option<u32>) -> Option<
    (int, int),
> {
    let bp: int = match margin_override {
        Some(m) => m as int,
        None => band_multiplier(policy, qty) as int,
    };
    let a = cost * bp;
    let step = policy.rounding.step_minor as int;
    if !(fits_i64(a) && fits_i64(a + 5000)) {
        None
    } else {
        let price = spec_round_half_up(a, 10000);
        if !fits_i64(price + 10000) {
            None
        } else {
            let t1 = spec_ceil_div(price, 10000);
            if step == 0 || !fits_i64(t1 + step) || !fits_i64(t1 + step - 1) || (t1 + step - 1
                == i64::MIN && step == -1) {
                None
            } else {
                let t2 = spec_ceil_div(t1, step) * step;
                let t3 = if t2 >= policy.min_price_minor {
                    t2
                } else {
                    policy.min_price_minor as int
                };
                if !fits_i64(t2) || qty == 0 || !fits_i64(t3 + tdiv(qty as int, 2)) {
                    None
                } else {
                    Some((t3, spec_round_half_up(t3, qty as int)))
                }
            }
        }
    }
}

fn apply_margin(policy: &PricingPolicy, cost_micro: i64, qty: u32, margin_override: Option<u32>) -> (r: (
    i64,
    i64,
))
    requires
        margin_spec(*policy, cost_micro as int, qty, margin_override) is Some,
    ensures
        margin_spec(*policy, cost_micro as int, qty, margin_override) == Some(
            (r.0 as int, r.1 as int),
        ),
{
    let band = match policy.band_for(qty) {
        Some(b) => b.multiplier_bp,
        None => 0,
    };
    let multiplier_bp = match margin_override {
        Some(m) => m as i64,
        None => band as i64,
    };
    let price_micro = round_half_up(cost_micro * multiplier_bp, 10_000);
    let mut total_minor = ceil_div(price_micro, MICRO_PER_MINOR);
    let step = policy.rounding.step_minor;
    total_minor = ceil_div(total_minor, step) * step;
    if total_minor < policy.min_price_minor {
        total_minor = policy.min_price_minor;
    }
    let unit_minor = round_half_up(total_minor, qty as i64);
    (total_minor, unit_minor)
}

/// Left-to-right running sums of `s` all fit machine arithmetic.
pub open spec fn sums_fit(s: Seq<int>) -> bool {
    forall|k: int| 0 <= k <= s.len() ==> fits_i64(#[trigger] crate::seqs::sum(s.take(k)))
}

/// The components costed in order; the first failure stops pricing.
pub open spec fn comps_spec(
    model: PriceModel,
    trim: [u32; 2],
    allow: Option<Seq<Technology>>,
    qty: int,
    cs: Seq<ComponentView>,
) -> Outcome<Seq<ComponentCostView>>
    decreases cs.len(),
{
    if cs.len() == 0 {
        Outcome::Done(Seq::empty())
    } else {
        match comps_spec(model, trim, allow, qty, cs.drop_last()) {
            Outcome::Done(prev) => match cost_component_spec(model, trim, allow, qty, cs.last()) {
                Outcome::Done(c) => Outcome::Done(prev.push(c)),
                Outcome::Fail(e) => Outcome::Fail(e),
                Outcome::Aborts => Outcome::Aborts,
            },
            other => other,
        }
    }
}

/// The operations costed in order; the first failure stops pricing.
pub open spec fn ops_spec(
    model: PriceModel,
    trim: [u32; 2],
    qty: int,
    total_sheets: int,
    os: Seq<OpView>,
) -> Outcome<Seq<OperationCostView>>
    decreases os.len(),
{
    if os.len() == 0 {
        Outcome::Done(Seq::empty())
    } else {
        match ops_spec(model, trim, qty, total_sheets, os.drop_last()) {
            Outcome::Done(prev) => match cost_operation_spec(model, trim, qty, total_sheets, os.last()) {
                Outcome::Done(c) => Outcome::Done(prev.push(c)),
                Outcome::Fail(e) => Outcome::Fail(e),
                Outcome::Aborts => Outcome::Aborts,
            },
            other => other,
        }
    }
}

pub open spec fn sheet_counts(ccs: Seq<ComponentCostView>) -> Seq<int> {
    ccs.map_values(|c: ComponentCostView| c.sheets as int)
}

pub open spec fn comp_costs(ccs: Seq<ComponentCostView>) -> Seq<int> {
    ccs.map_values(|c: ComponentCostView| c.cost_micro)
}

pub open spec fn op_costs(ocs: Seq<OperationCostView>) -> Seq<int> {
    ocs.map_values(|c: OperationCostView| c.cost_micro)
}

/// What pricing a resolved spec comes to: component costs, operation costs,
/// their sum, and the margin applied at the spec's quantity.
pub open spec fn price_job_spec(
    model: PriceModel,
    policy: PricingPolicy,
    job: JobSpecView,
    margin_override: Option<u32>,
) -> Outcome<BreakdownView> {
    match lookup(model.formats@, job.format) {
        None => fail_resolve(ResolveErrorView::DanglingReference(job.format)),
        Some(fi) => {
            let trim = model.formats@[fi].trim_mm;
            let qty = job.quantity as int;
            match comps_spec(model, trim, job.technology_allow, qty, job.components) {
                Outcome::Fail(e) => Outcome::Fail(e),
                Outcome::Aborts => Outcome::Aborts,
                Outcome::Done(ccs) => if !sums_fit(sheet_counts(ccs)) {
                    Outcome::Aborts
                } else {
                    let ts = crate::seqs::sum(sheet_counts(ccs));
                    match ops_spec(model, trim, qty, ts, job.operations) {
                        Outcome::Fail(e) => Outcome::Fail(e),
                        Outcome::Aborts => Outcome::Aborts,
                        Outcome::Done(ocs) => {
                            let cost = crate::seqs::sum(comp_costs(ccs)) + crate::seqs::sum(
                                op_costs(ocs),
                            );
                            if !(sums_fit(comp_costs(ccs)) && sums_fit(op_costs(ocs)) && fits_i64(
                                cost,
                            )) {
                                Outcome::Aborts
                            } else {
                                match margin_spec(policy, cost, job.quantity, margin_override) {
                                    None => Outcome::Aborts,
                                    Some(p) => Outcome::Done(
                                        BreakdownView {
                                            components: ccs,
                                            operations: ocs,
                                            cost_micro: cost,
                                            total_minor: p.0,
                                            unit_minor: p.1,
                                        },
                                    ),
                                }
                            }
                        },
                    }
                },
            }
        },
    }
}

proof fn lemma_comps_prefix(
    model: PriceModel,
    trim: [u32; 2],
    allow: Option<Seq<Technology>>,
    qty: int,
    cs: Seq<ComponentView>,
    k: int,
)
    requires
        0 <= k <= cs.len(),
        !(comps_spec(model, trim, allow, qty, cs.take(k)) is Done),
    ensures
        comps_spec(model, trim, allow, qty, cs) == comps_spec(model, trim, allow, qty, cs.take(k)),
    decreases cs.len(),
{
    if k == cs.len() {
        assert(cs.take(k) =~= cs);
    } else {
        assert(cs.drop_last().take(k) =~= cs.take(k));
        lemma_comps_prefix(model, trim, allow, qty, cs.drop_last(), k);
    }
}

proof fn lemma_ops_prefix(
    model: PriceModel,
    trim: [u32; 2],
    qty: int,
    ts: int,
    os: Seq<OpView>,
    k: int,
)
    requires
        0 <= k <= os.len(),
        !(ops_spec(model, trim, qty, ts, os.take(k)) is Done),
    ensures
        ops_spec(model, trim, qty, ts, os) == ops_spec(model, trim, qty, ts, os.take(k)),
    decreases os.len(),
{
    if k == os.len() {
        assert(os.take(k) =~= os);
    } else {
        assert(os.drop_last().take(k) =~= os.take(k));
        lemma_ops_prefix(model, trim, qty, ts, os.drop_last(), k);
    }
}

fn cost_components(
    model: &PriceModel,
    trim: [u32; 2],
    job: &JobSpec,
) -> (r: Result<Vec<ComponentCost>, EngineError>)
    requires
        !(comps_spec(*model, trim, job@.technology_allow, job.quantity as int, job@.components) is Aborts),
    ensures
        match comps_spec(*model, trim, job@.technology_allow, job.quantity as int, job@.components) {
            Outcome::Done(v) => r matches Ok(cs) && cs@.map_values(|c: ComponentCost| c@) == v,
            Outcome::Fail(e) => r matches Err(x) && x.view() == e,
            Outcome::Aborts => false,
        },
{
    let allow: Option<&[Technology]> = match &job.technology_allow {
        Some(v) => Some(v.as_slice()),
        None => None,
    };
    assert(techs_view(allow) == job@.technology_allow);
    let ghost cs = job@.components;
    let ghost av = job@.technology_allow;
    let ghost q = job.quantity as int;
    let mut out: Vec<ComponentCost> = Vec::new();
    let mut i: usize = 0;
    assert(cs.take(0) =~= Seq::<ComponentView>::empty());
    assert(out@.map_values(|c: ComponentCost| c@) =~= Seq::<ComponentCostView>::empty());
    while i < job.components.len()
        invariant
            i <= job.components.len(),
            cs == job@.components,
            cs.len() == job.components.len(),
            av == techs_view(allow),
            av == job@.technology_allow,
            q == job.quantity as int,
            comps_spec(*model, trim, av, q, cs.take(i as int)) == Outcome::Done(
                out@.map_values(|c: ComponentCost| c@),
            ),
            !(comps_spec(*model, trim, av, q, cs) is Aborts),
        decreases job.components.len() - i,
    {
        assert(cs.take(i + 1).drop_last() =~= cs.take(i as int));
        assert(cs.take(i + 1).last() == job.components@[i as int]@);
        proof {
            if cost_component_spec(*model, trim, av, q, cs[i as int]) is Aborts {
                lemma_comps_prefix(*model, trim, av, q, cs, i + 1);
            }
        }
        let ghost before = out@;
        match cost_component(model, trim, allow, job.quantity, &job.components[i]) {
            Ok(c) => {
                out.push(c);
                assert(out@.map_values(|c: ComponentCost| c@) =~= before.map_values(
                    |c: ComponentCost| c@,
                ).push(c@));
            },
            Err(e) => {
                proof {
                    assert(cost_component_spec(*model, trim, av, q, cs[i as int]) is Fail);
                    assert(comps_spec(*model, trim, av, q, cs.take(i + 1)) is Fail);
                    lemma_comps_prefix(*model, trim, av, q, cs, i + 1);
                }
                return Err(e);
            },
        }
        i += 1;
    }
    assert(cs.take(job.components.len() as int) =~= cs);
    Ok(out)
}

fn cost_operations(
    model: &PriceModel,
    trim: [u32; 2],
    job: &JobSpec,
    total_sheets: i64,
) -> (r: Result<Vec<OperationCost>, EngineError>)
    requires
        !(ops_spec(*model, trim, job.quantity as int, total_sheets as int, job@.operations) is Aborts),
    ensures
        match ops_spec(*model, trim, job.quantity as int, total_sheets as int, job@.operations) {
            Outcome::Done(v) => r matches Ok(os) && os@.map_values(|c: OperationCost| c@) == v,
            Outcome::Fail(e) => r matches Err(x) && x.view() == e,
            Outcome::Aborts => false,
        },
{
    let ghost os = job@.operations;
    let ghost q = job.quantity as int;
    let ghost ts = total_sheets as int;
    let mut out: Vec<OperationCost> = Vec::new();
    let mut i: usize = 0;
    assert(os.take(0) =~= Seq::<OpView>::empty());
    assert(out@.map_values(|c: OperationCost| c@) =~= Seq::<OperationCostView>::empty());
    while i < job.operations.len()
        invariant
            i <= job.operations.len(),
            os == job@.operations,
            os.len() == job.operations.len(),
            q == job.quantity as int,
            ts == total_sheets as int,
            ops_spec(*model, trim, q, ts, os.take(i as int)) == Outcome::Done(
                out@.map_values(|c: OperationCost| c@),
            ),
            !(ops_spec(*model, trim, q, ts, os) is Aborts),
        decreases job.operations.len() - i,
    {
        assert(os.take(i + 1).drop_last() =~= os.take(i as int));
        assert(os.take(i + 1).last() == job.operations@[i as int]@);
        proof {
            if cost_operation_spec(*model, trim, q, ts, os[i as int]) is Aborts {
                lemma_ops_prefix(*model, trim, q, ts, os, i + 1);
            }
        }
        let ghost before = out@;
        match cost_operation(model, trim, job.quantity, total_sheets, &job.operations[i]) {
            Ok(c) => {
                out.push(c);
                assert(out@.map_values(|c: OperationCost| c@) =~= before.map_values(
                    |c: OperationCost| c@,
                ).push(c@));
            },
            Err(e) => {
                proof {
                    assert(cost_operation_spec(*model, trim, q, ts, os[i as int]) is Fail);
                    assert(ops_spec(*model, trim, q, ts, os.take(i + 1)) is Fail);
                    lemma_ops_prefix(*model, trim, q, ts, os, i + 1);
                }
                return Err(e);
            },
        }
        i += 1;
    }
    assert(os.take(job.operations.len() as int) =~= os);
    Ok(out)
}

pub open spec fn as_ints(s: Seq<i64>) -> Seq<int> {
    s.map_values(|x: i64| x as int)
}

/// Sum of `s`, computed left to right.
fn sum_i64(s: &Vec<i64>) -> (r: i64)
    requires
        sums_fit(as_ints(s@)),
    ensures
        r == crate::seqs::sum(as_ints(s@)),
{
    let ghost v = as_ints(s@);
    let mut acc: i64 = 0;
    let mut i: usize = 0;
    assert(v.take(0) =~= Seq::<int>::empty());
    while i < s.len()
        invariant
            i <= s.len(),
            v == as_ints(s@),
            sums_fit(v),
            acc == crate::seqs::sum(v.take(i as int)),
        decreases s.len() - i,
    {
        assert(v.take(i + 1).drop_last() =~= v.take(i as int));
        assert(fits_i64(crate::seqs::sum(v.take(i + 1))));
        acc = acc + s[i];
        i += 1;
    }
    assert(v.take(s.len() as int) =~= v);
    acc
}

/// Price a fully-resolved spec into a cost breakdown at `job.quantity`.
pub fn price_job(
    model: &PriceModel,
    policy: &PricingPolicy,
    job: &JobSpec,
    margin_override: Option<u32>,
) -> (r: Result<Breakdown, EngineError>)
    requires
        !(price_job_spec(*model, *policy, job@, margin_override) is Aborts),
    ensures
        result_matches(r, price_job_spec(*model, *policy, job@, margin_override)),
{
    let fi = match find_keyed(&model.formats, job.format.as_str()) {
        Some(i) => i,
        None => {
            return Err(EngineError::Resolve(ResolveError::DanglingReference(job.format.clone())));
        },
    };
    let trim = model.formats[fi].trim_mm;
    let components = match cost_components(model, trim, job) {
        Ok(c) => c,
        Err(e) => {
            return Err(e);
        },
    };
    let ghost ccs = components@.map_values(|c: ComponentCost| c@);
    let mut sheets: Vec<i64> = Vec::new();
    let mut costs: Vec<i64> = Vec::new();
    let mut i: usize = 0;
    while i < components.len()
        invariant
            i <= components.len(),
            ccs == components@.map_values(|c: ComponentCost| c@),
            sheets.len() == i,
            costs.len() == i,
            forall|j: int| 0 <= j < i ==> sheets@[j] == components@[j].sheets as i64,
            forall|j: int| 0 <= j < i ==> costs@[j] == components@[j].cost_micro,
        decreases components.len() - i,
    {
        sheets.push(components[i].sheets as i64);
        costs.push(components[i].cost_micro);
        i += 1;
    }
    assert(as_ints(sheets@) =~= sheet_counts(ccs));
    assert(as_ints(costs@) =~= comp_costs(ccs));
    let total_sheets = sum_i64(&sheets);
    let operations = match cost_operations(model, trim, job, total_sheets) {
        Ok(o) => o,
        Err(e) => {
            return Err(e);
        },
    };
    let ghost ocs = operations@.map_values(|c: OperationCost| c@);
    let mut op_cost_list: Vec<i64> = Vec::new();
    let mut i: usize = 0;
    while i < operations.len()
        invariant
            i <= operations.len(),
            ocs == operations@.map_values(|c: OperationCost| c@),
            op_cost_list.len() == i,
            forall|j: int| 0 <= j < i ==> op_cost_list@[j] == operations@[j].cost_micro,
        decreases operations.len() - i,
    {
        op_cost_list.push(operations[i].cost_micro);
        i += 1;
    }
    assert(as_ints(op_cost_list@) =~= op_costs(ocs));
    let cost_micro = sum_i64(&costs) + sum_i64(&op_cost_list);
    let (total_minor, unit_minor) = apply_margin(policy, cost_micro, job.quantity, margin_override);
    let r = Breakdown { components, operations, cost_micro, total_minor, unit_minor };
    Ok(r)
}

/// Whether a custom quantity lies within the template's custom range.
pub open spec fn custom_ok(t: ProductTemplate, q: u32) -> bool {
    t.custom_quantity matches Some(c) && c.min <= q && q <= c.max
}

pub open spec fn custom_refused(t: ProductTemplate) -> spec_fn(u32) -> bool {
    |q: u32| !custom_ok(t, q)
}

/// Whether a quantity exceeds `x`.
pub open spec fn above(x: u32) -> spec_fn(u32) -> bool {
    |y: u32| y > x
}

/// `e` with `x` put in its ascending place, unless already there.
pub open spec fn insert_sorted(e: Seq<u32>, x: u32) -> Seq<u32> {
    if e.contains(x) {
        e
    } else {
        match first_match(e, above(x)) {
            Some(k) => e.insert(k, x),
            None => e.push(x),
        }
    }
}

/// The requested quantities that the template ladder lacks, ascending and
/// without repeats.
pub open spec fn extra_quantities(t: ProductTemplate, req: Seq<u32>) -> Seq<u32>
    decreases req.len(),
{
    if req.len() == 0 {
        Seq::empty()
    } else {
        let acc = extra_quantities(t, req.drop_last());
        if t.quantities@.contains(req.last()) {
            acc
        } else {
            insert_sorted(acc, req.last())
        }
    }
}

/// The custom range reported with a refused quantity (`(0, 0)` when none is
/// offered).
pub open spec fn custom_range(t: ProductTemplate) -> (u32, u32) {
    match t.custom_quantity {
        Some(c) => (c.min, c.max),
        None => (0, 0),
    }
}

/// Template ladder quantities first, then validated custom quantities
/// appended (deduplicated, ascending). `Err(q)`: `q` is the first requested
/// quantity outside the custom range.
pub open spec fn ladder_spec(t: ProductTemplate, requested: Option<Seq<u32>>) -> Result<Seq<u32>, u32> {
    match requested {
        None => Ok(t.quantities@),
        Some(req) => match first_match(req, custom_refused(t)) {
            Some(i) => Err(req[i]),
            None => Ok(t.quantities@ + extra_quantities(t, req)),
        },
    }
}


fn u32s_contain(v: &Vec<u32>, x: u32) -> (r: bool)
    ensures
        r == v@.contains(x),
{
    let mut i: usize = 0;
    while i < v.len()
        invariant
            i <= v.len(),
            forall|j: int| 0 <= j < i ==> v@[j] != x,
        decreases v.len() - i,
    {
        if v[i] == x {
            return true;
        }
        i += 1;
    }
    false
}

fn insert_sorted_vec(e: &mut Vec<u32>, x: u32)
    ensures
        final(e)@ == insert_sorted(old(e)@, x),
{
    if u32s_contain(e, x) {
        return;
    }
    let ghost p = above(x);
    let mut k: usize = 0;
    while k < e.len()
        invariant
            k <= e.len(),
            p == above(x),
            e@ == old(e)@,
            !old(e)@.contains(x),
            forall|j: int| 0 <= j < k ==> !p(#[trigger] e@[j]),
        decreases e.len() - k,
    {
        if e[k] > x {
            proof {
                lemma_first_match_is(e@, p, k as int);
            }
            e.insert(k, x);
            return;
        }
        k += 1;
    }
    proof {
        lemma_first_match_none(e@, p);
    }
    e.push(x);
}

fn ladder_quantities(template: &ProductTemplate, requested: Option<&[u32]>) -> (r: Result<
    Vec<u32>,
    EngineError,
>)
    ensures
        match ladder_spec(
            *template,
            match requested {
                Some(q) => Some(q@),
                None => None,
            },
        ) {
            Ok(qs) => r matches Ok(v) && v@ == qs,
            Err(q) => r matches Err(e) && e.view() == (EngineErrorView::InvalidQuantity {
                qty: q,
                min: custom_range(*template).0,
                max: custom_range(*template).1,
            }),
        },
{
    let mut list: Vec<u32> = Vec::new();
    let mut i: usize = 0;
    while i < template.quantities.len()
        invariant
            i <= template.quantities.len(),
            list@ == template.quantities@.take(i as int),
        decreases template.quantities.len() - i,
    {
        list.push(template.quantities[i]);
        i += 1;
        assert(list@ =~= template.quantities@.take(i as int));
    }
    assert(template.quantities@.take(template.quantities.len() as int) =~= template.quantities@);
    match requested {
        None => Ok(list),
        Some(req) => {
            let ghost p = custom_refused(*template);
            let mut extra: Vec<u32> = Vec::new();
            let mut j: usize = 0;
            assert(req@.take(0) =~= Seq::<u32>::empty());
            while j < req.len()
                invariant
                    j <= req.len(),
                    requested == Some(req),
                    list@ == template.quantities@,
                    p == custom_refused(*template),
                    forall|k: int| 0 <= k < j ==> !p(#[trigger] req@[k]),
                    extra@ == extra_quantities(*template, req@.take(j as int)),
                decreases req.len() - j,
            {
                let qty = req[j];
                let ok = match template.custom_quantity {
                    Some(c) => qty >= c.min && qty <= c.max,
                    None => false,
                };
                if !ok {
                    proof {
                        lemma_first_match_is(req@, p, j as int);
                    }
                    let (min, max) = match template.custom_quantity {
                        Some(c) => (c.min, c.max),
                        None => (0, 0),
                    };
                    return Err(EngineError::InvalidQuantity { qty, min, max });
                }
                assert(req@.take(j + 1).drop_last() =~= req@.take(j as int));
                assert(req@.take(j + 1).last() == qty);
                if !u32s_contain(&list, qty) {
                    insert_sorted_vec(&mut extra, qty);
                }
                j += 1;
            }
            proof {
                lemma_first_match_none(req@, p);
                assert(req@.take(req.len() as int) =~= req@);
            }
            let mut k: usize = 0;
            let ghost base = list@;
            while k < extra.len()
                invariant
                    k <= extra.len(),
                    list@ == base + extra@.take(k as int),
                decreases extra.len() - k,
            {
                list.push(extra[k]);
                k += 1;
                assert(list@ =~= base + extra@.take(k as int));
            }
            assert(extra@.take(extra.len() as int) =~= extra@);
            Ok(list)
        },
    }
}

/// Resolve the selection at each quantity, in order.
pub open spec fn resolve_all_spec(
    model: PriceModel,
    t: ProductTemplate,
    sel: Seq<(Seq<char>, JsonView)>,
    qs: Seq<u32>,
) -> Outcome<Seq<JobSpecView>>
    decreases qs.len(),
{
    if qs.len() == 0 {
        Outcome::Done(Seq::empty())
    } else {
        match resolve_all_spec(model, t, sel, qs.drop_last()) {
            Outcome::Done(prev) => match resolve_spec(model, t, sel, qs.last()) {
                Outcome::Done(j) => Outcome::Done(prev.push(j)),
                Outcome::Fail(e) => Outcome::Fail(e),
                Outcome::Aborts => Outcome::Aborts,
            },
            other => other,
        }
    }
}

/// Whether `acc` already reports rule `id`.
pub open spec fn reports_rule(acc: Seq<RuleViolationView>, id: Seq<char>) -> bool {
    exists|i: int| 0 <= i < acc.len() && (#[trigger] acc[i]).rule_id == id
}

/// `acc` followed by the violations of `vs` whose rule it does not report yet.
pub open spec fn add_new_violations(acc: Seq<RuleViolationView>, vs: Seq<RuleViolationView>) -> Seq<
    RuleViolationView,
>
    decreases vs.len(),
{
    if vs.len() == 0 {
        acc
    } else {
        let a = add_new_violations(acc, vs.drop_last());
        if reports_rule(a, vs.last().rule_id) {
            a
        } else {
            a.push(vs.last())
        }
    }
}

/// The violations over every resolved spec, each rule reported once (at its
/// first occurrence).
pub open spec fn collect_violations(rules: Seq<CompatibilityRule>, specs: Seq<JobSpecView>) -> Seq<
    RuleViolationView,
>
    decreases specs.len(),
{
    if specs.len() == 0 {
        Seq::empty()
    } else {
        add_new_violations(
            collect_violations(rules, specs.drop_last()),
            violations_spec(rules, specs.last()),
        )
    }
}

/// Price each resolved spec, in order, as a ladder entry.
pub open spec fn price_all_spec(
    model: PriceModel,
    policy: PricingPolicy,
    specs: Seq<JobSpecView>,
    margin_override: Option<u32>,
) -> Outcome<Seq<LadderEntry>>
    decreases specs.len(),
{
    if specs.len() == 0 {
        Outcome::Done(Seq::empty())
    } else {
        match price_all_spec(model, policy, specs.drop_last(), margin_override) {
            Outcome::Done(prev) => match price_job_spec(model, policy, specs.last(), margin_override) {
                Outcome::Done(b) => Outcome::Done(
                    prev.push(
                        LadderEntry {
                            qty: specs.last().quantity,
                            total_minor: b.total_minor as i64,
                            unit_minor: b.unit_minor as i64,
                        },
                    ),
                ),
                Outcome::Fail(e) => Outcome::Fail(e),
                Outcome::Aborts => Outcome::Aborts,
            },
            other => other,
        }
    }
}

/// The full quote ladder for a template + selection: every ladder quantity
/// resolved, compatibility rules checked against all of them (all violated
/// rules reported together), then each priced.
pub open spec fn quote_template_spec(
    model: PriceModel,
    t: ProductTemplate,
    sel: Seq<(Seq<char>, JsonView)>,
    requested: Option<Seq<u32>>,
    margin_override: Option<u32>,
) -> Outcome<QuoteView> {
    match lookup(model.pricing_policies@, t.pricing_policy@) {
        None => fail_resolve(ResolveErrorView::DanglingReference(t.pricing_policy@)),
        Some(pi) => {
            let policy = model.pricing_policies@[pi];
            match ladder_spec(t, requested) {
                Err(q) => Outcome::Fail(
                    EngineErrorView::InvalidQuantity {
                        qty: q,
                        min: custom_range(t).0,
                        max: custom_range(t).1,
                    },
                ),
                Ok(qs) => match resolve_all_spec(model, t, sel, qs) {
                    Outcome::Fail(e) => Outcome::Fail(e),
                    Outcome::Aborts => Outcome::Aborts,
                    Outcome::Done(specs) => {
                        let vs = collect_violations(model.spec_rules_for(t.id@), specs);
                        if vs.len() > 0 {
                            Outcome::Fail(EngineErrorView::RuleViolation(vs))
                        } else {
                            match price_all_spec(model, policy, specs, margin_override) {
                                Outcome::Done(ladder) => Outcome::Done(
                                    QuoteView {
                                        currency: policy.currency@,
                                        pricelist_version: model.pricelist_version,
                                        ladder,
                                    },
                                ),
                                Outcome::Fail(e) => Outcome::Fail(e),
                                Outcome::Aborts => Outcome::Aborts,
                            }
                        }
                    },
                },
            }
        },
    }
}

proof fn lemma_resolve_all_prefix(
    model: PriceModel,
    t: ProductTemplate,
    sel: Seq<(Seq<char>, JsonView)>,
    qs: Seq<u32>,
    k: int,
)
    requires
        0 <= k <= qs.len(),
        !(resolve_all_spec(model, t, sel, qs.take(k)) is Done),
    ensures
        resolve_all_spec(model, t, sel, qs) == resolve_all_spec(model, t, sel, qs.take(k)),
    decreases qs.len(),
{
    if k == qs.len() {
        assert(qs.take(k) =~= qs);
    } else {
        assert(qs.drop_last().take(k) =~= qs.take(k));
        lemma_resolve_all_prefix(model, t, sel, qs.drop_last(), k);
    }
}

proof fn lemma_price_all_prefix(
    model: PriceModel,
    policy: PricingPolicy,
    specs: Seq<JobSpecView>,
    margin_override: Option<u32>,
    k: int,
)
    requires
        0 <= k <= specs.len(),
        !(price_all_spec(model, policy, specs.take(k), margin_override) is Done),
    ensures
        price_all_spec(model, policy, specs, margin_override) == price_all_spec(
            model,
            policy,
            specs.take(k),
            margin_override,
        ),
    decreases specs.len(),
{
    if k == specs.len() {
        assert(specs.take(k) =~= specs);
    } else {
        assert(specs.drop_last().take(k) =~= specs.take(k));
        lemma_price_all_prefix(model, policy, specs.drop_last(), margin_override, k);
    }
}

pub open spec fn jobs_view(v: Seq<JobSpec>) -> Seq<JobSpecView> {
    v.map_values(|j: JobSpec| j@)
}

pub open spec fn violations_view(v: Seq<RuleViolation>) -> Seq<RuleViolationView> {
    v.map_values(|x: RuleViolation| x.view())
}

fn resolve_all(
    model: &PriceModel,
    template: &ProductTemplate,
    selection: &Selection,
    qs: &Vec<u32>,
) -> (r: Result<Vec<JobSpec>, EngineError>)
    requires
        !(resolve_all_spec(*model, *template, selection.view(), qs@) is Aborts),
    ensures
        match resolve_all_spec(*model, *template, selection.view(), qs@) {
            Outcome::Done(v) => r matches Ok(js) && jobs_view(js@) == v,
            Outcome::Fail(e) => r matches Err(x) && x.view() == e,
            Outcome::Aborts => false,
        },
{
    let ghost sel = selection.view();
    let mut out: Vec<JobSpec> = Vec::new();
    let mut i: usize = 0;
    assert(qs@.take(0) =~= Seq::<u32>::empty());
    assert(jobs_view(out@) =~= Seq::<JobSpecView>::empty());
    while i < qs.len()
        invariant
            i <= qs.len(),
            sel == selection.view(),
            resolve_all_spec(*model, *template, sel, qs@.take(i as int)) == Outcome::Done(
                jobs_view(out@),
            ),
            !(resolve_all_spec(*model, *template, sel, qs@) is Aborts),
        decreases qs.len() - i,
    {
        assert(qs@.take(i + 1).drop_last() =~= qs@.take(i as int));
        assert(qs@.take(i + 1).last() == qs@[i as int]);
        proof {
            if resolve_spec(*model, *template, sel, qs@[i as int]) is Aborts {
                lemma_resolve_all_prefix(*model, *template, sel, qs@, i + 1);
            }
        }
        let ghost before = out@;
        match resolve(model, template, selection, qs[i]) {
            Ok(j) => {
                out.push(j);
                assert(jobs_view(out@) =~= jobs_view(before).push(j@));
            },
            Err(e) => {
                proof {
                    assert(resolve_spec(*model, *template, sel, qs@[i as int]) is Fail);
                    assert(resolve_all_spec(*model, *template, sel, qs@.take(i + 1)) is Fail);
                    lemma_resolve_all_prefix(*model, *template, sel, qs@, i + 1);
                }
                return Err(e);
            },
        }
        i += 1;
    }
    assert(qs@.take(qs.len() as int) =~= qs@);
    Ok(out)
}

fn reports_rule_exec(acc: &Vec<RuleViolation>, id: &str) -> (r: bool)
    ensures
        r == reports_rule(violations_view(acc@), id@),
{
    let ghost av = violations_view(acc@);
    let mut i: usize = 0;
    while i < acc.len()
        invariant
            i <= acc.len(),
            av == violations_view(acc@),
            forall|k: int| 0 <= k < i ==> (#[trigger] av[k]).rule_id != id@,
        decreases acc.len() - i,
    {
        assert(av[i as int] == acc@[i as int].view());
        if str_eq(acc[i].rule_id.as_str(), id) {
            return true;
        }
        i += 1;
    }
    false
}

fn add_new(acc: &mut Vec<RuleViolation>, vs: &Vec<RuleViolation>)
    ensures
        violations_view(final(acc)@) == add_new_violations(
            violations_view(old(acc)@),
            violations_view(vs@),
        ),
{
    let ghost a0 = violations_view(acc@);
    let ghost vv = violations_view(vs@);
    let mut k: usize = 0;
    assert(vv.take(0) =~= Seq::<RuleViolationView>::empty());
    while k < vs.len()
        invariant
            k <= vs.len(),
            vv == violations_view(vs@),
            a0 == violations_view(old(acc)@),
            violations_view(acc@) == add_new_violations(a0, vv.take(k as int)),
        decreases vs.len() - k,
    {
        proof {
            assert(vv.take(k + 1).drop_last() =~= vv.take(k as int));
            assert(vv.take(k + 1).last() == vs@[k as int].view());
        }
        let ghost before = acc@;
        if !reports_rule_exec(acc, vs[k].rule_id.as_str()) {
            let v = RuleViolation {
                rule_id: vs[k].rule_id.clone(),
                message: crate::engine::rules::clone_i18n(&vs[k].message),
            };
            acc.push(v);
            assert(violations_view(acc@) =~= violations_view(before).push(v.view()));
        }
        k += 1;
    }
    assert(vv.take(vs.len() as int) =~= vv);
}

fn price_all(
    model: &PriceModel,
    policy: &PricingPolicy,
    specs: &Vec<JobSpec>,
    margin_override: Option<u32>,
) -> (r: Result<Vec<LadderEntry>, EngineError>)
    requires
        !(price_all_spec(*model, *policy, jobs_view(specs@), margin_override) is Aborts),
    ensures
        match price_all_spec(*model, *policy, jobs_view(specs@), margin_override) {
            Outcome::Done(v) => r matches Ok(l) && l@ == v,
            Outcome::Fail(e) => r matches Err(x) && x.view() == e,
            Outcome::Aborts => false,
        },
{
    let ghost js = jobs_view(specs@);
    let mut out: Vec<LadderEntry> = Vec::new();
    let mut i: usize = 0;
    assert(js.take(0) =~= Seq::<JobSpecView>::empty());
    while i < specs.len()
        invariant
            i <= specs.len(),
            js == jobs_view(specs@),
            js.len() == specs.len(),
            price_all_spec(*model, *policy, js.take(i as int), margin_override) == Outcome::Done(
                out@,
            ),
            !(price_all_spec(*model, *policy, js, margin_override) is Aborts),
        decreases specs.len() - i,
    {
        assert(js.take(i + 1).drop_last() =~= js.take(i as int));
        assert(js.take(i + 1).last() == specs@[i as int]@);
        proof {
            if price_job_spec(*model, *policy, js[i as int], margin_override) is Aborts {
                lemma_price_all_prefix(*model, *policy, js, margin_override, i + 1);
            }
        }
        match price_job(model, policy, &specs[i], margin_override) {
            Ok(bd) => {
                out.push(
                    LadderEntry {
                        qty: specs[i].quantity,
                        total_minor: bd.total_minor,
                        unit_minor: bd.unit_minor,
                    },
                );
            },
            Err(e) => {
                proof {
                    assert(price_job_spec(*model, *policy, js[i as int], margin_override) is Fail);
                    assert(price_all_spec(*model, *policy, js.take(i + 1), margin_override) is Fail);
                    lemma_price_all_prefix(*model, *policy, js, margin_override, i + 1);
                }
                return Err(e);
            },
        }
        i += 1;
    }
    assert(js.take(specs.len() as int) =~= js);
    Ok(out)
}

/// Full quote ladder for a template + selection. Evaluates compatibility
/// rules against every ladder quantity and fails with `RuleViolation` if any
/// rule is violated.
pub fn quote_template(
    model: &PriceModel,
    template: &ProductTemplate,
    selection: &Selection,
    requested_quantities: Option<&[u32]>,
    margin_override: Option<u32>,
) -> (r: Result<Quote, EngineError>)
    requires
        !(quote_template_spec(
            *model,
            *template,
            selection.view(),
            match requested_quantities {
                Some(q) => Some(q@),
                None => None,
            },
            margin_override,
        ) is Aborts),
    ensures
        result_matches(
            r,
            quote_template_spec(
                *model,
                *template,
                selection.view(),
                match requested_quantities {
                    Some(q) => Some(q@),
                    None => None,
                },
                margin_override,
            ),
        ),
{
    let pi = match find_keyed(&model.pricing_policies, template.pricing_policy.as_str()) {
        Some(i) => i,
        None => {
            return Err(
                EngineError::Resolve(ResolveError::DanglingReference(template.pricing_policy.clone())),
            );
        },
    };
    let policy = &model.pricing_policies[pi];
    let quantities = match ladder_quantities(template, requested_quantities) {
        Ok(q) => q,
        Err(e) => {
            return Err(e);
        },
    };
    let specs = match resolve_all(model, template, selection, &quantities) {
        Ok(s) => s,
        Err(e) => {
            return Err(e);
        },
    };
    let rules = model.rules_for(template.id.as_str());
    let ghost rv = model.spec_rules_for(template.id@);
    let mut all_violations: Vec<RuleViolation> = Vec::new();
    let mut i: usize = 0;
    assert(jobs_view(specs@).take(0) =~= Seq::<JobSpecView>::empty());
    assert(violations_view(all_violations@) =~= Seq::<RuleViolationView>::empty());
    while i < specs.len()
        invariant
            i <= specs.len(),
            rules@ == rv,
            violations_view(all_violations@) == collect_violations(
                rv,
                jobs_view(specs@).take(i as int),
            ),
        decreases specs.len() - i,
    {
        assert(jobs_view(specs@).take(i + 1).drop_last() =~= jobs_view(specs@).take(i as int));
        assert(jobs_view(specs@).take(i + 1).last() == specs@[i as int]@);
        let found = crate::engine::rules::violations(rules, &specs[i]);
        add_new(&mut all_violations, &found);
        i += 1;
    }
    assert(jobs_view(specs@).take(specs.len() as int) =~= jobs_view(specs@));
    if all_violations.len() > 0 {
        let ghost vs = violations_view(all_violations@);
        let err = EngineError::RuleViolation(all_violations);
        assert(err.view()->RuleViolation_0 =~= vs);
        return Err(err);
    }
    let ladder = match price_all(model, policy, &specs, margin_override) {
        Ok(l) => l,
        Err(e) => {
            return Err(e);
        },
    };
    Ok(Quote { currency: policy.currency.clone(), pricelist_version: model.pricelist_version, ladder })
}

/// Single-quantity price with full breakdown: resolve then price, without
/// compatibility rules.
pub open spec fn price_at_spec(
    model: PriceModel,
    t: ProductTemplate,
    sel: Seq<(Seq<char>, JsonView)>,
    qty: u32,
    margin_override: Option<u32>,
) -> Outcome<BreakdownView> {
    match lookup(model.pricing_policies@, t.pricing_policy@) {
        None => fail_resolve(ResolveErrorView::DanglingReference(t.pricing_policy@)),
        Some(pi) => match resolve_spec(model, t, sel, qty) {
            Outcome::Done(j) => price_job_spec(model, model.pricing_policies@[pi], j, margin_override),
            Outcome::Fail(e) => Outcome::Fail(e),
            Outcome::Aborts => Outcome::Aborts,
        },
    }
}

/// Single-quantity price with full breakdown — the back-office entry point.
/// Does not evaluate compatibility rules.
pub fn price_at(
    model: &PriceModel,
    template: &ProductTemplate,
    selection: &Selection,
    qty: u32,
    margin_override: Option<u32>,
) -> (r: Result<Breakdown, EngineError>)
    requires
        !(price_at_spec(*model, *template, selection.view(), qty, margin_override) is Aborts),
    ensures
        result_matches(r, price_at_spec(*model, *template, selection.view(), qty, margin_override)),
{
    let pi = match find_keyed(&model.pricing_policies, template.pricing_policy.as_str()) {
        Some(i) => i,
        None => {
            return Err(
                EngineError::Resolve(ResolveError::DanglingReference(template.pricing_policy.clone())),
            );
        },
    };
    let spec = match resolve(model, template, selection, qty) {
        Ok(s) => s,
        Err(e) => {
            return Err(e);
        },
    };
    price_job(model, &model.pricing_policies[pi], &spec, margin_override)
}

/// `job` at quantity `q`.
pub open spec fn at_quantity(job: JobSpecView, q: u32) -> JobSpecView {
    JobSpecView { quantity: q, ..job }
}

/// One spec priced at each quantity, in order.
pub open spec fn quote_spec_spec(
    model: PriceModel,
    policy: PricingPolicy,
    job: JobSpecView,
    qs: Seq<u32>,
    margin_override: Option<u32>,
) -> Outcome<Seq<LadderEntry>>
    decreases qs.len(),
{
    if qs.len() == 0 {
        Outcome::Done(Seq::empty())
    } else {
        match quote_spec_spec(model, policy, job, qs.drop_last(), margin_override) {
            Outcome::Done(prev) => match price_job_spec(
                model,
                policy,
                at_quantity(job, qs.last()),
                margin_override,
            ) {
                Outcome::Done(b) => Outcome::Done(
                    prev.push(
                        LadderEntry {
                            qty: qs.last(),
                            total_minor: b.total_minor as i64,
                            unit_minor: b.unit_minor as i64,
                        },
                    ),
                ),
                Outcome::Fail(e) => Outcome::Fail(e),
                Outcome::Aborts => Outcome::Aborts,
            },
            other => other,
        }
    }
}

proof fn lemma_quote_spec_prefix(
    model: PriceModel,
    policy: PricingPolicy,
    job: JobSpecView,
    qs: Seq<u32>,
    margin_override: Option<u32>,
    k: int,
)
    requires
        0 <= k <= qs.len(),
        !(quote_spec_spec(model, policy, job, qs.take(k), margin_override) is Done),
    ensures
        quote_spec_spec(model, policy, job, qs, margin_override) == quote_spec_spec(
            model,
            policy,
            job,
            qs.take(k),
            margin_override,
        ),
    decreases qs.len(),
{
    if k == qs.len() {
        assert(qs.take(k) =~= qs);
    } else {
        assert(qs.drop_last().take(k) =~= qs.take(k));
        lemma_quote_spec_prefix(model, policy, job, qs.drop_last(), margin_override, k);
    }
}

/// Staff direct-spec ladder: price one spec at each requested quantity. No
/// template, no ladder defaults, no rules.
pub fn quote_spec(
    model: &PriceModel,
    policy: &PricingPolicy,
    spec: &JobSpec,
    quantities: &[u32],
    margin_override: Option<u32>,
) -> (r: Result<Vec<LadderEntry>, EngineError>)
    requires
        !(quote_spec_spec(*model, *policy, spec@, quantities@, margin_override) is Aborts),
    ensures
        match quote_spec_spec(*model, *policy, spec@, quantities@, margin_override) {
            Outcome::Done(v) => r matches Ok(l) && l@ == v,
            Outcome::Fail(e) => r matches Err(x) && x.view() == e,
            Outcome::Aborts => false,
        },
{
    let ghost qs = quantities@;
    let mut out: Vec<LadderEntry> = Vec::new();
    let mut i: usize = 0;
    assert(qs.take(0) =~= Seq::<u32>::empty());
    while i < quantities.len()
        invariant
            i <= quantities.len(),
            qs == quantities@,
            quote_spec_spec(*model, *policy, spec@, qs.take(i as int), margin_override)
                == Outcome::Done(out@),
            !(quote_spec_spec(*model, *policy, spec@, qs, margin_override) is Aborts),
        decreases quantities.len() - i,
    {
        let qty = quantities[i];
        assert(qs.take(i + 1).drop_last() =~= qs.take(i as int));
        assert(qs.take(i + 1).last() == qty);
        let mut s = spec.clone();
        s.quantity = qty;
        assert(s@ == at_quantity(spec@, qty));
        proof {
            if price_job_spec(*model, *policy, s@, margin_override) is Aborts {
                lemma_quote_spec_prefix(*model, *policy, spec@, qs, margin_override, i + 1);
            }
        }
        match price_job(model, policy, &s, margin_override) {
            Ok(bd) => {
                out.push(LadderEntry { qty, total_minor: bd.total_minor, unit_minor: bd.unit_minor });
            },
            Err(e) => {
                proof {
                    assert(price_job_spec(*model, *policy, s@, margin_override) is Fail);
                    assert(quote_spec_spec(*model, *policy, spec@, qs.take(i + 1), margin_override) is Fail);
                    lemma_quote_spec_prefix(*model, *policy, spec@, qs, margin_override, i + 1);
                }
                return Err(e);
            },
        }
        i += 1;
    }
    assert(qs.take(quantities.len() as int) =~= qs);
    Ok(out)
}

} // verus!
