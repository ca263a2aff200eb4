//! Resolution: a parameter selection becomes a [`JobSpec`].
//!
//! `JobSpec` is also the direct-spec form for staff estimating;
//! [`Component::machine`] is the staff-only per-component machine pin.
//! Templates never produce a pinned machine — no effect sets it.
use vstd::prelude::*;

use crate::engine::effect::{Effect, NumOrInput};
use crate::engine::error::{EngineError, EngineErrorView, ResolveError, ResolveErrorView, SelectionReason};
use crate::engine::model::{
    lookup, find_keyed, Colors, NumericInput, OptionDef, ParameterKind, PriceModel,
    ProductTemplate, Technology,
};
use crate::engine::outcome::{fail_resolve, result_matches, Outcome};
use crate::json::{map_get, spec_as_u64, JsonMap, JsonValue, JsonView};
use crate::seqs::{first_match, lemma_first_match_is, lemma_first_match_none};
use crate::text::{join, owned, seq_lt, str_eq, str_lt};

verus! {

/// A parameter selection: parameter `code` → option `code` (string) for
/// select parameters, number for numeric parameters.
pub type Selection = JsonMap;

#[derive(Debug, PartialEq)]
pub struct JobSpec {
    /// Format record id.
    pub format: String,
    pub quantity: u32,
    pub components: Vec<Component>,
    pub operations: Vec<OperationInstance>,
    pub technology_allow: Option<Vec<Technology>>,
}

#[derive(Debug, PartialEq)]
pub struct Component {
    pub role: String,
    pub pages: u32,
    pub colors: Colors,
    pub material: String,
    /// Staff-only machine pin: restrict costing to this machine.
    pub machine: Option<String>,
}

#[derive(Debug, PartialEq)]
pub struct OperationInstance {
    pub operation: String,
    pub params: JsonMap,
}

pub open spec fn opt_str_view(o: Option<String>) -> Option<Seq<char>> {
    match o {
        Some(s) => Some(s@),
        None => None,
    }
}

pub open spec fn opt_techs_view(o: Option<Vec<Technology>>) -> Option<Seq<Technology>> {
    match o {
        Some(v) => Some(v@),
        None => None,
    }
}

pub struct ComponentView {
    pub role: Seq<char>,
    pub pages: u32,
    pub colors: Colors,
    pub material: Seq<char>,
    pub machine: Option<Seq<char>>,
}

pub struct OpView {
    pub operation: Seq<char>,
    pub params: Seq<(Seq<char>, JsonView)>,
}

pub struct JobSpecView {
    pub format: Seq<char>,
    pub quantity: u32,
    pub components: Seq<ComponentView>,
    pub operations: Seq<OpView>,
    pub technology_allow: Option<Seq<Technology>>,
}

impl View for Component {
    type V = ComponentView;

    open spec fn view(&self) -> ComponentView {
        ComponentView {
            role: self.role@,
            pages: self.pages,
            colors: self.colors,
            material: self.material@,
            machine: opt_str_view(self.machine),
        }
    }
}

impl View for OperationInstance {
    type V = OpView;

    open spec fn view(&self) -> OpView {
        OpView { operation: self.operation@, params: self.params.view() }
    }
}

impl View for JobSpec {
    type V = JobSpecView;

    open spec fn view(&self) -> JobSpecView {
        JobSpecView {
            format: self.format@,
            quantity: self.quantity,
            components: self.components@.map_values(|c: Component| c@),
            operations: self.operations@.map_values(|o: OperationInstance| o@),
            technology_allow: opt_techs_view(self.technology_allow),
        }
    }
}

fn clone_opt_str(o: &Option<String>) -> (r: Option<String>)
    ensures
        opt_str_view(r) == opt_str_view(*o),
{
    match o {
        Some(s) => Some(s.clone()),
        None => None,
    }
}

fn clone_techs(v: &Vec<Technology>) -> (r: Vec<Technology>)
    ensures
        r@ == v@,
{
    let mut out: Vec<Technology> = Vec::new();
    let mut i: usize = 0;
    while i < v.len()
        invariant
            i <= v.len(),
            out@ == v@.take(i as int),
        decreases v.len() - i,
    {
        out.push(v[i]);
        i += 1;
        assert(out@ =~= v@.take(i as int));
    }
    assert(v@.take(v.len() as int) =~= v@);
    out
}

impl Clone for Component {
    fn clone(&self) -> (r: Self)
        ensures
            r@ == self@,
    {
        Component {
            role: self.role.clone(),
            pages: self.pages,
            colors: self.colors,
            material: self.material.clone(),
            machine: clone_opt_str(&self.machine),
        }
    }
}

impl Clone for OperationInstance {
    fn clone(&self) -> (r: Self)
        ensures
            r@ == self@,
    {
        OperationInstance { operation: self.operation.clone(), params: self.params.deep_clone() }
    }
}

impl Clone for JobSpec {
    fn clone(&self) -> (r: Self)
        ensures
            r@ == self@,
    {
        let mut components: Vec<Component> = Vec::new();
        let mut i: usize = 0;
        while i < self.components.len()
            invariant
                i <= self.components.len(),
                components.len() == i,
                forall|j: int| 0 <= j < i ==> (#[trigger] components@[j])@ == self.components@[j]@,
            decreases self.components.len() - i,
        {
            components.push(self.components[i].clone());
            i += 1;
        }
        let mut operations: Vec<OperationInstance> = Vec::new();
        let mut i: usize = 0;
        while i < self.operations.len()
            invariant
                i <= self.operations.len(),
                operations.len() == i,
                forall|j: int| 0 <= j < i ==> (#[trigger] operations@[j])@ == self.operations@[j]@,
            decreases self.operations.len() - i,
        {
            operations.push(self.operations[i].clone());
            i += 1;
        }
        let technology_allow = match &self.technology_allow {
            Some(v) => Some(clone_techs(v)),
            None => None,
        };
        let r = JobSpec {
            format: self.format.clone(),
            quantity: self.quantity,
            components,
            operations,
            technology_allow,
        };
        assert(r@.components =~= self@.components);
        assert(r@.operations =~= self@.operations);
        r
    }
}

/// A component under construction; unset fields become required at the
/// completeness check (`E106`).
pub struct CompBuilderView {
    pub role: Seq<char>,
    pub pages: Option<u32>,
    pub colors: Option<Colors>,
    pub material: Option<Seq<char>>,
    pub machine: Option<Seq<char>>,
}

/// The spec under construction.
pub struct BuilderView {
    pub format: Option<Seq<char>>,
    pub quantity: u32,
    pub components: Seq<CompBuilderView>,
    pub operations: Seq<OpView>,
    pub technology_allow: Option<Seq<Technology>>,
}

struct CompBuilder {
    role: String,
    pages: Option<u32>,
    colors: Option<Colors>,
    material: Option<String>,
    machine: Option<String>,
}

struct SpecBuilder {
    format: Option<String>,
    quantity: u32,
    components: Vec<CompBuilder>,
    operations: Vec<OperationInstance>,
    technology_allow: Option<Vec<Technology>>,
}

impl View for CompBuilder {
    type V = CompBuilderView;

    closed spec fn view(&self) -> CompBuilderView {
        CompBuilderView {
            role: self.role@,
            pages: self.pages,
            colors: self.colors,
            material: opt_str_view(self.material),
            machine: opt_str_view(self.machine),
        }
    }
}

impl View for SpecBuilder {
    type V = BuilderView;

    closed spec fn view(&self) -> BuilderView {
        BuilderView {
            format: opt_str_view(self.format),
            quantity: self.quantity,
            components: self.components@.map_values(|c: CompBuilder| c@),
            operations: self.operations@.map_values(|o: OperationInstance| o@),
            technology_allow: opt_techs_view(self.technology_allow),
        }
    }
}

/// Whether a component under construction has role `role`.
pub open spec fn role_is(role: Seq<char>) -> spec_fn(CompBuilderView) -> bool {
    |c: CompBuilderView| c.role == role
}

/// Whether an operation instance is of operation `id`.
pub open spec fn op_is(id: Seq<char>) -> spec_fn(OpView) -> bool {
    |o: OpView| o.operation == id
}

/// A component's material must be `per_sheet`-priced: imposition needs a
/// sheet size (`E107`).
pub open spec fn per_sheet_material(model: PriceModel, material: Seq<char>) -> bool {
    match lookup(model.materials@, material) {
        Some(i) => model.materials@[i].pricing.spec_sheet_size_mm() is Some,
        None => false,
    }
}

/// The technologies of `prev` that `allow` also holds, in the order of `prev`.
pub open spec fn keep_allowed(prev: Seq<Technology>, allow: Seq<Technology>) -> Seq<Technology>
    decreases prev.len(),
{
    if prev.len() == 0 {
        Seq::empty()
    } else if allow.contains(prev.last()) {
        keep_allowed(prev.drop_last(), allow).push(prev.last())
    } else {
        keep_allowed(prev.drop_last(), allow)
    }
}

/// `b` with the component at `i` replaced by `c`.
pub open spec fn with_component(b: BuilderView, i: int, c: CompBuilderView) -> BuilderView {
    BuilderView { components: b.components.update(i, c), ..b }
}

/// One effect applied to the spec under construction. `input` is the numeric
/// parameter's value when the effect belongs to a numeric parameter.
#[verifier::opaque]
pub open spec fn apply_effect_spec(
    model: PriceModel,
    b: BuilderView,
    effect: Effect,
    input: Option<u32>,
) -> Outcome<BuilderView> {
    match effect {
        Effect::SetFormat { format } => {
            if lookup(model.formats@, format@) is None {
                fail_resolve(ResolveErrorView::DanglingReference(format@))
            } else {
                Outcome::Done(BuilderView { format: Some(format@), ..b })
            }
        },
        Effect::SetPages { target, value } => match value.spec_resolve(input) {
            None => fail_resolve(ResolveErrorView::InputOutsideNumeric),
            Some(p) => if p > u32::MAX {
                Outcome::Aborts
            } else {
                match first_match(b.components, role_is(target@)) {
                    None => fail_resolve(ResolveErrorView::UnknownRole(target@)),
                    Some(i) => Outcome::Done(
                        with_component(b, i, CompBuilderView { pages: Some(p as u32), ..b.components[i] }),
                    ),
                }
            },
        },
        Effect::SetColors { target, value } => match first_match(b.components, role_is(target@)) {
            None => fail_resolve(ResolveErrorView::UnknownRole(target@)),
            Some(i) => Outcome::Done(
                with_component(b, i, CompBuilderView { colors: Some(value), ..b.components[i] }),
            ),
        },
        Effect::SetMaterial { target, material } => {
            if !per_sheet_material(model, material@) {
                fail_resolve(ResolveErrorView::DanglingReference(material@))
            } else {
                match first_match(b.components, role_is(target@)) {
                    None => fail_resolve(ResolveErrorView::UnknownRole(target@)),
                    Some(i) => Outcome::Done(
                        with_component(
                            b,
                            i,
                            CompBuilderView { material: Some(material@), ..b.components[i] },
                        ),
                    ),
                }
            }
        },
        Effect::AddOperation { operation, params } => {
            if lookup(model.operations@, operation@) is None {
                fail_resolve(ResolveErrorView::DanglingReference(operation@))
            } else if first_match(b.operations, op_is(operation@)) is Some {
                fail_resolve(ResolveErrorView::DuplicateOperation(operation@))
            } else {
                Outcome::Done(
                    BuilderView {
                        operations: b.operations.push(
                            OpView { operation: operation@, params: params.view() },
                        ),
                        ..b
                    },
                )
            }
        },
        Effect::SetOpParam { operation, param, value } => match first_match(
            b.operations,
            op_is(operation@),
        ) {
            None => fail_resolve(ResolveErrorView::OpParamOnAbsentOperation(operation@)),
            Some(i) => Outcome::Done(
                BuilderView {
                    operations: b.operations.update(
                        i,
                        OpView {
                            operation: b.operations[i].operation,
                            params: crate::json::map_insert(
                                b.operations[i].params,
                                param@,
                                value.view(),
                            ),
                        },
                    ),
                    ..b
                },
            ),
        },
        Effect::AddComponent { role, pages, colors, material } => {
            if first_match(b.components, role_is(role@)) is Some {
                fail_resolve(ResolveErrorView::ComponentExists(role@))
            } else if !per_sheet_material(model, material@) {
                fail_resolve(ResolveErrorView::DanglingReference(material@))
            } else {
                Outcome::Done(
                    BuilderView {
                        components: b.components.push(
                            CompBuilderView {
                                role: role@,
                                pages: Some(pages),
                                colors: Some(colors),
                                material: Some(material@),
                                machine: None,
                            },
                        ),
                        ..b
                    },
                )
            }
        },
        Effect::ConstrainTechnology { allow } => match b.technology_allow {
            None => Outcome::Done(BuilderView { technology_allow: Some(allow@), ..b }),
            Some(prev) => {
                let inter = keep_allowed(prev, allow@);
                if inter.len() == 0 {
                    fail_resolve(ResolveErrorView::EmptyTechnologyAllow)
                } else {
                    Outcome::Done(BuilderView { technology_allow: Some(inter), ..b })
                }
            },
        },
    }
}

/// The effects applied in order; the first failure stops resolution.
pub open spec fn apply_effects_spec(
    model: PriceModel,
    b: BuilderView,
    effects: Seq<Effect>,
    input: Option<u32>,
) -> Outcome<BuilderView>
    decreases effects.len(),
{
    if effects.len() == 0 {
        Outcome::Done(b)
    } else {
        match apply_effects_spec(model, b, effects.drop_last(), input) {
            Outcome::Done(b2) => apply_effect_spec(model, b2, effects.last(), input),
            other => other,
        }
    }
}

/// Whether an option has code `code`.
pub open spec fn option_code_is(code: Seq<char>) -> spec_fn(OptionDef) -> bool {
    |o: OptionDef| o.code@ == code
}

/// Whether an option is marked default.
pub open spec fn option_is_default() -> spec_fn(OptionDef) -> bool {
    |o: OptionDef| o.is_default
}

pub open spec fn invalid_selection<T>(code: Seq<char>, reason: SelectionReason) -> Outcome<T> {
    Outcome::Fail(EngineErrorView::InvalidSelection { parameter: code, reason })
}

/// Index of the option a select parameter takes: the selected one, else the
/// default; an unavailable option is refused even when it is the default.
pub open spec fn choose_option_spec(
    code: Seq<char>,
    options: Seq<OptionDef>,
    sel: Seq<(Seq<char>, JsonView)>,
) -> Outcome<int> {
    let picked: Option<int> = match map_get(sel, code) {
        Some(JsonView::Str(chosen)) => first_match(options, option_code_is(chosen)),
        Some(_) => None,
        None => first_match(options, option_is_default()),
    };
    match picked {
        None => if map_get(sel, code) is Some {
            invalid_selection(code, SelectionReason::UnknownOption)
        } else {
            invalid_selection(code, SelectionReason::MissingNoDefault)
        },
        Some(i) => if !options[i].available {
            invalid_selection(code, SelectionReason::OptionUnavailable)
        } else {
            Outcome::Done(i)
        },
    }
}

/// Whether `v` is an accepted numeric input: within `min..=max` and on the
/// step grid from `min` (a step of `0` admits `min` alone).
pub open spec fn in_range(input: NumericInput, v: int) -> bool {
    &&& v >= input.min
    &&& v <= input.max
    &&& if input.step == 0 {
        v - input.min == 0
    } else {
        (v - input.min) % (input.step as int) == 0
    }
}

/// The value a numeric parameter takes: the selected number, else the
/// default. A default outside the input range is the template's fault (`E108`).
pub open spec fn choose_numeric_spec(
    code: Seq<char>,
    input: NumericInput,
    default: Option<u32>,
    sel: Seq<(Seq<char>, JsonView)>,
) -> Outcome<u32> {
    match map_get(sel, code) {
        Some(value) => match spec_as_u64(value) {
            Some(v) => if v <= u32::MAX && in_range(input, v as int) {
                Outcome::Done(v as u32)
            } else {
                invalid_selection(code, SelectionReason::OutOfRange)
            },
            None => invalid_selection(code, SelectionReason::OutOfRange),
        },
        None => match default {
            None => invalid_selection(code, SelectionReason::MissingNoDefault),
            Some(d) => if in_range(input, d as int) {
                Outcome::Done(d)
            } else {
                fail_resolve(ResolveErrorView::BadNumericDefault(code))
            },
        },
    }
}

/// One parameter: its choice, then the chosen effects.
pub open spec fn apply_param_spec(
    model: PriceModel,
    b: BuilderView,
    p: crate::engine::model::Parameter,
    sel: Seq<(Seq<char>, JsonView)>,
) -> Outcome<BuilderView> {
    match p.kind {
        ParameterKind::Select { options } => match choose_option_spec(p.code@, options@, sel) {
            Outcome::Done(i) => apply_effects_spec(model, b, options@[i].effects@, None),
            Outcome::Fail(e) => Outcome::Fail(e),
            Outcome::Aborts => Outcome::Aborts,
        },
        ParameterKind::Numeric { input, default, effects } => match choose_numeric_spec(
            p.code@,
            input,
            default,
            sel,
        ) {
            Outcome::Done(v) => apply_effects_spec(model, b, effects@, Some(v)),
            Outcome::Fail(e) => Outcome::Fail(e),
            Outcome::Aborts => Outcome::Aborts,
        },
    }
}

/// The parameters applied in template order.
pub open spec fn apply_params_spec(
    model: PriceModel,
    b: BuilderView,
    params: Seq<crate::engine::model::Parameter>,
    sel: Seq<(Seq<char>, JsonView)>,
) -> Outcome<BuilderView>
    decreases params.len(),
{
    if params.len() == 0 {
        Outcome::Done(b)
    } else {
        match apply_params_spec(model, b, params.drop_last(), sel) {
            Outcome::Done(b2) => apply_param_spec(model, b2, params.last(), sel),
            other => other,
        }
    }
}

/// Whether the template has a parameter with code `k`.
pub open spec fn names_parameter(t: ProductTemplate, k: Seq<char>) -> bool {
    exists|i: int| 0 <= i < t.parameters.len() && (#[trigger] t.parameters@[i]).code@ == k
}

/// Scanning `sel[..n]`: index of the least key (in character order) that
/// names no parameter.
pub open spec fn unknown_scan(t: ProductTemplate, sel: Seq<(Seq<char>, JsonView)>, n: int) -> Option<int>
    decreases n,
{
    if n <= 0 {
        None
    } else {
        let prev = unknown_scan(t, sel, n - 1);
        let k = sel[n - 1].0;
        if !names_parameter(t, k) && (prev is None || seq_lt(k, sel[prev->0].0)) {
            Some(n - 1)
        } else {
            prev
        }
    }
}

/// The least selection key that names no parameter of the template.
pub open spec fn unknown_key(t: ProductTemplate, sel: Seq<(Seq<char>, JsonView)>) -> Option<Seq<char>> {
    match unknown_scan(t, sel, sel.len() as int) {
        Some(i) => Some(sel[i].0),
        None => None,
    }
}

/// The spec before any effect: the template's components, nothing else set.
pub open spec fn initial_builder(t: ProductTemplate, qty: u32) -> BuilderView {
    BuilderView {
        format: None,
        quantity: qty,
        components: t.components@.map_values(
            |role: String|
                CompBuilderView { role: role@, pages: None, colors: None, material: None, machine: None },
        ),
        operations: Seq::empty(),
        technology_allow: None,
    }
}

/// Why a component is incomplete: the first of pages (unset or `0`), colors
/// and material that is missing, as `"{role}: {field}"`.
pub open spec fn incomplete_reason(c: CompBuilderView) -> Option<Seq<char>> {
    if !(c.pages matches Some(p) && p >= 1) {
        Some(c.role + ": pages"@)
    } else if c.colors is None {
        Some(c.role + ": colors"@)
    } else if c.material is None {
        Some(c.role + ": material"@)
    } else {
        None
    }
}

pub open spec fn is_incomplete() -> spec_fn(CompBuilderView) -> bool {
    |c: CompBuilderView| incomplete_reason(c) is Some
}

pub open spec fn complete_component(c: CompBuilderView) -> ComponentView {
    ComponentView {
        role: c.role,
        pages: c.pages->0,
        colors: c.colors->0,
        material: c.material->0,
        machine: c.machine,
    }
}

/// Completeness check (`E106`) and the finished spec.
pub open spec fn finish_spec(b: BuilderView) -> Outcome<JobSpecView> {
    match b.format {
        None => fail_resolve(ResolveErrorView::IncompleteSpec("format not set"@)),
        Some(format) => if b.quantity < 1 {
            fail_resolve(ResolveErrorView::IncompleteSpec("quantity must be >= 1"@))
        } else {
            match first_match(b.components, is_incomplete()) {
                Some(i) => fail_resolve(
                    ResolveErrorView::IncompleteSpec(incomplete_reason(b.components[i])->0),
                ),
                None => Outcome::Done(
                    JobSpecView {
                        format,
                        quantity: b.quantity,
                        components: b.components.map_values(|c: CompBuilderView| complete_component(c)),
                        operations: b.operations,
                        technology_allow: b.technology_allow,
                    },
                ),
            }
        },
    }
}

/// What resolving `sel` against template `t` at quantity `qty` comes to.
pub open spec fn resolve_spec(
    model: PriceModel,
    t: ProductTemplate,
    sel: Seq<(Seq<char>, JsonView)>,
    qty: u32,
) -> Outcome<JobSpecView> {
    match unknown_key(t, sel) {
        Some(k) => invalid_selection(k, SelectionReason::UnknownParameter),
        None => match apply_effects_spec(model, initial_builder(t, qty), t.base_effects@, None) {
            Outcome::Done(b1) => match apply_params_spec(model, b1, t.parameters@, sel) {
                Outcome::Done(b2) => finish_spec(b2),
                Outcome::Fail(e) => Outcome::Fail(e),
                Outcome::Aborts => Outcome::Aborts,
            },
            Outcome::Fail(e) => Outcome::Fail(e),
            Outcome::Aborts => Outcome::Aborts,
        },
    }
}

/// A step on the spec under construction ended as outcome `o` describes.
pub open spec fn step_matches(
    r: Result<(), EngineError>,
    o: Outcome<BuilderView>,
    after: BuilderView,
) -> bool {
    match o {
        Outcome::Done(v) => r is Ok && after == v,
        Outcome::Fail(e) => match r {
            Ok(_) => false,
            Err(x) => x.view() == e,
        },
        Outcome::Aborts => false,
    }
}

/// Once a prefix of the effects stops resolution, the rest do not run.
proof fn lemma_effects_prefix(
    model: PriceModel,
    b: BuilderView,
    effects: Seq<Effect>,
    input: Option<u32>,
    k: int,
)
    requires
        0 <= k <= effects.len(),
        !(apply_effects_spec(model, b, effects.take(k), input) is Done),
    ensures
        apply_effects_spec(model, b, effects, input) == apply_effects_spec(
            model,
            b,
            effects.take(k),
            input,
        ),
    decreases effects.len(),
{
    if k == effects.len() {
        assert(effects.take(k) =~= effects);
    } else {
        assert(effects.drop_last().take(k) =~= effects.take(k));
        lemma_effects_prefix(model, b, effects.drop_last(), input, k);
    }
}

/// Once a prefix of the parameters stops resolution, the rest do not run.
proof fn lemma_params_prefix(
    model: PriceModel,
    b: BuilderView,
    params: Seq<crate::engine::model::Parameter>,
    sel: Seq<(Seq<char>, JsonView)>,
    k: int,
)
    requires
        0 <= k <= params.len(),
        !(apply_params_spec(model, b, params.take(k), sel) is Done),
    ensures
        apply_params_spec(model, b, params, sel) == apply_params_spec(model, b, params.take(k), sel),
    decreases params.len(),
{
    if k == params.len() {
        assert(params.take(k) =~= params);
    } else {
        assert(params.drop_last().take(k) =~= params.take(k));
        lemma_params_prefix(model, b, params.drop_last(), sel, k);
    }
}

impl SpecBuilder {
    fn find_component(&self, role: &str) -> (r: Option<usize>)
        ensures
            match r {
                Some(i) => i < self.components.len() && first_match(self@.components, role_is(role@))
                    == Some(i as int),
                None => first_match(self@.components, role_is(role@)) is None,
            },
    {
        let ghost p = role_is(role@);
        let ghost cs = self@.components;
        let mut i: usize = 0;
        while i < self.components.len()
            invariant
                i <= self.components.len(),
                p == role_is(role@),
                cs == self@.components,
                cs.len() == self.components.len(),
                forall|j: int| 0 <= j < i ==> !p(#[trigger] cs[j]),
            decreases self.components.len() - i,
        {
            assert(cs[i as int] == self.components@[i as int]@);
            if str_eq(self.components[i].role.as_str(), role) {
                proof {
                    lemma_first_match_is(cs, p, i as int);
                }
                return Some(i);
            }
            i += 1;
        }
        proof {
            lemma_first_match_none(cs, p);
        }
        None
    }

    fn find_operation(&self, id: &str) -> (r: Option<usize>)
        ensures
            match r {
                Some(i) => i < self.operations.len() && first_match(self@.operations, op_is(id@))
                    == Some(i as int),
                None => first_match(self@.operations, op_is(id@)) is None,
            },
    {
        let ghost p = op_is(id@);
        let ghost os = self@.operations;
        let mut i: usize = 0;
        while i < self.operations.len()
            invariant
                i <= self.operations.len(),
                p == op_is(id@),
                os == self@.operations,
                os.len() == self.operations.len(),
                forall|j: int| 0 <= j < i ==> !p(#[trigger] os[j]),
            decreases self.operations.len() - i,
        {
            assert(os[i as int] == self.operations@[i as int]@);
            if str_eq(self.operations[i].operation.as_str(), id) {
                proof {
                    lemma_first_match_is(os, p, i as int);
                }
                return Some(i);
            }
            i += 1;
        }
        proof {
            lemma_first_match_none(os, p);
        }
        None
    }
}

fn require_per_sheet(model: &PriceModel, material: &str) -> (r: bool)
    ensures
        r == per_sheet_material(*model, material@),
{
    match find_keyed(&model.materials, material) {
        Some(i) => model.materials[i].pricing.sheet_size_mm().is_some(),
        None => false,
    }
}

fn techs_contain(allow: &Vec<Technology>, t: Technology) -> (r: bool)
    ensures
        r == allow@.contains(t),
{
    let mut i: usize = 0;
    while i < allow.len()
        invariant
            i <= allow.len(),
            forall|j: int| 0 <= j < i ==> allow@[j] != t,
        decreases allow.len() - i,
    {
        if allow[i] == t {
            return true;
        }
        i += 1;
    }
    false
}

fn keep_allowed_vec(prev: &Vec<Technology>, allow: &Vec<Technology>) -> (r: Vec<Technology>)
    ensures
        r@ == keep_allowed(prev@, allow@),
{
    let mut out: Vec<Technology> = Vec::new();
    let mut i: usize = 0;
    while i < prev.len()
        invariant
            i <= prev.len(),
            out@ == keep_allowed(prev@.take(i as int), allow@),
        decreases prev.len() - i,
    {
        assert(prev@.take(i + 1).drop_last() =~= prev@.take(i as int));
        if techs_contain(allow, prev[i]) {
            out.push(prev[i]);
        }
        i += 1;
    }
    assert(prev@.take(prev.len() as int) =~= prev@);
    out
}

/// `b` with component `i` replaced by `c`.
fn replace_component(b: &mut SpecBuilder, i: usize, c: CompBuilder)
    requires
        i < old(b).components.len(),
    ensures
        final(b)@ == with_component(old(b)@, i as int, c@),
{
    b.components.remove(i);
    b.components.insert(i, c);
    assert(b@.components =~= old(b)@.components.update(i as int, c@));
}

fn apply_effect(model: &PriceModel, b: &mut SpecBuilder, effect: &Effect, input: Option<u32>) -> (r:
    Result<(), EngineError>)
    requires
        !(apply_effect_spec(*model, old(b)@, *effect, input) is Aborts),
    ensures
        step_matches(r, apply_effect_spec(*model, old(b)@, *effect, input), final(b)@),
        r is Err ==> final(b)@ == old(b)@,
{
    reveal(apply_effect_spec);
    match effect {
        Effect::SetFormat { format } => {
            if find_keyed(&model.formats, format.as_str()).is_none() {
                return Err(EngineError::Resolve(ResolveError::DanglingReference(format.clone())));
            }
            b.format = Some(format.clone());
            Ok(())
        },
        Effect::SetPages { target, value } => {
            let pages = match value.resolve(input) {
                Some(p) => p,
                None => {
                    return Err(EngineError::Resolve(ResolveError::InputOutsideNumeric));
                },
            };
            match b.find_component(target.as_str()) {
                None => Err(EngineError::Resolve(ResolveError::UnknownRole(target.clone()))),
                Some(i) => {
                    let c = CompBuilder {
                        role: b.components[i].role.clone(),
                        pages: Some(pages),
                        colors: b.components[i].colors,
                        material: clone_opt_str(&b.components[i].material),
                        machine: clone_opt_str(&b.components[i].machine),
                    };
                    replace_component(b, i, c);
                    Ok(())
                },
            }
        },
        Effect::SetColors { target, value } => {
            match b.find_component(target.as_str()) {
                None => Err(EngineError::Resolve(ResolveError::UnknownRole(target.clone()))),
                Some(i) => {
                    let c = CompBuilder {
                        role: b.components[i].role.clone(),
                        pages: b.components[i].pages,
                        colors: Some(*value),
                        material: clone_opt_str(&b.components[i].material),
                        machine: clone_opt_str(&b.components[i].machine),
                    };
                    replace_component(b, i, c);
                    Ok(())
                },
            }
        },
        Effect::SetMaterial { target, material } => {
            if !require_per_sheet(model, material.as_str()) {
                return Err(EngineError::Resolve(ResolveError::DanglingReference(material.clone())));
            }
            match b.find_component(target.as_str()) {
                None => Err(EngineError::Resolve(ResolveError::UnknownRole(target.clone()))),
                Some(i) => {
                    let c = CompBuilder {
                        role: b.components[i].role.clone(),
                        pages: b.components[i].pages,
                        colors: b.components[i].colors,
                        material: Some(material.clone()),
                        machine: clone_opt_str(&b.components[i].machine),
                    };
                    replace_component(b, i, c);
                    Ok(())
                },
            }
        },
        Effect::AddOperation { operation, params } => {
            if find_keyed(&model.operations, operation.as_str()).is_none() {
                return Err(EngineError::Resolve(ResolveError::DanglingReference(operation.clone())));
            }
            if b.find_operation(operation.as_str()).is_some() {
                return Err(EngineError::Resolve(ResolveError::DuplicateOperation(operation.clone())));
            }
            let inst = OperationInstance { operation: operation.clone(), params: params.deep_clone() };
            b.operations.push(inst);
            assert(b@.operations =~= old(b)@.operations.push(inst@));
            Ok(())
        },
        Effect::SetOpParam { operation, param, value } => {
            match b.find_operation(operation.as_str()) {
                None => Err(
                    EngineError::Resolve(ResolveError::OpParamOnAbsentOperation(operation.clone())),
                ),
                Some(i) => {
                    let mut inst = b.operations.remove(i);
                    inst.params.insert(param.clone(), value.deep_clone());
                    b.operations.insert(i, inst);
                    assert(b@.operations =~= old(b)@.operations.update(i as int, inst@));
                    Ok(())
                },
            }
        },
        Effect::AddComponent { role, pages, colors, material } => {
            if b.find_component(role.as_str()).is_some() {
                return Err(EngineError::Resolve(ResolveError::ComponentExists(role.clone())));
            }
            if !require_per_sheet(model, material.as_str()) {
                return Err(EngineError::Resolve(ResolveError::DanglingReference(material.clone())));
            }
            let c = CompBuilder {
                role: role.clone(),
                pages: Some(*pages),
                colors: Some(*colors),
                material: Some(material.clone()),
                machine: None,
            };
            b.components.push(c);
            assert(b@.components =~= old(b)@.components.push(c@));
            Ok(())
        },
        Effect::ConstrainTechnology { allow } => {
            let next = match &b.technology_allow {
                None => clone_techs(allow),
                Some(prev) => {
                    let inter = keep_allowed_vec(prev, allow);
                    if inter.len() == 0 {
                        return Err(EngineError::Resolve(ResolveError::EmptyTechnologyAllow));
                    }
                    inter
                },
            };
            b.technology_allow = Some(next);
            Ok(())
        },
    }
}

fn apply_effects(
    model: &PriceModel,
    b: &mut SpecBuilder,
    effects: &Vec<Effect>,
    input: Option<u32>,
) -> (r: Result<(), EngineError>)
    requires
        !(apply_effects_spec(*model, old(b)@, effects@, input) is Aborts),
    ensures
        step_matches(r, apply_effects_spec(*model, old(b)@, effects@, input), final(b)@),
{
    let ghost b0 = b@;
    let mut i: usize = 0;
    assert(effects@.take(0) =~= Seq::<Effect>::empty());
    while i < effects.len()
        invariant
            i <= effects.len(),
            b0 == old(b)@,
            apply_effects_spec(*model, b0, effects@.take(i as int), input) == Outcome::Done(b@),
            !(apply_effects_spec(*model, b0, effects@, input) is Aborts),
        decreases effects.len() - i,
    {
        assert(effects@.take(i + 1).drop_last() =~= effects@.take(i as int));
        assert(effects@.take(i + 1).last() == effects@[i as int]);
        let ghost bb = b@;
        proof {
            if apply_effect_spec(*model, bb, effects@[i as int], input) is Aborts {
                lemma_effects_prefix(*model, b0, effects@, input, i + 1);
            }
        }
        let step = apply_effect(model, b, &effects[i], input);
        match step {
            Ok(()) => {},
            Err(e) => {
                proof {
                    assert(apply_effect_spec(*model, bb, effects@[i as int], input) == Outcome::<
                        BuilderView,
                    >::Fail(e.view()));
                    assert(apply_effects_spec(*model, b0, effects@.take(i + 1), input)
                        == apply_effect_spec(*model, bb, effects@[i as int], input));
                    lemma_effects_prefix(*model, b0, effects@, input, i + 1);
                    assert(apply_effects_spec(*model, b0, effects@, input) == Outcome::<
                        BuilderView,
                    >::Fail(e.view()));
                }
                return Err(e);
            },
        }
        i += 1;
    }
    assert(effects@.take(effects.len() as int) =~= effects@);
    Ok(())
}

fn find_option_code(options: &Vec<OptionDef>, code: &str) -> (r: Option<usize>)
    ensures
        match r {
            Some(i) => i < options.len() && first_match(options@, option_code_is(code@)) == Some(
                i as int,
            ),
            None => first_match(options@, option_code_is(code@)) is None,
        },
{
    let ghost p = option_code_is(code@);
    let mut i: usize = 0;
    while i < options.len()
        invariant
            i <= options.len(),
            p == option_code_is(code@),
            forall|j: int| 0 <= j < i ==> !p(#[trigger] options@[j]),
        decreases options.len() - i,
    {
        if str_eq(options[i].code.as_str(), code) {
            proof {
                lemma_first_match_is(options@, p, i as int);
            }
            return Some(i);
        }
        i += 1;
    }
    proof {
        lemma_first_match_none(options@, p);
    }
    None
}

fn find_default_option(options: &Vec<OptionDef>) -> (r: Option<usize>)
    ensures
        match r {
            Some(i) => i < options.len() && first_match(options@, option_is_default()) == Some(
                i as int,
            ),
            None => first_match(options@, option_is_default()) is None,
        },
{
    let ghost p = option_is_default();
    let mut i: usize = 0;
    while i < options.len()
        invariant
            i <= options.len(),
            p == option_is_default(),
            forall|j: int| 0 <= j < i ==> !p(#[trigger] options@[j]),
        decreases options.len() - i,
    {
        if options[i].is_default {
            proof {
                lemma_first_match_is(options@, p, i as int);
            }
            return Some(i);
        }
        i += 1;
    }
    proof {
        lemma_first_match_none(options@, p);
    }
    None
}

fn choose_option(code: &String, options: &Vec<OptionDef>, selection: &Selection) -> (r: Result<
    usize,
    EngineError,
>)
    ensures
        match r {
            Ok(o) => o < options.len() && choose_option_spec(code@, options@, selection.view())
                == Outcome::<int>::Done(o as int),
            Err(x) => choose_option_spec(code@, options@, selection.view()) == Outcome::<int>::Fail(
                x.view(),
            ),
        },
{
    let got = selection.get(code.as_str());
    let picked = match got {
        Some(v) => match v.as_str() {
            Some(chosen) => find_option_code(options, chosen),
            None => None,
        },
        None => find_default_option(options),
    };
    match picked {
        None => {
            if got.is_some() {
                Err(
                    EngineError::InvalidSelection {
                        parameter: code.clone(),
                        reason: SelectionReason::UnknownOption,
                    },
                )
            } else {
                Err(
                    EngineError::InvalidSelection {
                        parameter: code.clone(),
                        reason: SelectionReason::MissingNoDefault,
                    },
                )
            }
        },
        Some(i) => {
            if !options[i].available {
                Err(
                    EngineError::InvalidSelection {
                        parameter: code.clone(),
                        reason: SelectionReason::OptionUnavailable,
                    },
                )
            } else {
                Ok(i)
            }
        },
    }
}

fn value_in_range(input: &NumericInput, v: u32) -> (r: bool)
    ensures
        r == in_range(*input, v as int),
{
    v >= input.min && v <= input.max && (if input.step == 0 {
        v - input.min == 0
    } else {
        (v - input.min) % input.step == 0
    })
}

fn choose_numeric(
    code: &String,
    input: &NumericInput,
    default: Option<u32>,
    selection: &Selection,
) -> (r: Result<u32, EngineError>)
    ensures
        match r {
            Ok(v) => choose_numeric_spec(code@, *input, default, selection.view()) == Outcome::<
                u32,
            >::Done(v),
            Err(x) => choose_numeric_spec(code@, *input, default, selection.view()) == Outcome::<
                u32,
            >::Fail(x.view()),
        },
{
    match selection.get(code.as_str()) {
        Some(value) => match value.as_u64() {
            Some(u) => {
                if u <= 4294967295u64 && value_in_range(input, u as u32) {
                    Ok(u as u32)
                } else {
                    Err(
                        EngineError::InvalidSelection {
                            parameter: code.clone(),
                            reason: SelectionReason::OutOfRange,
                        },
                    )
                }
            },
            None => Err(
                EngineError::InvalidSelection {
                    parameter: code.clone(),
                    reason: SelectionReason::OutOfRange,
                },
            ),
        },
        None => match default {
            None => Err(
                EngineError::InvalidSelection {
                    parameter: code.clone(),
                    reason: SelectionReason::MissingNoDefault,
                },
            ),
            Some(d) => {
                if value_in_range(input, d) {
                    Ok(d)
                } else {
                    Err(EngineError::Resolve(ResolveError::BadNumericDefault(code.clone())))
                }
            },
        },
    }
}

/// Whether the template has a parameter with code `k`.
fn names_parameter_exec(t: &ProductTemplate, k: &str) -> (r: bool)
    ensures
        r == names_parameter(*t, k@),
{
    let mut i: usize = 0;
    while i < t.parameters.len()
        invariant
            i <= t.parameters.len(),
            forall|j: int| 0 <= j < i ==> (#[trigger] t.parameters@[j]).code@ != k@,
        decreases t.parameters.len() - i,
    {
        if str_eq(t.parameters[i].code.as_str(), k) {
            return true;
        }
        i += 1;
    }
    false
}

fn reject_unknown_keys(t: &ProductTemplate, selection: &Selection) -> (r: Result<(), EngineError>)
    ensures
        match unknown_key(*t, selection.view()) {
            Some(k) => r matches Err(e) && e.view() == (EngineErrorView::InvalidSelection {
                parameter: k,
                reason: SelectionReason::UnknownParameter,
            }),
            None => r is Ok,
        },
{
    let ghost sv = selection.view();
    let mut best: Option<usize> = None;
    let mut i: usize = 0;
    while i < selection.entries.len()
        invariant
            i <= selection.entries.len(),
            sv == selection.view(),
            sv.len() == selection.entries.len(),
            match best {
                Some(k) => k < i && unknown_scan(*t, sv, i as int) == Some(k as int),
                None => unknown_scan(*t, sv, i as int) is None,
            },
        decreases selection.entries.len() - i,
    {
        assert(sv[i as int].0 == selection.entries@[i as int].0@);
        let key = selection.entries[i].0.as_str();
        if !names_parameter_exec(t, key) {
            let take = match best {
                None => true,
                Some(k) => {
                    assert(sv[k as int].0 == selection.entries@[k as int].0@);
                    str_lt(key, selection.entries[k].0.as_str())
                },
            };
            if take {
                best = Some(i);
            }
        }
        i += 1;
    }
    match best {
        Some(k) => {
            assert(sv[k as int].0 == selection.entries@[k as int].0@);
            Err(
                EngineError::InvalidSelection {
                    parameter: selection.entries[k].0.clone(),
                    reason: SelectionReason::UnknownParameter,
                },
            )
        },
        None => Ok(()),
    }
}

proof fn lemma_finish_incomplete(b: BuilderView, i: int)
    requires
        b.format is Some,
        b.quantity >= 1,
        0 <= i < b.components.len(),
        is_incomplete()(b.components[i]),
        forall|j: int| 0 <= j < i ==> !is_incomplete()(#[trigger] b.components[j]),
    ensures
        finish_spec(b) == fail_resolve::<JobSpecView>(
            ResolveErrorView::IncompleteSpec(incomplete_reason(b.components[i])->0),
        ),
{
    lemma_first_match_is(b.components, is_incomplete(), i);
}

fn finish(b: SpecBuilder) -> (r: Result<JobSpec, EngineError>)
    ensures
        result_matches(r, finish_spec(b@)),
{
    let ghost bv = b@;
    let SpecBuilder { format, quantity, components, operations, technology_allow } = b;
    let format = match format {
        Some(f) => f,
        None => {
            return Err(EngineError::Resolve(ResolveError::IncompleteSpec(owned("format not set"))));
        },
    };
    if quantity < 1 {
        return Err(
            EngineError::Resolve(ResolveError::IncompleteSpec(owned("quantity must be >= 1"))),
        );
    }
    let ghost p = is_incomplete();
    let mut out: Vec<Component> = Vec::new();
    let mut i: usize = 0;
    while i < components.len()
        invariant
            i <= components.len(),
            out.len() == i,
            p == is_incomplete(),
            bv == b@,
            bv.format is Some,
            bv.quantity >= 1,
            bv.components == components@.map_values(|c: CompBuilder| c@),
            forall|j: int| 0 <= j < i ==> !p(#[trigger] bv.components[j]),
            forall|j: int|
                0 <= j < i ==> (#[trigger] out@[j])@ == complete_component(bv.components[j]),
        decreases components.len() - i,
    {
        let c = &components[i];
        assert(bv.components[i as int] == c@);
        let pages_set = match c.pages {
            Some(n) => n >= 1,
            None => false,
        };
        if !pages_set {
            let msg = join(c.role.as_str(), ": pages");
            proof {
                assert(incomplete_reason(c@) == Some(c.role@ + ": pages"@));
                lemma_finish_incomplete(bv, i as int);
            }
            return Err(EngineError::Resolve(ResolveError::IncompleteSpec(msg)));
        }
        let pages = match c.pages {
            Some(n) => n,
            None => 0,
        };
        let colors = match c.colors {
            Some(x) => x,
            None => {
                proof {
                    lemma_finish_incomplete(bv, i as int);
                }
                return Err(
                    EngineError::Resolve(
                        ResolveError::IncompleteSpec(join(c.role.as_str(), ": colors")),
                    ),
                );
            },
        };
        let material = match &c.material {
            Some(m) => m.clone(),
            None => {
                proof {
                    lemma_finish_incomplete(bv, i as int);
                }
                return Err(
                    EngineError::Resolve(
                        ResolveError::IncompleteSpec(join(c.role.as_str(), ": material")),
                    ),
                );
            },
        };
        out.push(
            Component {
                role: c.role.clone(),
                pages,
                colors,
                material,
                machine: clone_opt_str(&c.machine),
            },
        );
        i += 1;
    }
    proof {
        lemma_first_match_none(bv.components, p);
    }
    let r = JobSpec { format, quantity, components: out, operations, technology_allow };
    assert(r@.components =~= bv.components.map_values(|c: CompBuilderView| complete_component(c)));
    assert(r@.operations =~= bv.operations);
    Ok(r)
}

fn apply_param(
    model: &PriceModel,
    b: &mut SpecBuilder,
    param: &crate::engine::model::Parameter,
    selection: &Selection,
) -> (r: Result<(), EngineError>)
    requires
        !(apply_param_spec(*model, old(b)@, *param, selection.view()) is Aborts),
    ensures
        step_matches(r, apply_param_spec(*model, old(b)@, *param, selection.view()), final(b)@),
{
    match &param.kind {
        ParameterKind::Select { options } => match choose_option(&param.code, options, selection) {
            Ok(o) => {
                assert(o < options.len());
                apply_effects(model, b, &options[o].effects, None)
            },
            Err(e) => Err(e),
        },
        ParameterKind::Numeric { input, default, effects } => match choose_numeric(
            &param.code,
            input,
            *default,
            selection,
        ) {
            Ok(v) => apply_effects(model, b, effects, Some(v)),
            Err(e) => Err(e),
        },
    }
}

/// Resolve a selection into a `JobSpec` at a given quantity.
pub fn resolve(model: &PriceModel, template: &ProductTemplate, selection: &Selection, qty: u32) -> (r:
    Result<JobSpec, EngineError>)
    requires
        !(resolve_spec(*model, *template, selection.view(), qty) is Aborts),
    ensures
        result_matches(r, resolve_spec(*model, *template, selection.view(), qty)),
{
    match reject_unknown_keys(template, selection) {
        Ok(()) => {},
        Err(e) => {
            return Err(e);
        },
    }
    let mut components: Vec<CompBuilder> = Vec::new();
    let mut i: usize = 0;
    while i < template.components.len()
        invariant
            i <= template.components.len(),
            components.len() == i,
            forall|j: int|
                0 <= j < i ==> (#[trigger] components@[j])@ == (CompBuilderView {
                    role: template.components@[j]@,
                    pages: None,
                    colors: None,
                    material: None,
                    machine: None,
                }),
        decreases template.components.len() - i,
    {
        components.push(
            CompBuilder {
                role: template.components[i].clone(),
                pages: None,
                colors: None,
                material: None,
                machine: None,
            },
        );
        i += 1;
    }
    let mut b = SpecBuilder {
        format: None,
        quantity: qty,
        components,
        operations: Vec::new(),
        technology_allow: None,
    };
    let ghost b_init = initial_builder(*template, qty);
    assert(b@.components =~= b_init.components);
    assert(b@.operations =~= b_init.operations);
    match apply_effects(model, &mut b, &template.base_effects, None) {
        Ok(()) => {},
        Err(e) => {
            return Err(e);
        },
    }
    let ghost b1 = b@;
    let ghost sel = selection.view();
    let ghost params = template.parameters@;
    let mut k: usize = 0;
    assert(params.take(0) =~= Seq::<crate::engine::model::Parameter>::empty());
    while k < template.parameters.len()
        invariant
            k <= template.parameters.len(),
            params == template.parameters@,
            sel == selection.view(),
            apply_params_spec(*model, b1, params.take(k as int), sel) == Outcome::Done(b@),
            !(apply_params_spec(*model, b1, params, sel) is Aborts),
            unknown_key(*template, sel) is None,
            apply_effects_spec(*model, initial_builder(*template, qty), template.base_effects@, None)
                == Outcome::Done(b1),
        decreases template.parameters.len() - k,
    {
        let param = &template.parameters[k];
        assert(params.take(k + 1).drop_last() =~= params.take(k as int));
        assert(params.take(k + 1).last() == *param);
        proof {
            if apply_param_spec(*model, b@, *param, sel) is Aborts {
                lemma_params_prefix(*model, b1, params, sel, k + 1);
            }
        }
        let ghost bb = b@;
        let step = apply_param(model, &mut b, param, selection);
        match step {
            Ok(()) => {},
            Err(e) => {
                proof {
                    assert(apply_params_spec(*model, b1, params.take(k + 1), sel)
                        == apply_param_spec(*model, bb, *param, sel));
                    lemma_params_prefix(*model, b1, params, sel, k + 1);
                }
                return Err(e);
            },
        }
        k += 1;
    }
    assert(params.take(template.parameters.len() as int) =~= params);
    finish(b)
}

} // verus!
