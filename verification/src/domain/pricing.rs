//! The pricing catalog: the five tables a tenant admin edits, and the
//! structural constraints a catalog document must meet on write.
use vstd::prelude::*;

use crate::domain::error::{
    errors_result, plain_error, put_new, unit_result_is, validation_error, DomainError,
    ErrorEntries, FieldErrors,
};
use crate::engine::model::{Format, Machine, Material, Operation, PricingPolicy, Technology};
use crate::text::str_eq;

verus! {

#[derive(Debug, Clone, Copy, PartialEq, Eq, Structural)]
pub enum PricingEntity {
    Format,
    Material,
    Machine,
    Operation,
    Policy,
}

impl PricingEntity {
    pub open spec fn from_segment_spec(segment: Seq<char>) -> Option<PricingEntity> {
        if segment == "formats"@ {
            Some(PricingEntity::Format)
        } else if segment == "materials"@ {
            Some(PricingEntity::Material)
        } else if segment == "machines"@ {
            Some(PricingEntity::Machine)
        } else if segment == "operations"@ {
            Some(PricingEntity::Operation)
        } else if segment == "policies"@ {
            Some(PricingEntity::Policy)
        } else {
            None
        }
    }

    /// Resolve a `/api/pricing/{segment}` path segment to an entity.
    pub fn from_segment(segment: &str) -> (r: Option<PricingEntity>)
        ensures
            r == PricingEntity::from_segment_spec(segment@),
    {
        if str_eq(segment, "formats") {
            Some(PricingEntity::Format)
        } else if str_eq(segment, "materials") {
            Some(PricingEntity::Material)
        } else if str_eq(segment, "machines") {
            Some(PricingEntity::Machine)
        } else if str_eq(segment, "operations") {
            Some(PricingEntity::Operation)
        } else if str_eq(segment, "policies") {
            Some(PricingEntity::Policy)
        } else {
            None
        }
    }

    /// The table backing this entity (also the record-id prefix).
    pub fn table(self) -> (r: &'static str)
        ensures
            r@ == match self {
                PricingEntity::Format => "format"@,
                PricingEntity::Material => "material"@,
                PricingEntity::Machine => "machine"@,
                PricingEntity::Operation => "operation"@,
                PricingEntity::Policy => "pricing_policy"@,
            },
    {
        match self {
            PricingEntity::Format => "format",
            PricingEntity::Material => "material",
            PricingEntity::Machine => "machine",
            PricingEntity::Operation => "operation",
            PricingEntity::Policy => "pricing_policy",
        }
    }

    /// Field to sort a list by: a policy has no name, so it sorts by currency.
    pub fn sort_field(self) -> (r: &'static str)
        ensures
            r@ == match self {
                PricingEntity::Policy => "currency"@,
                _ => "name"@,
            },
    {
        match self {
            PricingEntity::Policy => "currency",
            _ => "name",
        }
    }

    pub const ALL: [PricingEntity; 5] = [
        PricingEntity::Format,
        PricingEntity::Material,
        PricingEntity::Machine,
        PricingEntity::Operation,
        PricingEntity::Policy,
    ];
}

/// A catalog document read into its engine record.
#[derive(Debug, PartialEq)]
pub enum CatalogDocument {
    Format(Format),
    Material(Material),
    Machine(Machine),
    Operation(Operation),
    Policy(PricingPolicy),
}

/// Formats are stored portrait with positive dimensions.
pub open spec fn format_errors(f: Format) -> ErrorEntries {
    let w = f.trim_mm@[0];
    let h = f.trim_mm@[1];
    if w == 0 || h == 0 {
        put_new(Seq::empty(), "trim_mm"@, plain_error("positive_dimensions"@))
    } else if w > h {
        put_new(Seq::empty(), "trim_mm"@, plain_error("portrait_required"@))
    } else {
        Seq::empty()
    }
}

/// A material's price is not negative; a printable stock has a grammage.
pub open spec fn material_errors(m: Material) -> ErrorEntries {
    let e1 = if m.pricing.spec_price_micro() < 0 {
        put_new(Seq::empty(), "pricing"@, plain_error("non_negative"@))
    } else {
        Seq::empty()
    };
    if m.printable matches Some(p) && p.grammage_gsm == 0 {
        put_new(e1, "printable"@, plain_error("positive_grammage"@))
    } else {
        e1
    }
}

/// A machine prices by digital clicks or by offset plates and run, never
/// both, and carries its own technology's costs.
pub open spec fn machine_errors(m: Machine) -> ErrorEntries {
    match m.technology {
        Technology::Digital => {
            let e1 = if m.click_mono_micro <= 0 {
                put_new(Seq::empty(), "click_mono_micro"@, plain_error("required_for_digital"@))
            } else {
                Seq::empty()
            };
            let e2 = if m.click_color_micro <= 0 {
                put_new(e1, "click_color_micro"@, plain_error("required_for_digital"@))
            } else {
                e1
            };
            let e3 = if m.plate_price_micro != 0 {
                put_new(e2, "plate_price_micro"@, plain_error("not_for_digital"@))
            } else {
                e2
            };
            if m.run_price_micro != 0 {
                put_new(e3, "run_price_micro"@, plain_error("not_for_digital"@))
            } else {
                e3
            }
        },
        Technology::Offset => {
            let e1 = if m.plate_price_micro <= 0 {
                put_new(Seq::empty(), "plate_price_micro"@, plain_error("required_for_offset"@))
            } else {
                Seq::empty()
            };
            let e2 = if m.run_price_micro <= 0 {
                put_new(e1, "run_price_micro"@, plain_error("required_for_offset"@))
            } else {
                e1
            };
            let e3 = if m.click_mono_micro != 0 {
                put_new(e2, "click_mono_micro"@, plain_error("not_for_offset"@))
            } else {
                e2
            };
            if m.click_color_micro != 0 {
                put_new(e3, "click_color_micro"@, plain_error("not_for_offset"@))
            } else {
                e3
            }
        },
    }
}

/// An operation's setup and unit prices are not negative.
pub open spec fn operation_errors(o: Operation) -> ErrorEntries {
    let e1 = if o.setup_micro < 0 {
        put_new(Seq::empty(), "setup_micro"@, plain_error("non_negative"@))
    } else {
        Seq::empty()
    };
    if o.unit_price_micro < 0 {
        put_new(e1, "unit_price_micro"@, plain_error("non_negative"@))
    } else {
        e1
    }
}

/// Margin bands ascend strictly by `min_qty`.
pub open spec fn bands_ascending(p: PricingPolicy) -> bool {
    forall|i: int| 0 <= i < p.margin_bands@.len() - 1 ==> (#[trigger] p.margin_bands@[i]).min_qty
        < p.margin_bands@[i + 1].min_qty
}

/// A policy: a three-byte currency code; bands present, the first at
/// `min_qty` 1, ascending, with positive multipliers (the first failure
/// named); a positive rounding step; a non-negative minimum price.
pub open spec fn policy_errors(p: PricingPolicy) -> ErrorEntries {
    let bands = p.margin_bands@;
    let e1 = if vstd::utf8::encode_utf8(p.currency@).len() as usize != 3 {
        put_new(Seq::empty(), "currency"@, plain_error("invalid_currency"@))
    } else {
        Seq::empty()
    };
    let e2 = if bands.len() == 0 {
        put_new(e1, "margin_bands"@, plain_error("bands_required"@))
    } else {
        let a = if bands[0].min_qty != 1 {
            put_new(e1, "margin_bands"@, plain_error("first_band_min_qty_one"@))
        } else {
            e1
        };
        let b = if !bands_ascending(p) {
            put_new(a, "margin_bands"@, plain_error("bands_ascending"@))
        } else {
            a
        };
        if exists|i: int| 0 <= i < bands.len() && (#[trigger] bands[i]).multiplier_bp == 0 {
            put_new(b, "margin_bands"@, plain_error("positive_multiplier"@))
        } else {
            b
        }
    };
    let e3 = if p.rounding.step_minor <= 0 {
        put_new(e2, "rounding"@, plain_error("positive_step"@))
    } else {
        e2
    };
    if p.min_price_minor < 0 {
        put_new(e3, "min_price_minor"@, plain_error("non_negative"@))
    } else {
        e3
    }
}

pub fn validate_format(format: &Format) -> (r: Result<(), DomainError>)
    ensures
        unit_result_is(r, errors_result(format_errors(*format))),
{
    let w = format.trim_mm[0];
    let h = format.trim_mm[1];
    let mut e = FieldErrors::new();
    if w == 0 || h == 0 {
        e.put("trim_mm", "positive_dimensions");
    } else if w > h {
        e.put("trim_mm", "portrait_required");
    }
    crate::domain::error::into_result(e)
}

pub fn validate_material(material: &Material) -> (r: Result<(), DomainError>)
    ensures
        unit_result_is(r, errors_result(material_errors(*material))),
{
    let mut e = FieldErrors::new();
    if material.pricing.price_micro() < 0 {
        e.put("pricing", "non_negative");
    }
    match &material.printable {
        Some(p) => {
            if p.grammage_gsm == 0 {
                e.put("printable", "positive_grammage");
            }
        },
        None => {},
    }
    crate::domain::error::into_result(e)
}

pub fn validate_machine(m: &Machine) -> (r: Result<(), DomainError>)
    ensures
        unit_result_is(r, errors_result(machine_errors(*m))),
{
    let mut e = FieldErrors::new();
    match m.technology {
        Technology::Digital => {
            if m.click_mono_micro <= 0 {
                e.put("click_mono_micro", "required_for_digital");
            }
            if m.click_color_micro <= 0 {
                e.put("click_color_micro", "required_for_digital");
            }
            if m.plate_price_micro != 0 {
                e.put("plate_price_micro", "not_for_digital");
            }
            if m.run_price_micro != 0 {
                e.put("run_price_micro", "not_for_digital");
            }
        },
        Technology::Offset => {
            if m.plate_price_micro <= 0 {
                e.put("plate_price_micro", "required_for_offset");
            }
            if m.run_price_micro <= 0 {
                e.put("run_price_micro", "required_for_offset");
            }
            if m.click_mono_micro != 0 {
                e.put("click_mono_micro", "not_for_offset");
            }
            if m.click_color_micro != 0 {
                e.put("click_color_micro", "not_for_offset");
            }
        },
    }
    crate::domain::error::into_result(e)
}

pub fn validate_operation(op: &Operation) -> (r: Result<(), DomainError>)
    ensures
        unit_result_is(r, errors_result(operation_errors(*op))),
{
    let mut e = FieldErrors::new();
    if op.setup_micro < 0 {
        e.put("setup_micro", "non_negative");
    }
    if op.unit_price_micro < 0 {
        e.put("unit_price_micro", "non_negative");
    }
    crate::domain::error::into_result(e)
}

fn bands_ascend(policy: &PricingPolicy) -> (r: bool)
    requires
        policy.margin_bands.len() > 0,
    ensures
        r == bands_ascending(*policy),
{
    let bands = &policy.margin_bands;
    let mut i: usize = 0;
    while i + 1 < bands.len()
        invariant
            bands == &policy.margin_bands,
            i + 1 <= bands.len(),
            forall|j: int| 0 <= j < i ==> (#[trigger] bands@[j]).min_qty < bands@[j + 1].min_qty,
        decreases bands.len() - i,
    {
        if !(bands[i].min_qty < bands[i + 1].min_qty) {
            return false;
        }
        i += 1;
    }
    true
}

fn has_zero_multiplier(policy: &PricingPolicy) -> (r: bool)
    ensures
        r == exists|j: int|
            0 <= j < policy.margin_bands@.len() && (#[trigger] policy.margin_bands@[j]).multiplier_bp
                == 0,
{
    let bands = &policy.margin_bands;
    let mut k: usize = 0;
    while k < bands.len()
        invariant
            bands == &policy.margin_bands,
            k <= bands.len(),
            forall|j: int| 0 <= j < k ==> (#[trigger] bands@[j]).multiplier_bp != 0,
        decreases bands.len() - k,
    {
        if bands[k].multiplier_bp == 0 {
            return true;
        }
        k += 1;
    }
    false
}

pub fn validate_policy(policy: &PricingPolicy) -> (r: Result<(), DomainError>)
    ensures
        unit_result_is(r, errors_result(policy_errors(*policy))),
{
    let mut e = FieldErrors::new();
    if policy.currency.as_str().len() != 3 {
        e.put("currency", "invalid_currency");
    }
    let bands = &policy.margin_bands;
    if bands.len() == 0 {
        e.put("margin_bands", "bands_required");
    } else {
        if bands[0].min_qty != 1 {
            e.put("margin_bands", "first_band_min_qty_one");
        }
        if !bands_ascend(policy) {
            e.put("margin_bands", "bands_ascending");
        }
        if has_zero_multiplier(policy) {
            e.put("margin_bands", "positive_multiplier");
        }
    }
    if policy.rounding.step_minor <= 0 {
        e.put("rounding", "positive_step");
    }
    if policy.min_price_minor < 0 {
        e.put("min_price_minor", "non_negative");
    }
    crate::domain::error::into_result(e)
}

/// Enforce the structural constraints of `entity` on a write payload read
/// into its record; `None`, or a record of another table, is a shape
/// mismatch, reported as one form-level error.
pub fn validate(entity: PricingEntity, doc: &Option<CatalogDocument>) -> (r: Result<(), DomainError>)
    ensures
        match (entity, doc) {
            (PricingEntity::Format, Some(CatalogDocument::Format(f))) => unit_result_is(
                r,
                errors_result(format_errors(*f)),
            ),
            (PricingEntity::Material, Some(CatalogDocument::Material(m))) => unit_result_is(
                r,
                errors_result(material_errors(*m)),
            ),
            (PricingEntity::Machine, Some(CatalogDocument::Machine(m))) => unit_result_is(
                r,
                errors_result(machine_errors(*m)),
            ),
            (PricingEntity::Operation, Some(CatalogDocument::Operation(o))) => unit_result_is(
                r,
                errors_result(operation_errors(*o)),
            ),
            (PricingEntity::Policy, Some(CatalogDocument::Policy(p))) => unit_result_is(
                r,
                errors_result(policy_errors(*p)),
            ),
            _ => r matches Err(x) && x@ == validation_error("_"@, "invalid_shape"@),
        },
{
    match (entity, doc) {
        (PricingEntity::Format, Some(CatalogDocument::Format(f))) => validate_format(f),
        (PricingEntity::Material, Some(CatalogDocument::Material(m))) => validate_material(m),
        (PricingEntity::Machine, Some(CatalogDocument::Machine(m))) => validate_machine(m),
        (PricingEntity::Operation, Some(CatalogDocument::Operation(o))) => validate_operation(o),
        (PricingEntity::Policy, Some(CatalogDocument::Policy(p))) => validate_policy(p),
        _ => Err(DomainError::Validation(FieldErrors::single("_", "invalid_shape"))),
    }
}

} // verus!
