//! The effect vocabulary: the closed, engine-owned bridge between
//! tenant-defined options and the [`JobSpec`](crate::engine::resolve::JobSpec).
use vstd::prelude::*;

use crate::engine::model::{Colors, Technology};
use crate::json::{JsonMap, JsonValue};

verus! {

#[derive(Debug, Clone, PartialEq)]
pub enum Effect {
    SetFormat { format: String },
    SetPages { target: String, value: NumOrInput },
    SetColors { target: String, value: Colors },
    SetMaterial { target: String, material: String },
    AddOperation { operation: String, params: JsonMap },
    SetOpParam { operation: String, param: String, value: JsonValue },
    AddComponent { role: String, pages: u32, colors: Colors, material: String },
    ConstrainTechnology { allow: Vec<Technology> },
}

/// A numeric-effect field: either a literal, or a linear function of the
/// numeric parameter's input value. That the `$input` form only appears
/// inside a numeric parameter's effects (`E110`) is checked by resolution.
#[derive(Debug, Clone, Copy, PartialEq, Eq, Structural)]
pub enum NumOrInput {
    Literal(u32),
    Input { input: InputExpr },
}

#[derive(Debug, Clone, Copy, PartialEq, Eq, Structural)]
pub struct InputExpr {
    pub mul: u32,
    pub add: u32,
}

/// Default of `InputExpr::mul`.
pub fn one() -> (r: u32)
    ensures
        r == 1,
{
    1
}

impl NumOrInput {
    /// The value this field takes for a numeric parameter input, computed
    /// exactly; machine arithmetic must hold it.
    pub open spec fn spec_resolve(self, input: Option<u32>) -> Option<int> {
        match self {
            NumOrInput::Literal(v) => Some(v as int),
            NumOrInput::Input { input: expr } => match input {
                Some(i) => Some(i * expr.mul + expr.add),
                None => None,
            },
        }
    }

    /// Resolve against a numeric parameter's `input` value. `None` for the
    /// `Input` form signals the value was reached outside a numeric
    /// parameter (`E110`), which the caller turns into a resolution error.
    pub fn resolve(&self, input: Option<u32>) -> (r: Option<u32>)
        requires
            self.spec_resolve(input) matches Some(v) ==> v <= u32::MAX,
        ensures
            match self.spec_resolve(input) {
                Some(v) => r == Some(v as u32),
                None => r is None,
            },
    {
        match self {
            NumOrInput::Literal(v) => Some(*v),
            NumOrInput::Input { input: expr } => match input {
                Some(i) => {
                    proof {
                        assert(0 <= i * expr.mul <= i * expr.mul + expr.add) by (nonlinear_arith)
                            requires
                                i >= 0,
                                expr.mul >= 0,
                                expr.add >= 0,
                        ;
                    }
                    Some(i * expr.mul + expr.add)
                },
                None => None,
            },
        }
    }
}

} // verus!
