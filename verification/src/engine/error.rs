//! Engine error taxonomy. The `E1xx`/`E2xx` codes are the engine's error
//! registry; the API layer maps [`EngineError`] variants onto HTTP error
//! codes.
use vstd::prelude::*;

use crate::engine::model::I18n;

verus! {

/// Resolution / template errors (`E101`–`E110`).
#[derive(Debug, Clone, PartialEq, Eq)]
pub enum ResolveError {
    UnknownRole(String),
    DuplicateOperation(String),
    OpParamOnAbsentOperation(String),
    ComponentExists(String),
    EmptyTechnologyAllow,
    IncompleteSpec(String),
    DanglingReference(String),
    BadNumericDefault(String),
    InputOutsideNumeric,
}

pub enum ResolveErrorView {
    UnknownRole(Seq<char>),
    DuplicateOperation(Seq<char>),
    OpParamOnAbsentOperation(Seq<char>),
    ComponentExists(Seq<char>),
    EmptyTechnologyAllow,
    IncompleteSpec(Seq<char>),
    DanglingReference(Seq<char>),
    BadNumericDefault(Seq<char>),
    InputOutsideNumeric,
}

impl ResolveError {
    pub open spec fn view(&self) -> ResolveErrorView {
        match self {
            ResolveError::UnknownRole(s) => ResolveErrorView::UnknownRole(s@),
            ResolveError::DuplicateOperation(s) => ResolveErrorView::DuplicateOperation(s@),
            ResolveError::OpParamOnAbsentOperation(s) => ResolveErrorView::OpParamOnAbsentOperation(s@),
            ResolveError::ComponentExists(s) => ResolveErrorView::ComponentExists(s@),
            ResolveError::EmptyTechnologyAllow => ResolveErrorView::EmptyTechnologyAllow,
            ResolveError::IncompleteSpec(s) => ResolveErrorView::IncompleteSpec(s@),
            ResolveError::DanglingReference(s) => ResolveErrorView::DanglingReference(s@),
            ResolveError::BadNumericDefault(s) => ResolveErrorView::BadNumericDefault(s@),
            ResolveError::InputOutsideNumeric => ResolveErrorView::InputOutsideNumeric,
        }
    }

    /// The `E1xx` code string, for logs and the API `TEMPLATE_ERROR` detail.
    pub fn code(&self) -> (r: &'static str)
        ensures
            r@ == match self {
                ResolveError::UnknownRole(_) => "E101"@,
                ResolveError::DuplicateOperation(_) => "E102"@,
                ResolveError::OpParamOnAbsentOperation(_) => "E103"@,
                ResolveError::ComponentExists(_) => "E104"@,
                ResolveError::EmptyTechnologyAllow => "E105"@,
                ResolveError::IncompleteSpec(_) => "E106"@,
                ResolveError::DanglingReference(_) => "E107"@,
                ResolveError::BadNumericDefault(_) => "E108"@,
                ResolveError::InputOutsideNumeric => "E110"@,
            },
    {
        match self {
            ResolveError::UnknownRole(_) => "E101",
            ResolveError::DuplicateOperation(_) => "E102",
            ResolveError::OpParamOnAbsentOperation(_) => "E103",
            ResolveError::ComponentExists(_) => "E104",
            ResolveError::EmptyTechnologyAllow => "E105",
            ResolveError::IncompleteSpec(_) => "E106",
            ResolveError::DanglingReference(_) => "E107",
            ResolveError::BadNumericDefault(_) => "E108",
            ResolveError::InputOutsideNumeric => "E110",
        }
    }
}

/// Pricing errors (`E2xx`). `E203` is folded into capability (no capable
/// machine → `E201`).
#[derive(Debug, Clone, PartialEq, Eq)]
pub enum PriceError {
    NoCapableMachine(String),
    ItemLargerThanSheet(String),
    MaterialBasisMismatch(String),
    InvalidReservedParam(String),
}

pub enum PriceErrorView {
    NoCapableMachine(Seq<char>),
    ItemLargerThanSheet(Seq<char>),
    MaterialBasisMismatch(Seq<char>),
    InvalidReservedParam(Seq<char>),
}

impl PriceError {
    pub open spec fn view(&self) -> PriceErrorView {
        match self {
            PriceError::NoCapableMachine(s) => PriceErrorView::NoCapableMachine(s@),
            PriceError::ItemLargerThanSheet(s) => PriceErrorView::ItemLargerThanSheet(s@),
            PriceError::MaterialBasisMismatch(s) => PriceErrorView::MaterialBasisMismatch(s@),
            PriceError::InvalidReservedParam(s) => PriceErrorView::InvalidReservedParam(s@),
        }
    }

    pub fn code(&self) -> (r: &'static str)
        ensures
            r@ == match self {
                PriceError::NoCapableMachine(_) => "E201"@,
                PriceError::ItemLargerThanSheet(_) => "E202"@,
                PriceError::MaterialBasisMismatch(_) => "E204"@,
                PriceError::InvalidReservedParam(_) => "E205"@,
            },
    {
        match self {
            PriceError::NoCapableMachine(_) => "E201",
            PriceError::ItemLargerThanSheet(_) => "E202",
            PriceError::MaterialBasisMismatch(_) => "E204",
            PriceError::InvalidReservedParam(_) => "E205",
        }
    }
}

/// Why a selection failed validation. Maps to `INVALID_SELECTION` with the
/// parameter code and this reason.
#[derive(Debug, Clone, Copy, PartialEq, Eq, Structural)]
pub enum SelectionReason {
    UnknownParameter,
    MissingNoDefault,
    UnknownOption,
    OptionUnavailable,
    OutOfRange,
}

impl SelectionReason {
    pub fn code(&self) -> (r: &'static str)
        ensures
            r@ == match self {
                SelectionReason::UnknownParameter => "unknown_parameter"@,
                SelectionReason::MissingNoDefault => "missing_no_default"@,
                SelectionReason::UnknownOption => "unknown_option"@,
                SelectionReason::OptionUnavailable => "option_unavailable"@,
                SelectionReason::OutOfRange => "out_of_range"@,
            },
    {
        match self {
            SelectionReason::UnknownParameter => "unknown_parameter",
            SelectionReason::MissingNoDefault => "missing_no_default",
            SelectionReason::UnknownOption => "unknown_option",
            SelectionReason::OptionUnavailable => "option_unavailable",
            SelectionReason::OutOfRange => "out_of_range",
        }
    }
}

/// One violated compatibility rule, returned localized.
#[derive(Debug, Clone, PartialEq, Eq)]
pub struct RuleViolation {
    pub rule_id: String,
    pub message: I18n,
}

pub open spec fn i18n_view(m: I18n) -> Seq<(Seq<char>, Seq<char>)> {
    Seq::new(m.len() as nat, |i: int| (m@[i].0@, m@[i].1@))
}

pub struct RuleViolationView {
    pub rule_id: Seq<char>,
    pub message: Seq<(Seq<char>, Seq<char>)>,
}

impl RuleViolation {
    pub open spec fn view(&self) -> RuleViolationView {
        RuleViolationView { rule_id: self.rule_id@, message: i18n_view(self.message) }
    }
}

#[derive(Debug, Clone, PartialEq, Eq)]
pub enum EngineError {
    InvalidSelection { parameter: String, reason: SelectionReason },
    InvalidQuantity { qty: u32, min: u32, max: u32 },
    Resolve(ResolveError),
    RuleViolation(Vec<RuleViolation>),
    Price(PriceError),
}

pub enum EngineErrorView {
    InvalidSelection { parameter: Seq<char>, reason: SelectionReason },
    InvalidQuantity { qty: u32, min: u32, max: u32 },
    Resolve(ResolveErrorView),
    RuleViolation(Seq<RuleViolationView>),
    Price(PriceErrorView),
}

impl EngineError {
    pub open spec fn view(&self) -> EngineErrorView {
        match self {
            EngineError::InvalidSelection { parameter, reason } => EngineErrorView::InvalidSelection {
                parameter: parameter@,
                reason: *reason,
            },
            EngineError::InvalidQuantity { qty, min, max } => EngineErrorView::InvalidQuantity {
                qty: *qty,
                min: *min,
                max: *max,
            },
            EngineError::Resolve(e) => EngineErrorView::Resolve(e.view()),
            EngineError::RuleViolation(v) => EngineErrorView::RuleViolation(
                Seq::new(v.len() as nat, |i: int| v@[i].view()),
            ),
            EngineError::Price(e) => EngineErrorView::Price(e.view()),
        }
    }
}

} // verus!
