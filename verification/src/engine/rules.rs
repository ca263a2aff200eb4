//! Compatibility rules: a condition tree evaluated against the resolved
//! `JobSpec`. A rule is *violated* iff its `when` holds (absent = always) and
//! its `require` does not.
use vstd::prelude::*;

use crate::engine::error::{i18n_view, RuleViolation, RuleViolationView};
use crate::engine::model::I18n;
use crate::engine::resolve::{ComponentView, JobSpec, JobSpecView};
use crate::json::{spec_as_i64, JsonValue, JsonView};
use crate::seqs::{first_match, lemma_first_match_is, lemma_first_match_none};
use crate::text::{chars_eq, chars_of, owned, starts_with_chars, str_eq};

verus! {

#[derive(Debug, PartialEq)]
pub struct CompatibilityRule {
    pub id: String,
    pub template: String,
    /// Optional; absent = always active.
    pub when: Option<Condition>,
    pub require: Condition,
    pub message: I18n,
}

#[derive(Debug, PartialEq)]
pub enum Condition {
    All { all: Vec<Condition> },
    Any { any: Vec<Condition> },
    Not { not: Box<Condition> },
    OpPresent { op_present: String },
    Attr { attr: String, op: CmpOp, value: JsonValue },
}

#[derive(Debug, Clone, Copy, PartialEq, Eq, Structural)]
pub enum CmpOp {
    Eq,
    Ne,
    Gte,
    Lte,
    In,
}

/// A spec attribute as read by a rule: a non-negative integer or a string.
pub enum AttrValue {
    Num(u32),
    Str(String),
}

pub enum AttrView {
    Num(int),
    Str(Seq<char>),
}

impl View for AttrValue {
    type V = AttrView;

    open spec fn view(&self) -> AttrView {
        match self {
            AttrValue::Num(n) => AttrView::Num(*n as int),
            AttrValue::Str(s) => AttrView::Str(s@),
        }
    }
}

/// Equality of an attribute with a rule operand: numeric when both are
/// integers, otherwise equality of the JSON values.
pub open spec fn attr_equals(left: AttrView, right: JsonView) -> bool {
    match left {
        AttrView::Num(x) => spec_as_i64(right) matches Some(y) && y == x,
        AttrView::Str(s) => right == JsonView::Str(s),
    }
}

/// Both sides as integers, when both are.
pub open spec fn numeric_pair(left: AttrView, right: JsonView) -> Option<(int, int)> {
    match (left, spec_as_i64(right)) {
        (AttrView::Num(x), Some(y)) => Some((x, y as int)),
        _ => None,
    }
}

pub open spec fn compare_spec(op: CmpOp, left: AttrView, right: JsonView) -> bool {
    match op {
        CmpOp::Eq => attr_equals(left, right),
        CmpOp::Ne => !attr_equals(left, right),
        CmpOp::Gte => numeric_pair(left, right) matches Some(p) && p.0 >= p.1,
        CmpOp::Lte => numeric_pair(left, right) matches Some(p) && p.0 <= p.1,
        CmpOp::In => match right {
            JsonView::Array(items) => exists|i: int|
                0 <= i < items.len() && attr_equals(left, #[trigger] items[i]),
            _ => false,
        },
    }
}

/// Whether a character is `.`.
pub open spec fn is_dot() -> spec_fn(char) -> bool {
    |c: char| c == '.'
}

/// Whether a resolved component has role `role`.
pub open spec fn comp_role_is(role: Seq<char>) -> spec_fn(ComponentView) -> bool {
    |c: ComponentView| c.role == role
}

/// The value a rule path names in the spec: `quantity`, `format`, or
/// `component:{role}.{pages|material|colors.front|colors.back}` (the role
/// ends at the first `.`). `None` when the component or attribute is absent.
pub open spec fn eval_attr_spec(path: Seq<char>, job: JobSpecView) -> Option<AttrView> {
    let pre = "component:"@;
    if path == "quantity"@ {
        Some(AttrView::Num(job.quantity as int))
    } else if path == "format"@ {
        Some(AttrView::Str(job.format))
    } else if !(pre.len() <= path.len() && path.take(pre.len() as int) == pre) {
        None
    } else {
        let rest = path.skip(pre.len() as int);
        match first_match(rest, is_dot()) {
            None => None,
            Some(d) => {
                let role = rest.take(d);
                let attr = rest.skip(d + 1);
                match first_match(job.components, comp_role_is(role)) {
                    None => None,
                    Some(i) => {
                        let c = job.components[i];
                        if attr == "pages"@ {
                            Some(AttrView::Num(c.pages as int))
                        } else if attr == "material"@ {
                            Some(AttrView::Str(c.material))
                        } else if attr == "colors.front"@ {
                            Some(AttrView::Num(c.colors.front as int))
                        } else if attr == "colors.back"@ {
                            Some(AttrView::Num(c.colors.back as int))
                        } else {
                            None
                        }
                    },
                }
            },
        }
    }
}

/// Truth of a condition for a resolved spec. An attribute that is absent
/// makes its comparison false.
pub open spec fn eval_spec(c: Condition, job: JobSpecView) -> bool
    decreases c,
{
    match c {
        Condition::All { all } => eval_all(all@, job),
        Condition::Any { any } => eval_any(any@, job),
        Condition::Not { not } => !eval_spec(*not, job),
        Condition::OpPresent { op_present } => exists|i: int|
            0 <= i < job.operations.len() && (#[trigger] job.operations[i]).operation == op_present@,
        Condition::Attr { attr, op, value } => match eval_attr_spec(attr@, job) {
            Some(left) => compare_spec(op, left, value.view()),
            None => false,
        },
    }
}

/// Every condition of `s` holds.
pub open spec fn eval_all(s: Seq<Condition>, job: JobSpecView) -> bool
    decreases s,
{
    if s.len() == 0 {
        true
    } else {
        eval_spec(s[0], job) && eval_all(s.drop_first(), job)
    }
}

/// Some condition of `s` holds.
pub open spec fn eval_any(s: Seq<Condition>, job: JobSpecView) -> bool
    decreases s,
{
    if s.len() == 0 {
        false
    } else {
        eval_spec(s[0], job) || eval_any(s.drop_first(), job)
    }
}

/// `all` holds when each of its conditions holds.
pub proof fn lemma_eval_all(s: Seq<Condition>, job: JobSpecView)
    ensures
        eval_all(s, job) <==> forall|i: int| 0 <= i < s.len() ==> #[trigger] eval_spec(s[i], job),
    decreases s.len(),
{
    if s.len() > 0 {
        lemma_eval_all(s.drop_first(), job);
        if eval_all(s, job) {
            assert forall|i: int| 0 <= i < s.len() implies #[trigger] eval_spec(s[i], job) by {
                if i > 0 {
                    assert(s[i] == s.drop_first()[i - 1]);
                }
            }
        }
        if forall|i: int| 0 <= i < s.len() ==> #[trigger] eval_spec(s[i], job) {
            assert forall|j: int| 0 <= j < s.drop_first().len() implies #[trigger] eval_spec(
                s.drop_first()[j],
                job,
            ) by {
                assert(s.drop_first()[j] == s[j + 1]);
            }
            assert(eval_spec(s[0], job));
        }
    }
}

/// `any` holds when one of its conditions holds.
pub proof fn lemma_eval_any(s: Seq<Condition>, job: JobSpecView)
    ensures
        eval_any(s, job) <==> exists|i: int| 0 <= i < s.len() && #[trigger] eval_spec(s[i], job),
    decreases s.len(),
{
    if s.len() > 0 {
        lemma_eval_any(s.drop_first(), job);
        if eval_any(s, job) {
            if eval_spec(s[0], job) {
            } else {
                let k = choose|k: int|
                    0 <= k < s.drop_first().len() && #[trigger] eval_spec(s.drop_first()[k], job);
                assert(s.drop_first()[k] == s[k + 1]);
            }
        }
        if exists|i: int| 0 <= i < s.len() && #[trigger] eval_spec(s[i], job) {
            let k = choose|k: int| 0 <= k < s.len() && #[trigger] eval_spec(s[k], job);
            if k > 0 {
                assert(s.drop_first()[k - 1] == s[k]);
            }
        }
    }
}

pub open spec fn is_violated_spec(rule: CompatibilityRule, job: JobSpecView) -> bool {
    let when = match rule.when {
        Some(c) => eval_spec(c, job),
        None => true,
    };
    when && !eval_spec(rule.require, job)
}

pub open spec fn violation_of(rule: CompatibilityRule) -> RuleViolationView {
    RuleViolationView { rule_id: rule.id@, message: i18n_view(rule.message) }
}

/// The violated rules, in rule order.
pub open spec fn violations_spec(rules: Seq<CompatibilityRule>, job: JobSpecView) -> Seq<
    RuleViolationView,
>
    decreases rules.len(),
{
    if rules.len() == 0 {
        Seq::empty()
    } else {
        let prev = violations_spec(rules.drop_last(), job);
        if is_violated_spec(rules.last(), job) {
            prev.push(violation_of(rules.last()))
        } else {
            prev
        }
    }
}

pub fn clone_i18n(m: &I18n) -> (r: I18n)
    ensures
        i18n_view(r) == i18n_view(*m),
{
    let mut out: I18n = Vec::new();
    let mut i: usize = 0;
    while i < m.len()
        invariant
            i <= m.len(),
            out.len() == i,
            forall|j: int| 0 <= j < i ==> out@[j].0@ == m@[j].0@ && out@[j].1@ == m@[j].1@,
        decreases m.len() - i,
    {
        out.push((m[i].0.clone(), m[i].1.clone()));
        i += 1;
    }
    assert(i18n_view(out) =~= i18n_view(*m));
    out
}

fn attr_equals_exec(left: &AttrValue, right: &JsonValue) -> (r: bool)
    ensures
        r == attr_equals(left@, right.view()),
{
    match left {
        AttrValue::Num(x) => match right.as_i64() {
            Some(y) => y == *x as i64,
            None => false,
        },
        AttrValue::Str(s) => match right.as_str() {
            Some(t) => str_eq(s.as_str(), t),
            None => false,
        },
    }
}

fn compare(op: CmpOp, left: &AttrValue, right: &JsonValue) -> (r: bool)
    ensures
        r == compare_spec(op, left@, right.view()),
{
    match op {
        CmpOp::Eq => attr_equals_exec(left, right),
        CmpOp::Ne => !attr_equals_exec(left, right),
        CmpOp::Gte => match (left, right.as_i64()) {
            (AttrValue::Num(x), Some(y)) => *x as i64 >= y,
            _ => false,
        },
        CmpOp::Lte => match (left, right.as_i64()) {
            (AttrValue::Num(x), Some(y)) => *x as i64 <= y,
            _ => false,
        },
        CmpOp::In => match right.as_array() {
            Some(items) => {
                let ghost iv = right.view()->Array_0;
                assert(iv.len() == items.len());
                let mut i: usize = 0;
                while i < items.len()
                    invariant
                        i <= items.len(),
                        op == CmpOp::In,
                        iv == right.view()->Array_0,
                        iv.len() == items.len(),
                        *right == JsonValue::Array(*items),
                        forall|j: int| 0 <= j < i ==> !attr_equals(left@, #[trigger] iv[j]),
                    decreases items.len() - i,
                {
                    assert(iv[i as int] == items@[i as int].view());
                    if attr_equals_exec(left, &items[i]) {
                        assert(attr_equals(left@, iv[i as int]));
                        assert(right.view() == JsonView::Array(iv));
                        assert(exists|k: int| 0 <= k < iv.len() && attr_equals(left@, #[trigger] iv[k]));
                        return true;
                    }
                    i += 1;
                }
                false
            },
            None => false,
        },
    }
}

fn find_dot(pc: &Vec<char>, from: usize) -> (r: Option<usize>)
    requires
        from <= pc.len(),
    ensures
        match r {
            Some(d) => from + d < pc.len() && first_match(pc@.skip(from as int), is_dot()) == Some(
                d as int,
            ),
            None => first_match(pc@.skip(from as int), is_dot()) is None,
        },
{
    let ghost rest = pc@.skip(from as int);
    let ghost p = is_dot();
    let mut j: usize = from;
    while j < pc.len()
        invariant
            from <= j <= pc.len(),
            rest == pc@.skip(from as int),
            p == is_dot(),
            forall|k: int| 0 <= k < j - from ==> !p(#[trigger] rest[k]),
        decreases pc.len() - j,
    {
        assert(rest[j - from] == pc@[j as int]);
        if pc[j] == '.' {
            proof {
                lemma_first_match_is(rest, p, j - from);
            }
            return Some(j - from);
        }
        j += 1;
    }
    proof {
        lemma_first_match_none(rest, p);
    }
    None
}

fn slice_chars(pc: &Vec<char>, lo: usize, hi: usize) -> (r: Vec<char>)
    requires
        lo <= hi <= pc.len(),
    ensures
        r@ == pc@.subrange(lo as int, hi as int),
{
    let mut out: Vec<char> = Vec::new();
    let mut j: usize = lo;
    while j < hi
        invariant
            lo <= j <= hi,
            hi <= pc.len(),
            out@ == pc@.subrange(lo as int, j as int),
        decreases hi - j,
    {
        out.push(pc[j]);
        j += 1;
        assert(out@ =~= pc@.subrange(lo as int, j as int));
    }
    out
}

fn find_role(job: &JobSpec, role: &Vec<char>) -> (r: Option<usize>)
    ensures
        match r {
            Some(i) => i < job.components.len() && first_match(job@.components, comp_role_is(role@))
                == Some(i as int),
            None => first_match(job@.components, comp_role_is(role@)) is None,
        },
{
    let ghost cs = job@.components;
    let ghost p = comp_role_is(role@);
    let mut i: usize = 0;
    while i < job.components.len()
        invariant
            i <= job.components.len(),
            cs == job@.components,
            cs.len() == job.components.len(),
            p == comp_role_is(role@),
            forall|k: int| 0 <= k < i ==> !p(#[trigger] cs[k]),
        decreases job.components.len() - i,
    {
        assert(cs[i as int] == job.components@[i as int]@);
        let rc = chars_of(job.components[i].role.as_str());
        if chars_eq(&rc, role) {
            proof {
                lemma_first_match_is(cs, p, i as int);
            }
            return Some(i);
        }
        i += 1;
    }
    proof {
        lemma_first_match_none(cs, p);
    }
    None
}

/// Read a rule path against the spec.
pub fn eval_attr(path: &str, job: &JobSpec) -> (r: Option<AttrValue>)
    ensures
        match r {
            Some(v) => eval_attr_spec(path@, job@) == Some(v@),
            None => eval_attr_spec(path@, job@) is None,
        },
{
    if str_eq(path, "quantity") {
        return Some(AttrValue::Num(job.quantity));
    }
    if str_eq(path, "format") {
        return Some(AttrValue::Str(job.format.clone()));
    }
    let pc = chars_of(path);
    let pre = chars_of("component:");
    if !starts_with_chars(&pc, &pre) {
        return None;
    }
    let ghost rest = path@.skip(pre@.len() as int);
    let d = match find_dot(&pc, pre.len()) {
        Some(d) => d,
        None => {
            return None;
        },
    };
    let role = slice_chars(&pc, pre.len(), pre.len() + d);
    let attr = slice_chars(&pc, pre.len() + d + 1, pc.len());
    assert(role@ =~= rest.take(d as int));
    assert(attr@ =~= rest.skip(d + 1));
    let i = match find_role(job, &role) {
        Some(i) => i,
        None => {
            return None;
        },
    };
    let c = &job.components[i];
    assert(job@.components[i as int] == c@);
    if chars_eq(&attr, &chars_of("pages")) {
        Some(AttrValue::Num(c.pages))
    } else if chars_eq(&attr, &chars_of("material")) {
        Some(AttrValue::Str(c.material.clone()))
    } else if chars_eq(&attr, &chars_of("colors.front")) {
        Some(AttrValue::Num(c.colors.front as u32))
    } else if chars_eq(&attr, &chars_of("colors.back")) {
        Some(AttrValue::Num(c.colors.back as u32))
    } else {
        None
    }
}

fn op_present(job: &JobSpec, id: &str) -> (r: bool)
    ensures
        r == exists|i: int|
            0 <= i < job@.operations.len() && (#[trigger] job@.operations[i]).operation == id@,
{
    let mut i: usize = 0;
    while i < job.operations.len()
        invariant
            i <= job.operations.len(),
            job@.operations.len() == job.operations.len(),
            forall|k: int| 0 <= k < i ==> (#[trigger] job@.operations[k]).operation != id@,
        decreases job.operations.len() - i,
    {
        assert(job@.operations[i as int] == job.operations@[i as int]@);
        if str_eq(job.operations[i].operation.as_str(), id) {
            return true;
        }
        i += 1;
    }
    false
}

/// Evaluate a condition against a resolved spec.
pub fn eval(c: &Condition, job: &JobSpec) -> (r: bool)
    ensures
        r == eval_spec(*c, job@),
    decreases c,
{
    match c {
        Condition::All { all } => {
            let mut i: usize = 0;
            assert(all@.skip(0) =~= all@);
            while i < all.len()
                invariant
                    i <= all.len(),
                    *c == (Condition::All { all: *all }),
                    eval_spec(*c, job@) == eval_all(all@.skip(i as int), job@),
                decreases all.len() - i,
            {
                proof {
                    assert(decreases_to!(*c => (*c)->all));
                    assert(decreases_to!(*all => all@));
                    assert(decreases_to!(all@ => all@[i as int]));
                }
                assert(all@.skip(i as int)[0] == all@[i as int]);
                assert(all@.skip(i as int).drop_first() =~= all@.skip(i + 1));
                if !eval(&all[i], job) {
                    return false;
                }
                i += 1;
            }
            true
        },
        Condition::Any { any } => {
            let mut i: usize = 0;
            assert(any@.skip(0) =~= any@);
            while i < any.len()
                invariant
                    i <= any.len(),
                    *c == (Condition::Any { any: *any }),
                    eval_spec(*c, job@) == eval_any(any@.skip(i as int), job@),
                decreases any.len() - i,
            {
                proof {
                    assert(decreases_to!(*c => (*c)->any));
                    assert(decreases_to!(*any => any@));
                    assert(decreases_to!(any@ => any@[i as int]));
                }
                assert(any@.skip(i as int)[0] == any@[i as int]);
                assert(any@.skip(i as int).drop_first() =~= any@.skip(i + 1));
                if eval(&any[i], job) {
                    return true;
                }
                i += 1;
            }
            false
        },
        Condition::Not { not } => !eval(not, job),
        Condition::OpPresent { op_present: id } => op_present(job, id.as_str()),
        Condition::Attr { attr, op, value } => match eval_attr(attr.as_str(), job) {
            Some(left) => compare(*op, &left, value),
            None => false,
        },
    }
}

pub fn is_violated(rule: &CompatibilityRule, job: &JobSpec) -> (r: bool)
    ensures
        r == is_violated_spec(*rule, job@),
{
    let when = match &rule.when {
        Some(c) => eval(c, job),
        None => true,
    };
    when && !eval(&rule.require, job)
}

/// Every rule violated by `job`, localized: all violations together, not
/// just the first.
pub fn violations(rules: &[CompatibilityRule], job: &JobSpec) -> (r: Vec<RuleViolation>)
    ensures
        r@.map_values(|v: RuleViolation| v.view()) == violations_spec(rules@, job@),
{
    let mut out: Vec<RuleViolation> = Vec::new();
    let mut i: usize = 0;
    while i < rules.len()
        invariant
            i <= rules.len(),
            out@.map_values(|v: RuleViolation| v.view()) == violations_spec(
                rules@.take(i as int),
                job@,
            ),
        decreases rules.len() - i,
    {
        assert(rules@.take(i + 1).drop_last() =~= rules@.take(i as int));
        assert(rules@.take(i + 1).last() == rules@[i as int]);
        let ghost before = out@;
        if is_violated(&rules[i], job) {
            let v = RuleViolation { rule_id: rules[i].id.clone(), message: clone_i18n(&rules[i].message) };
            out.push(v);
            assert(out@.map_values(|v: RuleViolation| v.view()) =~= before.map_values(
                |v: RuleViolation| v.view(),
            ).push(violation_of(rules@[i as int])));
        }
        i += 1;
    }
    assert(rules@.take(rules.len() as int) =~= rules@);
    out
}

} // verus!
