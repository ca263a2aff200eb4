//! The `PriceModel` data schema.
//!
//! Record ids are SurrealDB-style strings (`format:a5`,
//! `material:offset_80`, …). The engine never mutates a model; it is built
//! once from a [`Dataset`] and read.
use vstd::prelude::*;

use crate::engine::effect::Effect;
use crate::engine::rules::CompatibilityRule;
use crate::json::JsonMap;
use crate::seqs::{first_match, lemma_first_match, lemma_first_match_is, lemma_first_match_none};
use crate::text::{append_decimal, decimal, str_eq};

verus! {

/// Localized label map (`[("en", "A5"), ("uk", "А5")]`). Presentation only —
/// the engine never branches on it.
pub type I18n = Vec<(String, String)>;

#[derive(Debug, Clone, Copy, PartialEq, Eq, Structural)]
pub enum Technology {
    Digital,
    Offset,
}

/// The four unit bases shared by operations and material pricing. A
/// material's pricing basis must equal an operation's `unit_basis` when the
/// material is consumed by that operation (`E204`).
#[derive(Debug, Clone, Copy, PartialEq, Eq, Structural)]
pub enum UnitBasis {
    PerItem,
    PerSheet,
    PerCm,
    PerM2,
}

/// Front/back ink counts (`4/0`, `4/4`, `1/1`). Written as the `"F/B"`
/// string form; both integers are `0..=8`.
#[derive(Debug, Clone, Copy, PartialEq, Eq, Structural)]
pub struct Colors {
    pub front: u8,
    pub back: u8,
}

impl Colors {
    pub fn unprinted() -> (r: Colors)
        ensures
            r.front == 0 && r.back == 0,
    {
        Colors { front: 0, back: 0 }
    }

    pub fn is_unprinted(&self) -> (r: bool)
        ensures
            r == (self.front == 0 && self.back == 0),
    {
        self.front == 0 && self.back == 0
    }
}

/// Whether `c` is an ink count digit, `0` to `8`.
pub open spec fn is_ink_digit(c: char) -> bool {
    '0' <= c && c <= '8'
}

pub open spec fn digit_value(c: char) -> u8 {
    ((c as u32) - ('0' as u32)) as u8
}

/// The `"F/B"` colors form: exactly one ink digit, `/`, one ink digit.
pub open spec fn parse_colors_spec(s: Seq<char>) -> Option<Colors> {
    if s.len() == 3 && s[1] == '/' && is_ink_digit(s[0]) && is_ink_digit(s[2]) {
        Some(Colors { front: digit_value(s[0]), back: digit_value(s[2]) })
    } else {
        None
    }
}

/// The `"F/B"` string of a colors value.
pub open spec fn colors_string(c: Colors) -> Seq<char> {
    decimal(c.front as nat) + seq!['/'] + decimal(c.back as nat)
}

/// Parse the `"F/B"` colors form; `None` on any other shape.
pub fn parse_colors(v: &str) -> (r: Option<Colors>)
    ensures
        r == parse_colors_spec(v@),
{
    let cs = crate::text::chars_of(v);
    if cs.len() != 3 || cs[1] != '/' {
        return None;
    }
    let f = cs[0];
    let b = cs[2];
    if !('0' <= f && f <= '8' && '0' <= b && b <= '8') {
        return None;
    }
    Some(Colors { front: (f as u32 - '0' as u32) as u8, back: (b as u32 - '0' as u32) as u8 })
}

impl Colors {
    /// The `"F/B"` string form.
    pub fn to_spec_string(&self) -> (r: String)
        ensures
            r@ == colors_string(*self),
    {
        let mut s = String::new();
        append_decimal(&mut s, self.front as usize);
        s.append("/");
        proof {
            reveal_strlit("/");
        }
        append_decimal(&mut s, self.back as usize);
        assert(s@ =~= colors_string(*self));
        s
    }
}

/// Writing colors of at most eight inks a side and parsing the text back
/// gives the same colors.
pub proof fn lemma_colors_round_trip(c: Colors)
    requires
        c.front <= 8,
        c.back <= 8,
    ensures
        parse_colors_spec(colors_string(c)) == Some(c),
{
    let s = colors_string(c);
    assert(s =~= seq![
        ((c.front + ('0' as u32)) as u32) as char,
        '/',
        ((c.back + ('0' as u32)) as u32) as char,
    ]);
}

/// A parsed colors string is the string the parsed colors write.
pub proof fn lemma_parse_colors_canonical(s: Seq<char>)
    requires
        parse_colors_spec(s) is Some,
    ensures
        colors_string(parse_colors_spec(s)->0) == s,
{
    let c = parse_colors_spec(s)->0;
    assert(colors_string(c) =~= s);
}

#[derive(Debug, Clone, PartialEq)]
pub struct Format {
    pub id: String,
    pub name: String,
    /// `[width, height]` in mm, stored portrait (`width <= height`).
    pub trim_mm: [u32; 2],
}

#[derive(Debug, Clone, PartialEq)]
pub struct Material {
    pub id: String,
    pub name: String,
    /// UI classification only — free taxonomy, the engine never branches on it.
    pub kind: String,
    pub pricing: MaterialPricing,
    /// Present only for substrates a press can print on; read by machine
    /// capability checks.
    pub printable: Option<Printable>,
    /// Opaque descriptive metadata for admin UI / production docs.
    pub attrs: JsonMap,
}

#[derive(Debug, Clone, Copy, PartialEq, Eq, Structural)]
pub struct Printable {
    pub grammage_gsm: u32,
}

#[derive(Debug, Clone, Copy, PartialEq, Eq)]
pub enum MaterialPricing {
    PerSheet { sheet_size_mm: [u32; 2], price_micro: i64 },
    PerM2 { price_micro: i64 },
    PerCm { price_micro: i64 },
    PerItem { price_micro: i64 },
}

impl MaterialPricing {
    pub open spec fn spec_price_micro(self) -> i64 {
        match self {
            MaterialPricing::PerSheet { price_micro, .. } => price_micro,
            MaterialPricing::PerM2 { price_micro } => price_micro,
            MaterialPricing::PerCm { price_micro } => price_micro,
            MaterialPricing::PerItem { price_micro } => price_micro,
        }
    }

    pub open spec fn spec_basis(self) -> UnitBasis {
        match self {
            MaterialPricing::PerSheet { .. } => UnitBasis::PerSheet,
            MaterialPricing::PerM2 { .. } => UnitBasis::PerM2,
            MaterialPricing::PerCm { .. } => UnitBasis::PerCm,
            MaterialPricing::PerItem { .. } => UnitBasis::PerItem,
        }
    }

    pub open spec fn spec_sheet_size_mm(self) -> Option<[u32; 2]> {
        match self {
            MaterialPricing::PerSheet { sheet_size_mm, .. } => Some(sheet_size_mm),
            _ => None,
        }
    }

    pub fn price_micro(&self) -> (r: i64)
        ensures
            r == self.spec_price_micro(),
    {
        match self {
            MaterialPricing::PerSheet { price_micro, .. } => *price_micro,
            MaterialPricing::PerM2 { price_micro } => *price_micro,
            MaterialPricing::PerCm { price_micro } => *price_micro,
            MaterialPricing::PerItem { price_micro } => *price_micro,
        }
    }

    pub fn basis(&self) -> (r: UnitBasis)
        ensures
            r == self.spec_basis(),
    {
        match self {
            MaterialPricing::PerSheet { .. } => UnitBasis::PerSheet,
            MaterialPricing::PerM2 { .. } => UnitBasis::PerM2,
            MaterialPricing::PerCm { .. } => UnitBasis::PerCm,
            MaterialPricing::PerItem { .. } => UnitBasis::PerItem,
        }
    }

    /// The press-sheet size for `per_sheet` materials — the only basis
    /// imposition can consume (`E107`).
    pub fn sheet_size_mm(&self) -> (r: Option<[u32; 2]>)
        ensures
            r == self.spec_sheet_size_mm(),
    {
        match self {
            MaterialPricing::PerSheet { sheet_size_mm, .. } => Some(*sheet_size_mm),
            _ => None,
        }
    }
}

#[derive(Debug, Clone, PartialEq)]
pub struct Machine {
    pub id: String,
    pub name: String,
    pub technology: Technology,
    pub sheet_size_mm: [u32; 2],
    pub duplex: bool,
    pub max_grammage_gsm: u32,
    pub setup_micro: i64,
    pub waste_fixed_sheets: u32,
    /// Whole percent (`2` = 2 %).
    pub waste_percent: u32,
    /// Digital only.
    pub click_mono_micro: i64,
    /// Digital only.
    pub click_color_micro: i64,
    /// Offset only.
    pub plate_price_micro: i64,
    /// Offset only.
    pub run_price_micro: i64,
}

#[derive(Debug, Clone, PartialEq)]
pub struct Operation {
    pub id: String,
    pub name: String,
    pub setup_micro: i64,
    pub unit_basis: UnitBasis,
    pub unit_price_micro: i64,
}

#[derive(Debug, Clone, PartialEq)]
pub struct PricingPolicy {
    pub id: String,
    pub currency: String,
    /// Sorted by `min_qty` ascending; the first band must have `min_qty` 1.
    pub margin_bands: Vec<MarginBand>,
    pub rounding: Rounding,
    pub min_price_minor: i64,
}

#[derive(Debug, Clone, Copy, PartialEq, Eq, Structural)]
pub struct MarginBand {
    pub min_qty: u32,
    /// Basis points: `17000` = ×1.7.
    pub multiplier_bp: u32,
}

#[derive(Debug, Clone, Copy, PartialEq, Eq, Structural)]
pub struct Rounding {
    pub step_minor: i64,
    pub mode: RoundingMode,
}

#[derive(Debug, Clone, Copy, PartialEq, Eq, Structural)]
pub enum RoundingMode {
    /// Rounding is always up.
    Up,
}

/// Band selection scanning `bands[..n]`: the band with the largest
/// `min_qty <= qty`; among bands of equal `min_qty`, the later one.
pub open spec fn band_scan(bands: Seq<MarginBand>, qty: u32, n: int) -> Option<int>
    decreases n,
{
    if n <= 0 {
        None
    } else {
        let prev = band_scan(bands, qty, n - 1);
        let b = bands[n - 1];
        if b.min_qty <= qty && (prev is None || b.min_qty >= bands[prev->0].min_qty) {
            Some(n - 1)
        } else {
            prev
        }
    }
}

/// Index of the band `band_for` picks.
pub open spec fn band_index(bands: Seq<MarginBand>, qty: u32) -> Option<int> {
    band_scan(bands, qty, bands.len() as int)
}

/// The selected band's multiplier, or `0` when no band applies.
pub open spec fn band_multiplier(policy: PricingPolicy, qty: u32) -> u32 {
    match band_index(policy.margin_bands@, qty) {
        Some(i) => policy.margin_bands@[i].multiplier_bp,
        None => 0,
    }
}

pub proof fn lemma_band_scan_bounds(bands: Seq<MarginBand>, qty: u32, n: int)
    requires
        n <= bands.len(),
    ensures
        band_scan(bands, qty, n) matches Some(i) ==> 0 <= i < n && bands[i].min_qty <= qty,
    decreases n,
{
    if n > 0 {
        lemma_band_scan_bounds(bands, qty, n - 1);
    }
}

impl PricingPolicy {
    /// The band with the largest `min_qty <= qty`.
    pub fn band_for(&self, qty: u32) -> (r: Option<&MarginBand>)
        ensures
            match band_index(self.margin_bands@, qty) {
                Some(i) => r == Some(&self.margin_bands@[i]),
                None => r is None,
            },
    {
        let mut best: Option<usize> = None;
        let mut i: usize = 0;
        while i < self.margin_bands.len()
            invariant
                i <= self.margin_bands.len(),
                match best {
                    Some(k) => band_scan(self.margin_bands@, qty, i as int) == Some(k as int),
                    None => band_scan(self.margin_bands@, qty, i as int) is None,
                },
            decreases self.margin_bands.len() - i,
        {
            proof {
                lemma_band_scan_bounds(self.margin_bands@, qty, i as int);
            }
            let b = self.margin_bands[i];
            let take = match best {
                None => b.min_qty <= qty,
                Some(k) => b.min_qty <= qty && b.min_qty >= self.margin_bands[k].min_qty,
            };
            if take {
                best = Some(i);
            }
            i += 1;
        }
        match best {
            Some(k) => {
                proof {
                    lemma_band_scan_bounds(self.margin_bands@, qty, i as int);
                }
                Some(&self.margin_bands[k])
            },
            None => None,
        }
    }
}

#[derive(Debug, Clone, PartialEq)]
pub struct ProductTemplate {
    pub id: String,
    pub slug: String,
    pub name: I18n,
    /// Component roles that exist before any effect runs.
    pub components: Vec<String>,
    pub pricing_policy: String,
    pub quantities: Vec<u32>,
    /// `None` → custom quantity not offered.
    pub custom_quantity: Option<CustomQuantity>,
    pub base_effects: Vec<Effect>,
    pub parameters: Vec<Parameter>,
}

#[derive(Debug, Clone, Copy, PartialEq, Eq, Structural)]
pub struct CustomQuantity {
    pub min: u32,
    pub max: u32,
}

#[derive(Debug, Clone, PartialEq)]
pub struct Parameter {
    pub code: String,
    pub label: I18n,
    pub kind: ParameterKind,
}

#[derive(Debug, Clone, PartialEq)]
pub enum ParameterKind {
    Select { options: Vec<OptionDef> },
    Numeric { input: NumericInput, default: Option<u32>, effects: Vec<Effect> },
}

#[derive(Debug, Clone, PartialEq)]
pub struct OptionDef {
    pub code: String,
    pub label: I18n,
    pub is_default: bool,
    /// Standing admin flag: option temporarily not fulfillable. Default true.
    pub available: bool,
    pub unavailable_message: Option<I18n>,
    pub effects: Vec<Effect>,
}

#[derive(Debug, Clone, Copy, PartialEq, Eq, Structural)]
pub struct NumericInput {
    pub min: u32,
    pub max: u32,
    pub step: u32,
}

/// Default of `OptionDef::available`.
pub fn default_true() -> (r: bool)
    ensures
        r,
{
    true
}

/// Default of `Dataset::pricelist_version`.
pub fn default_version() -> (r: i64)
    ensures
        r == 1,
{
    1
}

/// A record found by a string key (its id, slug or owning template).
pub trait Keyed {
    spec fn key_view(&self) -> Seq<char>;

    fn key(&self) -> (r: &String)
        ensures
            r@ == self.key_view(),
    ;
}

impl Keyed for Format {
    open spec fn key_view(&self) -> Seq<char> {
        self.id@
    }

    fn key(&self) -> (r: &String) {
        &self.id
    }
}

impl Keyed for Material {
    open spec fn key_view(&self) -> Seq<char> {
        self.id@
    }

    fn key(&self) -> (r: &String) {
        &self.id
    }
}

impl Keyed for Machine {
    open spec fn key_view(&self) -> Seq<char> {
        self.id@
    }

    fn key(&self) -> (r: &String) {
        &self.id
    }
}

impl Keyed for Operation {
    open spec fn key_view(&self) -> Seq<char> {
        self.id@
    }

    fn key(&self) -> (r: &String) {
        &self.id
    }
}

impl Keyed for PricingPolicy {
    open spec fn key_view(&self) -> Seq<char> {
        self.id@
    }

    fn key(&self) -> (r: &String) {
        &self.id
    }
}

impl Keyed for ProductTemplate {
    open spec fn key_view(&self) -> Seq<char> {
        self.id@
    }

    fn key(&self) -> (r: &String) {
        &self.id
    }
}

impl Keyed for (String, String) {
    open spec fn key_view(&self) -> Seq<char> {
        self.0@
    }

    fn key(&self) -> (r: &String) {
        &self.0
    }
}

impl Keyed for (String, Vec<CompatibilityRule>) {
    open spec fn key_view(&self) -> Seq<char> {
        self.0@
    }

    fn key(&self) -> (r: &String) {
        &self.0
    }
}

/// Whether a record has key `k`.
pub open spec fn key_is<T: Keyed>(k: Seq<char>) -> spec_fn(T) -> bool {
    |t: T| t.key_view() == k
}

/// Index of the first record with key `k`.
pub open spec fn lookup<T: Keyed>(s: Seq<T>, k: Seq<char>) -> Option<int> {
    first_match(s, key_is::<T>(k))
}

/// Position of the first record in `v` with key `k`.
pub fn find_keyed<T: Keyed>(v: &Vec<T>, k: &str) -> (r: Option<usize>)
    ensures
        match r {
            Some(i) => i < v.len() && lookup(v@, k@) == Some(i as int),
            None => lookup(v@, k@) is None,
        },
{
    let ghost p = key_is::<T>(k@);
    let mut i: usize = 0;
    while i < v.len()
        invariant
            i <= v.len(),
            p == key_is::<T>(k@),
            forall|j: int| 0 <= j < i ==> !p(#[trigger] v@[j]),
        decreases v.len() - i,
    {
        if str_eq(v[i].key().as_str(), k) {
            proof {
                lemma_first_match_is(v@, p, i as int);
            }
            return Some(i);
        }
        i += 1;
    }
    proof {
        lemma_first_match_none(v@, p);
    }
    None
}

/// `acc` with `x` stored under its key: an existing record with the key is
/// replaced in place, otherwise `x` is appended — map insertion.
pub open spec fn upsert<T: Keyed>(acc: Seq<T>, x: T) -> Seq<T> {
    match lookup(acc, x.key_view()) {
        Some(i) => acc.update(i, x),
        None => acc.push(x),
    }
}

/// The records of `s` indexed by key, later records replacing earlier ones.
pub open spec fn index_by_key<T: Keyed>(s: Seq<T>) -> Seq<T>
    decreases s.len(),
{
    if s.len() == 0 {
        Seq::empty()
    } else {
        upsert(index_by_key(s.drop_last()), s.last())
    }
}

/// No two records share a key.
pub open spec fn keys_distinct<T: Keyed>(s: Seq<T>) -> bool {
    forall|i: int, j: int| 0 <= i < j < s.len() ==> #[trigger] s[i].key_view() != #[trigger] s[j].key_view()
}

/// Indexed records never share a key.
pub proof fn lemma_index_by_key_distinct<T: Keyed>(s: Seq<T>)
    ensures
        keys_distinct(index_by_key(s)),
    decreases s.len(),
{
    if s.len() > 0 {
        let a = index_by_key(s.drop_last());
        let x = s.last();
        lemma_index_by_key_distinct(s.drop_last());
        lemma_first_match(a, key_is::<T>(x.key_view()));
        let r = index_by_key(s);
        match lookup(a, x.key_view()) {
            Some(k) => {
                assert(r == a.update(k, x));
                assert forall|i: int, j: int| 0 <= i < j < r.len() implies #[trigger] r[i].key_view()
                    != #[trigger] r[j].key_view() by {
                    assert(a[i].key_view() != a[j].key_view());
                }
            },
            None => {
                assert(r == a.push(x));
                assert forall|i: int, j: int| 0 <= i < j < r.len() implies #[trigger] r[i].key_view()
                    != #[trigger] r[j].key_view() by {
                    if j < a.len() {
                        assert(a[i].key_view() != a[j].key_view());
                    } else {
                        assert(!key_is::<T>(x.key_view())(a[i]));
                    }
                }
            },
        }
    }
}

/// The last record of `s` with key `k`.
pub open spec fn last_with_key<T: Keyed>(s: Seq<T>, k: Seq<char>) -> Option<T>
    decreases s.len(),
{
    if s.len() == 0 {
        None
    } else if s.last().key_view() == k {
        Some(s.last())
    } else {
        last_with_key(s.drop_last(), k)
    }
}

/// Looking a key up in the indexed records finds the last record of `s`
/// with that key.
pub proof fn lemma_index_by_key_lookup<T: Keyed>(s: Seq<T>, k: Seq<char>)
    ensures
        match lookup(index_by_key(s), k) {
            Some(i) => 0 <= i < index_by_key(s).len() && last_with_key(s, k) == Some(
                index_by_key(s)[i],
            ),
            None => last_with_key(s, k) is None,
        },
    decreases s.len(),
{
    if s.len() > 0 {
        let a = index_by_key(s.drop_last());
        let x = s.last();
        lemma_index_by_key_lookup(s.drop_last(), k);
        lemma_first_match(a, key_is::<T>(k));
        lemma_first_match(a, key_is::<T>(x.key_view()));
        let r = index_by_key(s);
        assert(r == upsert(a, x));
        if x.key_view() == k {
            match lookup(a, k) {
                Some(i) => {
                    assert(r == a.update(i, x));
                    assert forall|j: int| 0 <= j < i implies !key_is::<T>(k)(#[trigger] r[j]) by {
                        assert(r[j] == a[j]);
                    }
                    lemma_first_match_is(r, key_is::<T>(k), i);
                },
                None => {
                    assert(r == a.push(x));
                    assert forall|j: int| 0 <= j < a.len() implies !key_is::<T>(k)(#[trigger] r[j]) by {
                        assert(r[j] == a[j]);
                    }
                    lemma_first_match_is(r, key_is::<T>(k), a.len() as int);
                },
            }
        } else {
            match lookup(a, x.key_view()) {
                Some(m) => {
                    assert(r == a.update(m, x));
                    assert(key_is::<T>(x.key_view())(a[m]));
                    match lookup(a, k) {
                        Some(i) => {
                            assert(i != m);
                            assert forall|j: int| 0 <= j < i implies !key_is::<T>(k)(#[trigger] r[j]) by {
                                if j == m {
                                } else {
                                    assert(r[j] == a[j]);
                                }
                            }
                            lemma_first_match_is(r, key_is::<T>(k), i);
                        },
                        None => {
                            assert forall|j: int| 0 <= j < r.len() implies !key_is::<T>(k)(#[trigger] r[j]) by {
                                if j != m {
                                    assert(r[j] == a[j]);
                                }
                            }
                            lemma_first_match_none(r, key_is::<T>(k));
                        },
                    }
                },
                None => {
                    assert(r == a.push(x));
                    match lookup(a, k) {
                        Some(i) => {
                            assert forall|j: int| 0 <= j < i implies !key_is::<T>(k)(#[trigger] r[j]) by {
                                assert(r[j] == a[j]);
                            }
                            lemma_first_match_is(r, key_is::<T>(k), i);
                        },
                        None => {
                            assert forall|j: int| 0 <= j < r.len() implies !key_is::<T>(k)(#[trigger] r[j]) by {
                                if j < a.len() {
                                    assert(r[j] == a[j]);
                                }
                            }
                            lemma_first_match_none(r, key_is::<T>(k));
                        },
                    }
                },
            }
        }
    }
}

/// Index `items` by key, later records replacing earlier ones.
pub fn index_vec<T: Keyed>(items: Vec<T>) -> (r: Vec<T>)
    ensures
        r@ == index_by_key(items@),
{
    let ghost all = items@;
    let mut rest = items;
    let mut acc: Vec<T> = Vec::new();
    let mut k: usize = 0;
    let n = rest.len();
    while rest.len() > 0
        invariant
            n == all.len(),
            k + rest.len() == n,
            rest@ == all.skip(k as int),
            acc@ == index_by_key(all.take(k as int)),
        decreases rest.len(),
    {
        let x = rest.remove(0);
        proof {
            assert(all.take(k + 1).drop_last() =~= all.take(k as int));
            assert(all.take(k + 1).last() == x);
        }
        match find_keyed(&acc, x.key().as_str()) {
            Some(i) => {
                acc.set(i, x);
            },
            None => {
                acc.push(x);
            },
        }
        k += 1;
        proof {
            assert(rest@ =~= all.skip(k as int));
        }
    }
    assert(all.take(n as int) =~= all);
    acc
}

/// Whether a rule group belongs to template `k`.
pub open spec fn group_is(k: Seq<char>) -> spec_fn((Seq<char>, Seq<CompatibilityRule>)) -> bool {
    |g: (Seq<char>, Seq<CompatibilityRule>)| g.0 == k
}

/// The compatibility rules grouped by template: groups in order of first
/// appearance, each holding its rules in dataset order.
pub open spec fn group_rules(s: Seq<CompatibilityRule>) -> Seq<(Seq<char>, Seq<CompatibilityRule>)>
    decreases s.len(),
{
    if s.len() == 0 {
        Seq::empty()
    } else {
        let acc = group_rules(s.drop_last());
        let r = s.last();
        match first_match(acc, group_is(r.template@)) {
            Some(i) => acc.update(i, (acc[i].0, acc[i].1.push(r))),
            None => acc.push((r.template@, seq![r])),
        }
    }
}

/// The rules of template `id` in a grouping.
pub open spec fn rules_in(groups: Seq<(Seq<char>, Seq<CompatibilityRule>)>, id: Seq<char>) -> Seq<
    CompatibilityRule,
> {
    match first_match(groups, group_is(id)) {
        Some(i) => groups[i].1,
        None => Seq::empty(),
    }
}

pub open spec fn groups_view(g: Seq<(String, Vec<CompatibilityRule>)>) -> Seq<
    (Seq<char>, Seq<CompatibilityRule>),
> {
    Seq::new(g.len(), |i: int| (g[i].0@, g[i].1@))
}

proof fn lemma_lookup_groups(g: Seq<(String, Vec<CompatibilityRule>)>, k: Seq<char>)
    ensures
        lookup(g, k) == first_match(groups_view(g), group_is(k)),
{
    lemma_first_match(g, key_is::<(String, Vec<CompatibilityRule>)>(k));
    lemma_first_match(groups_view(g), group_is(k));
    let gv = groups_view(g);
    match lookup(g, k) {
        Some(i) => {
            assert forall|j: int| 0 <= j < i implies !group_is(k)(#[trigger] gv[j]) by {
                assert(!key_is::<(String, Vec<CompatibilityRule>)>(k)(g[j]));
            }
            lemma_first_match_is(gv, group_is(k), i);
        },
        None => {
            assert forall|j: int| 0 <= j < gv.len() implies !group_is(k)(#[trigger] gv[j]) by {
                assert(!key_is::<(String, Vec<CompatibilityRule>)>(k)(g[j]));
            }
            lemma_first_match_none(gv, group_is(k));
        },
    }
}

fn group_rules_vec(rules: Vec<CompatibilityRule>) -> (r: Vec<(String, Vec<CompatibilityRule>)>)
    ensures
        groups_view(r@) == group_rules(rules@),
{
    let ghost all = rules@;
    let mut rest = rules;
    let mut acc: Vec<(String, Vec<CompatibilityRule>)> = Vec::new();
    let mut k: usize = 0;
    let n = rest.len();
    proof {
        assert(groups_view(acc@) =~= group_rules(all.take(0)));
    }
    while rest.len() > 0
        invariant
            n == all.len(),
            k + rest.len() == n,
            rest@ == all.skip(k as int),
            groups_view(acc@) == group_rules(all.take(k as int)),
        decreases rest.len(),
    {
        let r = rest.remove(0);
        proof {
            assert(all.take(k + 1).drop_last() =~= all.take(k as int));
            assert(all.take(k + 1).last() == r);
            lemma_lookup_groups(acc@, r.template@);
        }
        let ghost before = acc@;
        match find_keyed(&acc, r.template.as_str()) {
            Some(i) => {
                let mut group = acc.remove(i);
                group.1.push(r);
                acc.insert(i, group);
                proof {
                    assert(groups_view(acc@) =~= groups_view(before).update(
                        i as int,
                        (groups_view(before)[i as int].0, groups_view(before)[i as int].1.push(r)),
                    ));
                }
            },
            None => {
                let t = r.template.clone();
                let mut v: Vec<CompatibilityRule> = Vec::new();
                v.push(r);
                acc.push((t, v));
                proof {
                    assert(groups_view(acc@) =~= groups_view(before).push((r.template@, seq![r])));
                }
            },
        }
        k += 1;
        proof {
            assert(rest@ =~= all.skip(k as int));
        }
    }
    assert(all.take(n as int) =~= all);
    acc
}

/// Deserialization shape for a whole tenant price model — flat arrays as
/// stored / seeded. [`PriceModel::from_dataset`] indexes it for lookup.
#[derive(Debug, PartialEq)]
pub struct Dataset {
    pub pricelist_version: i64,
    pub formats: Vec<Format>,
    pub materials: Vec<Material>,
    pub machines: Vec<Machine>,
    pub operations: Vec<Operation>,
    pub pricing_policies: Vec<PricingPolicy>,
    pub templates: Vec<ProductTemplate>,
    pub compatibility_rules: Vec<CompatibilityRule>,
}

/// Indexed, read-only tenant price model. Every collection holds one record
/// per id (a later dataset record replaces an earlier one with the same id).
#[derive(Debug, PartialEq)]
pub struct PriceModel {
    pub pricelist_version: i64,
    pub formats: Vec<Format>,
    pub materials: Vec<Material>,
    pub machines: Vec<Machine>,
    pub operations: Vec<Operation>,
    pub pricing_policies: Vec<PricingPolicy>,
    pub templates: Vec<ProductTemplate>,
    /// `(slug, template id)`, one entry per slug.
    pub templates_by_slug: Vec<(String, String)>,
    /// `(template id, rules)`, one entry per template with rules.
    pub rules_by_template: Vec<(String, Vec<CompatibilityRule>)>,
}

/// The id of the last template in `t` with slug `slug`.
pub open spec fn last_slug_id(t: Seq<ProductTemplate>, slug: Seq<char>) -> Option<Seq<char>>
    decreases t.len(),
{
    if t.len() == 0 {
        None
    } else if t.last().slug@ == slug {
        Some(t.last().id@)
    } else {
        last_slug_id(t.drop_last(), slug)
    }
}

proof fn lemma_last_slug(p: Seq<(String, String)>, t: Seq<ProductTemplate>, slug: Seq<char>)
    requires
        p.len() == t.len(),
        forall|j: int| 0 <= j < p.len() ==> p[j].0@ == t[j].slug@ && p[j].1@ == t[j].id@,
    ensures
        last_slug_id(t, slug) == match last_with_key(p, slug) {
            Some(x) => Some(x.1@),
            None => None,
        },
    decreases t.len(),
{
    if t.len() > 0 {
        lemma_last_slug(p.drop_last(), t.drop_last(), slug);
    }
}

impl PriceModel {
    /// The template id stored for `slug`: the id of the last dataset template
    /// with that slug.
    pub open spec fn slug_target(&self, slug: Seq<char>) -> Option<Seq<char>> {
        match lookup(self.templates_by_slug@, slug) {
            Some(i) => Some(self.templates_by_slug@[i].1@),
            None => None,
        }
    }

    /// The compatibility rules of template `id`, in dataset order.
    pub open spec fn spec_rules_for(&self, id: Seq<char>) -> Seq<CompatibilityRule> {
        rules_in(groups_view(self.rules_by_template@), id)
    }

    /// Every catalog holds each id at most once.
    pub open spec fn wf(&self) -> bool {
        &&& keys_distinct(self.formats@)
        &&& keys_distinct(self.materials@)
        &&& keys_distinct(self.machines@)
        &&& keys_distinct(self.operations@)
        &&& keys_distinct(self.pricing_policies@)
        &&& keys_distinct(self.templates@)
    }

    /// How the model was built from a dataset.
    pub open spec fn built_from(&self, ds: Dataset) -> bool {
        &&& self.pricelist_version == ds.pricelist_version
        &&& self.formats@ == index_by_key(ds.formats@)
        &&& self.materials@ == index_by_key(ds.materials@)
        &&& self.machines@ == index_by_key(ds.machines@)
        &&& self.operations@ == index_by_key(ds.operations@)
        &&& self.pricing_policies@ == index_by_key(ds.pricing_policies@)
        &&& self.templates@ == index_by_key(ds.templates@)
        &&& forall|slug: Seq<char>| #[trigger] self.slug_target(slug) == last_slug_id(ds.templates@, slug)
        &&& groups_view(self.rules_by_template@) == group_rules(ds.compatibility_rules@)
    }

    pub fn from_dataset(ds: Dataset) -> (r: PriceModel)
        ensures
            r.built_from(ds),
            r.wf(),
    {
        proof {
            lemma_index_by_key_distinct(ds.formats@);
            lemma_index_by_key_distinct(ds.materials@);
            lemma_index_by_key_distinct(ds.machines@);
            lemma_index_by_key_distinct(ds.operations@);
            lemma_index_by_key_distinct(ds.pricing_policies@);
            lemma_index_by_key_distinct(ds.templates@);
        }
        let ghost ds0 = ds;
        let Dataset {
            pricelist_version,
            formats,
            materials,
            machines,
            operations,
            pricing_policies,
            templates,
            compatibility_rules,
        } = ds;
        let mut slugs: Vec<(String, String)> = Vec::new();
        let mut i: usize = 0;
        while i < templates.len()
            invariant
                i <= templates.len(),
                slugs.len() == i,
                forall|j: int|
                    0 <= j < i ==> slugs@[j].0@ == templates@[j].slug@ && slugs@[j].1@
                        == templates@[j].id@,
            decreases templates.len() - i,
        {
            slugs.push((templates[i].slug.clone(), templates[i].id.clone()));
            i += 1;
        }
        let ghost slug_seq = slugs@;
        let by_slug = index_vec(slugs);
        proof {
            assert forall|slug: Seq<char>|
                #[trigger] last_slug_id(templates@, slug) == match lookup(by_slug@, slug) {
                    Some(k) => Some(by_slug@[k].1@),
                    None => None,
                } by {
                lemma_index_by_key_lookup(slug_seq, slug);
                lemma_last_slug(slug_seq, templates@, slug);
            }
        }
        PriceModel {
            pricelist_version,
            formats: index_vec(formats),
            materials: index_vec(materials),
            machines: index_vec(machines),
            operations: index_vec(operations),
            pricing_policies: index_vec(pricing_policies),
            templates: index_vec(templates),
            templates_by_slug: by_slug,
            rules_by_template: group_rules_vec(compatibility_rules),
        }
    }

    pub fn template_by_slug(&self, slug: &str) -> (r: Option<&ProductTemplate>)
        ensures
            match self.slug_target(slug@) {
                Some(id) => match lookup(self.templates@, id) {
                    Some(i) => r == Some(&self.templates@[i]),
                    None => r is None,
                },
                None => r is None,
            },
    {
        match find_keyed(&self.templates_by_slug, slug) {
            Some(i) => match find_keyed(&self.templates, self.templates_by_slug[i].1.as_str()) {
                Some(j) => Some(&self.templates[j]),
                None => None,
            },
            None => None,
        }
    }

    pub fn rules_for(&self, template_id: &str) -> (r: &[CompatibilityRule])
        ensures
            r@ == self.spec_rules_for(template_id@),
    {
        proof {
            lemma_lookup_groups(self.rules_by_template@, template_id@);
        }
        match find_keyed(&self.rules_by_template, template_id) {
            Some(i) => self.rules_by_template[i].1.as_slice(),
            None => &[],
        }
    }
}

} // verus!
