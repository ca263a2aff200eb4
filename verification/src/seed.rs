//! Demo data planning: weighted picks from a random roll, which customers
//! may receive orders, how seeded orders are numbered, and which leads their
//! first order promotes. The random choices come in as arguments.
use vstd::prelude::*;

use crate::domain::customer::{spec_can_order, Contact, CustomerKind, CustomerStatus};
use crate::seqs::sum;
use crate::text::{
    append_decimal_u64, decimal, lemma_seq_lt_order, owned, seq_lt, str_eq, str_lt, zero_padded,
    zero_padded_string,
};

verus! {

/// Width of a seeded order number (`000001`, …).
pub const ORDER_NUMBER_WIDTH: usize = 6;

pub open spec fn weights_of<T>(ws: Seq<(T, u32)>) -> Seq<int> {
    ws.map_values(|w: (T, u32)| w.1 as int)
}

/// The value whose band `[start, start + weight)` holds `roll`, the bands
/// laid end to end in order.
pub open spec fn pick_spec<T>(ws: Seq<(T, u32)>, roll: int) -> Option<T>
    decreases ws.len(),
{
    if ws.len() == 0 {
        None
    } else if roll < ws[0].1 {
        Some(ws[0].0)
    } else {
        pick_spec(ws.drop_first(), roll - ws[0].1)
    }
}

proof fn lemma_sum_first<T>(ws: Seq<(T, u32)>)
    requires
        ws.len() > 0,
    ensures
        sum(weights_of(ws)) == ws[0].1 + sum(weights_of(ws.drop_first())),
    decreases ws.len(),
{
    let s = weights_of(ws);
    if ws.len() == 1 {
        assert(s.drop_last() =~= Seq::<int>::empty());
        assert(weights_of(ws.drop_first()) =~= Seq::<int>::empty());
    } else {
        lemma_sum_first(ws.drop_last());
        assert(weights_of(ws.drop_last()) =~= s.drop_last());
        assert(ws.drop_last().drop_first() =~= ws.drop_first().drop_last());
        assert(weights_of(ws.drop_first()).drop_last() =~= weights_of(ws.drop_first().drop_last()));
    }
}

proof fn lemma_weights_nonneg<T>(ws: Seq<(T, u32)>)
    ensures
        sum(weights_of(ws)) >= 0,
    decreases ws.len(),
{
    if ws.len() > 0 {
        lemma_weights_nonneg(ws.drop_last());
        assert(weights_of(ws).drop_last() =~= weights_of(ws.drop_last()));
    }
}

/// A roll below the total weight lands in some band.
proof fn lemma_pick_some<T>(ws: Seq<(T, u32)>, roll: int)
    requires
        0 <= roll < sum(weights_of(ws)),
    ensures
        pick_spec(ws, roll) is Some,
    decreases ws.len(),
{
    if ws.len() == 0 {
        assert(weights_of(ws) =~= Seq::<int>::empty());
    } else {
        lemma_sum_first(ws);
        if roll >= ws[0].1 {
            lemma_pick_some(ws.drop_first(), roll - ws[0].1);
        }
    }
}

/// Pick by weight: `roll` is uniform in `[0, total)` for a weighted draw.
pub fn weighted_pick<T: Copy>(weights: &[(T, u32)], roll: u32) -> (r: T)
    requires
        sum(weights_of(weights@)) <= u32::MAX,
        roll < sum(weights_of(weights@)),
    ensures
        pick_spec(weights@, roll as int) == Some(r),
{
    let ghost ws = weights@;
    let mut pick = roll;
    let mut i: usize = 0;
    proof {
        assert(ws.skip(0) =~= ws);
        lemma_pick_some(ws, roll as int);
    }
    assert(weights.len() > 0);
    while i + 1 < weights.len()
        invariant
            ws == weights@,
            i < weights.len(),
            pick_spec(ws.skip(i as int), pick as int) == pick_spec(ws, roll as int),
            pick_spec(ws, roll as int) is Some,
        decreases weights.len() - i,
    {
        let (value, weight) = weights[i];
        assert(ws.skip(i as int)[0] == ws[i as int]);
        if pick < weight {
            return value;
        }
        assert(ws.skip(i as int).drop_first() =~= ws.skip(i + 1));
        pick = pick - weight;
        i += 1;
    }
    assert(ws.skip(i as int)[0] == ws[i as int]);
    assert(ws.skip(i as int).drop_first() =~= Seq::<(T, u32)>::empty());
    assert(pick_spec(ws.skip(i as int).drop_first(), pick - ws[i as int].1) is None);
    weights[i].0
}

/// Every value with a positive weight is drawn by the rolls of its band.
pub proof fn lemma_pick_covers_band<T>(ws: Seq<(T, u32)>, i: int, roll: int)
    requires
        0 <= i < ws.len(),
        sum(weights_of(ws.take(i))) <= roll < sum(weights_of(ws.take(i))) + ws[i].1,
    ensures
        pick_spec(ws, roll) == Some(ws[i].0),
    decreases i,
{
    if i == 0 {
        assert(weights_of(ws.take(0)) =~= Seq::<int>::empty());
    } else {
        lemma_sum_first(ws.take(i));
        assert(ws.take(i).drop_first() =~= ws.drop_first().take(i - 1));
        lemma_weights_nonneg(ws.drop_first().take(i - 1));
        assert(ws.take(i)[0] == ws[0]);
        assert(ws.drop_first()[i - 1] == ws[i]);
        lemma_pick_covers_band(ws.drop_first(), i - 1, roll - ws[0].1);
    }
}

/// Customers written per insert.
pub const BATCH_SIZE: usize = 1000;

/// The mix of customer kinds drawn: about 60% legal entities, 35% sole
/// proprietors (FOP) and 5% private individuals.
pub fn customer_kind_weights() -> (r: Vec<(CustomerKind, u32)>)
    ensures
        r@ == seq![(CustomerKind::LegalEntity, 60u32), (CustomerKind::Fop, 35u32), (CustomerKind::Individual, 5u32)],
{
    let r = vec![(CustomerKind::LegalEntity, 60), (CustomerKind::Fop, 35), (CustomerKind::Individual, 5)];
    assert(r@ =~= seq![(CustomerKind::LegalEntity, 60u32), (CustomerKind::Fop, 35u32), (CustomerKind::Individual, 5u32)]);
    r
}

/// The mix of customer statuses drawn: mostly active, with a minority of
/// every other status.
pub fn customer_status_weights() -> (r: Vec<(CustomerStatus, u32)>)
    ensures
        r@ == seq![
            (CustomerStatus::Active, 70u32),
            (CustomerStatus::Lead, 10u32),
            (CustomerStatus::Inactive, 10u32),
            (CustomerStatus::Blocked, 10u32),
        ],
{
    let r = vec![
        (CustomerStatus::Active, 70),
        (CustomerStatus::Lead, 10),
        (CustomerStatus::Inactive, 10),
        (CustomerStatus::Blocked, 10),
    ];
    assert(r@ =~= seq![
        (CustomerStatus::Active, 70u32),
        (CustomerStatus::Lead, 10u32),
        (CustomerStatus::Inactive, 10u32),
        (CustomerStatus::Blocked, 10u32),
    ]);
    r
}

/// The payment terms, in days, a seeded customer gets one of.
pub fn payment_terms_options() -> (r: Vec<u16>)
    ensures
        r@ == seq![0u16, 7u16, 14u16, 30u16],
{
    let r = vec![0, 7, 14, 30];
    assert(r@ =~= seq![0u16, 7u16, 14u16, 30u16]);
    r
}

/// The tags English-language demo customers are drawn from.
pub fn tag_pool_en() -> (r: Vec<&'static str>)
    ensures
        r@.map_values(|t: &str| t@) == seq!["printing"@, "regular"@, "wholesale"@, "new"@, "vip"@],
{
    let r = vec!["printing", "regular", "wholesale", "new", "vip"];
    assert(r@.map_values(|t: &str| t@) =~= seq!["printing"@, "regular"@, "wholesale"@, "new"@, "vip"@]);
    r
}

/// The tags Ukrainian demo customers are drawn from.
pub fn tag_pool_ua() -> (r: Vec<&'static str>)
    ensures
        r@.map_values(|t: &str| t@) == seq!["поліграфія"@, "постійний"@, "опт"@, "новий"@, "vip"@],
{
    let r = vec!["поліграфія", "постійний", "опт", "новий", "vip"];
    assert(r@.map_values(|t: &str| t@) =~= seq!["поліграфія"@, "постійний"@, "опт"@, "новий"@, "vip"@]);
    r
}

/// The roles of English-language demo contacts.
pub fn contact_roles_en() -> (r: Vec<&'static str>)
    ensures
        r@.map_values(|t: &str| t@) == seq!["director"@, "purchasing manager"@, "accountant"@],
{
    let r = vec!["director", "purchasing manager", "accountant"];
    assert(r@.map_values(|t: &str| t@) =~= seq!["director"@, "purchasing manager"@, "accountant"@]);
    r
}

/// The roles of Ukrainian demo contacts.
pub fn contact_roles_ua() -> (r: Vec<&'static str>)
    ensures
        r@.map_values(|t: &str| t@) == seq!["директор"@, "менеджер із закупівель"@, "бухгалтер"@],
{
    let r = vec!["директор", "менеджер із закупівель", "бухгалтер"];
    assert(r@.map_values(|t: &str| t@) =~= seq!["директор"@, "менеджер із закупівель"@, "бухгалтер"@]);
    r
}

/// The sizes of the inserts that write `count` customers: full batches,
/// then what is left.
pub open spec fn batch_sizes_spec(count: nat) -> Seq<usize>
    decreases count,
{
    if count == 0 {
        Seq::empty()
    } else if count <= BATCH_SIZE {
        seq![count as usize]
    } else {
        seq![BATCH_SIZE].add(batch_sizes_spec((count - BATCH_SIZE) as nat))
    }
}

/// The sizes of the inserts that write `count` customers.
pub fn batch_sizes(count: usize) -> (r: Vec<usize>)
    ensures
        r@ == batch_sizes_spec(count as nat),
{
    let mut out: Vec<usize> = Vec::new();
    let mut remaining = count;
    while remaining > 0
        invariant
            out@ + batch_sizes_spec(remaining as nat) == batch_sizes_spec(count as nat),
        decreases remaining,
    {
        let size = if remaining < BATCH_SIZE { remaining } else { BATCH_SIZE };
        let ghost before = out@;
        out.push(size);
        assert(batch_sizes_spec(remaining as nat) =~= seq![size].add(
            batch_sizes_spec((remaining - size) as nat),
        ));
        assert(out@ + batch_sizes_spec((remaining - size) as nat) =~= before + batch_sizes_spec(
            remaining as nat,
        ));
        remaining = remaining - size;
    }
    assert(out@ + batch_sizes_spec(0) =~= out@);
    out
}

/// The digit `d` (below ten) as a character.
pub open spec fn digit_char(d: u8) -> char {
    ((d + ('0' as u32)) as u32) as char
}

/// Digits drawn one roll each, as text.
pub open spec fn digits_of(rolls: Seq<u8>) -> Seq<char> {
    rolls.map_values(|d: u8| digit_char(d))
}

/// A random identifier: one decimal digit per roll, each roll in `0..10`.
pub fn random_digits(rolls: &[u8]) -> (r: String)
    requires
        forall|i: int| 0 <= i < rolls.len() ==> #[trigger] rolls[i] < 10,
    ensures
        r@ == digits_of(rolls@),
{
    let mut out = String::new();
    let mut i: usize = 0;
    while i < rolls.len()
        invariant
            i <= rolls.len(),
            forall|j: int| 0 <= j < rolls.len() ==> #[trigger] rolls[j] < 10,
            out@ == digits_of(rolls@.take(i as int)),
        decreases rolls.len() - i,
    {
        let ghost before = out@;
        assert(rolls[i as int] < 10);
        append_decimal_u64(&mut out, rolls[i] as u64);
        assert(decimal(rolls[i as int] as nat) == seq![digit_char(rolls[i as int])]);
        assert(digits_of(rolls@.take(i + 1)) =~= digits_of(rolls@.take(i as int)).push(
            digit_char(rolls[i as int]),
        ));
        i += 1;
    }
    assert(rolls@.take(rolls.len() as int) =~= rolls@);
    out
}

/// Strictly ascending, so without repeats.
pub open spec fn strictly_ascending(s: Seq<Seq<char>>) -> bool {
    forall|i: int, j: int| 0 <= i < j < s.len() ==> seq_lt(#[trigger] s[i], #[trigger] s[j])
}

/// Whether `t` is one of the tags picked from `pool` by the first `n` picks.
pub open spec fn picked(pool: Seq<&str>, picks: Seq<usize>, n: int, t: Seq<char>) -> bool {
    exists|i: int| 0 <= i < n && (#[trigger] pool[picks[i] as int])@ == t
}

/// A seeded customer's tags: the tags of `pool` at the positions `picks`,
/// in ascending order, each once.
pub fn seed_tags(pool: &[&str], picks: &[usize]) -> (r: Vec<String>)
    requires
        forall|i: int| 0 <= i < picks.len() ==> #[trigger] picks[i] < pool.len(),
    ensures
        strictly_ascending(ids_view(r@)),
        forall|t: Seq<char>| ids_view(r@).contains(t) <==> picked(pool@, picks@, picks.len() as int, t),
{
    let mut out: Vec<String> = Vec::new();
    let mut n: usize = 0;
    while n < picks.len()
        invariant
            n <= picks.len(),
            forall|i: int| 0 <= i < picks.len() ==> #[trigger] picks[i] < pool.len(),
            strictly_ascending(ids_view(out@)),
            forall|t: Seq<char>| ids_view(out@).contains(t) <==> picked(pool@, picks@, n as int, t),
        decreases picks.len() - n,
    {
        let tag: &str = pool[picks[n]];
        let ghost o = ids_view(out@);
        let mut k: usize = 0;
        while k < out.len() && str_lt(out[k].as_str(), tag)
            invariant
                k <= out.len(),
                o == ids_view(out@),
                forall|j: int| 0 <= j < k ==> seq_lt(#[trigger] o[j], tag@),
            decreases out.len() - k,
        {
            assert(o[k as int] == out@[k as int]@);
            k += 1;
        }
        proof {
            if k < out.len() {
                assert(o[k as int] == out@[k as int]@);
                assert(!seq_lt(o[k as int], tag@));
            }
        }
        let present = k < out.len() && str_eq(out[k].as_str(), tag);
        if !present {
            out.insert(k, owned(tag));
            let ghost no = ids_view(out@);
            assert(no =~= o.insert(k as int, tag@));
            proof {
                if k < o.len() {
                    assert(o[k as int] != tag@);
                    lemma_seq_lt_order(tag@, o[k as int], o[k as int]);
                }
                assert forall|i: int, j: int| 0 <= i < j < no.len() implies seq_lt(#[trigger] no[i], #[trigger] no[j]) by {
                    if j < k {
                        assert(no[i] == o[i] && no[j] == o[j]);
                    } else if j == k {
                        assert(no[i] == o[i]);
                    } else if i == k {
                        assert(no[j] == o[j - 1]);
                        if j - 1 > k {
                            lemma_seq_lt_order(tag@, o[k as int], o[j - 1]);
                        }
                    } else if i < k {
                        assert(no[i] == o[i] && no[j] == o[j - 1]);
                        if j - 1 == k {
                        } else {
                            lemma_seq_lt_order(o[i], tag@, o[j - 1]);
                            lemma_seq_lt_order(tag@, o[k as int], o[j - 1]);
                        }
                    } else {
                        assert(no[i] == o[i - 1] && no[j] == o[j - 1]);
                    }
                }
            }
        }
        proof {
            let cur = ids_view(out@);
            assert forall|t: Seq<char>| cur.contains(t) <==> (o.contains(t) || t == tag@) by {
                if present {
                    assert(cur == o);
                    assert(o[k as int] == tag@);
                } else {
                    assert(cur =~= o.insert(k as int, tag@));
                    if cur.contains(t) {
                        let j = choose|j: int| 0 <= j < cur.len() && cur[j] == t;
                        if j < k {
                            assert(o[j] == t);
                        } else if j > k {
                            assert(o[j - 1] == t);
                        }
                    }
                    if o.contains(t) {
                        let j = choose|j: int| 0 <= j < o.len() && o[j] == t;
                        if j < k {
                            assert(cur[j] == t);
                        } else {
                            assert(cur[j + 1] == t);
                        }
                    }
                    if t == tag@ {
                        assert(cur[k as int] == t);
                    }
                }
            }
            assert forall|t: Seq<char>| cur.contains(t) <==> picked(pool@, picks@, n + 1, t) by {
                if picked(pool@, picks@, n + 1, t) {
                    let i = choose|i: int| 0 <= i < n + 1 && (#[trigger] pool@[picks@[i] as int])@ == t;
                    if i < n {
                        assert(picked(pool@, picks@, n as int, t));
                    }
                }
                if picked(pool@, picks@, n as int, t) {
                    let i = choose|i: int| 0 <= i < n && (#[trigger] pool@[picks@[i] as int])@ == t;
                    assert(0 <= i < n + 1 && pool@[picks@[i] as int]@ == t);
                }
                if t == tag@ {
                    assert(pool@[picks@[n as int] as int]@ == t);
                }
            }
        }
        n += 1;
    }
    out
}

/// A contact as the seeder draws it: name, role, email and phone.
#[derive(Debug, Clone, PartialEq)]
pub struct DrawnContact {
    pub name: String,
    pub role: String,
    pub email: String,
    pub phone: String,
}

/// A seeded customer's contacts, in the order drawn; the first is the
/// primary contact.
pub fn seed_contacts(drawn: Vec<DrawnContact>) -> (r: Vec<Contact>)
    ensures
        r.len() == drawn.len(),
        forall|i: int|
            0 <= i < r.len() ==> {
                &&& (#[trigger] r[i]).name == drawn[i].name
                &&& r[i].role == Some(drawn[i].role)
                &&& r[i].email == Some(drawn[i].email)
                &&& r[i].phone == Some(drawn[i].phone)
                &&& r[i].is_primary == (i == 0)
            },
{
    let mut out: Vec<Contact> = Vec::new();
    let mut rest = drawn;
    let ghost d = rest@;
    let total = rest.len();
    let mut i: usize = 0;
    while rest.len() > 0
        invariant
            out.len() == i,
            i + rest.len() == total,
            total == d.len(),
            rest@ == d.skip(i as int),
            forall|j: int|
                0 <= j < i ==> {
                    &&& (#[trigger] out@[j]).name == d[j].name
                    &&& out@[j].role == Some(d[j].role)
                    &&& out@[j].email == Some(d[j].email)
                    &&& out@[j].phone == Some(d[j].phone)
                    &&& out@[j].is_primary == (j == 0)
                },
        decreases rest.len(),
    {
        assert(rest@[0] == d[i as int]);
        let c = rest.remove(0);
        assert(rest@ =~= d.skip(i + 1));
        out.push(Contact {
            name: c.name,
            role: Some(c.role),
            email: Some(c.email),
            phone: Some(c.phone),
            is_primary: i == 0,
        });
        i += 1;
    }
    out
}

/// The registration numbers of a seeded customer.
#[derive(Debug, Clone, PartialEq)]
pub struct SeededIds {
    /// EDRPOU code: legal entities only.
    pub edrpou: Option<String>,
    /// Individual tax number: every kind but a legal entity.
    pub tax_id: Option<String>,
    /// VAT payer number, where one was drawn.
    pub vat_ipn: Option<String>,
}

/// The registration numbers a seeded customer of kind `kind` carries: an
/// eight-digit EDRPOU code for a legal entity, a ten-digit tax number for
/// any other kind, and a twelve-digit VAT number where `vat_rolls` is given.
/// The rolls are the random digits drawn for each.
pub fn seeded_ids(kind: CustomerKind, edrpou_rolls: &[u8], tax_rolls: &[u8], vat_rolls: Option<&[u8]>) -> (r:
    SeededIds)
    requires
        edrpou_rolls.len() == 8,
        tax_rolls.len() == 10,
        forall|i: int| 0 <= i < 8 ==> #[trigger] edrpou_rolls[i] < 10,
        forall|i: int| 0 <= i < 10 ==> #[trigger] tax_rolls[i] < 10,
        vat_rolls matches Some(v) ==> v.len() == 12 && forall|i: int| 0 <= i < 12 ==> #[trigger] v[i] < 10,
    ensures
        kind is LegalEntity ==> (r.edrpou matches Some(e) && e@ == digits_of(edrpou_rolls@)) && r.tax_id
            is None,
        !(kind is LegalEntity) ==> r.edrpou is None && (r.tax_id matches Some(t) && t@ == digits_of(
            tax_rolls@,
        )),
        match vat_rolls {
            Some(v) => r.vat_ipn matches Some(n) && n@ == digits_of(v@),
            None => r.vat_ipn is None,
        },
{
    let legal = match kind {
        CustomerKind::LegalEntity => true,
        _ => false,
    };
    let edrpou = if legal {
        Some(random_digits(edrpou_rolls))
    } else {
        None
    };
    let tax_id = if legal {
        None
    } else {
        Some(random_digits(tax_rolls))
    };
    let vat_ipn = match vat_rolls {
        Some(v) => Some(random_digits(v)),
        None => None,
    };
    SeededIds { edrpou, tax_id, vat_ipn }
}

/// A customer written by the seeder, with the status orders are checked
/// against.
#[derive(Debug, Clone, PartialEq)]
pub struct SeededCustomer {
    pub id: String,
    pub status: CustomerStatus,
}

pub open spec fn ids_view(v: Seq<String>) -> Seq<Seq<char>> {
    v.map_values(|s: String| s@)
}

/// The ids of the customers that may receive orders (leads and active
/// ones), in order.
pub open spec fn eligible_ids(cs: Seq<SeededCustomer>) -> Seq<Seq<char>>
    decreases cs.len(),
{
    if cs.len() == 0 {
        Seq::empty()
    } else {
        let r = eligible_ids(cs.drop_last());
        if spec_can_order(cs.last().status) {
            r.push(cs.last().id@)
        } else {
            r
        }
    }
}

pub fn order_eligible(customers: &[SeededCustomer]) -> (r: Vec<String>)
    ensures
        ids_view(r@) == eligible_ids(customers@),
{
    let mut out: Vec<String> = Vec::new();
    let mut i: usize = 0;
    while i < customers.len()
        invariant
            i <= customers.len(),
            ids_view(out@) == eligible_ids(customers@.take(i as int)),
        decreases customers.len() - i,
    {
        assert(customers@.take(i + 1).drop_last() =~= customers@.take(i as int));
        let c = &customers[i];
        let eligible = match c.status {
            CustomerStatus::Lead | CustomerStatus::Active => true,
            _ => false,
        };
        if eligible {
            let ghost before = ids_view(out@);
            out.push(c.id.clone());
            assert(ids_view(out@) =~= before.push(c.id@));
        }
        i += 1;
    }
    assert(customers@.take(customers.len() as int) =~= customers@);
    out
}

/// Whether `id` is the id of a lead.
pub open spec fn is_lead(cs: Seq<SeededCustomer>, id: Seq<char>) -> bool {
    exists|k: int| 0 <= k < cs.len() && (#[trigger] cs[k]).id@ == id && cs[k].status == CustomerStatus::Lead
}

/// The leads among `chosen`, each once, in the order of their first order.
pub open spec fn promoted_leads(cs: Seq<SeededCustomer>, chosen: Seq<Seq<char>>) -> Seq<Seq<char>>
    decreases chosen.len(),
{
    if chosen.len() == 0 {
        Seq::empty()
    } else {
        let p = promoted_leads(cs, chosen.drop_last());
        let c = chosen.last();
        if is_lead(cs, c) && !p.contains(c) {
            p.push(c)
        } else {
            p
        }
    }
}

/// One seeded order: its number and its customer.
#[derive(Debug, Clone, PartialEq)]
pub struct PlannedOrder {
    pub number: String,
    pub customer_id: String,
}

/// Why no orders can be planned.
#[derive(Debug, Clone, Copy, PartialEq, Eq, Structural)]
pub enum SeedError {
    NoEligibleCustomers,
}

impl SeedError {
    pub fn message(&self) -> (r: &'static str)
        ensures
            r@ == "no order-eligible customers (need at least one lead or active)"@,
    {
        "no order-eligible customers (need at least one lead or active)"
    }
}

fn is_lead_id(customers: &[SeededCustomer], id: &str) -> (r: bool)
    ensures
        r == is_lead(customers@, id@),
{
    let mut k: usize = 0;
    while k < customers.len()
        invariant
            k <= customers.len(),
            forall|j: int|
                0 <= j < k ==> !((#[trigger] customers@[j]).id@ == id@ && customers@[j].status
                    == CustomerStatus::Lead),
        decreases customers.len() - k,
    {
        if customers[k].status == CustomerStatus::Lead && str_eq(customers[k].id.as_str(), id) {
            return true;
        }
        k += 1;
    }
    false
}

fn contains_id(v: &Vec<String>, id: &str) -> (r: bool)
    ensures
        r == ids_view(v@).contains(id@),
{
    let mut k: usize = 0;
    while k < v.len()
        invariant
            k <= v.len(),
            forall|j: int| 0 <= j < k ==> (#[trigger] v@[j])@ != id@,
        decreases v.len() - k,
    {
        if str_eq(v[k].as_str(), id) {
            assert(ids_view(v@)[k as int] == id@);
            return true;
        }
        k += 1;
    }
    assert forall|j: int| 0 <= j < ids_view(v@).len() implies ids_view(v@)[j] != id@ by {
        assert(v@[j]@ != id@);
    }
    false
}

/// Plan `picks.len()` orders: order `i` goes to eligible customer
/// `picks[i]` and is numbered `last_number + i + 1`, zero-padded to six
/// digits; a lead is promoted by its first order. Gives the orders and the
/// promoted leads.
pub fn plan_orders(customers: &[SeededCustomer], last_number: u64, picks: &[usize]) -> (r: Result<
    (Vec<PlannedOrder>, Vec<String>),
    SeedError,
>)
    requires
        eligible_ids(customers@).len() > 0 ==> forall|i: int|
            0 <= i < picks@.len() ==> #[trigger] picks@[i] < eligible_ids(customers@).len(),
        last_number + picks@.len() <= u64::MAX,
    ensures
        eligible_ids(customers@).len() == 0 ==> r == Err::<(Vec<PlannedOrder>, Vec<String>), SeedError>(
            SeedError::NoEligibleCustomers,
        ),
        eligible_ids(customers@).len() > 0 ==> (r matches Ok(res) && res.0@.len() == picks@.len() && (forall|
            i: int,
        |
            0 <= i < picks@.len() ==> (#[trigger] res.0@[i]).customer_id@ == eligible_ids(customers@)[picks@[i] as int]
                && res.0@[i].number@ == zero_padded((last_number + i + 1) as nat, ORDER_NUMBER_WIDTH as nat))
            && ids_view(res.1@) == promoted_leads(
            customers@,
            picks@.map_values(|p: usize| eligible_ids(customers@)[p as int]),
        )),
{
    let eligible = order_eligible(customers);
    if eligible.len() == 0 {
        return Err(SeedError::NoEligibleCustomers);
    }
    let ghost el = eligible_ids(customers@);
    assert(el.len() > 0) by {
        assert(ids_view(eligible@).len() == eligible@.len());
    }
    let ghost chosen = picks@.map_values(|p: usize| el[p as int]);
    let mut orders: Vec<PlannedOrder> = Vec::new();
    let mut promoted: Vec<String> = Vec::new();
    let mut number = last_number;
    let mut i: usize = 0;
    while i < picks.len()
        invariant
            i <= picks.len(),
            el == eligible_ids(customers@),
            ids_view(eligible@) == el,
            chosen == picks@.map_values(|p: usize| el[p as int]),
            forall|j: int| 0 <= j < picks@.len() ==> #[trigger] picks@[j] < el.len(),
            last_number + picks@.len() <= u64::MAX,
            number == last_number + i,
            orders@.len() == i,
            forall|j: int|
                0 <= j < i ==> (#[trigger] orders@[j]).customer_id@ == el[picks@[j] as int]
                    && orders@[j].number@ == zero_padded((last_number + j + 1) as nat, ORDER_NUMBER_WIDTH as nat),
            ids_view(promoted@) == promoted_leads(customers@, chosen.take(i as int)),
        decreases picks.len() - i,
    {
        number = number + 1;
        let customer_id = eligible[picks[i]].clone();
        assert(customer_id@ == el[picks@[i as int] as int]);
        assert(chosen.take(i + 1).drop_last() =~= chosen.take(i as int));
        assert(chosen.take(i + 1).last() == customer_id@);
        if is_lead_id(customers, customer_id.as_str()) && !contains_id(&promoted, customer_id.as_str()) {
            let ghost before = ids_view(promoted@);
            promoted.push(customer_id.clone());
            assert(ids_view(promoted@) =~= before.push(customer_id@));
        }
        orders.push(PlannedOrder { number: zero_padded_string(number, ORDER_NUMBER_WIDTH), customer_id });
        i += 1;
    }
    assert(chosen.take(picks.len() as int) =~= chosen);
    Ok((orders, promoted))
}

/// A lead is promoted at most once, and only a lead is promoted.
pub proof fn lemma_promoted_leads_distinct(cs: Seq<SeededCustomer>, chosen: Seq<Seq<char>>)
    ensures
        forall|i: int, j: int|
            0 <= i < j < promoted_leads(cs, chosen).len() ==> #[trigger] promoted_leads(cs, chosen)[i]
                != #[trigger] promoted_leads(cs, chosen)[j],
        forall|i: int| 0 <= i < promoted_leads(cs, chosen).len() ==> is_lead(cs, #[trigger] promoted_leads(cs, chosen)[i]),
    decreases chosen.len(),
{
    if chosen.len() > 0 {
        lemma_promoted_leads_distinct(cs, chosen.drop_last());
        let p = promoted_leads(cs, chosen.drop_last());
        let c = chosen.last();
        if is_lead(cs, c) && !p.contains(c) {
            let r = p.push(c);
            assert forall|i: int, j: int| 0 <= i < j < r.len() implies r[i] != r[j] by {
                if j == p.len() {
                    if r[i] == c {
                        assert(p[i] == c);
                        assert(p.contains(c));
                    }
                } else {
                    assert(p[i] != p[j]);
                }
            }
            assert forall|i: int| 0 <= i < r.len() implies is_lead(cs, #[trigger] r[i]) by {
                if i < p.len() {
                    assert(is_lead(cs, p[i]));
                }
            }
        }
    }
}

} // verus!
