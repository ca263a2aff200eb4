//! The status dictionaries: for each order and customer status, its code,
//! key, colour, labels and the statuses it may move to.
use vstd::prelude::*;

use crate::domain::customer::{can_order, customer_transition_allowed, spec_can_order, CustomerStatus};
use crate::domain::order::{can_invoice, order_transition_allowed, spec_can_invoice, OrderStatus};

verus! {

/// The labels of a status, one `(language, text)` pair per language.
pub type Labels = Vec<(&'static str, &'static str)>;

pub open spec fn labels_view(l: Seq<(&'static str, &'static str)>) -> Seq<(Seq<char>, Seq<char>)> {
    l.map_values(|p: (&'static str, &'static str)| (p.0@, p.1@))
}

pub open spec fn codes_of_orders(s: Seq<OrderStatus>) -> Seq<u8> {
    s.map_values(|t: OrderStatus| t.spec_code())
}

pub open spec fn codes_of_customers(s: Seq<CustomerStatus>) -> Seq<u8> {
    s.map_values(|t: CustomerStatus| t.spec_code())
}

/// The order statuses in code order.
pub open spec fn all_order_statuses() -> Seq<OrderStatus> {
    seq![
        OrderStatus::Draft,
        OrderStatus::Confirmed,
        OrderStatus::InProduction,
        OrderStatus::Completed,
        OrderStatus::Cancelled,
    ]
}

/// The customer statuses in code order.
pub open spec fn all_customer_statuses() -> Seq<CustomerStatus> {
    seq![CustomerStatus::Lead, CustomerStatus::Active, CustomerStatus::Inactive, CustomerStatus::Blocked]
}

pub open spec fn order_targets(status: OrderStatus) -> Seq<OrderStatus> {
    match status {
        OrderStatus::Draft => seq![OrderStatus::Confirmed, OrderStatus::Cancelled],
        OrderStatus::Confirmed => seq![OrderStatus::InProduction, OrderStatus::Cancelled],
        OrderStatus::InProduction => seq![OrderStatus::Completed],
        OrderStatus::Completed | OrderStatus::Cancelled => Seq::empty(),
    }
}

pub open spec fn order_color(status: OrderStatus) -> Seq<char> {
    match status {
        OrderStatus::Draft => "gray"@,
        OrderStatus::Confirmed => "blue"@,
        OrderStatus::InProduction => "orange"@,
        OrderStatus::Completed => "green"@,
        OrderStatus::Cancelled => "red"@,
    }
}

pub open spec fn order_labels(status: OrderStatus) -> Seq<(Seq<char>, Seq<char>)> {
    match status {
        OrderStatus::Draft => seq![("en"@, "Draft"@), ("ua"@, "Чернетка"@)],
        OrderStatus::Confirmed => seq![("en"@, "Confirmed"@), ("ua"@, "Підтверджено"@)],
        OrderStatus::InProduction => seq![("en"@, "In production"@), ("ua"@, "У виробництві"@)],
        OrderStatus::Completed => seq![("en"@, "Completed"@), ("ua"@, "Завершено"@)],
        OrderStatus::Cancelled => seq![("en"@, "Cancelled"@), ("ua"@, "Скасовано"@)],
    }
}

pub open spec fn customer_targets(status: CustomerStatus) -> Seq<CustomerStatus> {
    match status {
        CustomerStatus::Lead => seq![CustomerStatus::Active],
        CustomerStatus::Active => seq![CustomerStatus::Inactive, CustomerStatus::Blocked],
        CustomerStatus::Inactive => seq![CustomerStatus::Active, CustomerStatus::Blocked],
        CustomerStatus::Blocked => seq![CustomerStatus::Active],
    }
}

pub open spec fn customer_color_of(status: CustomerStatus) -> Seq<char> {
    match status {
        CustomerStatus::Lead => "gray"@,
        CustomerStatus::Active => "green"@,
        CustomerStatus::Inactive => "yellow"@,
        CustomerStatus::Blocked => "red"@,
    }
}

pub open spec fn customer_labels_of(status: CustomerStatus) -> Seq<(Seq<char>, Seq<char>)> {
    match status {
        CustomerStatus::Lead => seq![("en"@, "Lead"@), ("ua"@, "Лід"@)],
        CustomerStatus::Active => seq![("en"@, "Active"@), ("ua"@, "Активний"@)],
        CustomerStatus::Inactive => seq![("en"@, "Inactive"@), ("ua"@, "Неактивний"@)],
        CustomerStatus::Blocked => seq![("en"@, "Blocked"@), ("ua"@, "Заблокований"@)],
    }
}

#[derive(Debug, Clone, PartialEq)]
pub struct OrderStatusDictionaryItem {
    pub id: u8,
    pub key: &'static str,
    pub sort: u8,
    pub color: &'static str,
    pub invoiceable: bool,
    pub allowed_targets: Vec<u8>,
    pub labels: Labels,
}

#[derive(Debug, Clone, PartialEq)]
pub struct OrderStatusDictionaryResponse {
    pub items: Vec<OrderStatusDictionaryItem>,
}

/// The statuses an order may move to from `status`, in listed order.
pub fn allowed_targets(status: OrderStatus) -> (r: Vec<OrderStatus>)
    ensures
        r@ == order_targets(status),
{
    match status {
        OrderStatus::Draft => vec![OrderStatus::Confirmed, OrderStatus::Cancelled],
        OrderStatus::Confirmed => vec![OrderStatus::InProduction, OrderStatus::Cancelled],
        OrderStatus::InProduction => vec![OrderStatus::Completed],
        OrderStatus::Completed | OrderStatus::Cancelled => vec![],
    }
}

pub fn color(status: OrderStatus) -> (r: &'static str)
    ensures
        r@ == order_color(status),
{
    match status {
        OrderStatus::Draft => "gray",
        OrderStatus::Confirmed => "blue",
        OrderStatus::InProduction => "orange",
        OrderStatus::Completed => "green",
        OrderStatus::Cancelled => "red",
    }
}

/// English and Ukrainian labels, matching the frontend's translations.
pub fn labels(status: OrderStatus) -> (r: Labels)
    ensures
        labels_view(r@) == order_labels(status),
{
    let r = match status {
        OrderStatus::Draft => vec![("en", "Draft"), ("ua", "Чернетка")],
        OrderStatus::Confirmed => vec![("en", "Confirmed"), ("ua", "Підтверджено")],
        OrderStatus::InProduction => vec![("en", "In production"), ("ua", "У виробництві")],
        OrderStatus::Completed => vec![("en", "Completed"), ("ua", "Завершено")],
        OrderStatus::Cancelled => vec![("en", "Cancelled"), ("ua", "Скасовано")],
    };
    assert(labels_view(r@) =~= order_labels(status));
    r
}

/// The codes of `targets`, in order.
fn order_codes(targets: Vec<OrderStatus>) -> (r: Vec<u8>)
    ensures
        r@ == codes_of_orders(targets@),
{
    let mut out: Vec<u8> = Vec::new();
    let mut i: usize = 0;
    while i < targets.len()
        invariant
            i <= targets.len(),
            out@ == codes_of_orders(targets@.take(i as int)),
        decreases targets.len() - i,
    {
        out.push(targets[i].code());
        i += 1;
        assert(codes_of_orders(targets@.take(i as int)) =~= codes_of_orders(targets@.take(i - 1)).push(
            targets@[i - 1].spec_code(),
        ));
    }
    assert(targets@.take(targets.len() as int) =~= targets@);
    out
}

/// The dictionary entry of one order status.
pub open spec fn order_item_of(status: OrderStatus, item: OrderStatusDictionaryItem) -> bool {
    &&& item.id == status.spec_code()
    &&& item.sort == status.spec_code()
    &&& item.key@ == crate::domain::order::order_status_key(status)
    &&& item.color@ == order_color(status)
    &&& item.invoiceable == spec_can_invoice(status)
    &&& item.allowed_targets@ == codes_of_orders(order_targets(status))
    &&& labels_view(item.labels@) == order_labels(status)
}

fn order_item(status: OrderStatus) -> (r: OrderStatusDictionaryItem)
    ensures
        order_item_of(status, r),
{
    OrderStatusDictionaryItem {
        id: status.code(),
        key: status.key(),
        sort: status.code(),
        color: color(status),
        invoiceable: can_invoice(status),
        allowed_targets: order_codes(allowed_targets(status)),
        labels: labels(status),
    }
}

/// Every order status in code order, with its dictionary entry.
pub fn order_statuses() -> (r: OrderStatusDictionaryResponse)
    ensures
        r.items@.len() == all_order_statuses().len(),
        forall|i: int|
            0 <= i < r.items@.len() ==> order_item_of(all_order_statuses()[i], #[trigger] r.items@[i]),
{
    let items = vec![
        order_item(OrderStatus::Draft),
        order_item(OrderStatus::Confirmed),
        order_item(OrderStatus::InProduction),
        order_item(OrderStatus::Completed),
        order_item(OrderStatus::Cancelled),
    ];
    OrderStatusDictionaryResponse { items }
}

#[derive(Debug, Clone, PartialEq)]
pub struct CustomerStatusDictionaryItem {
    pub id: u8,
    pub key: &'static str,
    pub sort: u8,
    pub color: &'static str,
    pub can_order: bool,
    pub allowed_targets: Vec<u8>,
    pub labels: Labels,
}

#[derive(Debug, Clone, PartialEq)]
pub struct CustomerStatusDictionaryResponse {
    pub items: Vec<CustomerStatusDictionaryItem>,
}

/// The statuses a customer may move to from `status`, in listed order.
pub fn customer_allowed_targets(status: CustomerStatus) -> (r: Vec<CustomerStatus>)
    ensures
        r@ == customer_targets(status),
{
    match status {
        CustomerStatus::Lead => vec![CustomerStatus::Active],
        CustomerStatus::Active => vec![CustomerStatus::Inactive, CustomerStatus::Blocked],
        CustomerStatus::Inactive => vec![CustomerStatus::Active, CustomerStatus::Blocked],
        CustomerStatus::Blocked => vec![CustomerStatus::Active],
    }
}

pub fn customer_color(status: CustomerStatus) -> (r: &'static str)
    ensures
        r@ == customer_color_of(status),
{
    match status {
        CustomerStatus::Lead => "gray",
        CustomerStatus::Active => "green",
        CustomerStatus::Inactive => "yellow",
        CustomerStatus::Blocked => "red",
    }
}

/// English and Ukrainian labels, matching the frontend's translations.
pub fn customer_labels(status: CustomerStatus) -> (r: Labels)
    ensures
        labels_view(r@) == customer_labels_of(status),
{
    let r = match status {
        CustomerStatus::Lead => vec![("en", "Lead"), ("ua", "Лід")],
        CustomerStatus::Active => vec![("en", "Active"), ("ua", "Активний")],
        CustomerStatus::Inactive => vec![("en", "Inactive"), ("ua", "Неактивний")],
        CustomerStatus::Blocked => vec![("en", "Blocked"), ("ua", "Заблокований")],
    };
    assert(labels_view(r@) =~= customer_labels_of(status));
    r
}

fn customer_codes(targets: Vec<CustomerStatus>) -> (r: Vec<u8>)
    ensures
        r@ == codes_of_customers(targets@),
{
    let mut out: Vec<u8> = Vec::new();
    let mut i: usize = 0;
    while i < targets.len()
        invariant
            i <= targets.len(),
            out@ == codes_of_customers(targets@.take(i as int)),
        decreases targets.len() - i,
    {
        out.push(targets[i].code());
        i += 1;
        assert(codes_of_customers(targets@.take(i as int)) =~= codes_of_customers(
            targets@.take(i - 1),
        ).push(targets@[i - 1].spec_code()));
    }
    assert(targets@.take(targets.len() as int) =~= targets@);
    out
}

/// The dictionary entry of one customer status.
pub open spec fn customer_item_of(status: CustomerStatus, item: CustomerStatusDictionaryItem) -> bool {
    &&& item.id == status.spec_code()
    &&& item.sort == status.spec_code()
    &&& item.key@ == crate::domain::customer::customer_status_key(status)
    &&& item.color@ == customer_color_of(status)
    &&& item.can_order == spec_can_order(status)
    &&& item.allowed_targets@ == codes_of_customers(customer_targets(status))
    &&& labels_view(item.labels@) == customer_labels_of(status)
}

fn customer_item(status: CustomerStatus) -> (r: CustomerStatusDictionaryItem)
    ensures
        customer_item_of(status, r),
{
    CustomerStatusDictionaryItem {
        id: status.code(),
        key: status.key(),
        sort: status.code(),
        color: customer_color(status),
        can_order: can_order(status),
        allowed_targets: customer_codes(customer_allowed_targets(status)),
        labels: customer_labels(status),
    }
}

/// Every customer status in code order, with its dictionary entry.
pub fn customer_statuses() -> (r: CustomerStatusDictionaryResponse)
    ensures
        r.items@.len() == all_customer_statuses().len(),
        forall|i: int|
            0 <= i < r.items@.len() ==> customer_item_of(
                all_customer_statuses()[i],
                #[trigger] r.items@[i],
            ),
{
    let items = vec![
        customer_item(CustomerStatus::Lead),
        customer_item(CustomerStatus::Active),
        customer_item(CustomerStatus::Inactive),
        customer_item(CustomerStatus::Blocked),
    ];
    CustomerStatusDictionaryResponse { items }
}

/// The order dictionary offers cancellation exactly for draft and
/// confirmed orders, and a confirmed order's next steps are production and
/// cancellation.
pub proof fn lemma_order_dictionary_cancellation(status: OrderStatus)
    ensures
        order_targets(status).contains(OrderStatus::Cancelled) <==> (status == OrderStatus::Draft || status
            == OrderStatus::Confirmed),
        order_targets(OrderStatus::Confirmed).contains(OrderStatus::Cancelled),
        order_targets(OrderStatus::Confirmed).contains(OrderStatus::InProduction),
{
    lemma_order_targets_are_transitions(status, OrderStatus::Cancelled);
    lemma_order_targets_are_transitions(OrderStatus::Confirmed, OrderStatus::Cancelled);
    lemma_order_targets_are_transitions(OrderStatus::Confirmed, OrderStatus::InProduction);
    crate::domain::order::lemma_order_cancellation(status, OrderStatus::Cancelled);
}

/// The order dictionary lists exactly the moves the order lifecycle allows.
pub proof fn lemma_order_targets_are_transitions(current: OrderStatus, target: OrderStatus)
    ensures
        order_targets(current).contains(target) <==> order_transition_allowed(current, target),
{
    if order_transition_allowed(current, target) {
        match current {
            OrderStatus::Draft => {
                if target == OrderStatus::Confirmed {
                    assert(order_targets(current)[0] == target);
                } else {
                    assert(order_targets(current)[1] == target);
                }
            },
            OrderStatus::Confirmed => {
                if target == OrderStatus::InProduction {
                    assert(order_targets(current)[0] == target);
                } else {
                    assert(order_targets(current)[1] == target);
                }
            },
            OrderStatus::InProduction => {
                assert(order_targets(current)[0] == target);
            },
            _ => {},
        }
    }
}

/// The customer dictionary lists exactly the moves the customer lifecycle
/// allows.
pub proof fn lemma_customer_targets_are_transitions(current: CustomerStatus, target: CustomerStatus)
    ensures
        customer_targets(current).contains(target) <==> customer_transition_allowed(current, target),
{
    if customer_transition_allowed(current, target) {
        match current {
            CustomerStatus::Lead => {
                assert(customer_targets(current)[0] == target);
            },
            CustomerStatus::Active => {
                if target == CustomerStatus::Inactive {
                    assert(customer_targets(current)[0] == target);
                } else {
                    assert(customer_targets(current)[1] == target);
                }
            },
            CustomerStatus::Inactive => {
                if target == CustomerStatus::Active {
                    assert(customer_targets(current)[0] == target);
                } else {
                    assert(customer_targets(current)[1] == target);
                }
            },
            CustomerStatus::Blocked => {
                assert(customer_targets(current)[0] == target);
            },
        }
    }
}

} // verus!
