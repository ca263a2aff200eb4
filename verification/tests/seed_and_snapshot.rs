use polymix::api::price_model::{
    after_load, catalog_churn_error, SnapshotCache, SnapshotStep, MAX_LOAD_ATTEMPTS, SNAPSHOT_CAPACITY,
};
use polymix::api::routes::quotes::line_id_or_new;
use polymix::domain::customer::{CustomerKind, CustomerStatus};
use polymix::domain::error::DomainError;
use polymix::seed::{
    batch_sizes, customer_kind_weights, customer_status_weights, order_eligible, payment_terms_options,
    plan_orders, random_digits, seed_contacts, seed_tags, seeded_ids, tag_pool_en, tag_pool_ua,
    weighted_pick, DrawnContact, SeedError, SeededCustomer, BATCH_SIZE,
};
use polymix::api::error::STATUS_BAD_REQUEST;
use polymix::api::routes::customers::if_match_version;
use polymix::text::{parse_i64, zero_padded_string};

#[test]
fn weighted_pick_walks_the_bands_in_order() {
    let weights = [('a', 60), ('b', 35), ('c', 5)];
    assert_eq!(weighted_pick(&weights, 0), 'a');
    assert_eq!(weighted_pick(&weights, 59), 'a');
    assert_eq!(weighted_pick(&weights, 60), 'b');
    assert_eq!(weighted_pick(&weights, 94), 'b');
    assert_eq!(weighted_pick(&weights, 95), 'c');
    assert_eq!(weighted_pick(&weights, 99), 'c');
    assert_eq!(weighted_pick(&[('x', 0), ('y', 1)], 0), 'y');
}

fn customer(id: &str, status: CustomerStatus) -> SeededCustomer {
    SeededCustomer { id: id.to_string(), status }
}

#[test]
fn only_leads_and_active_customers_receive_orders() {
    let cs = vec![
        customer("a", CustomerStatus::Active),
        customer("b", CustomerStatus::Blocked),
        customer("c", CustomerStatus::Lead),
        customer("d", CustomerStatus::Inactive),
    ];
    assert_eq!(order_eligible(&cs), vec!["a".to_string(), "c".to_string()]);
}

#[test]
fn orders_are_numbered_after_the_counter_and_first_orders_promote_leads() {
    let cs = vec![
        customer("a", CustomerStatus::Active),
        customer("l1", CustomerStatus::Lead),
        customer("l2", CustomerStatus::Lead),
    ];
    let (orders, promoted) = plan_orders(&cs, 41, &[1, 0, 1, 2, 2]).unwrap();
    let numbers: Vec<&str> = orders.iter().map(|o| o.number.as_str()).collect();
    assert_eq!(numbers, vec!["000042", "000043", "000044", "000045", "000046"]);
    let customers: Vec<&str> = orders.iter().map(|o| o.customer_id.as_str()).collect();
    assert_eq!(customers, vec!["l1", "a", "l1", "l2", "l2"]);
    assert_eq!(promoted, vec!["l1".to_string(), "l2".to_string()]);
}

#[test]
fn planning_needs_an_eligible_customer() {
    let cs = vec![customer("b", CustomerStatus::Blocked)];
    let err = plan_orders(&cs, 0, &[]).unwrap_err();
    assert_eq!(err, SeedError::NoEligibleCustomers);
    assert_eq!(err.message(), "no order-eligible customers (need at least one lead or active)");
}

#[test]
fn order_numbers_pad_to_six_digits_without_truncating() {
    assert_eq!(zero_padded_string(7, 6), "000007");
    assert_eq!(zero_padded_string(1234567, 6), "1234567");
    assert_eq!(zero_padded_string(0, 0), "0");
}

#[test]
fn snapshot_is_cached_only_when_the_version_held_still() {
    assert_eq!(after_load(0, 7, 7), SnapshotStep::Cache(7));
    assert_eq!(after_load(0, 7, 8), SnapshotStep::Retry);
    assert_eq!(after_load(MAX_LOAD_ATTEMPTS - 1, 7, 8), SnapshotStep::GiveUp);
    match catalog_churn_error() {
        DomainError::Store(m) => assert_eq!(m, "pricing catalog changed faster than the snapshot could be built"),
        _ => panic!("expected a store error"),
    }
}

#[test]
fn fresh_line_ids_are_ulids() {
    let id = line_id_or_new(None);
    assert_eq!(id.len(), 26);
    assert!(id.chars().all(|c| c.is_ascii_digit() || (c.is_ascii_uppercase() && !"ILOU".contains(c))));
}

#[test]
fn if_match_carries_an_integer_version() {
    assert_eq!(if_match_version(None).unwrap(), None);
    assert_eq!(if_match_version(Some(Some("7"))).unwrap(), Some(7));
    assert_eq!(if_match_version(Some(Some("\"12\""))).unwrap(), Some(12));
    assert_eq!(if_match_version(Some(Some("-3"))).unwrap(), Some(-3));
    assert_eq!(if_match_version(Some(Some("+3"))).unwrap(), Some(3));
    let err = if_match_version(Some(Some("W/\"1\""))).unwrap_err();
    assert_eq!(err.status, STATUS_BAD_REQUEST);
    assert_eq!(err.code, "invalid_if_match");
    assert!(if_match_version(Some(None)).is_err());
    assert!(if_match_version(Some(Some(""))).is_err());
    assert!(if_match_version(Some(Some("99999999999999999999"))).is_err());
}

#[test]
fn i64_parsing_matches_std() {
    for s in ["0", "-0", "+5", "9223372036854775807", "-9223372036854775808", "9223372036854775808", "", "-", "+", "1a", " 1", "007"] {
        assert_eq!(parse_i64(s), s.parse::<i64>().ok(), "{s}");
    }
}

#[test]
fn random_digits_writes_one_digit_per_roll() {
    assert_eq!(random_digits(&[0, 4, 9, 1]), "0491");
    assert_eq!(random_digits(&[]), "");
}

#[test]
fn legal_entities_get_an_edrpou_code_and_others_a_tax_id() {
    let edrpou = [1, 2, 3, 4, 5, 6, 7, 8];
    let tax = [9, 8, 7, 6, 5, 4, 3, 2, 1, 0];
    let vat = [1, 1, 1, 1, 2, 2, 2, 2, 3, 3, 3, 3];

    let legal = seeded_ids(CustomerKind::LegalEntity, &edrpou, &tax, Some(&vat));
    assert_eq!(legal.edrpou.as_deref(), Some("12345678"));
    assert_eq!(legal.tax_id, None);
    assert_eq!(legal.vat_ipn.as_deref(), Some("111122223333"));

    for kind in [CustomerKind::Fop, CustomerKind::Individual] {
        let ids = seeded_ids(kind, &edrpou, &tax, None);
        assert_eq!(ids.edrpou, None);
        assert_eq!(ids.tax_id.as_deref(), Some("9876543210"));
        assert_eq!(ids.vat_ipn, None);
    }
}

#[test]
fn seed_tags_are_sorted_and_unique() {
    let pool = ["printing", "regular", "wholesale", "new", "vip"];
    assert_eq!(seed_tags(&pool, &[4, 0, 3]), vec!["new", "printing", "vip"]);
    assert_eq!(seed_tags(&pool, &[1, 1]), vec!["regular"]);
    assert!(seed_tags(&pool, &[]).is_empty());
    let ua = ["поліграфія", "постійний", "опт", "новий", "vip"];
    assert_eq!(seed_tags(&ua, &[0, 4, 2]), vec!["vip", "опт", "поліграфія"]);
}

#[test]
fn the_first_seeded_contact_is_primary() {
    let drawn = |n: &str| DrawnContact {
        name: n.to_string(),
        role: "manager".to_string(),
        email: format!("{n}@example.com"),
        phone: "+380".to_string(),
    };
    let contacts = seed_contacts(vec![drawn("a"), drawn("b"), drawn("c")]);
    assert_eq!(contacts.len(), 3);
    assert!(contacts[0].is_primary);
    assert!(!contacts[1].is_primary && !contacts[2].is_primary);
    assert_eq!(contacts[1].name, "b");
    assert_eq!(contacts[2].email.as_deref(), Some("c@example.com"));
}

#[test]
fn snapshot_cache_serves_a_tenant_at_one_version() {
    let mut cache: SnapshotCache<u32> = SnapshotCache::new();
    assert_eq!(cache.get("t1", 1), None);
    cache.insert("t1".to_string(), 1, 10);
    cache.insert("t2".to_string(), 1, 20);
    assert_eq!(cache.get("t1", 1), Some(&10));
    assert_eq!(cache.get("t1", 2), None);
    assert_eq!(cache.get("t2", 1), Some(&20));
    cache.insert("t1".to_string(), 1, 11);
    assert_eq!(cache.get("t1", 1), Some(&11));
}

#[test]
fn snapshot_cache_keeps_its_capacity() {
    let mut cache: SnapshotCache<usize> = SnapshotCache::new();
    for v in 0..(SNAPSHOT_CAPACITY as i64 + 10) {
        cache.insert("t".to_string(), v, v as usize);
    }
    assert_eq!(cache.get("t", 0), None);
    assert_eq!(cache.get("t", 9), None);
    assert_eq!(cache.get("t", 10), Some(&10));
    let last = SNAPSHOT_CAPACITY as i64 + 9;
    assert_eq!(cache.get("t", last), Some(&(last as usize)));
}

#[test]
fn orders_without_eligible_customers_are_refused_whatever_the_picks() {
    let customers = vec![SeededCustomer { id: "c1".to_string(), status: CustomerStatus::Blocked }];
    assert_eq!(plan_orders(&customers, 0, &[0, 3]).unwrap_err(), SeedError::NoEligibleCustomers);
}

#[test]
fn seeder_tables_and_batches() {
    let kinds = customer_kind_weights();
    assert_eq!(kinds.iter().map(|(_, w)| *w).sum::<u32>(), 100);
    assert_eq!(weighted_pick(&kinds, 59), CustomerKind::LegalEntity);
    assert_eq!(weighted_pick(&kinds, 60), CustomerKind::Fop);
    assert_eq!(weighted_pick(&kinds, 99), CustomerKind::Individual);
    let statuses = customer_status_weights();
    assert_eq!(weighted_pick(&statuses, 75), CustomerStatus::Lead);
    assert_eq!(payment_terms_options(), vec![0, 7, 14, 30]);
    assert_eq!(tag_pool_en().len(), 5);
    assert_eq!(tag_pool_ua()[2], "опт");
    assert_eq!(batch_sizes(2500), vec![BATCH_SIZE, BATCH_SIZE, 500]);
    assert!(batch_sizes(0).is_empty());
    assert_eq!(batch_sizes(1000), vec![1000]);
}
