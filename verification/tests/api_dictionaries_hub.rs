use polymix::api::hub::{
    action_name, entity_name, envelope, session_step, ws_token, HubState, Reconnect, ServerEvent,
    SessionAction, SessionInput, SubscribeAction, UnsubscribeAction, WsQuery,
};
use polymix::api::routes::dictionaries::{
    allowed_targets, color, customer_allowed_targets, customer_statuses, labels, order_statuses,
};
use polymix::api::routes::me::me;
use polymix::api::error::STATUS_UNAUTHORIZED;
use polymix::domain::auth::AuthContext;
use polymix::domain::customer::{can_transition, CustomerStatus};
use polymix::domain::live::{ChangeAction, ChangeEvent, LiveChange};
use polymix::domain::order::{validate_transition, OrderStatus};
use polymix::domain::tenant::Tenant;

#[test]
fn order_dictionary_lists_every_status_in_code_order() {
    let d = order_statuses();
    assert_eq!(d.items.len(), 5);
    let draft = &d.items[0];
    assert_eq!((draft.id, draft.key, draft.sort, draft.color), (0, "draft", 0, "gray"));
    assert!(!draft.invoiceable);
    assert_eq!(draft.allowed_targets, vec![1, 4]);
    assert_eq!(draft.labels, vec![("en", "Draft"), ("ua", "Чернетка")]);
    let in_production = &d.items[2];
    assert_eq!(in_production.key, "in_production");
    assert!(in_production.invoiceable);
    assert_eq!(in_production.allowed_targets, vec![3]);
    assert!(d.items[3].allowed_targets.is_empty());
    assert_eq!(color(OrderStatus::Cancelled), "red");
    assert_eq!(labels(OrderStatus::InProduction)[1], ("ua", "У виробництві"));
}

#[test]
fn order_dictionary_targets_match_the_lifecycle() {
    let all = [
        OrderStatus::Draft,
        OrderStatus::Confirmed,
        OrderStatus::InProduction,
        OrderStatus::Completed,
        OrderStatus::Cancelled,
    ];
    for &from in &all {
        let targets = allowed_targets(from);
        for &to in &all {
            assert_eq!(targets.contains(&to), validate_transition(from, to).is_ok());
        }
    }
}

#[test]
fn customer_dictionary_lists_every_status_and_targets_match_the_lifecycle() {
    let d = customer_statuses();
    assert_eq!(d.items.len(), 4);
    assert_eq!(d.items[0].key, "lead");
    assert!(d.items[0].can_order);
    assert!(!d.items[3].can_order);
    assert_eq!(d.items[2].color, "yellow");
    assert_eq!(d.items[1].allowed_targets, vec![2, 3]);
    assert_eq!(d.items[0].labels, vec![("en", "Lead"), ("ua", "Лід")]);
    let all = [CustomerStatus::Lead, CustomerStatus::Active, CustomerStatus::Inactive, CustomerStatus::Blocked];
    for &from in &all {
        let targets = customer_allowed_targets(from);
        for &to in &all {
            assert_eq!(targets.contains(&to), can_transition(from, to));
        }
    }
}

#[test]
fn spawns_task_on_first_subscriber_only() {
    let mut hub = HubState::new();
    assert_eq!(hub.subscribe("tenant_a"), SubscribeAction::Spawn);
    assert_eq!(hub.subscribe("tenant_a"), SubscribeAction::Joined);
    assert_eq!(hub.subscribe("tenant_b"), SubscribeAction::Spawn);
    assert_eq!(hub.subscribers("tenant_a"), 2);
    assert_eq!(hub.subscribers("tenant_b"), 1);
}

#[test]
fn last_unsubscribe_aborts_task_and_next_subscribe_respawns() {
    let mut hub = HubState::new();
    assert_eq!(hub.subscribe("tenant_a"), SubscribeAction::Spawn);
    assert_eq!(hub.unsubscribe("tenant_a"), UnsubscribeAction::Abort);
    assert!(hub.is_empty());
    assert_eq!(hub.subscribe("tenant_a"), SubscribeAction::Spawn);
    assert_eq!(hub.subscribe("tenant_a"), SubscribeAction::Joined);
    assert_eq!(hub.unsubscribe("tenant_a"), UnsubscribeAction::Left);
    assert_eq!(hub.unsubscribe("tenant_a"), UnsubscribeAction::Abort);
    assert_eq!(hub.unsubscribe("tenant_a"), UnsubscribeAction::Ignored);
    assert!(hub.is_empty());
}

#[test]
fn subscribe_then_unsubscribe_restores_counts() {
    let mut hub = HubState::new();
    hub.subscribe("a");
    hub.subscribe("b");
    hub.subscribe("b");
    hub.subscribe("c");
    hub.unsubscribe("c");
    assert_eq!((hub.subscribers("a"), hub.subscribers("b"), hub.subscribers("c")), (1, 2, 0));
    hub.unsubscribe("a");
    assert_eq!((hub.subscribers("a"), hub.subscribers("b")), (0, 2));
}

#[test]
fn broadcasts_resync_after_reopening_a_failed_stream() {
    let mut r = Reconnect::new();
    r.open_failed();
    assert_eq!(r.next_delay(), 500);
    assert!(r.opened());
}

#[test]
fn broadcasts_resync_when_the_stream_ends() {
    let mut r = Reconnect::new();
    assert!(!r.opened());
    assert_eq!(r.next_delay(), 500);
    assert!(r.opened());
}

#[test]
fn retry_delay_doubles_up_to_the_cap_and_resets_on_open() {
    let mut r = Reconnect::new();
    let delays: Vec<u64> = (0..6).map(|_| r.next_delay()).collect();
    assert_eq!(delays, vec![500, 1000, 2000, 4000, 5000, 5000]);
    r.opened();
    assert_eq!(r.next_delay(), 500);
}

#[test]
fn forwards_changes_to_subscribers() {
    let change = LiveChange::Order(Box::new(ChangeEvent {
        action: ChangeAction::Create,
        id: "01ARZ3NDEKTSV4RRFFQ69G5FAV".to_string(),
        data: None,
    }));
    assert_eq!(entity_name(&change), "order");
    match envelope(entity_name(&change), ChangeAction::Create, "01ARZ3NDEKTSV4RRFFQ69G5FAV".to_string(), None) {
        ServerEvent::Change { entity, action, id, data } => {
            assert_eq!(entity, "order");
            assert_eq!(action, "create");
            assert_eq!(id, "01ARZ3NDEKTSV4RRFFQ69G5FAV");
            assert!(data.is_none());
        },
        other => panic!("expected a change event, got {other:?}"),
    }
    assert_eq!(action_name(ChangeAction::Delete), "delete");
}

#[test]
fn session_reacts_to_each_socket_event() {
    assert_eq!(session_step(SessionInput::Event), SessionAction::SendEvent);
    assert_eq!(session_step(SessionInput::Lagged), SessionAction::SendResync);
    assert_eq!(session_step(SessionInput::PingTick), SessionAction::SendPing);
    assert_eq!(session_step(SessionInput::ClientClose), SessionAction::Stop);
    assert_eq!(session_step(SessionInput::ChannelClosed), SessionAction::Stop);
    assert_eq!(session_step(SessionInput::ClientOther), SessionAction::Ignore);
}

#[test]
fn missing_token_is_rejected_before_upgrade() {
    let err = ws_token(WsQuery { token: None }).unwrap_err();
    assert_eq!(err.status, STATUS_UNAUTHORIZED);
    assert_eq!(err.message, "missing token");
    assert_eq!(ws_token(WsQuery { token: Some("t".to_string()) }).unwrap(), "t");
}

#[test]
fn me_reports_the_identity_and_tenant() {
    let auth = AuthContext { user_id: "u".to_string(), org_id: "o".to_string(), tenant_db: "db".to_string() };
    let tenant = Tenant {
        id: "t".to_string(),
        org_id: "o".to_string(),
        db_name: "db".to_string(),
        name: "Print".to_string(),
        default_language: "uk".to_string(),
        default_currency: "UAH".to_string(),
        order_prefix: String::new(),
        invoice_prefix: String::new(),
        created_at: String::new(),
        updated_at: String::new(),
    };
    let r = me(auth, tenant);
    assert_eq!(r.user_id, "u");
    assert_eq!(r.org_id, "o");
    assert_eq!(r.tenant.name, "Print");
    assert_eq!(r.tenant.default_currency, "UAH");
}
