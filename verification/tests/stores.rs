use mempools_alerts::alert_store::{AlertStore, CreateAlertRequest, PAGE_SIZE};
use mempools_alerts::model::{
    AlertCosmosMonitorFunds, AlertFilter, AlertNotification, AlertNotificationData, AlertSource,
    AlertStatus, ArchwayBroadcastNotificationData, BackendUserAlert, ChainAlert,
    NotificationFilter, ResponseTime, StoreError, TimeRange, UserAlert,
};
use mempools_alerts::notification_store::{JwtRow, JwtStore, NotificationStore, DAY_NS};

fn monitor_rule(addr: &str) -> ChainAlert {
    ChainAlert::CosmosMonitorFunds(AlertCosmosMonitorFunds { address: addr.to_string() })
}

fn create_request(user: &str, chain: &str, addr: &str) -> CreateAlertRequest {
    CreateAlertRequest {
        user_id: user.to_string(),
        chain_id: chain.to_string(),
        alert: monitor_rule(addr),
        message: "watch".to_string(),
        name: "rule".to_string(),
    }
}

fn payload(msg: &str) -> AlertNotificationData {
    AlertNotificationData::ArchwayBroadcast(ArchwayBroadcastNotificationData {
        message: msg.to_string(),
    })
}

#[test]
fn create_sets_source_tag_and_defaults() {
    let mut store = AlertStore::new();
    let id = store.create_alert(create_request("u1", "7", "arch1x"), "c1".to_string(), 1000).unwrap();
    assert_eq!(id, 1);
    let row = store.get_alert_by_id(id).unwrap();
    assert_eq!(row.chain_id, 7);
    assert_eq!(row.alert_source, AlertSource::CosmosMsg);
    assert_eq!(row.status, AlertStatus::Enabled);
    assert_eq!(row.created_at, 1000);
    assert_eq!(row.client_id, "c1");
}

#[test]
fn create_rejects_bad_chain_id() {
    let mut store = AlertStore::new();
    let got = store.create_alert(create_request("u1", "seven", "a"), "c1".to_string(), 1000);
    assert_eq!(got.unwrap_err(), StoreError::InvalidInput);
    assert_eq!(store.rows.len(), 0);
}

#[test]
fn soft_delete_hides_the_row_from_every_read() {
    let mut store = AlertStore::new();
    let id = store.create_alert(create_request("u1", "7", "a"), "c1".to_string(), 1000).unwrap();
    let id2 = store.create_alert(create_request("u1", "7", "b"), "c1".to_string(), 1001).unwrap();
    store.delete_alert(id, 2000).unwrap();

    assert!(store.get_alert_by_id(id).is_err());
    let all = store.get_alerts(&AlertFilter::any(), None);
    assert_eq!(all.len(), 1);
    assert_eq!(all[0].id, id2);
    for page in [Some(0u64), Some(1), None] {
        for row in store.get_alerts(&AlertFilter::any(), page) {
            assert_ne!(row.id, id);
        }
    }
}

#[test]
fn update_changes_only_message_status_name() {
    let mut store = AlertStore::new();
    let id = store.create_alert(create_request("u1", "7", "a"), "c1".to_string(), 1000).unwrap();
    let req = BackendUserAlert {
        user_alert: UserAlert {
            id,
            user_id: "ignored".to_string(),
            alert: monitor_rule("ignored"),
            message: "new message".to_string(),
            status: AlertStatus::Disabled,
            chain_id: 9,
            alert_source: AlertSource::EthTx,
            name: "new name".to_string(),
            created_at: 0,
        },
        client_id: "ignored".to_string(),
    };
    store.update_alert(&req, 5000).unwrap();
    let all = store.get_alerts(&AlertFilter::any(), None);
    assert_eq!(all.len(), 1);
    let row = all[0];
    assert_eq!(row.message, "new message");
    assert_eq!(row.status, AlertStatus::Disabled);
    assert_eq!(row.name, "new name");
    assert_eq!(row.updated_at, 5000);
    assert_eq!(row.chain_id, 7);
    assert_eq!(row.user_id, "u1");
    assert_eq!(row.client_id, "c1");
}

#[test]
fn pagination_is_twenty_per_page_until_empty() {
    let mut store = AlertStore::new();
    for i in 0..25u64 {
        store
            .create_alert(create_request("u1", "7", "a"), "c1".to_string(), 1000 + i)
            .unwrap();
    }
    assert_eq!(PAGE_SIZE, 20);
    let page0 = store.get_alerts(&AlertFilter::any(), Some(0));
    let page1 = store.get_alerts(&AlertFilter::any(), Some(1));
    let page2 = store.get_alerts(&AlertFilter::any(), Some(2));
    assert_eq!(page0.len(), 20);
    assert_eq!(page1.len(), 5);
    assert_eq!(page2.len(), 0);
    assert_eq!(page0[0].id, 1);
    assert_eq!(page1[0].id, 21);
}

#[test]
fn filters_restrict_reads() {
    let mut store = AlertStore::new();
    store.create_alert(create_request("u1", "7", "a"), "c1".to_string(), 1).unwrap();
    store.create_alert(create_request("u2", "7", "b"), "c1".to_string(), 2).unwrap();
    store.create_alert(create_request("u1", "8", "c"), "c1".to_string(), 3).unwrap();

    let mut f = AlertFilter::any();
    f.user_id = Some("u1".to_string());
    assert_eq!(store.get_alerts(&f, None).len(), 2);
    f.chain_id = Some(8);
    assert_eq!(store.get_alerts(&f, None).len(), 1);
    let mut f2 = AlertFilter::any();
    f2.alert_source = Some(AlertSource::EthTx);
    assert_eq!(store.get_alerts(&f2, None).len(), 0);
}

#[test]
fn notification_create_parses_rule_id() {
    let mut store = NotificationStore::new();
    let rt = ResponseTime { total_response_time: 1_000_000, num_responses: 1 };
    let ok = store.create_notification(
        AlertNotification {
            notification: payload("m"),
            alert_id: "12".to_string(),
            alert_source_id: "H".to_string(),
        },
        rt,
        500,
    );
    assert_eq!(ok.unwrap(), 1);
    assert_eq!(store.rows[0].alert_id, 12);

    let bad = store.create_notification(
        AlertNotification {
            notification: payload("m"),
            alert_id: "twelve".to_string(),
            alert_source_id: "H".to_string(),
        },
        rt,
        500,
    );
    assert_eq!(bad.unwrap_err(), StoreError::InvalidInput);
}

#[test]
fn notification_reads_are_scoped_to_the_owner() {
    let mut alerts = AlertStore::new();
    let mine = alerts.create_alert(create_request("u1", "7", "a"), "c1".to_string(), 1).unwrap();
    let theirs = alerts.create_alert(create_request("u2", "7", "b"), "c1".to_string(), 2).unwrap();

    let mut store = NotificationStore::new();
    let rt = ResponseTime { total_response_time: 1, num_responses: 1 };
    store.insert_notification(payload("mine"), mine, "H1".to_string(), rt, 100);
    store.insert_notification(payload("theirs"), theirs, "H2".to_string(), rt, 200);

    let f = NotificationFilter {
        user_id: "u1".to_string(),
        id: None,
        alert_id: None,
        time: None,
    };
    let got = store.get_notifications(&alerts, &f, None, 1_000);
    assert_eq!(got.len(), 1);
    assert_eq!(got[0].alert_id, mine);
}

#[test]
fn notification_time_range_defaults_to_now() {
    let mut alerts = AlertStore::new();
    let id = alerts.create_alert(create_request("u1", "7", "a"), "c1".to_string(), 1).unwrap();
    let mut store = NotificationStore::new();
    let rt = ResponseTime { total_response_time: 1, num_responses: 1 };
    store.insert_notification(payload("early"), id, "H1".to_string(), rt, 100);
    store.insert_notification(payload("late"), id, "H2".to_string(), rt, 900);

    let f = NotificationFilter {
        user_id: "u1".to_string(),
        id: None,
        alert_id: Some(id),
        time: Some(TimeRange { start: Some(150), end: None }),
    };
    let got = store.get_notifications(&alerts, &f, Some(0), 500);
    assert_eq!(got.len(), 0);
    let got = store.get_notifications(&alerts, &f, Some(0), 950);
    assert_eq!(got.len(), 1);
    assert_eq!(got[0].created_at, 900);
}

#[test]
fn statistics_window_counts_and_average() {
    let mut alerts = AlertStore::new();
    let id = alerts.create_alert(create_request("u1", "7", "a"), "c1".to_string(), 1).unwrap();
    let mut store = NotificationStore::new();
    let now = 10 * DAY_NS;
    let recent = now - DAY_NS / 2;
    let old = now - 2 * DAY_NS;

    // Three notifications in the last day: (1.0 s, 1), (2.0 s, 1), (3.0 s, 2).
    let pairs = [(1_000_000u64, 1u64), (2_000_000, 1), (3_000_000, 2)];
    for (trt, nr) in pairs {
        let rt = ResponseTime { total_response_time: trt, num_responses: nr };
        store.insert_notification(payload("recent"), id, "H".to_string(), rt, recent);
    }
    // Five older ones.
    for _ in 0..5 {
        let rt = ResponseTime { total_response_time: 9_000_000, num_responses: 1 };
        store.insert_notification(payload("old"), id, "H".to_string(), rt, old);
    }

    let st = store.get_statistics(&alerts, None, Some(&"u1".to_string()), now).unwrap();
    assert_eq!(st.total_alerts, 8);
    assert_eq!(st.total_alerts_today, 3);
    // (1.0 + 2.0 + 3.0) / (1 + 1 + 2) seconds = 1.5 s, in microseconds.
    assert_eq!(st.avg_response_time, 1_500_000);
}

#[test]
fn statistics_of_an_empty_store_are_zero() {
    let alerts = AlertStore::new();
    let store = NotificationStore::new();
    let st = store.get_statistics(&alerts, None, None, DAY_NS).unwrap();
    assert_eq!(st.total_alerts, 0);
    assert_eq!(st.total_alerts_today, 0);
    assert_eq!(st.avg_response_time, 0);
}

#[test]
fn statistics_filter_by_alert_id() {
    let mut alerts = AlertStore::new();
    let a = alerts.create_alert(create_request("u1", "7", "a"), "c1".to_string(), 1).unwrap();
    let b = alerts.create_alert(create_request("u1", "7", "b"), "c1".to_string(), 2).unwrap();
    let mut store = NotificationStore::new();
    let now = 10 * DAY_NS;
    let rt = ResponseTime { total_response_time: 1, num_responses: 1 };
    store.insert_notification(payload("a"), a, "H".to_string(), rt, now - 1);
    store.insert_notification(payload("b"), b, "H".to_string(), rt, now - 1);
    let st = store.get_statistics(&alerts, Some(a), None, now).unwrap();
    assert_eq!(st.total_alerts, 1);
}

#[test]
fn webhook_endpoint_lookup_and_validity() {
    let mut jwts = JwtStore::new();
    jwts.insert(JwtRow {
        jwt: "tok1".to_string(),
        client_id: "c1".to_string(),
        name: "tenant one".to_string(),
        webhook_endpoint: "https://one.example/hook".to_string(),
        valid: true,
    });
    jwts.insert(JwtRow {
        jwt: "tok2".to_string(),
        client_id: "c2".to_string(),
        name: "tenant two".to_string(),
        webhook_endpoint: "https://two.example/hook".to_string(),
        valid: true,
    });

    assert_eq!(jwts.get_endpoint(&"c2".to_string()).unwrap(), "https://two.example/hook");
    assert_eq!(jwts.get_endpoint(&"c3".to_string()).unwrap_err(), StoreError::NotFound);

    assert!(jwts.is_token_valid(&"tok1".to_string()));
    jwts.set_jwt_status(&"tok1".to_string(), false).unwrap();
    assert!(!jwts.is_token_valid(&"tok1".to_string()));
    assert_eq!(
        jwts.set_jwt_status(&"missing".to_string(), true).unwrap_err(),
        StoreError::NotFound
    );
}

#[test]
fn stored_rows_carry_the_hex_encoded_body() {
    let mut store = AlertStore::new();
    let id = store.create_alert(create_request("u1", "7", "arch1x"), "c1".to_string(), 1).unwrap();
    let row = store.get_alert_by_id(id).unwrap();
    let bytes = mempools_alerts::codec::encode_alert(&row.alert);
    assert_eq!(row.alert_enc, mempools_alerts::strings::hex_string(&bytes));
    assert!(row.alert_enc.chars().all(|c| c.is_ascii_hexdigit()));
}
