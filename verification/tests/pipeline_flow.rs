use cosmrs::tx::Msg;

use mempools_alerts::alert_store::{AlertStore, CreateAlertRequest};
use mempools_alerts::events::{AlertSourceCosmosMsg, AnyMsg, CosmosChainData, ProcessAlertSourceRequeust};
use mempools_alerts::model::{
    AlertCosmosMonitorFunds, AlertNotificationData, AlertSource, AlertStatus, BackendUserAlert,
    ChainAlert, ResponseTime, StoreError, UserAlert,
};
use mempools_alerts::notification_store::{JwtRow, JwtStore, NotificationStore};
use mempools_alerts::pipeline::{
    process_alert_source, record_dispatch_outcomes, resolve_endpoint, DispatchOutcome,
};

fn bech32_addr(seed: u8) -> String {
    cosmrs::AccountId::new("arch", &[seed; 20]).unwrap().to_string()
}

fn bank_send_event(from: &str, to: &str, chain_id: &str, tx_hash: &str) -> ProcessAlertSourceRequeust {
    let msg = cosmrs::bank::MsgSend {
        from_address: from.parse().unwrap(),
        to_address: to.parse().unwrap(),
        amount: vec![cosmrs::Coin { denom: "uarch".parse().unwrap(), amount: 100 }],
    };
    let any = msg.to_any().unwrap();
    ProcessAlertSourceRequeust::CosmosMsg(Box::new(AlertSourceCosmosMsg {
        chain_id: chain_id.to_string(),
        chain_data: CosmosChainData { bech32_prefix: "arch".to_string() },
        msg_log: None,
        msg_index: 0,
        msg: AnyMsg { type_url: any.type_url, value: any.value },
        tx_hash: tx_hash.to_string(),
    }))
}

fn monitor_request(user: &str, chain: &str, addr: &str) -> CreateAlertRequest {
    CreateAlertRequest {
        user_id: user.to_string(),
        chain_id: chain.to_string(),
        alert: ChainAlert::CosmosMonitorFunds(AlertCosmosMonitorFunds {
            address: addr.to_string(),
        }),
        message: "watch".to_string(),
        name: "rule".to_string(),
    }
}

#[test]
fn fan_out_plans_one_dispatch_per_matching_rule() {
    let mut alerts = AlertStore::new();
    let watched = bech32_addr(0xaa);
    let other = bech32_addr(0xbb);
    let id1 = alerts.create_alert(monitor_request("u1", "1", &watched), "c1".to_string(), 1).unwrap();
    // A rule on another chain, a rule with an unrelated address, and a wildcard.
    alerts.create_alert(monitor_request("u1", "2", &watched), "c1".to_string(), 2).unwrap();
    alerts.create_alert(monitor_request("u1", "1", &bech32_addr(0xcc)), "c1".to_string(), 3).unwrap();
    let id4 = alerts.create_alert(monitor_request("u2", "1", ""), "c2".to_string(), 4).unwrap();

    let event = bank_send_event(&watched, &other, "1", "H1");
    let plans = process_alert_source(&alerts, &event).unwrap();
    assert_eq!(plans.len(), 2);
    assert_eq!(plans[0].alert_id, id1);
    assert_eq!(plans[0].user_id, "u1");
    assert_eq!(plans[0].client_id, "c1");
    assert_eq!(plans[0].alert_source_id, "H1");
    assert_eq!(plans[1].alert_id, id4);
    match &plans[0].notification {
        AlertNotificationData::MonitorFundsCoin(c) => {
            assert_eq!(c.from, watched);
            assert_eq!(c.monitored_address, watched);
        }
        otherwise => panic!("unexpected payload: {:?}", otherwise),
    }
}

#[test]
fn fan_out_rejects_nonnumeric_chain_id() {
    let alerts = AlertStore::new();
    let event = bank_send_event(&bech32_addr(1), &bech32_addr(2), "one", "H1");
    assert_eq!(process_alert_source(&alerts, &event).unwrap_err(), StoreError::InvalidInput);
}

#[test]
fn disabled_rules_never_dispatch() {
    let mut alerts = AlertStore::new();
    let watched = bech32_addr(0xaa);
    let id = alerts.create_alert(monitor_request("u1", "1", &watched), "c1".to_string(), 1).unwrap();
    let row = alerts.get_alert_by_id(id).unwrap();
    let disable = BackendUserAlert {
        user_alert: UserAlert {
            id,
            user_id: row.user_id.clone(),
            alert: row.alert.clone(),
            message: row.message.clone(),
            status: AlertStatus::Disabled,
            chain_id: row.chain_id,
            alert_source: AlertSource::CosmosMsg,
            name: row.name.clone(),
            created_at: row.created_at,
        },
        client_id: row.client_id.clone(),
    };
    alerts.update_alert(&disable, 50).unwrap();

    let event = bank_send_event(&watched, &bech32_addr(0xbb), "1", "H1");
    let plans = process_alert_source(&alerts, &event).unwrap();
    assert_eq!(plans.len(), 0);

    let mut notifications = NotificationStore::new();
    let count = record_dispatch_outcomes(&mut notifications, plans, &Vec::new(), 60);
    assert_eq!(count, 0);
    assert_eq!(notifications.rows.len(), 0);
}

#[test]
fn fan_out_pages_past_twenty_rules() {
    let mut alerts = AlertStore::new();
    let watched = bech32_addr(0xaa);
    for i in 0..45u64 {
        alerts.create_alert(monitor_request("u1", "1", ""), "c1".to_string(), i).unwrap();
    }
    let event = bank_send_event(&watched, &bech32_addr(0xbb), "1", "H1");
    let plans = process_alert_source(&alerts, &event).unwrap();
    assert_eq!(plans.len(), 45);
}

#[test]
fn transport_failure_leaves_the_other_rows_persisted() {
    let mut alerts = AlertStore::new();
    let watched = bech32_addr(0xaa);
    let id1 = alerts.create_alert(monitor_request("u1", "1", ""), "c1".to_string(), 1).unwrap();
    let id2 = alerts.create_alert(monitor_request("u2", "1", ""), "c2".to_string(), 2).unwrap();
    let id3 = alerts.create_alert(monitor_request("u3", "1", ""), "c3".to_string(), 3).unwrap();

    let event = bank_send_event(&watched, &bech32_addr(0xbb), "1", "H9");
    let plans = process_alert_source(&alerts, &event).unwrap();
    assert_eq!(plans.len(), 3);
    assert_eq!(plans[0].alert_id, id1);

    let rt = ResponseTime { total_response_time: 2_000_000, num_responses: 1 };
    let outcomes = vec![
        DispatchOutcome::Delivered(rt),
        DispatchOutcome::TransportError,
        DispatchOutcome::Delivered(rt),
    ];
    let mut notifications = NotificationStore::new();
    let count = record_dispatch_outcomes(&mut notifications, plans, &outcomes, 99);
    assert_eq!(count, 2);
    assert_eq!(notifications.rows.len(), 2);
    assert_eq!(notifications.rows[0].alert_id, id1);
    assert_eq!(notifications.rows[1].alert_id, id3);
    assert_eq!(notifications.rows[0].alert_source_id, "H9");
    assert_eq!(notifications.rows[0].total_response_time, 2_000_000);
    assert_eq!(notifications.rows[0].num_responses, 1);
    assert_eq!(notifications.rows[0].created_at, 99);
    assert!(!notifications.rows.iter().any(|r| r.alert_id == id2));
}

#[test]
fn broadcast_event_reaches_broadcast_rules() {
    let mut alerts = AlertStore::new();
    let req = CreateAlertRequest {
        user_id: "u1".to_string(),
        chain_id: "3".to_string(),
        alert: ChainAlert::ArchwayBroadcast,
        message: String::new(),
        name: "broadcast".to_string(),
    };
    let id = alerts.create_alert(req, "c1".to_string(), 1).unwrap();
    let event = ProcessAlertSourceRequeust::ArchwaysBroadcast {
        chain_id: "3".to_string(),
        message: "chain upgrade at noon".to_string(),
        client_id: "c1".to_string(),
    };
    let plans = process_alert_source(&alerts, &event).unwrap();
    assert_eq!(plans.len(), 1);
    assert_eq!(plans[0].alert_id, id);
    assert_eq!(plans[0].alert_source_id, "");
    match &plans[0].notification {
        AlertNotificationData::ArchwayBroadcast(b) => {
            assert_eq!(b.message, "chain upgrade at noon");
        }
        other => panic!("unexpected payload: {:?}", other),
    }
}

#[test]
fn endpoint_resolution_follows_the_rule_owner() {
    let mut alerts = AlertStore::new();
    let id = alerts.create_alert(monitor_request("u1", "1", ""), "c9".to_string(), 1).unwrap();
    let mut jwts = JwtStore::new();
    jwts.insert(JwtRow {
        jwt: "tok".to_string(),
        client_id: "c9".to_string(),
        name: "tenant".to_string(),
        webhook_endpoint: "https://nine.example/hook".to_string(),
        valid: true,
    });
    assert_eq!(resolve_endpoint(&alerts, &jwts, id).unwrap(), "https://nine.example/hook");
    assert_eq!(resolve_endpoint(&alerts, &jwts, id + 1).unwrap_err(), StoreError::NotFound);
    alerts.delete_alert(id, 2).unwrap();
    assert_eq!(resolve_endpoint(&alerts, &jwts, id).unwrap_err(), StoreError::NotFound);
}
