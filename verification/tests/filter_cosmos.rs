use cosmrs::tx::Msg;

use mempools_alerts::events::{
    AlertSourceCosmosMsg, AlertSourceCosmosTx, AnyMsg, CosmosChainData, EventAttribute, LogEvent,
    MsgLog, ProcessAlertSourceRequeust,
};
use mempools_alerts::model::{
    AlertCosmosMonitorFunds, AlertCosmosSendFunds, AlertCosmosSmartContractEvents,
    AlertCosmosTxOutcome, AlertNotificationData, FilterError, TxOutcomeKind,
};

fn bech32_addr(prefix: &str, seed: u8) -> String {
    cosmrs::AccountId::new(prefix, &[seed; 20]).unwrap().to_string()
}

fn bank_send_any(from: &str, to: &str, amount: u128, denom: &str) -> AnyMsg {
    let msg = cosmrs::bank::MsgSend {
        from_address: from.parse().unwrap(),
        to_address: to.parse().unwrap(),
        amount: vec![cosmrs::Coin { denom: denom.parse().unwrap(), amount }],
    };
    let any = msg.to_any().unwrap();
    AnyMsg { type_url: any.type_url, value: any.value }
}

fn exec_contract_any(sender: &str, contract: &str, json: &[u8]) -> AnyMsg {
    let msg = cosmrs::cosmwasm::MsgExecuteContract {
        sender: sender.parse().unwrap(),
        contract: contract.parse().unwrap(),
        msg: json.to_vec(),
        funds: vec![],
    };
    let any = msg.to_any().unwrap();
    AnyMsg { type_url: any.type_url, value: any.value }
}

fn cosmos_msg_event(msg: AnyMsg, tx_hash: &str, log: Option<MsgLog>) -> ProcessAlertSourceRequeust {
    ProcessAlertSourceRequeust::CosmosMsg(Box::new(AlertSourceCosmosMsg {
        chain_id: "1".to_string(),
        chain_data: CosmosChainData { bech32_prefix: "arch".to_string() },
        msg_log: log,
        msg_index: 0,
        msg,
        tx_hash: tx_hash.to_string(),
    }))
}

#[test]
fn monitor_funds_bank_send_match() {
    let from = bech32_addr("arch", 0xaa);
    let to = bech32_addr("arch", 0xbb);
    let rule = AlertCosmosMonitorFunds { address: from.clone() };
    let event = cosmos_msg_event(bank_send_any(&from, &to, 100, "uarch"), "H1", None);

    let got = rule.filter(&event).unwrap();
    match got {
        AlertNotificationData::MonitorFundsCoin(c) => {
            assert_eq!(c.from, from);
            assert_eq!(c.to, to);
            assert_eq!(c.amount.len(), 1);
            assert_eq!(c.amount[0].amount, "100");
            assert_eq!(c.amount[0].denom, "uarch");
            assert_eq!(c.tx_hash, "H1");
            assert_eq!(c.monitored_address, from);
        }
        other => panic!("unexpected notification: {:?}", other),
    }
}

#[test]
fn monitor_funds_wildcard_matches_any_send() {
    let from = bech32_addr("arch", 0x11);
    let to = bech32_addr("arch", 0x22);
    let rule = AlertCosmosMonitorFunds { address: String::new() };
    let event = cosmos_msg_event(bank_send_any(&from, &to, 5, "uarch"), "H2", None);
    assert!(rule.filter(&event).is_ok());
}

#[test]
fn monitor_funds_unrelated_address_misses() {
    let from = bech32_addr("arch", 0x11);
    let to = bech32_addr("arch", 0x22);
    let other = bech32_addr("arch", 0x33);
    let rule = AlertCosmosMonitorFunds { address: other };
    let event = cosmos_msg_event(bank_send_any(&from, &to, 5, "uarch"), "H3", None);
    assert_eq!(rule.filter(&event).unwrap_err(), FilterError::AddressNotRelated);
}

#[test]
fn monitor_funds_wrong_event_kind() {
    let rule = AlertCosmosMonitorFunds { address: String::new() };
    let event = ProcessAlertSourceRequeust::ArchwaysBroadcast {
        chain_id: "1".to_string(),
        message: "hello".to_string(),
        client_id: "c".to_string(),
    };
    assert_eq!(rule.filter(&event).unwrap_err(), FilterError::WrongEventKind);
}

#[test]
fn monitor_funds_cw20_transfer_match() {
    let sender = bech32_addr("arch", 0x44);
    let contract = bech32_addr("arch", 0x55);
    let recipient = bech32_addr("arch", 0x66);
    let json = format!(
        "{{\"transfer\":{{\"recipient\":\"{}\",\"amount\":\"55\"}}}}",
        recipient
    );
    let rule = AlertCosmosMonitorFunds { address: recipient.clone() };
    let event = cosmos_msg_event(
        exec_contract_any(&sender, &contract, json.as_bytes()),
        "H4",
        None,
    );
    let got = rule.filter(&event).unwrap();
    match got {
        AlertNotificationData::MonitorFundsToken(t) => {
            assert_eq!(t.from, sender);
            assert_eq!(t.to, recipient);
            assert_eq!(t.amount, "55");
            assert_eq!(t.tx_hash, "H4");
            assert_eq!(t.contract_addr, contract);
        }
        other => panic!("unexpected notification: {:?}", other),
    }
}

#[test]
fn monitor_funds_cw20_other_instruction_misses() {
    let sender = bech32_addr("arch", 0x44);
    let contract = bech32_addr("arch", 0x55);
    let json = b"{\"burn\":{\"amount\":\"55\"}}";
    let rule = AlertCosmosMonitorFunds { address: String::new() };
    let event = cosmos_msg_event(exec_contract_any(&sender, &contract, json), "H5", None);
    assert_eq!(rule.filter(&event).unwrap_err(), FilterError::AddressNotRelated);
}

#[test]
fn monitor_funds_cw20_malformed_json_is_decode_failure() {
    let sender = bech32_addr("arch", 0x44);
    let contract = bech32_addr("arch", 0x55);
    let rule = AlertCosmosMonitorFunds { address: String::new() };
    let event = cosmos_msg_event(exec_contract_any(&sender, &contract, b"not json"), "H6", None);
    assert_eq!(rule.filter(&event).unwrap_err(), FilterError::DecodeFailure);
}

#[test]
fn send_funds_strict_miss_on_recipient() {
    let from = bech32_addr("arch", 0xaa);
    let to = bech32_addr("arch", 0xbb);
    let actual_to = bech32_addr("arch", 0xcc);
    let rule = AlertCosmosSendFunds { from: from.clone(), to };
    let event = cosmos_msg_event(bank_send_any(&from, &actual_to, 7, "uarch"), "H7", None);
    assert_eq!(rule.filter(&event).unwrap_err(), FilterError::WrongToAddress);
}

#[test]
fn send_funds_exact_match() {
    let from = bech32_addr("arch", 0xaa);
    let to = bech32_addr("arch", 0xbb);
    let rule = AlertCosmosSendFunds { from: from.clone(), to: to.clone() };
    let event = cosmos_msg_event(bank_send_any(&from, &to, 7, "uarch"), "H8", None);
    let got = rule.filter(&event).unwrap();
    match got {
        AlertNotificationData::MonitorFundsCoin(c) => {
            assert_eq!(c.monitored_address, from);
        }
        other => panic!("unexpected notification: {:?}", other),
    }
}

#[test]
fn send_funds_wildcard_sides() {
    let from = bech32_addr("arch", 0xaa);
    let to = bech32_addr("arch", 0xbb);
    let rule = AlertCosmosSendFunds { from: String::new(), to: to.clone() };
    let event = cosmos_msg_event(bank_send_any(&from, &to, 7, "uarch"), "H9", None);
    assert!(rule.filter(&event).is_ok());
}

fn cosmos_tx_event(signer_keys: Vec<Option<AnyMsg>>, code: u32) -> ProcessAlertSourceRequeust {
    ProcessAlertSourceRequeust::CosmosTx(Box::new(AlertSourceCosmosTx {
        chain_id: "1".to_string(),
        chain_data: CosmosChainData { bech32_prefix: "arch".to_string() },
        signer_keys,
        code,
        tx_hash: "T1".to_string(),
    }))
}

#[test]
fn tx_outcome_failed_matches_nonzero_code() {
    let rule = AlertCosmosTxOutcome { signer: String::new(), outcome: TxOutcomeKind::Failed };
    let event = cosmos_tx_event(vec![], 7);
    let got = rule.filter(&event).unwrap();
    match got {
        AlertNotificationData::TxOutcome(t) => {
            assert_eq!(t.outcome, "FAILED");
            assert_eq!(t.signer, "");
            assert_eq!(t.tx_hash, "T1");
        }
        other => panic!("unexpected notification: {:?}", other),
    }
}

#[test]
fn tx_outcome_duality_on_any_code() {
    for code in [0u32, 1, 7] {
        let succ = AlertCosmosTxOutcome { signer: String::new(), outcome: TxOutcomeKind::Succeeded };
        let fail = AlertCosmosTxOutcome { signer: String::new(), outcome: TxOutcomeKind::Failed };
        let event = cosmos_tx_event(vec![], code);
        let s = succ.filter(&event).is_ok();
        let f = fail.filter(&event).is_ok();
        assert!(s != f, "exactly one outcome must match for code {}", code);
    }
}

#[test]
fn tx_outcome_signer_match() {
    // The compressed base point of the curve is a valid public key.
    let key_bytes: [u8; 33] = [
        0x02, 0x79, 0xbe, 0x66, 0x7e, 0xf9, 0xdc, 0xbb, 0xac, 0x55, 0xa0, 0x62, 0x95, 0xce, 0x87,
        0x0b, 0x07, 0x02, 0x9b, 0xfc, 0xdb, 0x2d, 0xce, 0x28, 0xd9, 0x59, 0xf2, 0x81, 0x5b, 0x16,
        0xf8, 0x17, 0x98,
    ];
    let proto_key = cosmrs::proto::cosmos::crypto::secp256k1::PubKey { key: key_bytes.to_vec() };
    let pk = cosmrs::crypto::PublicKey::try_from(proto_key).unwrap();
    let expected = pk.account_id("arch").unwrap().to_string();
    let any = pk.to_any().unwrap();
    let key = AnyMsg { type_url: any.type_url, value: any.value };

    let rule = AlertCosmosTxOutcome { signer: expected, outcome: TxOutcomeKind::Succeeded };
    let event = cosmos_tx_event(vec![Some(key.clone())], 0);
    assert!(rule.filter(&event).is_ok());

    let other = bech32_addr("arch", 0x99);
    let rule2 = AlertCosmosTxOutcome { signer: other, outcome: TxOutcomeKind::Succeeded };
    let event2 = cosmos_tx_event(vec![Some(key)], 0);
    assert_eq!(rule2.filter(&event2).unwrap_err(), FilterError::SignerNotFound);
}

#[test]
fn tx_outcome_unreadable_signer_key_rejects_the_rule() {
    let rule = AlertCosmosTxOutcome {
        signer: bech32_addr("arch", 0x42),
        outcome: TxOutcomeKind::Succeeded,
    };
    // A key kind outside the chain tooling's reach.
    let weird = AnyMsg { type_url: "/example.UnknownKey".to_string(), value: vec![1, 2, 3] };
    let event = cosmos_tx_event(vec![Some(weird)], 0);
    assert_eq!(rule.filter(&event).unwrap_err(), FilterError::UnsupportedSignerKey);

    // A signer without a public key.
    let event2 = cosmos_tx_event(vec![None], 0);
    assert_eq!(rule.filter(&event2).unwrap_err(), FilterError::UnsupportedSignerKey);

    // A rule without a signer never derives the set at all.
    let open_rule = AlertCosmosTxOutcome { signer: String::new(), outcome: TxOutcomeKind::Succeeded };
    let weird2 = AnyMsg { type_url: "/example.UnknownKey".to_string(), value: vec![] };
    let event3 = cosmos_tx_event(vec![Some(weird2)], 0);
    assert!(open_rule.filter(&event3).is_ok());
}

fn transfer_log(amount_attr: &str, extra: Option<(&str, &str)>) -> MsgLog {
    let mut attributes = vec![
        EventAttribute { key: "action".to_string(), value: "transfer".to_string() },
        EventAttribute { key: "amount".to_string(), value: amount_attr.to_string() },
    ];
    if let Some((k, v)) = extra {
        attributes.push(EventAttribute { key: k.to_string(), value: v.to_string() });
    }
    MsgLog {
        events: vec![
            LogEvent { event_type: "message".to_string(), attributes: vec![] },
            LogEvent { event_type: "wasm".to_string(), attributes },
        ],
    }
}

#[test]
fn sc_events_subset_match() {
    let sender = bech32_addr("arch", 0x11);
    let contract = bech32_addr("arch", 0x77);
    let rule = AlertCosmosSmartContractEvents {
        address: contract.clone(),
        event_name: "wasm".to_string(),
        event_attributes: vec![("amount".to_string(), "42".to_string())],
    };
    let event = cosmos_msg_event(
        exec_contract_any(&sender, &contract, b"{}"),
        "H10",
        Some(transfer_log("42", None)),
    );
    let got = rule.filter(&event).unwrap();
    match got {
        AlertNotificationData::ScEvents(e) => {
            assert_eq!(e.contract_addr, contract);
            assert_eq!(e.event_name, "wasm");
            assert_eq!(e.event_attributes, vec![("amount".to_string(), "42".to_string())]);
            assert_eq!(e.tx_hash, "H10");
        }
        other => panic!("unexpected notification: {:?}", other),
    }
}

#[test]
fn sc_events_unrelated_attribute_keeps_verdict() {
    let sender = bech32_addr("arch", 0x11);
    let contract = bech32_addr("arch", 0x77);
    let rule = AlertCosmosSmartContractEvents {
        address: contract.clone(),
        event_name: "wasm".to_string(),
        event_attributes: vec![("amount".to_string(), "42".to_string())],
    };
    let plain = cosmos_msg_event(
        exec_contract_any(&sender, &contract, b"{}"),
        "H11",
        Some(transfer_log("42", None)),
    );
    let extended = cosmos_msg_event(
        exec_contract_any(&sender, &contract, b"{}"),
        "H11",
        Some(transfer_log("42", Some(("memo", "unrelated")))),
    );
    assert_eq!(rule.filter(&plain).is_ok(), rule.filter(&extended).is_ok());
}

#[test]
fn sc_events_attribute_mismatch() {
    let sender = bech32_addr("arch", 0x11);
    let contract = bech32_addr("arch", 0x77);
    let rule = AlertCosmosSmartContractEvents {
        address: String::new(),
        event_name: "wasm".to_string(),
        event_attributes: vec![("amount".to_string(), "43".to_string())],
    };
    let event = cosmos_msg_event(
        exec_contract_any(&sender, &contract, b"{}"),
        "H12",
        Some(transfer_log("42", None)),
    );
    assert_eq!(rule.filter(&event).unwrap_err(), FilterError::AttributeMismatch);
}

#[test]
fn sc_events_event_not_found() {
    let sender = bech32_addr("arch", 0x11);
    let contract = bech32_addr("arch", 0x77);
    let rule = AlertCosmosSmartContractEvents {
        address: String::new(),
        event_name: "missing".to_string(),
        event_attributes: vec![],
    };
    let event = cosmos_msg_event(
        exec_contract_any(&sender, &contract, b"{}"),
        "H13",
        Some(transfer_log("42", None)),
    );
    assert_eq!(rule.filter(&event).unwrap_err(), FilterError::EventNotFound);
}

#[test]
fn sc_events_missing_log() {
    let sender = bech32_addr("arch", 0x11);
    let contract = bech32_addr("arch", 0x77);
    let rule = AlertCosmosSmartContractEvents {
        address: String::new(),
        event_name: "wasm".to_string(),
        event_attributes: vec![],
    };
    let event = cosmos_msg_event(exec_contract_any(&sender, &contract, b"{}"), "H14", None);
    assert_eq!(rule.filter(&event).unwrap_err(), FilterError::MissingMsgLog);
}

#[test]
fn sc_events_wrong_contract() {
    let sender = bech32_addr("arch", 0x11);
    let contract = bech32_addr("arch", 0x77);
    let watched = bech32_addr("arch", 0x78);
    let rule = AlertCosmosSmartContractEvents {
        address: watched,
        event_name: "wasm".to_string(),
        event_attributes: vec![],
    };
    let event = cosmos_msg_event(
        exec_contract_any(&sender, &contract, b"{}"),
        "H15",
        Some(transfer_log("42", None)),
    );
    assert_eq!(rule.filter(&event).unwrap_err(), FilterError::WrongContract);
}
