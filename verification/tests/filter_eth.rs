use base64::Engine;

use mempools_alerts::events::{AlertSourceEthLog, AlertSourceEthTx, ProcessAlertSourceRequeust};
use mempools_alerts::model::{
    AlertEthMonitorFunds, AlertEthSmartContractEvents, AlertEthTxOutcome, AlertNotificationData,
    FilterError, TxOutcomeKind,
};

const TRANSFER_EVENT_ABI: &str = r#"[{"anonymous":false,"inputs":[{"indexed":true,"name":"from","type":"address"},{"indexed":true,"name":"to","type":"address"},{"indexed":false,"name":"value","type":"uint256"}],"name":"Transfer","type":"event"}]"#;

fn hex_addr(bytes: &[u8; 20]) -> String {
    let mut s = "0x".to_string();
    for b in bytes {
        s.push_str(&format!("{:02x}", b));
    }
    s
}

fn word_with_value(v: u8) -> Vec<u8> {
    let mut w = vec![0u8; 32];
    w[31] = v;
    w
}

fn eth_tx_event(
    input: Vec<u8>,
    value: Vec<u8>,
    to: Option<Vec<u8>>,
    from: Vec<u8>,
    receipt_to: Option<Vec<u8>>,
    status: Option<u64>,
) -> ProcessAlertSourceRequeust {
    ProcessAlertSourceRequeust::EthTx(Box::new(AlertSourceEthTx {
        chain_id: "5".to_string(),
        tx_hash: "0xhash".to_string(),
        input,
        value,
        to,
        receipt_from: from,
        receipt_to,
        status,
    }))
}

fn erc20_transfer_input(to: &[u8; 20], amount: u8) -> Vec<u8> {
    let mut input = vec![0xa9, 0x05, 0x9c, 0xbb];
    input.extend_from_slice(&[0u8; 12]);
    input.extend_from_slice(to);
    input.extend_from_slice(&word_with_value(amount));
    input
}

#[test]
fn erc20_selector_agrees_with_the_abi() {
    let erc20: &str = r#"[{"constant":false,"inputs":[{"name":"_to","type":"address"},{"name":"_value","type":"uint256"}],"name":"transfer","outputs":[{"name":"","type":"bool"}],"payable":false,"stateMutability":"nonpayable","type":"function"}]"#;
    let contract = web3::ethabi::Contract::load(erc20.as_bytes()).unwrap();
    let sig = contract.function("transfer").unwrap().short_signature();
    assert_eq!(sig.to_vec(), vec![0xa9, 0x05, 0x9c, 0xbb]);
}

#[test]
fn eth_monitor_funds_erc20_match_mixed_case() {
    let from = [0xde; 20];
    let to = [0xab; 20];
    let token = [0x70; 20];
    let rule = AlertEthMonitorFunds { address: hex_addr(&to).to_uppercase().replace("0X", "0x") };
    let event = eth_tx_event(
        erc20_transfer_input(&to, 42),
        word_with_value(0),
        Some(token.to_vec()),
        from.to_vec(),
        Some(token.to_vec()),
        Some(1),
    );
    let got = rule.filter(&event).unwrap();
    match got {
        AlertNotificationData::MonitorFundsToken(t) => {
            assert_eq!(t.from, hex_addr(&from));
            assert_eq!(t.to, hex_addr(&to));
            assert_eq!(t.amount, "42");
            assert_eq!(t.contract_addr, hex_addr(&token));
        }
        other => panic!("unexpected notification: {:?}", other),
    }
}

#[test]
fn eth_monitor_funds_requires_success() {
    let from = [0xde; 20];
    let to = [0xab; 20];
    let rule = AlertEthMonitorFunds { address: String::new() };
    let failed = eth_tx_event(
        erc20_transfer_input(&to, 42),
        word_with_value(0),
        Some(to.to_vec()),
        from.to_vec(),
        Some(to.to_vec()),
        Some(0),
    );
    assert_eq!(rule.filter(&failed).unwrap_err(), FilterError::TxFailed);
    let no_status = eth_tx_event(
        erc20_transfer_input(&to, 42),
        word_with_value(0),
        Some(to.to_vec()),
        from.to_vec(),
        Some(to.to_vec()),
        None,
    );
    assert_eq!(rule.filter(&no_status).unwrap_err(), FilterError::TxFailed);
}

#[test]
fn eth_monitor_funds_native_transfer() {
    let from = [0x01; 20];
    let to = [0x02; 20];
    let rule = AlertEthMonitorFunds { address: hex_addr(&from) };
    let event = eth_tx_event(
        Vec::new(),
        word_with_value(9),
        None,
        from.to_vec(),
        Some(to.to_vec()),
        Some(1),
    );
    let got = rule.filter(&event).unwrap();
    match got {
        AlertNotificationData::MonitorFundsCoin(c) => {
            assert_eq!(c.from, hex_addr(&from));
            assert_eq!(c.to, hex_addr(&to));
            assert_eq!(c.amount.len(), 1);
            assert_eq!(c.amount[0].amount, "9");
            assert_eq!(c.amount[0].denom, "");
            assert_eq!(c.monitored_address, rule.address);
        }
        other => panic!("unexpected notification: {:?}", other),
    }
}

#[test]
fn eth_monitor_funds_bad_selector() {
    let from = [0x01; 20];
    let to = [0x02; 20];
    let mut input = erc20_transfer_input(&to, 42);
    input[0] = 0xff;
    let rule = AlertEthMonitorFunds { address: String::new() };
    let event = eth_tx_event(
        input,
        word_with_value(0),
        Some(to.to_vec()),
        from.to_vec(),
        Some(to.to_vec()),
        Some(1),
    );
    assert_eq!(rule.filter(&event).unwrap_err(), FilterError::WrongMessageType);
}

#[test]
fn eth_tx_outcome_signer_and_status() {
    let from = [0xde; 20];
    let rule = AlertEthTxOutcome {
        signer: hex_addr(&from).to_uppercase().replace("0X", "0x"),
        outcome: TxOutcomeKind::Succeeded,
    };
    let event = eth_tx_event(
        Vec::new(),
        word_with_value(0),
        None,
        from.to_vec(),
        None,
        Some(1),
    );
    let got = rule.filter(&event).unwrap();
    match got {
        AlertNotificationData::TxOutcome(t) => {
            assert_eq!(t.outcome, "SUCCEEDED");
            assert_eq!(t.signer, rule.signer);
        }
        other => panic!("unexpected notification: {:?}", other),
    }

    let wrong_signer = AlertEthTxOutcome {
        signer: hex_addr(&[0x77; 20]),
        outcome: TxOutcomeKind::Succeeded,
    };
    assert_eq!(wrong_signer.filter(&event).unwrap_err(), FilterError::SignerNotFound);
}

#[test]
fn eth_tx_outcome_duality_when_status_present() {
    let from = [0xde; 20];
    for status in [0u64, 1] {
        let succ = AlertEthTxOutcome { signer: String::new(), outcome: TxOutcomeKind::Succeeded };
        let fail = AlertEthTxOutcome { signer: String::new(), outcome: TxOutcomeKind::Failed };
        let event = eth_tx_event(
            Vec::new(),
            word_with_value(0),
            None,
            from.to_vec(),
            None,
            Some(status),
        );
        assert!(succ.filter(&event).is_ok() != fail.filter(&event).is_ok());
    }
}

fn eth_log_event(
    address: [u8; 20],
    topics: Vec<Vec<u8>>,
    data: Vec<u8>,
) -> ProcessAlertSourceRequeust {
    ProcessAlertSourceRequeust::EthLog(Box::new(AlertSourceEthLog {
        chain_id: "5".to_string(),
        tx_hash: "0xloghash".to_string(),
        address: address.to_vec(),
        topics,
        data,
        log_index: 0,
    }))
}

fn transfer_topics(from: &[u8; 20], to: &[u8; 20]) -> Vec<Vec<u8>> {
    let contract = web3::ethabi::Contract::load(TRANSFER_EVENT_ABI.as_bytes()).unwrap();
    let sig = contract.event("Transfer").unwrap().signature();
    let mut from_topic = vec![0u8; 12];
    from_topic.extend_from_slice(from);
    let mut to_topic = vec![0u8; 12];
    to_topic.extend_from_slice(to);
    vec![sig.as_bytes().to_vec(), from_topic, to_topic]
}

#[test]
fn eth_sc_events_abi_event_match() {
    let token = [0x70; 20];
    let from = [0x01; 20];
    let to = [0x02; 20];
    let rule = AlertEthSmartContractEvents {
        contract_addr: hex_addr(&token),
        contract_abi: base64::prelude::BASE64_STANDARD.encode(TRANSFER_EVENT_ABI),
        event_name: "Transfer".to_string(),
        event_attributes: vec![("value".to_string(), "42".to_string())],
    };
    let event = eth_log_event(token, transfer_topics(&from, &to), word_with_value(42));
    let got = rule.filter(&event).unwrap();
    match got {
        AlertNotificationData::ScEvents(e) => {
            assert_eq!(e.contract_addr, hex_addr(&token));
            assert_eq!(e.event_name, "Transfer");
            assert_eq!(e.event_attributes, vec![("value".to_string(), "42".to_string())]);
        }
        other => panic!("unexpected notification: {:?}", other),
    }
}

#[test]
fn eth_sc_events_attribute_mismatch() {
    let token = [0x70; 20];
    let rule = AlertEthSmartContractEvents {
        contract_addr: String::new(),
        contract_abi: base64::prelude::BASE64_STANDARD.encode(TRANSFER_EVENT_ABI),
        event_name: "Transfer".to_string(),
        event_attributes: vec![("value".to_string(), "41".to_string())],
    };
    let event = eth_log_event(token, transfer_topics(&[0x01; 20], &[0x02; 20]), word_with_value(42));
    assert_eq!(rule.filter(&event).unwrap_err(), FilterError::AttributeMismatch);
}

#[test]
fn eth_sc_events_bad_base64_is_decode_failure() {
    let token = [0x70; 20];
    let rule = AlertEthSmartContractEvents {
        contract_addr: String::new(),
        contract_abi: "!!!not base64!!!".to_string(),
        event_name: "Transfer".to_string(),
        event_attributes: vec![],
    };
    let event = eth_log_event(token, transfer_topics(&[0x01; 20], &[0x02; 20]), word_with_value(42));
    assert_eq!(rule.filter(&event).unwrap_err(), FilterError::DecodeFailure);
}

#[test]
fn eth_sc_events_wrong_contract() {
    let token = [0x70; 20];
    let rule = AlertEthSmartContractEvents {
        contract_addr: hex_addr(&[0x71; 20]),
        contract_abi: base64::prelude::BASE64_STANDARD.encode(TRANSFER_EVENT_ABI),
        event_name: "Transfer".to_string(),
        event_attributes: vec![],
    };
    let event = eth_log_event(token, transfer_topics(&[0x01; 20], &[0x02; 20]), word_with_value(42));
    assert_eq!(rule.filter(&event).unwrap_err(), FilterError::WrongContract);
}
