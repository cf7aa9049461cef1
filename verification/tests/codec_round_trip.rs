use mempools_alerts::codec::{decode_alert, encode_alert};
use mempools_alerts::model::{
    AlertCosmosMonitorFunds, AlertCosmosSendFunds, AlertCosmosSmartContractEvents,
    AlertCosmosTxOutcome, AlertEthMonitorFunds, AlertEthSmartContractEvents, AlertEthTxOutcome,
    AlertSource, ChainAlert, TxOutcomeKind,
};

fn round_trips(alert: ChainAlert) {
    let bytes = encode_alert(&alert);
    let back = decode_alert(&bytes).expect("an encoded body must decode");
    assert_eq!(back, alert);
}

#[test]
fn every_rule_variant_round_trips() {
    round_trips(ChainAlert::CosmosSendFunds(AlertCosmosSendFunds {
        from: "arch1sender".to_string(),
        to: "arch1recipient".to_string(),
    }));
    round_trips(ChainAlert::CosmosMonitorFunds(AlertCosmosMonitorFunds {
        address: "arch1watched".to_string(),
    }));
    round_trips(ChainAlert::CosmosSmartContractEvents(AlertCosmosSmartContractEvents {
        address: "arch1contract".to_string(),
        event_name: "wasm".to_string(),
        event_attributes: vec![
            ("amount".to_string(), "42".to_string()),
            ("action".to_string(), "transfer".to_string()),
        ],
    }));
    round_trips(ChainAlert::CosmosTxOutcome(AlertCosmosTxOutcome {
        signer: "arch1signer".to_string(),
        outcome: TxOutcomeKind::Failed,
    }));
    round_trips(ChainAlert::EthSmartContractEvents(AlertEthSmartContractEvents {
        contract_addr: "0xToKeN".to_string(),
        contract_abi: "W10=".to_string(),
        event_name: "Transfer".to_string(),
        event_attributes: vec![("value".to_string(), "42".to_string())],
    }));
    round_trips(ChainAlert::EthMonitorFunds(AlertEthMonitorFunds {
        address: "0xabc".to_string(),
    }));
    round_trips(ChainAlert::EthTxOutcome(AlertEthTxOutcome {
        signer: String::new(),
        outcome: TxOutcomeKind::Succeeded,
    }));
    round_trips(ChainAlert::ArchwayBroadcast);
}

#[test]
fn unicode_fields_round_trip() {
    round_trips(ChainAlert::CosmosSmartContractEvents(AlertCosmosSmartContractEvents {
        address: "arch1\u{00e9}\u{4e16}\u{1f600}".to_string(),
        event_name: String::new(),
        event_attributes: vec![(String::new(), "\u{4e16}\u{754c}".to_string())],
    }));
}

#[test]
fn mangled_bytes_are_refused() {
    assert!(decode_alert(&Vec::new()).is_none());
    assert!(decode_alert(&vec![0]).is_none());
    assert!(decode_alert(&vec![9]).is_none());
    // A truncated length field.
    assert!(decode_alert(&vec![2, 3, 0, 0]).is_none());
    // A length field pointing past the end.
    assert!(decode_alert(&vec![2, 5, 0, 0, 0, 0, 0, 0, 0, 120]).is_none());
    // Trailing garbage after a complete body.
    let mut bytes = encode_alert(&ChainAlert::ArchwayBroadcast);
    bytes.push(0);
    assert!(decode_alert(&bytes).is_none());
    // Bytes that are not UTF-8 where a string belongs.
    assert!(decode_alert(&vec![2, 1, 0, 0, 0, 0, 0, 0, 0, 0xff]).is_none());
}

#[test]
fn the_stored_tag_is_the_body_class() {
    let alert = ChainAlert::CosmosMonitorFunds(AlertCosmosMonitorFunds {
        address: "arch1watched".to_string(),
    });
    let bytes = encode_alert(&alert);
    let back = decode_alert(&bytes).unwrap();
    assert_eq!(back.source_type(), AlertSource::CosmosMsg);
    assert_eq!(back.source_type(), alert.source_type());
}

#[test]
fn the_stored_column_round_trips() {
    let alert = ChainAlert::CosmosSmartContractEvents(AlertCosmosSmartContractEvents {
        address: "arch1contract".to_string(),
        event_name: "wasm".to_string(),
        event_attributes: vec![("amount".to_string(), "42".to_string())],
    });
    let column = mempools_alerts::codec::encode_alert_hex(&alert);
    assert!(column.chars().all(|c| c.is_ascii_hexdigit()));
    let back = mempools_alerts::codec::decode_alert_hex(&column).unwrap();
    assert_eq!(back, alert);
    // Uppercase hexadecimal spells the same bytes.
    let upper = column.to_uppercase();
    assert_eq!(mempools_alerts::codec::decode_alert_hex(&upper).unwrap(), alert);
    assert!(mempools_alerts::codec::decode_alert_hex("0").is_none());
    assert!(mempools_alerts::codec::decode_alert_hex("zz").is_none());
}
