use mempools_alerts::admin::{bearer_token, AdminInterceptor, MockIdTokenSetter};
use mempools_alerts::alert_store::CreateAlertRequest;
use mempools_alerts::model::{
    AlertCosmosMonitorFunds, AlertCosmosSendFunds, AlertCosmosTxOutcome, AlertEthTxOutcome,
    AlertSource, ApplicationConfig, ChainAlert, Config, TxOutcomeKind,
};
use mempools_alerts::strings::{ascii_lower_eq, hex_string, parse_i32, u64_to_string, HashString};
use mempools_alerts::validation::{Validateable, ValidationError};

#[test]
fn decimal_rendering() {
    assert_eq!(u64_to_string(0), "0");
    assert_eq!(u64_to_string(42), "42");
    assert_eq!(u64_to_string(18_446_744_073_709_551_615), "18446744073709551615");
}

#[test]
fn hex_rendering() {
    assert_eq!(hex_string(&vec![]), "");
    assert_eq!(hex_string(&vec![0x00, 0xff, 0x1a]), "00ff1a");
    assert_eq!(vec![0xde, 0xad, 0xbe, 0xef].hash_string(), "0xdeadbeef");
}

#[test]
fn case_insensitive_comparison() {
    assert!(ascii_lower_eq("0xAbC", "0xaBc"));
    assert!(!ascii_lower_eq("0xabc", "0xabd"));
    assert!(ascii_lower_eq("", ""));
    assert!(!ascii_lower_eq("a", "ab"));
}

#[test]
fn integer_parsing() {
    assert_eq!(parse_i32("0"), Some(0));
    assert_eq!(parse_i32("42"), Some(42));
    assert_eq!(parse_i32("-42"), Some(-42));
    assert_eq!(parse_i32("+7"), Some(7));
    assert_eq!(parse_i32("2147483647"), Some(i32::MAX));
    assert_eq!(parse_i32("-2147483648"), Some(i32::MIN));
    assert_eq!(parse_i32("2147483648"), None);
    assert_eq!(parse_i32(""), None);
    assert_eq!(parse_i32("-"), None);
    assert_eq!(parse_i32("12a"), None);
    let padded = "0".repeat(2000) + "42";
    assert_eq!(parse_i32(&padded), Some(42));
}

#[test]
fn admin_token_gate() {
    let gate = AdminInterceptor::new("SECRET-REDACTED".to_string());
    assert!(gate.is_admin("SECRET-REDACTED".to_string()));
    assert!(!gate.is_admin("guess".to_string()));
}

#[test]
fn bearer_header_parsing() {
    assert_eq!(bearer_token("Bearer abc.def"), Some("abc.def".to_string()));
    assert_eq!(bearer_token("Bearer a b"), Some("a b".to_string()));
    assert_eq!(bearer_token("nospace"), None);
}

#[test]
fn mock_token_setter_remembers_identity() {
    let setter = MockIdTokenSetter::new("1".to_string());
    assert_eq!(setter.default_user_id, "1");
}

#[test]
fn default_configuration() {
    let config = Config::default();
    assert_eq!(
        config.application_config.db_url,
        "postgresql://0.0.0.0:5432?dbname=postgres&user=postgres&password=mempools"
    );
    assert_eq!(config.application_config.jwt_secret, b"default_key_insecure".to_vec());
    assert_eq!(config.application_config.admins, vec!["admin@admin.com".to_string()]);
    let app = ApplicationConfig::default();
    assert_eq!(app.db_url, config.application_config.db_url);
}

fn request_with(alert: ChainAlert) -> CreateAlertRequest {
    CreateAlertRequest {
        user_id: "u".to_string(),
        chain_id: "1".to_string(),
        alert,
        message: String::new(),
        name: String::new(),
    }
}

#[test]
fn validation_requires_chain_and_addresses() {
    let mut req = request_with(ChainAlert::CosmosMonitorFunds(AlertCosmosMonitorFunds {
        address: "arch1x".to_string(),
    }));
    assert!(req.validate().is_ok());
    req.chain_id = String::new();
    assert_eq!(req.validate().unwrap_err(), ValidationError::MissingChainId);

    let empty_monitor = request_with(ChainAlert::CosmosMonitorFunds(AlertCosmosMonitorFunds {
        address: String::new(),
    }));
    assert_eq!(empty_monitor.validate().unwrap_err(), ValidationError::MissingAddress);

    let half_send = request_with(ChainAlert::CosmosSendFunds(AlertCosmosSendFunds {
        from: "arch1a".to_string(),
        to: String::new(),
    }));
    assert_eq!(half_send.validate().unwrap_err(), ValidationError::MissingAddress);

    let no_signer = request_with(ChainAlert::CosmosTxOutcome(AlertCosmosTxOutcome {
        signer: String::new(),
        outcome: TxOutcomeKind::Failed,
    }));
    assert_eq!(no_signer.validate().unwrap_err(), ValidationError::MissingSigner);

    let eth_no_signer = request_with(ChainAlert::EthTxOutcome(AlertEthTxOutcome {
        signer: String::new(),
        outcome: TxOutcomeKind::Failed,
    }));
    assert_eq!(eth_no_signer.validate().unwrap_err(), ValidationError::MissingSigner);

    let broadcast = request_with(ChainAlert::ArchwayBroadcast);
    assert!(broadcast.validate().is_ok());
}

#[test]
fn source_type_is_total_and_indexes_rules() {
    let cases = vec![
        (
            ChainAlert::CosmosMonitorFunds(AlertCosmosMonitorFunds { address: String::new() }),
            AlertSource::CosmosMsg,
        ),
        (
            ChainAlert::CosmosTxOutcome(AlertCosmosTxOutcome {
                signer: String::new(),
                outcome: TxOutcomeKind::Failed,
            }),
            AlertSource::CosmosTx,
        ),
        (
            ChainAlert::EthTxOutcome(AlertEthTxOutcome {
                signer: String::new(),
                outcome: TxOutcomeKind::Failed,
            }),
            AlertSource::EthTx,
        ),
        (ChainAlert::ArchwayBroadcast, AlertSource::ArchwaysBroadcast),
    ];
    for (alert, expected) in cases {
        assert_eq!(alert.source_type(), expected);
    }
}
