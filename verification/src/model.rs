use vstd::prelude::*;
use vstd::string::StringSliceAdditionalSpecFns;

verus! {

// ---------------------------------------------------------------------------
// Rule bodies
// ---------------------------------------------------------------------------
/// The two transaction outcomes a rule can watch for.
#[derive(Clone, Copy, Debug, PartialEq, Eq, Structural)]
pub enum TxOutcomeKind {
    Succeeded,
    Failed,
}

impl TxOutcomeKind {
    /// The wire name of the outcome, as notifications carry it.
    pub fn as_str_name(&self) -> (r: &'static str)
        ensures
            r@ == self.str_name(),
    {
        proof {
            reveal_strlit("SUCCEEDED");
            reveal_strlit("FAILED");
        }
        match self {
            TxOutcomeKind::Succeeded => "SUCCEEDED",
            TxOutcomeKind::Failed => "FAILED",
        }
    }

    /// The characters of the outcome's wire name.
    pub open spec fn str_name(self) -> Seq<char> {
        match self {
            TxOutcomeKind::Succeeded => "SUCCEEDED"@,
            TxOutcomeKind::Failed => "FAILED"@,
        }
    }
}

/// Matches a bank send or CW20 transfer with exact addresses; an empty
/// string is a wildcard for that side.
#[derive(Clone, Debug, PartialEq)]
pub struct AlertCosmosSendFunds {
    pub from: String,
    pub to: String,
}

/// Matches a bank send or CW20 transfer where `address` is the sender or
/// the recipient; empty means any.
#[derive(Clone, Debug, PartialEq)]
pub struct AlertCosmosMonitorFunds {
    pub address: String,
}

/// Matches a CosmWasm execution whose log holds the named event with the
/// required attribute subset.
#[derive(Clone, Debug, PartialEq)]
pub struct AlertCosmosSmartContractEvents {
    pub address: String,
    pub event_name: String,
    pub event_attributes: Vec<(String, String)>,
}

/// Matches a Cosmos transaction by outcome and, when nonempty, by signer.
#[derive(Clone, Debug, PartialEq)]
pub struct AlertCosmosTxOutcome {
    pub signer: String,
    pub outcome: TxOutcomeKind,
}

/// Matches an EVM log that the given ABI decodes to the named event with
/// the required attribute subset.
#[derive(Clone, Debug, PartialEq)]
pub struct AlertEthSmartContractEvents {
    pub contract_addr: String,
    pub contract_abi: String,
    pub event_name: String,
    pub event_attributes: Vec<(String, String)>,
}

/// Matches a native transfer or an ERC-20 `transfer` where `address` is the
/// sender or the recipient; empty means any.
#[derive(Clone, Debug, PartialEq)]
pub struct AlertEthMonitorFunds {
    pub address: String,
}

/// Matches an EVM transaction by receipt status and, when nonempty, by signer.
#[derive(Clone, Debug, PartialEq)]
pub struct AlertEthTxOutcome {
    pub signer: String,
    pub outcome: TxOutcomeKind,
}

/// A rule body: one tagged variant per kind of alert.
#[derive(Clone, Debug, PartialEq)]
pub enum ChainAlert {
    CosmosSendFunds(AlertCosmosSendFunds),
    CosmosMonitorFunds(AlertCosmosMonitorFunds),
    CosmosSmartContractEvents(AlertCosmosSmartContractEvents),
    CosmosTxOutcome(AlertCosmosTxOutcome),
    EthSmartContractEvents(AlertEthSmartContractEvents),
    EthMonitorFunds(AlertEthMonitorFunds),
    EthTxOutcome(AlertEthTxOutcome),
    ArchwayBroadcast,
}

/// The coarse event class a rule is indexed under.
#[derive(Clone, Copy, Debug, PartialEq, Eq, Structural)]
pub enum AlertSource {
    CosmosTx,
    CosmosMsg,
    EthLog,
    EthTx,
    ArchwaysBroadcast,
}

/// Whether a rule is live for dispatch.
#[derive(Clone, Copy, Debug, PartialEq, Eq, Structural)]
pub enum AlertStatus {
    Enabled,
    Disabled,
}

/// A stored rule as callers see it.
#[derive(Clone, Debug, PartialEq)]
pub struct UserAlert {
    pub id: u64,
    pub user_id: String,
    pub alert: ChainAlert,
    pub message: String,
    pub status: AlertStatus,
    pub chain_id: i32,
    pub alert_source: AlertSource,
    pub name: String,
    pub created_at: u64,
}

/// A stored rule together with the webhook tenant that owns it.
#[derive(Clone, Debug, PartialEq)]
pub struct BackendUserAlert {
    pub user_alert: UserAlert,
    pub client_id: String,
}

// ---------------------------------------------------------------------------
// Notifications
// ---------------------------------------------------------------------------
/// One coin amount of a bank send.
#[derive(Clone, Debug, PartialEq)]
pub struct CoinAmount {
    pub amount: String,
    pub denom: String,
}

/// The view of a coin amount: its two strings as character sequences.
pub struct CoinAmountView {
    pub amount: Seq<char>,
    pub denom: Seq<char>,
}

impl View for CoinAmount {
    type V = CoinAmountView;

    open spec fn view(&self) -> CoinAmountView {
        CoinAmountView { amount: self.amount@, denom: self.denom@ }
    }
}

/// The views of a list of coin amounts.
pub open spec fn coins_view(v: Seq<CoinAmount>) -> Seq<CoinAmountView> {
    v.map_values(|c: CoinAmount| c@)
}

/// The views of an attribute list: each pair of strings as character sequences.
pub open spec fn attrs_view(v: Seq<(String, String)>) -> Seq<(Seq<char>, Seq<char>)> {
    v.map_values(|p: (String, String)| (p.0@, p.1@))
}

#[derive(Clone, Debug, PartialEq)]
pub struct TxOutcomeNotificationData {
    pub signer: String,
    pub outcome: String,
    pub tx_hash: String,
}

#[derive(Clone, Debug, PartialEq)]
pub struct MonitorFundsCoinNotificationData {
    pub from: String,
    pub to: String,
    pub amount: Vec<CoinAmount>,
    pub tx_hash: String,
    pub monitored_address: String,
}

#[derive(Clone, Debug, PartialEq)]
pub struct MonitorFundsTokenNotificationData {
    pub from: String,
    pub to: String,
    pub amount: String,
    pub tx_hash: String,
    pub contract_addr: String,
}

#[derive(Clone, Debug, PartialEq)]
pub struct SmartContractEventsNotificationData {
    pub contract_addr: String,
    pub event_name: String,
    pub event_attributes: Vec<(String, String)>,
    pub tx_hash: String,
}

#[derive(Clone, Debug, PartialEq)]
pub struct ArchwayBroadcastNotificationData {
    pub message: String,
}

/// The payload of one dispatched notification.
#[derive(Clone, Debug, PartialEq)]
pub enum AlertNotificationData {
    TxOutcome(TxOutcomeNotificationData),
    MonitorFundsCoin(MonitorFundsCoinNotificationData),
    MonitorFundsToken(MonitorFundsTokenNotificationData),
    ScEvents(SmartContractEventsNotificationData),
    ArchwayBroadcast(ArchwayBroadcastNotificationData),
}

/// The view of a notification payload, over character sequences.
pub enum NotificationDataView {
    TxOutcome { signer: Seq<char>, outcome: Seq<char>, tx_hash: Seq<char> },
    MonitorFundsCoin {
        from: Seq<char>,
        to: Seq<char>,
        amount: Seq<CoinAmountView>,
        tx_hash: Seq<char>,
        monitored_address: Seq<char>,
    },
    MonitorFundsToken {
        from: Seq<char>,
        to: Seq<char>,
        amount: Seq<char>,
        tx_hash: Seq<char>,
        contract_addr: Seq<char>,
    },
    ScEvents {
        contract_addr: Seq<char>,
        event_name: Seq<char>,
        event_attributes: Seq<(Seq<char>, Seq<char>)>,
        tx_hash: Seq<char>,
    },
    ArchwayBroadcast { message: Seq<char> },
}

impl View for AlertNotificationData {
    type V = NotificationDataView;

    open spec fn view(&self) -> NotificationDataView {
        match self {
            AlertNotificationData::TxOutcome(d) => NotificationDataView::TxOutcome {
                signer: d.signer@,
                outcome: d.outcome@,
                tx_hash: d.tx_hash@,
            },
            AlertNotificationData::MonitorFundsCoin(d) => NotificationDataView::MonitorFundsCoin {
                from: d.from@,
                to: d.to@,
                amount: coins_view(d.amount@),
                tx_hash: d.tx_hash@,
                monitored_address: d.monitored_address@,
            },
            AlertNotificationData::MonitorFundsToken(d) => NotificationDataView::MonitorFundsToken {
                from: d.from@,
                to: d.to@,
                amount: d.amount@,
                tx_hash: d.tx_hash@,
                contract_addr: d.contract_addr@,
            },
            AlertNotificationData::ScEvents(d) => NotificationDataView::ScEvents {
                contract_addr: d.contract_addr@,
                event_name: d.event_name@,
                event_attributes: attrs_view(d.event_attributes@),
                tx_hash: d.tx_hash@,
            },
            AlertNotificationData::ArchwayBroadcast(d) => NotificationDataView::ArchwayBroadcast {
                message: d.message@,
            },
        }
    }
}

/// Whether an executable filter result and a specified verdict agree: the
/// same error, or a payload whose view is the specified one.
pub open spec fn result_view_eq(
    r: Result<AlertNotificationData, FilterError>,
    m: Result<NotificationDataView, FilterError>,
) -> bool {
    match r {
        Ok(n) => m matches Ok(v) && n@ == v,
        Err(a) => m matches Err(b) && a == b,
    }
}

/// A dispatched notification, keyed to the rule and the event that caused it.
#[derive(Clone, Debug, PartialEq)]
pub struct AlertNotification {
    pub notification: AlertNotificationData,
    pub alert_id: String,
    pub alert_source_id: String,
}

/// What the dispatcher hands to the notification service.
#[derive(Clone, Debug, PartialEq)]
pub enum Notification {
    AlertNotification(AlertNotification),
}

/// Aggregate statistics over stored notifications. Times are microseconds.
#[derive(Clone, Copy, Debug, PartialEq, Eq, Structural)]
pub struct NotificationStatistics {
    pub total_alerts: u32,
    pub total_alerts_today: u32,
    pub avg_response_time: u128,
}

/// How long one dispatch took, in microseconds, and over how many responses.
#[derive(Clone, Copy, Debug, PartialEq, Eq, Structural)]
pub struct ResponseTime {
    pub total_response_time: u64,
    pub num_responses: u64,
}

// ---------------------------------------------------------------------------
// Query filters
// ---------------------------------------------------------------------------
/// An optional restriction on each indexed column of the rule store.
#[derive(Clone, Debug, PartialEq)]
pub struct AlertFilter {
    pub id: Option<u64>,
    pub user_id: Option<String>,
    pub chain_id: Option<i32>,
    pub alert_source: Option<AlertSource>,
}

impl AlertFilter {
    /// A filter that restricts nothing.
    pub fn any() -> (r: AlertFilter)
        ensures
            r.id is None,
            r.user_id is None,
            r.chain_id is None,
            r.alert_source is None,
    {
        AlertFilter { id: None, user_id: None, chain_id: None, alert_source: None }
    }
}

/// Restrictions on notification reads; the user id is always required.
#[derive(Clone, Debug, PartialEq)]
pub struct NotificationFilter {
    pub user_id: String,
    pub id: Option<u64>,
    pub alert_id: Option<u64>,
    pub time: Option<TimeRange>,
}

/// An inclusive range of creation timestamps, each in nanoseconds since epoch.
#[derive(Clone, Copy, Debug, PartialEq, Eq, Structural)]
pub struct TimeRange {
    pub start: Option<u64>,
    pub end: Option<u64>,
}

/// An optional restriction on chain lookups.
#[derive(Clone, Copy, Debug, PartialEq, Eq, Structural)]
pub struct ChainFilter {
    pub id: Option<i32>,
}

// ---------------------------------------------------------------------------
// Errors
// ---------------------------------------------------------------------------
/// Why a rule did not match an event. The pipeline treats every variant as a
/// silent drop; callers that surface errors translate them to messages.
#[derive(Clone, Copy, Debug, PartialEq, Eq, Structural)]
pub enum FilterError {
    /// The event is of another class than the rule reads.
    WrongEventKind,
    /// The rule names a signer that the transaction's signer set lacks.
    SignerNotFound,
    /// The rule names a signer, and one of the transaction's signer keys is
    /// absent or of a kind that yields no account id, so no signer set can
    /// be derived.
    UnsupportedSignerKey,
    /// The transaction's outcome is the one the rule does not watch.
    OutcomeMismatch,
    /// The monitored address is neither sender nor recipient.
    AddressNotRelated,
    /// A strict from/to equality failed.
    WrongFromAddress,
    WrongToAddress,
    /// The message is not a kind the rule reads.
    WrongMessageType,
    /// The execution hits another contract than the rule names.
    WrongContract,
    /// The message carries no log to scan for events.
    MissingMsgLog,
    /// The named event does not occur in the log.
    EventNotFound,
    /// A required attribute is missing or differs.
    AttributeMismatch,
    /// The receipt carries no status.
    MissingStatus,
    /// The transaction carries no recipient.
    MissingToAddress,
    /// The transaction did not succeed, so transfers are not counted.
    TxFailed,
    /// A payload could not be decoded: protobuf, JSON, base64 or ABI.
    DecodeFailure,
}

/// Why a store operation failed.
#[derive(Clone, Copy, Debug, PartialEq, Eq, Structural)]
pub enum StoreError {
    /// No live row has the requested id.
    NotFound,
    /// A stored rule body could not be decoded.
    Decode,
    /// A numeric field of the request could not be parsed.
    InvalidInput,
}

// ---------------------------------------------------------------------------
// Auth and configuration
// ---------------------------------------------------------------------------
/// The caller identity that the auth layer attaches to a request.
#[derive(Clone, Debug, PartialEq)]
pub struct UserMetadata {
    pub client_id: String,
}

/// The claims carried inside an issued token.
#[derive(Clone, Debug, PartialEq)]
pub struct JwtClaims {
    pub sub: String,
    pub exp: u64,
}

/// The application's own settings.
#[derive(Clone, Debug, PartialEq)]
pub struct ApplicationConfig {
    pub db_url: String,
    pub jwt_secret: Vec<u8>,
    pub admins: Vec<String>,
}

impl Default for ApplicationConfig {
    /// The built-in settings used when no configuration is supplied.
    fn default() -> (r: ApplicationConfig)
        ensures
            r.db_url@ =~=
                "postgresql://0.0.0.0:5432?dbname=postgres&user=postgres&password=mempools"@,
            r.jwt_secret@ =~= "default_key_insecure".spec_bytes(),
            r.admins@.len() == 1 && r.admins@[0]@ =~= "admin@admin.com"@,
    {
        let mut admins: Vec<String> = Vec::new();
        admins.push(String::from_str("admin@admin.com"));
        ApplicationConfig {
            db_url: String::from_str(
                "postgresql://0.0.0.0:5432?dbname=postgres&user=postgres&password=mempools",
            ),
            jwt_secret: "default_key_insecure".as_bytes_vec(),
            admins,
        }
    }
}

/// The full configuration file shape.
#[derive(Clone, Debug, PartialEq)]
pub struct Config {
    pub application_config: ApplicationConfig,
}

impl Default for Config {
    fn default() -> (r: Config)
        ensures
            r.application_config.db_url@ =~=
                "postgresql://0.0.0.0:5432?dbname=postgres&user=postgres&password=mempools"@,
    {
        Config { application_config: ApplicationConfig::default() }
    }
}

} // verus!
