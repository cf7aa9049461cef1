use vstd::prelude::*;

use crate::cosmos::{attr_lookup, last_event, req_attrs_match};
use crate::decode::{bank_send_of, cw20_parse_of, execute_contract_of, Cw20ParseView};
use crate::events::{
    AlertSourceCosmosMsg, AlertSourceCosmosTx, AlertSourceEthTx, EventAttribute,
    ProcessAlertSourceRequeust,
};
use crate::model::{
    attrs_view, result_view_eq, AlertCosmosMonitorFunds, AlertCosmosSmartContractEvents,
    AlertCosmosTxOutcome, AlertNotificationData, AlertSource, ArchwayBroadcastNotificationData,
    ChainAlert, FilterError, NotificationDataView, TxOutcomeKind,
};

verus! {

// ---------------------------------------------------------------------------
// Broadcast rules
// ---------------------------------------------------------------------------
/// A rule that matches every broadcast message of its chain.
#[derive(Clone, Copy, Debug, PartialEq, Eq, Structural)]
pub struct ArchwayBroadcastAlert {}

impl ArchwayBroadcastAlert {
    /// The verdict of a broadcast rule: every broadcast matches, carrying
    /// its message; any other event class is refused.
    pub open spec fn matches_spec(&self, ev: ProcessAlertSourceRequeust) -> Result<
        NotificationDataView,
        FilterError,
    > {
        match ev {
            ProcessAlertSourceRequeust::ArchwaysBroadcast { message, .. } => Ok(
                NotificationDataView::ArchwayBroadcast { message: message@ },
            ),
            _ => Err(FilterError::WrongEventKind),
        }
    }

    /// Evaluates this rule against an event.
    pub fn filter(&self, req: &ProcessAlertSourceRequeust) -> (r: Result<
        AlertNotificationData,
        FilterError,
    >)
        ensures
            result_view_eq(r, self.matches_spec(*req)),
    {
        if let ProcessAlertSourceRequeust::ArchwaysBroadcast { message, .. } = req {
            Ok(
                AlertNotificationData::ArchwayBroadcast(
                    ArchwayBroadcastNotificationData { message: message.clone() },
                ),
            )
        } else {
            Err(FilterError::WrongEventKind)
        }
    }
}

// ---------------------------------------------------------------------------
// Rule dispatch
// ---------------------------------------------------------------------------
impl ChainAlert {
    /// The verdict of any rule body on any event: each variant reads the
    /// event class it supports and refuses every other.
    pub open spec fn filter_spec(&self, ev: ProcessAlertSourceRequeust) -> Result<
        NotificationDataView,
        FilterError,
    > {
        match self {
            ChainAlert::CosmosSendFunds(a) => match ev {
                ProcessAlertSourceRequeust::CosmosMsg(e) => a.matches_spec(*e),
                _ => Err(FilterError::WrongEventKind),
            },
            ChainAlert::CosmosMonitorFunds(a) => match ev {
                ProcessAlertSourceRequeust::CosmosMsg(e) => a.matches_spec(*e),
                _ => Err(FilterError::WrongEventKind),
            },
            ChainAlert::CosmosSmartContractEvents(a) => match ev {
                ProcessAlertSourceRequeust::CosmosMsg(e) => a.matches_spec(*e),
                _ => Err(FilterError::WrongEventKind),
            },
            ChainAlert::CosmosTxOutcome(a) => match ev {
                ProcessAlertSourceRequeust::CosmosTx(e) => a.matches_spec(*e),
                _ => Err(FilterError::WrongEventKind),
            },
            ChainAlert::EthSmartContractEvents(a) => match ev {
                ProcessAlertSourceRequeust::EthLog(e) => a.matches_spec(*e),
                _ => Err(FilterError::WrongEventKind),
            },
            ChainAlert::EthMonitorFunds(a) => match ev {
                ProcessAlertSourceRequeust::EthTx(e) => a.matches_spec(*e),
                _ => Err(FilterError::WrongEventKind),
            },
            ChainAlert::EthTxOutcome(a) => match ev {
                ProcessAlertSourceRequeust::EthTx(e) => a.matches_spec(*e),
                _ => Err(FilterError::WrongEventKind),
            },
            ChainAlert::ArchwayBroadcast => ArchwayBroadcastAlert {}.matches_spec(ev),
        }
    }

    /// Evaluates a rule body against an event: the tagged dispatch of the
    /// filter engine.
    pub fn filter(&self, alert_source: &ProcessAlertSourceRequeust) -> (r: Result<
        AlertNotificationData,
        FilterError,
    >)
        requires
            alert_source.wf(),
        ensures
            result_view_eq(r, self.filter_spec(*alert_source)),
    {
        match self {
            ChainAlert::CosmosSendFunds(a) => a.filter(alert_source),
            ChainAlert::CosmosMonitorFunds(a) => a.filter(alert_source),
            ChainAlert::CosmosSmartContractEvents(a) => a.filter(alert_source),
            ChainAlert::CosmosTxOutcome(a) => a.filter(alert_source),
            ChainAlert::EthSmartContractEvents(a) => a.filter(alert_source),
            ChainAlert::EthMonitorFunds(a) => a.filter(alert_source),
            ChainAlert::EthTxOutcome(a) => a.filter(alert_source),
            ChainAlert::ArchwayBroadcast => ArchwayBroadcastAlert {}.filter(alert_source),
        }
    }
}

// ---------------------------------------------------------------------------
// Laws of the filter engine
// ---------------------------------------------------------------------------
/// A rule body matches only events of the class its codec tag names: for
/// every rule and event, a match implies that the event's class is the
/// rule's source type.
pub proof fn lemma_filter_only_source_type(rule: ChainAlert, ev: ProcessAlertSourceRequeust)
    ensures
        rule.filter_spec(ev) is Ok ==> ev.source_type_spec() == rule.source_type_spec(),
{
}

/// The wildcard law: a fund-monitoring rule with an empty address matches
/// every message that decodes as a bank send, and every contract execution
/// whose payload parses as a CW20 transfer.
pub proof fn lemma_monitor_funds_wildcard(
    rule: AlertCosmosMonitorFunds,
    ev: AlertSourceCosmosMsg,
)
    requires
        rule.address@.len() == 0,
        bank_send_of(ev.msg.type_url@, ev.msg.value@) is Some || (execute_contract_of(
            ev.msg.type_url@,
            ev.msg.value@,
        ) matches Some(e) && cw20_parse_of(e.msg) is Transfer),
    ensures
        rule.matches_spec(ev) is Ok,
{
}

/// The subset law, first half: when the message executes the watched
/// contract and its log holds the named event, the rule matches exactly
/// when every required attribute occurs there with an equal value.
pub proof fn lemma_sc_events_subset(
    rule: AlertCosmosSmartContractEvents,
    ev: AlertSourceCosmosMsg,
    le: crate::events::LogEvent,
)
    requires
        execute_contract_of(ev.msg.type_url@, ev.msg.value@) matches Some(e) && (rule.address@.len()
            == 0 || e.contract == rule.address@),
        ev.msg_log matches Some(log) && last_event(log.events@, rule.event_name@) == Some(le),
    ensures
        rule.matches_spec(ev) is Ok <==> req_attrs_match(
            attrs_view(rule.event_attributes@),
            le.attributes@,
        ),
{
}

/// The subset law, second half: appending an attribute whose key the rule
/// does not name leaves the verdict unchanged.
pub proof fn lemma_unrelated_attribute(
    req: Seq<(Seq<char>, Seq<char>)>,
    attrs: Seq<EventAttribute>,
    extra: EventAttribute,
)
    requires
        forall|i: int| 0 <= i < req.len() ==> (#[trigger] req[i]).0 != extra.key@,
    ensures
        req_attrs_match(req, attrs.push(extra)) == req_attrs_match(req, attrs),
{
    assert(attrs.push(extra).drop_last() =~= attrs);
    assert forall|i: int| 0 <= i < req.len() implies attr_lookup(
        attrs.push(extra),
        (#[trigger] req[i]).0,
    ) == attr_lookup(attrs, req[i].0) by {
        assert(attrs.push(extra).last() == extra);
    }
}

/// Outcome duality on Cosmos: of two rules without a signer, one watching
/// success and one watching failure, exactly one matches any transaction.
pub proof fn lemma_outcome_duality_cosmos(
    succ: AlertCosmosTxOutcome,
    fail: AlertCosmosTxOutcome,
    ev: AlertSourceCosmosTx,
)
    requires
        succ.signer@.len() == 0,
        fail.signer@.len() == 0,
        succ.outcome is Succeeded,
        fail.outcome is Failed,
    ensures
        (succ.matches_spec(ev) is Ok) != (fail.matches_spec(ev) is Ok),
{
}

/// Outcome duality on EVM: of two rules without a signer, one watching
/// success and one watching failure, exactly one matches any transaction
/// whose receipt carries a status.
pub proof fn lemma_outcome_duality_eth(
    succ: crate::model::AlertEthTxOutcome,
    fail: crate::model::AlertEthTxOutcome,
    ev: AlertSourceEthTx,
)
    requires
        succ.signer@.len() == 0,
        fail.signer@.len() == 0,
        succ.outcome is Succeeded,
        fail.outcome is Failed,
        ev.status matches Some(st) && (st == 0 || st == 1),
    ensures
        (succ.matches_spec(ev) is Ok) != (fail.matches_spec(ev) is Ok),
{
}

} // verus!
