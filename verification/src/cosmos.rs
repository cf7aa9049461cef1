use vstd::prelude::*;

use crate::decode::{
    bank_send_of, cw20_parse_of, decode_bank_send, decode_execute_contract, execute_contract_of,
    parse_cw20, signer_accounts_of, BankSendView, Cw20Parse, Cw20ParseView, ExecContractView,
    Cw20TransferView,
};
use crate::events::{
    AlertSourceCosmosMsg, AlertSourceCosmosTx, AnyMsg, EventAttribute, LogEvent,
    ProcessAlertSourceRequeust,
};
use crate::model::{
    attrs_view, result_view_eq, AlertCosmosMonitorFunds, AlertCosmosSendFunds,
    AlertCosmosSmartContractEvents, AlertCosmosTxOutcome, AlertNotificationData, FilterError,
    MonitorFundsCoinNotificationData, MonitorFundsTokenNotificationData, NotificationDataView,
    SmartContractEventsNotificationData, TxOutcomeKind, TxOutcomeNotificationData,
};

verus! {

// ---------------------------------------------------------------------------
// Signer sets
// ---------------------------------------------------------------------------
/// The bech32 account ids of a transaction's signers, in signer order: each
/// key contributes the ids it expands to. A signer whose key is absent, or
/// whose key expands to no id, leaves no signer set at all: such a
/// transaction rejects every rule that names a signer.
pub open spec fn spec_signer_accounts(prefix: Seq<char>, keys: Seq<Option<AnyMsg>>) -> Option<
    Seq<Seq<char>>,
>
    decreases keys.len(),
{
    if keys.len() == 0 {
        Some(Seq::empty())
    } else {
        match spec_signer_accounts(prefix, keys.drop_last()) {
            None => None,
            Some(front) => match keys.last() {
                None => None,
                Some(k) => match signer_accounts_of(prefix, k.type_url@, k.value@) {
                    None => None,
                    Some(accs) => Some(front + accs),
                },
            },
        }
    }
}

/// Once one signer's key fails to expand, no longer prefix recovers.
proof fn lemma_signer_accounts_none(prefix: Seq<char>, keys: Seq<Option<AnyMsg>>, i: int)
    requires
        0 <= i <= keys.len(),
        spec_signer_accounts(prefix, keys.take(i)) is None,
    ensures
        spec_signer_accounts(prefix, keys) is None,
    decreases keys.len() - i,
{
    if i < keys.len() {
        assert(keys.take(i + 1).drop_last() =~= keys.take(i));
        lemma_signer_accounts_none(prefix, keys, i + 1);
    } else {
        assert(keys.take(i) =~= keys);
    }
}

/// Collects the bech32 account ids of the transaction's signers; a signer
/// whose key is absent or cannot be expanded fails the whole derivation.
pub fn get_signers_from_tx(chain_prefix: &str, signer_keys: &Vec<Option<AnyMsg>>) -> (r: Result<
    Vec<String>,
    FilterError,
>)
    ensures
        match r {
            Ok(v) => spec_signer_accounts(chain_prefix@, signer_keys@) == Some(v.deep_view()),
            Err(e) => {
                &&& e == FilterError::UnsupportedSignerKey
                &&& spec_signer_accounts(chain_prefix@, signer_keys@) is None
            },
        },
{
    let mut all_signers: Vec<String> = Vec::new();
    let mut i: usize = 0;
    while i < signer_keys.len()
        invariant
            i <= signer_keys@.len(),
            spec_signer_accounts(chain_prefix@, signer_keys@.take(i as int)) == Some(
                all_signers.deep_view(),
            ),
        decreases signer_keys@.len() - i,
    {
        proof {
            assert(signer_keys@.take(i + 1).drop_last() =~= signer_keys@.take(i as int));
            assert(signer_keys@.take(i + 1).last() == signer_keys@[i as int]);
        }
        match &signer_keys[i] {
            Some(k) => {
                match crate::decode::signer_key_accounts(chain_prefix, k) {
                    Some(accs) => {
                        let ghost front = all_signers.deep_view();
                        let mut j: usize = 0;
                        proof {
                            assert(front + accs.deep_view().take(0) =~= front);
                        }
                        while j < accs.len()
                            invariant
                                j <= accs@.len(),
                                all_signers.deep_view() == front + accs.deep_view().take(j as int),
                            decreases accs@.len() - j,
                        {
                            let ghost pre = all_signers.deep_view();
                            all_signers.push(accs[j].clone());
                            proof {
                                let e = accs.deep_view()[j as int];
                                assert(all_signers.deep_view() =~= pre.push(accs@[j as int]@));
                                assert(accs@[j as int]@ == e);
                                assert(accs.deep_view().take(j + 1) =~= accs.deep_view().take(
                                    j as int,
                                ).push(e));
                                assert(pre.push(e) =~= front + accs.deep_view().take(j + 1));
                            }
                            j += 1;
                        }
                        proof {
                            assert(accs.deep_view().take(accs@.len() as int) =~= accs.deep_view());
                        }
                    },
                    None => {
                        proof {
                            lemma_signer_accounts_none(chain_prefix@, signer_keys@, i + 1);
                        }
                        return Err(FilterError::UnsupportedSignerKey);
                    },
                }
            },
            None => {
                proof {
                    lemma_signer_accounts_none(chain_prefix@, signer_keys@, i + 1);
                }
                return Err(FilterError::UnsupportedSignerKey);
            },
        }
        i += 1;
    }
    proof {
        assert(signer_keys@.take(signer_keys@.len() as int) =~= signer_keys@);
    }
    Ok(all_signers)
}

// ---------------------------------------------------------------------------
// Transaction outcome rules
// ---------------------------------------------------------------------------
impl AlertCosmosTxOutcome {
    /// Whether the transaction's result code is the watched one.
    pub open spec fn outcome_verdict(&self, ev: AlertSourceCosmosTx) -> Result<
        NotificationDataView,
        FilterError,
    > {
        if (self.outcome is Succeeded && ev.code == 0) || (self.outcome is Failed && ev.code
            != 0) {
            Ok(
                NotificationDataView::TxOutcome {
                    signer: self.signer@,
                    outcome: self.outcome.str_name(),
                    tx_hash: ev.tx_hash@,
                },
            )
        } else {
            Err(FilterError::OutcomeMismatch)
        }
    }

    /// The verdict of this rule on a Cosmos transaction: the signer, when the
    /// rule names one, must be in the transaction's signer set (a signer key
    /// that yields no account id rejects the rule outright), and the result
    /// code must agree with the watched outcome.
    pub open spec fn matches_spec(&self, ev: AlertSourceCosmosTx) -> Result<
        NotificationDataView,
        FilterError,
    > {
        if self.signer@.len() > 0 {
            match spec_signer_accounts(ev.chain_data.bech32_prefix@, ev.signer_keys@) {
                None => Err(FilterError::UnsupportedSignerKey),
                Some(signers) => if !signers.contains(self.signer@) {
                    Err(FilterError::SignerNotFound)
                } else {
                    self.outcome_verdict(ev)
                },
            }
        } else {
            self.outcome_verdict(ev)
        }
    }

    /// Evaluates this rule against an event.
    pub fn filter(&self, alert_source: &ProcessAlertSourceRequeust) -> (r: Result<
        AlertNotificationData,
        FilterError,
    >)
        ensures
            alert_source matches ProcessAlertSourceRequeust::CosmosTx(e) ==> result_view_eq(
                r,
                self.matches_spec(**e),
            ),
            !(alert_source is CosmosTx) ==> r == Err::<AlertNotificationData, FilterError>(
                FilterError::WrongEventKind,
            ),
    {
        let ctx = match alert_source.get_cosmos_tx() {
            Ok(c) => c,
            Err(e) => {
                return Err(e);
            },
        };
        if !self.signer.as_str().is_empty() {
            let signers = match get_signers_from_tx(
                ctx.chain_data.bech32_prefix.as_str(),
                &ctx.signer_keys,
            ) {
                Ok(signers) => signers,
                Err(e) => {
                    return Err(e);
                },
            };
            let mut found = false;
            let mut i: usize = 0;
            while i < signers.len()
                invariant
                    i <= signers@.len(),
                    found == exists|j: int|
                        0 <= j < i && signers.deep_view()[j] == self.signer@,
                decreases signers@.len() - i,
            {
                if signers[i] == self.signer {
                    proof {
                        assert(signers.deep_view()[i as int] == self.signer@);
                    }
                    found = true;
                }
                i += 1;
            }
            if !found {
                proof {
                    assert(!signers.deep_view().contains(self.signer@));
                }
                return Err(FilterError::SignerNotFound);
            }
        }
        let matched = match self.outcome {
            TxOutcomeKind::Succeeded => ctx.code == 0,
            TxOutcomeKind::Failed => ctx.code != 0,
        };
        if !matched {
            return Err(FilterError::OutcomeMismatch);
        }
        Ok(
            AlertNotificationData::TxOutcome(
                TxOutcomeNotificationData {
                    signer: self.signer.clone(),
                    outcome: String::from_str(self.outcome.as_str_name()),
                    tx_hash: ctx.tx_hash.clone(),
                },
            ),
        )
    }
}

// ---------------------------------------------------------------------------
// Fund monitoring rules
// ---------------------------------------------------------------------------
/// The notification view of a bank send seen by a monitoring rule.
pub open spec fn coin_notif_view(
    b: BankSendView,
    tx_hash: Seq<char>,
    monitored: Seq<char>,
) -> NotificationDataView {
    NotificationDataView::MonitorFundsCoin {
        from: b.from,
        to: b.to,
        amount: b.amount,
        tx_hash: tx_hash,
        monitored_address: monitored,
    }
}

/// The notification view of a CW20 transfer seen by a monitoring rule.
pub open spec fn token_notif_view(
    e: ExecContractView,
    t: Cw20TransferView,
    tx_hash: Seq<char>,
) -> NotificationDataView {
    NotificationDataView::MonitorFundsToken {
        from: e.sender,
        to: t.recipient,
        amount: t.amount,
        tx_hash: tx_hash,
        contract_addr: e.contract,
    }
}

impl AlertCosmosMonitorFunds {
    /// The verdict of this rule on one Cosmos message: a bank send or CW20
    /// transfer matches when the monitored address is empty or is the sender
    /// or the recipient.
    /// The verdict of the CW20 leg of this rule, tried after the bank leg.
    pub open spec fn cw20_verdict(&self, ev: AlertSourceCosmosMsg) -> Result<
        NotificationDataView,
        FilterError,
    > {
        match execute_contract_of(ev.msg.type_url@, ev.msg.value@) {
            Some(e) => match cw20_parse_of(e.msg) {
                Cw20ParseView::Transfer(t) => if self.address@.len() == 0 || self.address@
                    == e.sender || self.address@ == t.recipient {
                    Ok(token_notif_view(e, t, ev.tx_hash@))
                } else {
                    Err(FilterError::AddressNotRelated)
                },
                Cw20ParseView::Other => Err(FilterError::AddressNotRelated),
                Cw20ParseView::Invalid => Err(FilterError::DecodeFailure),
            },
            None => Err(FilterError::AddressNotRelated),
        }
    }

    pub open spec fn matches_spec(&self, ev: AlertSourceCosmosMsg) -> Result<
        NotificationDataView,
        FilterError,
    > {
        match bank_send_of(ev.msg.type_url@, ev.msg.value@) {
            Some(b) => if self.address@.len() == 0 || self.address@ == b.from || self.address@
                == b.to {
                Ok(coin_notif_view(b, ev.tx_hash@, self.address@))
            } else {
                self.cw20_verdict(ev)
            },
            None => self.cw20_verdict(ev),
        }
    }

    /// Evaluates this rule against an event.
    pub fn filter(&self, req: &ProcessAlertSourceRequeust) -> (r: Result<
        AlertNotificationData,
        FilterError,
    >)
        ensures
            req matches ProcessAlertSourceRequeust::CosmosMsg(e) ==> result_view_eq(
                r,
                self.matches_spec(**e),
            ),
            !(req is CosmosMsg) ==> r == Err::<AlertNotificationData, FilterError>(
                FilterError::WrongEventKind,
            ),
    {
        let ctx = match req.get_cosmos_msg() {
            Ok(c) => c,
            Err(e) => {
                return Err(e);
            },
        };
        if let Some(bank) = decode_bank_send(&ctx.msg) {
            if self.address.as_str().is_empty() || self.address == bank.from || self.address
                == bank.to {
                return Ok(
                    AlertNotificationData::MonitorFundsCoin(
                        MonitorFundsCoinNotificationData {
                            from: bank.from,
                            to: bank.to,
                            amount: bank.amount,
                            tx_hash: ctx.tx_hash.clone(),
                            monitored_address: self.address.clone(),
                        },
                    ),
                );
            }
        }
        match decode_execute_contract(&ctx.msg) {
            Some(e) => match parse_cw20(&e.msg) {
                Cw20Parse::Transfer(t) => {
                    if self.address.as_str().is_empty() || self.address == e.sender || self.address
                        == t.recipient {
                        Ok(
                            AlertNotificationData::MonitorFundsToken(
                                MonitorFundsTokenNotificationData {
                                    from: e.sender,
                                    to: t.recipient,
                                    amount: t.amount,
                                    tx_hash: ctx.tx_hash.clone(),
                                    contract_addr: e.contract,
                                },
                            ),
                        )
                    } else {
                        Err(FilterError::AddressNotRelated)
                    }
                },
                Cw20Parse::Other => Err(FilterError::AddressNotRelated),
                Cw20Parse::Invalid => Err(FilterError::DecodeFailure),
            },
            None => Err(FilterError::AddressNotRelated),
        }
    }
}

impl AlertCosmosSendFunds {
    /// The verdict of this rule on one Cosmos message: a bank send or CW20
    /// transfer matches when each nonempty side equals the rule's; a
    /// mismatch on either side is refused outright.
    pub open spec fn matches_spec(&self, ev: AlertSourceCosmosMsg) -> Result<
        NotificationDataView,
        FilterError,
    > {
        match bank_send_of(ev.msg.type_url@, ev.msg.value@) {
            Some(b) => if self.from@.len() > 0 && b.from != self.from@ {
                Err(FilterError::WrongFromAddress)
            } else if self.to@.len() > 0 && b.to != self.to@ {
                Err(FilterError::WrongToAddress)
            } else {
                Ok(coin_notif_view(b, ev.tx_hash@, b.from))
            },
            None => match execute_contract_of(ev.msg.type_url@, ev.msg.value@) {
                Some(e) => match cw20_parse_of(e.msg) {
                    Cw20ParseView::Transfer(t) => if self.from@.len() > 0 && e.sender
                        != self.from@ {
                        Err(FilterError::WrongFromAddress)
                    } else if self.to@.len() > 0 && t.recipient != self.to@ {
                        Err(FilterError::WrongToAddress)
                    } else {
                        Ok(token_notif_view(e, t, ev.tx_hash@))
                    },
                    Cw20ParseView::Other => Err(FilterError::WrongMessageType),
                    Cw20ParseView::Invalid => Err(FilterError::DecodeFailure),
                },
                None => Err(FilterError::WrongMessageType),
            },
        }
    }

    /// Evaluates this rule against an event.
    pub fn filter(&self, req: &ProcessAlertSourceRequeust) -> (r: Result<
        AlertNotificationData,
        FilterError,
    >)
        ensures
            req matches ProcessAlertSourceRequeust::CosmosMsg(e) ==> result_view_eq(
                r,
                self.matches_spec(**e),
            ),
            !(req is CosmosMsg) ==> r == Err::<AlertNotificationData, FilterError>(
                FilterError::WrongEventKind,
            ),
    {
        let ctx = match req.get_cosmos_msg() {
            Ok(c) => c,
            Err(e) => {
                return Err(e);
            },
        };
        if let Some(bank) = decode_bank_send(&ctx.msg) {
            if !self.from.as_str().is_empty() && !(bank.from == self.from) {
                return Err(FilterError::WrongFromAddress);
            }
            if !self.to.as_str().is_empty() && !(bank.to == self.to) {
                return Err(FilterError::WrongToAddress);
            }
            let monitored = bank.from.clone();
            return Ok(
                AlertNotificationData::MonitorFundsCoin(
                    MonitorFundsCoinNotificationData {
                        from: bank.from,
                        to: bank.to,
                        amount: bank.amount,
                        tx_hash: ctx.tx_hash.clone(),
                        monitored_address: monitored,
                    },
                ),
            );
        }
        match decode_execute_contract(&ctx.msg) {
            Some(e) => match parse_cw20(&e.msg) {
                Cw20Parse::Transfer(t) => {
                    if !self.from.as_str().is_empty() && !(e.sender == self.from) {
                        Err(FilterError::WrongFromAddress)
                    } else if !self.to.as_str().is_empty() && !(t.recipient == self.to) {
                        Err(FilterError::WrongToAddress)
                    } else {
                        Ok(
                            AlertNotificationData::MonitorFundsToken(
                                MonitorFundsTokenNotificationData {
                                    from: e.sender,
                                    to: t.recipient,
                                    amount: t.amount,
                                    tx_hash: ctx.tx_hash.clone(),
                                    contract_addr: e.contract,
                                },
                            ),
                        )
                    }
                },
                Cw20Parse::Other => Err(FilterError::WrongMessageType),
                Cw20Parse::Invalid => Err(FilterError::DecodeFailure),
            },
            None => Err(FilterError::WrongMessageType),
        }
    }
}

// ---------------------------------------------------------------------------
// Contract event rules
// ---------------------------------------------------------------------------
/// The last event of the given type in a message log, the one whose
/// attributes a rule reads.
pub open spec fn last_event(events: Seq<LogEvent>, name: Seq<char>) -> Option<LogEvent>
    decreases events.len(),
{
    if events.len() == 0 {
        None
    } else if events.last().event_type@ == name {
        Some(events.last())
    } else {
        last_event(events.drop_last(), name)
    }
}

/// The last value bound to a key in an attribute list, the binding a rule
/// reads.
pub open spec fn attr_lookup(attrs: Seq<EventAttribute>, key: Seq<char>) -> Option<Seq<char>>
    decreases attrs.len(),
{
    if attrs.len() == 0 {
        None
    } else if attrs.last().key@ == key {
        Some(attrs.last().value@)
    } else {
        attr_lookup(attrs.drop_last(), key)
    }
}

/// Whether every required pair occurs, with an equal value, in the
/// attribute list.
pub open spec fn req_attrs_match(
    req: Seq<(Seq<char>, Seq<char>)>,
    attrs: Seq<EventAttribute>,
) -> bool {
    forall|i: int|
        0 <= i < req.len() ==> attr_lookup(attrs, (#[trigger] req[i]).0) == Some(req[i].1)
}

/// Finds the last event of the given type in a list.
fn find_last_event<'a>(events: &'a Vec<LogEvent>, name: &String) -> (r: Option<&'a LogEvent>)
    ensures
        match r {
            Some(e) => last_event(events@, name@) == Some(*e),
            None => last_event(events@, name@) is None,
        },
{
    let mut i: usize = events.len();
    proof {
        assert(events@.take(events@.len() as int) =~= events@);
    }
    while i > 0
        invariant
            i <= events@.len(),
            last_event(events@, name@) == last_event(events@.take(i as int), name@),
        decreases i,
    {
        i -= 1;
        proof {
            assert(events@.take(i + 1).drop_last() =~= events@.take(i as int));
            assert(events@.take(i + 1).last() == events@[i as int]);
        }
        if events[i].event_type.eq(name) {
            return Some(&events[i]);
        }
    }
    proof {
        assert(events@.take(0) =~= Seq::<LogEvent>::empty());
    }
    None
}

/// Finds the last value bound to a key in an attribute list.
fn find_attr<'a>(attrs: &'a Vec<EventAttribute>, key: &String) -> (r: Option<&'a String>)
    ensures
        match r {
            Some(v) => attr_lookup(attrs@, key@) == Some(v@),
            None => attr_lookup(attrs@, key@) is None,
        },
{
    let mut i: usize = attrs.len();
    proof {
        assert(attrs@.take(attrs@.len() as int) =~= attrs@);
    }
    while i > 0
        invariant
            i <= attrs@.len(),
            attr_lookup(attrs@, key@) == attr_lookup(attrs@.take(i as int), key@),
        decreases i,
    {
        i -= 1;
        proof {
            assert(attrs@.take(i + 1).drop_last() =~= attrs@.take(i as int));
            assert(attrs@.take(i + 1).last() == attrs@[i as int]);
        }
        if attrs[i].key.eq(key) {
            return Some(&attrs[i].value);
        }
    }
    proof {
        assert(attrs@.take(0) =~= Seq::<EventAttribute>::empty());
    }
    None
}

/// Checks that every required attribute occurs with an equal value.
pub fn attrs_subset_match(req: &Vec<(String, String)>, attrs: &Vec<EventAttribute>) -> (r: bool)
    ensures
        r == req_attrs_match(attrs_view(req@), attrs@),
{
    let mut i: usize = 0;
    while i < req.len()
        invariant
            i <= req@.len(),
            forall|j: int|
                0 <= j < i ==> attr_lookup(attrs@, (#[trigger] attrs_view(req@)[j]).0) == Some(
                    attrs_view(req@)[j].1,
                ),
        decreases req@.len() - i,
    {
        let (k, v) = (&req[i].0, &req[i].1);
        match find_attr(attrs, k) {
            Some(got) => {
                if !got.eq(v) {
                    proof {
                        assert(attr_lookup(attrs@, attrs_view(req@)[i as int].0) != Some(
                            attrs_view(req@)[i as int].1,
                        ));
                    }
                    return false;
                }
                proof {
                    assert(attr_lookup(attrs@, (attrs_view(req@)[i as int]).0) == Some(
                        attrs_view(req@)[i as int].1,
                    ));
                }
            },
            None => {
                proof {
                    assert(attr_lookup(attrs@, attrs_view(req@)[i as int].0) is None);
                }
                return false;
            },
        }
        i += 1;
    }
    true
}

impl AlertCosmosSmartContractEvents {
    /// The verdict of this rule on one Cosmos message: the message must
    /// execute the watched contract, its log must hold the named event, and
    /// every required attribute must occur there with an equal value.
    pub open spec fn matches_spec(&self, ev: AlertSourceCosmosMsg) -> Result<
        NotificationDataView,
        FilterError,
    > {
        match execute_contract_of(ev.msg.type_url@, ev.msg.value@) {
            Some(e) => if self.address@.len() > 0 && e.contract != self.address@ {
                Err(FilterError::WrongContract)
            } else {
                match ev.msg_log {
                    None => Err(FilterError::MissingMsgLog),
                    Some(log) => match last_event(log.events@, self.event_name@) {
                        None => Err(FilterError::EventNotFound),
                        Some(le) => if req_attrs_match(
                            attrs_view(self.event_attributes@),
                            le.attributes@,
                        ) {
                            Ok(
                                NotificationDataView::ScEvents {
                                    contract_addr: e.contract,
                                    event_name: self.event_name@,
                                    event_attributes: attrs_view(self.event_attributes@),
                                    tx_hash: ev.tx_hash@,
                                },
                            )
                        } else {
                            Err(FilterError::AttributeMismatch)
                        },
                    },
                }
            },
            None => Err(FilterError::WrongMessageType),
        }
    }

    /// Evaluates this rule against an event.
    pub fn filter(&self, req: &ProcessAlertSourceRequeust) -> (r: Result<
        AlertNotificationData,
        FilterError,
    >)
        ensures
            req matches ProcessAlertSourceRequeust::CosmosMsg(e) ==> result_view_eq(
                r,
                self.matches_spec(**e),
            ),
            !(req is CosmosMsg) ==> r == Err::<AlertNotificationData, FilterError>(
                FilterError::WrongEventKind,
            ),
    {
        let ctx = match req.get_cosmos_msg() {
            Ok(c) => c,
            Err(e) => {
                return Err(e);
            },
        };
        let exec = match decode_execute_contract(&ctx.msg) {
            Some(e) => e,
            None => {
                return Err(FilterError::WrongMessageType);
            },
        };
        if !self.address.as_str().is_empty() && !(exec.contract == self.address) {
            return Err(FilterError::WrongContract);
        }
        let log = match &ctx.msg_log {
            Some(log) => log,
            None => {
                return Err(FilterError::MissingMsgLog);
            },
        };
        let le = match find_last_event(&log.events, &self.event_name) {
            Some(le) => le,
            None => {
                return Err(FilterError::EventNotFound);
            },
        };
        if !attrs_subset_match(&self.event_attributes, &le.attributes) {
            return Err(FilterError::AttributeMismatch);
        }
        Ok(
            AlertNotificationData::ScEvents(
                SmartContractEventsNotificationData {
                    contract_addr: exec.contract,
                    event_name: self.event_name.clone(),
                    event_attributes: clone_attrs(&self.event_attributes),
                    tx_hash: ctx.tx_hash.clone(),
                },
            ),
        )
    }
}

/// Copies an attribute list, pair by pair.
pub fn clone_attrs(attrs: &Vec<(String, String)>) -> (r: Vec<(String, String)>)
    ensures
        attrs_view(r@) == attrs_view(attrs@),
{
    let mut out: Vec<(String, String)> = Vec::new();
    let mut i: usize = 0;
    while i < attrs.len()
        invariant
            i <= attrs@.len(),
            attrs_view(out@) =~= attrs_view(attrs@.take(i as int)),
        decreases attrs@.len() - i,
    {
        let ghost pre = attrs_view(out@);
        out.push((attrs[i].0.clone(), attrs[i].1.clone()));
        proof {
            let e = (attrs@[i as int].0@, attrs@[i as int].1@);
            assert(attrs_view(out@) =~= pre.push(e));
            assert(attrs_view(attrs@.take(i + 1)) =~= attrs_view(attrs@.take(i as int)).push(e));
        }
        i += 1;
    }
    proof {
        assert(attrs@.take(attrs@.len() as int) =~= attrs@);
    }
    out
}

} // verus!
