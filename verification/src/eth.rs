use vstd::prelude::*;

use crate::decode::{
    base64_decoded, be_bytes_nat, decode_base64, parse_event_log, parsed_event_attrs, topics_view,
    u256_decimal,
};
use crate::events::{AlertSourceEthLog, AlertSourceEthTx, ProcessAlertSourceRequeust};
use crate::model::{
    attrs_view, result_view_eq, AlertEthMonitorFunds, AlertEthSmartContractEvents,
    AlertEthTxOutcome, AlertNotificationData, CoinAmount, FilterError,
    MonitorFundsCoinNotificationData, MonitorFundsTokenNotificationData, NotificationDataView,
    SmartContractEventsNotificationData, TxOutcomeKind, TxOutcomeNotificationData,
};
use crate::strings::{
    addr_chars_of, ascii_lower_eq, dec_str_of, lemma_addr_chars_lower, lower_chars, HashString,
};

verus! {

// ---------------------------------------------------------------------------
// ERC-20 transfer call data
// ---------------------------------------------------------------------------
/// The four selector bytes of `transfer(address,uint256)`.
pub open spec fn transfer_selector() -> Seq<u8> {
    seq![0xa9u8, 0x05u8, 0x9cu8, 0xbbu8]
}

/// How ERC-20 `transfer` call data reads: the four selector bytes, then the
/// recipient as the last 20 bytes of a 32-byte word, then the 32-byte
/// big-endian amount; trailing bytes are ignored.
pub open spec fn erc20_transfer_input(input: Seq<u8>) -> Result<(Seq<u8>, Seq<u8>), FilterError> {
    if input.len() < 4 || input.subrange(0, 4) != transfer_selector() {
        Err(FilterError::WrongMessageType)
    } else if input.len() < 68 {
        Err(FilterError::DecodeFailure)
    } else {
        Ok((input.subrange(16, 36), input.subrange(36, 68)))
    }
}

/// Copies a range of a byte string.
fn copy_range(v: &Vec<u8>, start: usize, end: usize) -> (r: Vec<u8>)
    requires
        start <= end <= v@.len(),
    ensures
        r@ == v@.subrange(start as int, end as int),
{
    let mut out: Vec<u8> = Vec::new();
    let mut i: usize = start;
    while i < end
        invariant
            start <= i <= end <= v@.len(),
            out@ =~= v@.subrange(start as int, i as int),
        decreases end - i,
    {
        out.push(v[i]);
        proof {
            assert(out@ =~= v@.subrange(start as int, i + 1));
        }
        i += 1;
    }
    out
}

/// Reads ERC-20 `transfer` call data: the recipient's 20 address bytes and
/// the 32 amount bytes.
fn parse_erc20_transfer(input: &Vec<u8>) -> (r: Result<(Vec<u8>, Vec<u8>), FilterError>)
    ensures
        match r {
            Ok((to, amt)) => erc20_transfer_input(input@) matches Ok(p) && p.0 == to@ && p.1
                == amt@ && to@.len() == 20 && amt@.len() == 32,
            Err(e) => erc20_transfer_input(input@) == Err::<(Seq<u8>, Seq<u8>), FilterError>(e),
        },
{
    if input.len() < 4 || !(input[0] == 0xa9 && input[1] == 0x05 && input[2] == 0x9c && input[3]
        == 0xbb) {
        proof {
            if input@.len() >= 4 {
                assert(input@.subrange(0, 4) =~= transfer_selector() ==> (input@[0] == 0xa9
                    && input@[1] == 0x05 && input@[2] == 0x9c && input@[3] == 0xbb));
            }
        }
        return Err(FilterError::WrongMessageType);
    }
    proof {
        assert(input@.subrange(0, 4) =~= transfer_selector());
    }
    if input.len() < 68 {
        return Err(FilterError::DecodeFailure);
    }
    let to = copy_range(input, 16, 36);
    let amt = copy_range(input, 36, 68);
    Ok((to, amt))
}

// ---------------------------------------------------------------------------
// EVM transaction outcome rules
// ---------------------------------------------------------------------------
impl AlertEthTxOutcome {
    /// The verdict of this rule on an EVM transaction: the signer, when the
    /// rule names one, must be the receipt's sender up to letter case, and
    /// the receipt's status must agree with the watched outcome.
    pub open spec fn matches_spec(&self, ev: AlertSourceEthTx) -> Result<
        NotificationDataView,
        FilterError,
    > {
        let from = addr_chars_of(ev.receipt_from@);
        if self.signer@.len() > 0 && from != lower_chars(self.signer@) {
            Err(FilterError::SignerNotFound)
        } else {
            match ev.status {
                None => Err(FilterError::MissingStatus),
                Some(st) => if (self.outcome is Succeeded && st == 1) || (self.outcome is Failed
                    && st == 0) {
                    Ok(
                        NotificationDataView::TxOutcome {
                            signer: self.signer@,
                            outcome: self.outcome.str_name(),
                            tx_hash: ev.tx_hash@,
                        },
                    )
                } else {
                    Err(FilterError::OutcomeMismatch)
                },
            }
        }
    }

    /// Evaluates this rule against an event.
    pub fn filter(&self, alert_source: &ProcessAlertSourceRequeust) -> (r: Result<
        AlertNotificationData,
        FilterError,
    >)
        ensures
            alert_source matches ProcessAlertSourceRequeust::EthTx(e) ==> result_view_eq(
                r,
                self.matches_spec(**e),
            ),
            !(alert_source is EthTx) ==> r == Err::<AlertNotificationData, FilterError>(
                FilterError::WrongEventKind,
            ),
    {
        let ctx = match alert_source.get_eth_tx() {
            Ok(c) => c,
            Err(e) => {
                return Err(e);
            },
        };
        let from = ctx.receipt_from.hash_string();
        proof {
            lemma_addr_chars_lower(ctx.receipt_from@);
        }
        if !self.signer.as_str().is_empty() && !ascii_lower_eq(
            from.as_str(),
            self.signer.as_str(),
        ) {
            return Err(FilterError::SignerNotFound);
        }
        let status = match ctx.status {
            Some(st) => st,
            None => {
                return Err(FilterError::MissingStatus);
            },
        };
        let matched = match self.outcome {
            TxOutcomeKind::Succeeded => status == 1,
            TxOutcomeKind::Failed => status == 0,
        };
        if !matched {
            return Err(FilterError::OutcomeMismatch);
        }
        Ok(
            AlertNotificationData::TxOutcome(
                TxOutcomeNotificationData {
                    signer: self.signer.clone(),
                    outcome: String::from_str(self.outcome.as_str_name()),
                    tx_hash: ctx.tx_hash.clone(),
                },
            ),
        )
    }
}

// ---------------------------------------------------------------------------
// EVM fund monitoring rules
// ---------------------------------------------------------------------------
impl AlertEthMonitorFunds {
    /// The verdict of the native-transfer leg: the receipt must name a
    /// recipient, and the monitored address, when nonempty, must be the
    /// sender or the recipient up to letter case.
    pub open spec fn native_verdict(&self, ev: AlertSourceEthTx) -> Result<
        NotificationDataView,
        FilterError,
    > {
        match ev.receipt_to {
            None => Err(FilterError::MissingToAddress),
            Some(to) => {
                let from_s = addr_chars_of(ev.receipt_from@);
                let to_s = addr_chars_of(to@);
                let address = lower_chars(self.address@);
                if address.len() == 0 || address == from_s || address == to_s {
                    Ok(
                        NotificationDataView::MonitorFundsCoin {
                            from: from_s,
                            to: to_s,
                            amount: seq![
                                crate::model::CoinAmountView {
                                    amount: dec_str_of(be_bytes_nat(ev.value@)),
                                    denom: Seq::empty(),
                                },
                            ],
                            tx_hash: ev.tx_hash@,
                            monitored_address: self.address@,
                        },
                    )
                } else {
                    Err(FilterError::AddressNotRelated)
                }
            },
        }
    }

    /// The verdict of the ERC-20 leg: the call data must be a `transfer`,
    /// the transaction must name the token contract, and the monitored
    /// address, when nonempty, must be the sender or the recipient up to
    /// letter case.
    pub open spec fn token_verdict(&self, ev: AlertSourceEthTx) -> Result<
        NotificationDataView,
        FilterError,
    > {
        match erc20_transfer_input(ev.input@) {
            Err(e) => Err(e),
            Ok(p) => match ev.to {
                None => Err(FilterError::MissingToAddress),
                Some(contract) => {
                    let from_s = addr_chars_of(ev.receipt_from@);
                    let to_s = addr_chars_of(p.0);
                    let address = lower_chars(self.address@);
                    if address.len() == 0 || address == from_s || address == to_s {
                        Ok(
                            NotificationDataView::MonitorFundsToken {
                                from: from_s,
                                to: to_s,
                                amount: dec_str_of(be_bytes_nat(p.1)),
                                tx_hash: ev.tx_hash@,
                                contract_addr: addr_chars_of(contract@),
                            },
                        )
                    } else {
                        Err(FilterError::AddressNotRelated)
                    }
                },
            },
        }
    }

    /// The verdict of this rule on an EVM transaction: the transaction must
    /// have succeeded; call data empty with a nonzero amount reads as a
    /// native transfer, anything else as an ERC-20 `transfer`.
    pub open spec fn matches_spec(&self, ev: AlertSourceEthTx) -> Result<
        NotificationDataView,
        FilterError,
    > {
        if !(ev.status matches Some(st) && st != 0) {
            Err(FilterError::TxFailed)
        } else if ev.input@.len() == 0 && be_bytes_nat(ev.value@) != 0 {
            self.native_verdict(ev)
        } else {
            self.token_verdict(ev)
        }
    }

    /// Evaluates this rule against an event.
    pub fn filter(&self, alert_source: &ProcessAlertSourceRequeust) -> (r: Result<
        AlertNotificationData,
        FilterError,
    >)
        requires
            alert_source.wf(),
        ensures
            alert_source matches ProcessAlertSourceRequeust::EthTx(e) ==> result_view_eq(
                r,
                self.matches_spec(**e),
            ),
            !(alert_source is EthTx) ==> r == Err::<AlertNotificationData, FilterError>(
                FilterError::WrongEventKind,
            ),
    {
        let ctx = match alert_source.get_eth_tx() {
            Ok(c) => c,
            Err(e) => {
                return Err(e);
            },
        };
        let succeeded = match ctx.status {
            Some(st) => st != 0,
            None => false,
        };
        if !succeeded {
            return Err(FilterError::TxFailed);
        }
        let from = ctx.receipt_from.hash_string();
        proof {
            lemma_addr_chars_lower(ctx.receipt_from@);
        }
        if ctx.input.len() == 0 && !is_zero_word(&ctx.value) {
            let to_bytes = match &ctx.receipt_to {
                Some(to) => to,
                None => {
                    return Err(FilterError::MissingToAddress);
                },
            };
            let to = to_bytes.hash_string();
            proof {
                lemma_addr_chars_lower(to_bytes@);
            }
            let related = self.address.as_str().is_empty() || ascii_lower_eq(
                self.address.as_str(),
                from.as_str(),
            ) || ascii_lower_eq(self.address.as_str(), to.as_str());
            if related {
                let mut amount: Vec<CoinAmount> = Vec::new();
                amount.push(CoinAmount { amount: u256_decimal(&ctx.value), denom: String::new() });
                proof {
                    assert(crate::model::coins_view(amount@) =~= seq![
                        crate::model::CoinAmountView {
                            amount: dec_str_of(be_bytes_nat(ctx.value@)),
                            denom: Seq::empty(),
                        },
                    ]);
                }
                Ok(
                    AlertNotificationData::MonitorFundsCoin(
                        MonitorFundsCoinNotificationData {
                            from,
                            to,
                            amount,
                            tx_hash: ctx.tx_hash.clone(),
                            monitored_address: self.address.clone(),
                        },
                    ),
                )
            } else {
                Err(FilterError::AddressNotRelated)
            }
        } else {
            let (to_addr_bytes, amt_bytes) = match parse_erc20_transfer(&ctx.input) {
                Ok(p) => p,
                Err(e) => {
                    return Err(e);
                },
            };
            let contract_bytes = match &ctx.to {
                Some(c) => c,
                None => {
                    return Err(FilterError::MissingToAddress);
                },
            };
            let to = to_addr_bytes.hash_string();
            proof {
                lemma_addr_chars_lower(to_addr_bytes@);
            }
            let related = self.address.as_str().is_empty() || ascii_lower_eq(
                self.address.as_str(),
                from.as_str(),
            ) || ascii_lower_eq(self.address.as_str(), to.as_str());
            if related {
                Ok(
                    AlertNotificationData::MonitorFundsToken(
                        MonitorFundsTokenNotificationData {
                            from,
                            to,
                            amount: u256_decimal(&amt_bytes),
                            tx_hash: ctx.tx_hash.clone(),
                            contract_addr: contract_bytes.hash_string(),
                        },
                    ),
                )
            } else {
                Err(FilterError::AddressNotRelated)
            }
        }
    }
}

/// Whether a big-endian word is zero.
fn is_zero_word(v: &Vec<u8>) -> (r: bool)
    ensures
        r == (be_bytes_nat(v@) == 0),
{
    let mut i: usize = 0;
    let mut zero = true;
    while i < v.len()
        invariant
            i <= v@.len(),
            zero == (forall|j: int| 0 <= j < i ==> v@[j] == 0),
        decreases v@.len() - i,
    {
        if v[i] != 0 {
            zero = false;
        }
        i += 1;
    }
    proof {
        lemma_be_zero(v@);
    }
    zero
}

/// A big-endian word is zero exactly when each of its bytes is.
proof fn lemma_be_zero(s: Seq<u8>)
    ensures
        (be_bytes_nat(s) == 0) <==> (forall|j: int| 0 <= j < s.len() ==> s[j] == 0),
    decreases s.len(),
{
    if s.len() > 0 {
        lemma_be_zero(s.drop_last());
        assert forall|j: int| 0 <= j < s.len() - 1 implies s.drop_last()[j] == s[j] by {}
        if be_bytes_nat(s) == 0 {
            assert(be_bytes_nat(s.drop_last()) == 0);
            assert(s[s.len() - 1] == 0);
        }
        if forall|j: int| 0 <= j < s.len() ==> s[j] == 0 {
            assert(forall|j: int| 0 <= j < s.drop_last().len() ==> s.drop_last()[j] == 0);
            assert(s.last() == 0);
        }
    }
}

// ---------------------------------------------------------------------------
// EVM contract event rules
// ---------------------------------------------------------------------------
/// The last value bound to a key in a parsed attribute list.
pub open spec fn pairs_lookup(pairs: Seq<(Seq<char>, Seq<char>)>, key: Seq<char>) -> Option<
    Seq<char>,
>
    decreases pairs.len(),
{
    if pairs.len() == 0 {
        None
    } else if pairs.last().0 == key {
        Some(pairs.last().1)
    } else {
        pairs_lookup(pairs.drop_last(), key)
    }
}

/// Whether every required pair occurs, with an equal value, in the parsed
/// attribute list.
pub open spec fn req_pairs_match(
    req: Seq<(Seq<char>, Seq<char>)>,
    pairs: Seq<(Seq<char>, Seq<char>)>,
) -> bool {
    forall|i: int|
        0 <= i < req.len() ==> pairs_lookup(pairs, (#[trigger] req[i]).0) == Some(req[i].1)
}

/// Finds the last value bound to a key in a parsed attribute list.
fn find_pair<'a>(pairs: &'a Vec<(String, String)>, key: &String) -> (r: Option<&'a String>)
    ensures
        match r {
            Some(v) => pairs_lookup(attrs_view(pairs@), key@) == Some(v@),
            None => pairs_lookup(attrs_view(pairs@), key@) is None,
        },
{
    let ghost pv = attrs_view(pairs@);
    let mut i: usize = pairs.len();
    proof {
        assert(pv.take(pv.len() as int) =~= pv);
    }
    while i > 0
        invariant
            i <= pairs@.len(),
            pv == attrs_view(pairs@),
            pairs_lookup(pv, key@) == pairs_lookup(pv.take(i as int), key@),
        decreases i,
    {
        i -= 1;
        proof {
            assert(pv.take(i + 1).drop_last() =~= pv.take(i as int));
            assert(pv.take(i + 1).last() == pv[i as int]);
        }
        if pairs[i].0.eq(key) {
            return Some(&pairs[i].1);
        }
    }
    proof {
        assert(pv.take(0) =~= Seq::<(Seq<char>, Seq<char>)>::empty());
    }
    None
}

/// Checks that every required attribute occurs, with an equal value, among
/// the parsed ones.
pub fn pairs_subset_match(req: &Vec<(String, String)>, pairs: &Vec<(String, String)>) -> (r: bool)
    ensures
        r == req_pairs_match(attrs_view(req@), attrs_view(pairs@)),
{
    let mut i: usize = 0;
    while i < req.len()
        invariant
            i <= req@.len(),
            forall|j: int|
                0 <= j < i ==> pairs_lookup(attrs_view(pairs@), (#[trigger] attrs_view(req@)[j]).0)
                    == Some(attrs_view(req@)[j].1),
        decreases req@.len() - i,
    {
        let (k, v) = (&req[i].0, &req[i].1);
        match find_pair(pairs, k) {
            Some(got) => {
                if !got.eq(v) {
                    proof {
                        assert(pairs_lookup(attrs_view(pairs@), attrs_view(req@)[i as int].0)
                            != Some(attrs_view(req@)[i as int].1));
                    }
                    return false;
                }
                proof {
                    assert(pairs_lookup(attrs_view(pairs@), attrs_view(req@)[i as int].0) == Some(
                        attrs_view(req@)[i as int].1,
                    ));
                }
            },
            None => {
                proof {
                    assert(pairs_lookup(attrs_view(pairs@), attrs_view(req@)[i as int].0) is None);
                }
                return false;
            },
        }
        i += 1;
    }
    true
}

impl AlertEthSmartContractEvents {
    /// The verdict of this rule on an EVM log: the log must come from the
    /// watched contract when one is named, the rule's ABI must decode the
    /// log as the named event, and every required attribute must occur
    /// there with an equal value.
    pub open spec fn matches_spec(&self, ev: AlertSourceEthLog) -> Result<
        NotificationDataView,
        FilterError,
    > {
        let got = addr_chars_of(ev.address@);
        if self.contract_addr@.len() > 0 && lower_chars(self.contract_addr@) != got {
            Err(FilterError::WrongContract)
        } else {
            match base64_decoded(self.contract_abi@) {
                None => Err(FilterError::DecodeFailure),
                Some(abi) => match parsed_event_attrs(
                    abi,
                    self.event_name@,
                    topics_view(ev.topics@),
                    ev.data@,
                ) {
                    None => Err(FilterError::DecodeFailure),
                    Some(pairs) => if req_pairs_match(attrs_view(self.event_attributes@), pairs) {
                        Ok(
                            NotificationDataView::ScEvents {
                                contract_addr: got,
                                event_name: self.event_name@,
                                event_attributes: attrs_view(self.event_attributes@),
                                tx_hash: ev.tx_hash@,
                            },
                        )
                    } else {
                        Err(FilterError::AttributeMismatch)
                    },
                },
            }
        }
    }

    /// Evaluates this rule against an event.
    pub fn filter(&self, alert_source: &ProcessAlertSourceRequeust) -> (r: Result<
        AlertNotificationData,
        FilterError,
    >)
        requires
            alert_source.wf(),
        ensures
            alert_source matches ProcessAlertSourceRequeust::EthLog(e) ==> result_view_eq(
                r,
                self.matches_spec(**e),
            ),
            !(alert_source is EthLog) ==> r == Err::<AlertNotificationData, FilterError>(
                FilterError::WrongEventKind,
            ),
    {
        let ctx = match alert_source.get_eth_log() {
            Ok(c) => c,
            Err(e) => {
                return Err(e);
            },
        };
        let got_contract_addr = ctx.address.hash_string();
        proof {
            lemma_addr_chars_lower(ctx.address@);
        }
        if !self.contract_addr.as_str().is_empty() && !ascii_lower_eq(
            self.contract_addr.as_str(),
            got_contract_addr.as_str(),
        ) {
            return Err(FilterError::WrongContract);
        }
        let abi = match decode_base64(self.contract_abi.as_str()) {
            Some(abi) => abi,
            None => {
                return Err(FilterError::DecodeFailure);
            },
        };
        let pairs = match parse_event_log(&abi, self.event_name.as_str(), &ctx.topics, &ctx.data) {
            Some(pairs) => pairs,
            None => {
                return Err(FilterError::DecodeFailure);
            },
        };
        if !pairs_subset_match(&self.event_attributes, &pairs) {
            return Err(FilterError::AttributeMismatch);
        }
        Ok(
            AlertNotificationData::ScEvents(
                SmartContractEventsNotificationData {
                    contract_addr: got_contract_addr,
                    event_name: self.event_name.clone(),
                    event_attributes: crate::cosmos::clone_attrs(&self.event_attributes),
                    tx_hash: ctx.tx_hash.clone(),
                },
            ),
        )
    }
}

/// The subset law on EVM logs, first half: when the log is from the watched
/// contract and the rule's ABI decodes it as the named event, the rule
/// matches exactly when every required attribute occurs among the parsed
/// ones with an equal value.
pub proof fn lemma_eth_sc_events_subset(
    rule: AlertEthSmartContractEvents,
    ev: AlertSourceEthLog,
    pairs: Seq<(Seq<char>, Seq<char>)>,
)
    requires
        rule.contract_addr@.len() == 0 || lower_chars(rule.contract_addr@) == addr_chars_of(
            ev.address@,
        ),
        base64_decoded(rule.contract_abi@) matches Some(abi) && parsed_event_attrs(
            abi,
            rule.event_name@,
            topics_view(ev.topics@),
            ev.data@,
        ) == Some(pairs),
    ensures
        rule.matches_spec(ev) is Ok <==> req_pairs_match(attrs_view(rule.event_attributes@), pairs),
{
}

/// The subset law on EVM logs, second half: appending a parsed attribute
/// whose name the rule does not require leaves the verdict unchanged.
pub proof fn lemma_eth_unrelated_attribute(
    req: Seq<(Seq<char>, Seq<char>)>,
    pairs: Seq<(Seq<char>, Seq<char>)>,
    extra: (Seq<char>, Seq<char>),
)
    requires
        forall|i: int| 0 <= i < req.len() ==> (#[trigger] req[i]).0 != extra.0,
    ensures
        req_pairs_match(req, pairs.push(extra)) == req_pairs_match(req, pairs),
{
    assert(pairs.push(extra).drop_last() =~= pairs);
    assert forall|i: int| 0 <= i < req.len() implies pairs_lookup(
        pairs.push(extra),
        (#[trigger] req[i]).0,
    ) == pairs_lookup(pairs, req[i].0) by {
        assert(pairs.push(extra).last() == extra);
    }
}

} // verus!
