use vstd::prelude::*;

use vstd::string::StringSliceAdditionalSpecFns;
use vstd::utf8::{decode_utf8, encode_utf8, valid_utf8};

use crate::model::{
    attrs_view, AlertCosmosMonitorFunds, AlertCosmosSendFunds, AlertCosmosSmartContractEvents,
    AlertCosmosTxOutcome, AlertEthMonitorFunds, AlertEthSmartContractEvents, AlertEthTxOutcome,
    AlertSource, ChainAlert, TxOutcomeKind,
};
use crate::strings::{hex_decode, hex_of, hex_parse, hex_string};

verus! {

impl ChainAlert {
    /// The event class a rule body reads: the codec's classification, stored
    /// beside the encoded body as the store's index tag. Total over every
    /// constructable body.
    pub open spec fn source_type_spec(&self) -> AlertSource {
        match self {
            ChainAlert::CosmosSendFunds(_) => AlertSource::CosmosMsg,
            ChainAlert::CosmosMonitorFunds(_) => AlertSource::CosmosMsg,
            ChainAlert::CosmosSmartContractEvents(_) => AlertSource::CosmosMsg,
            ChainAlert::CosmosTxOutcome(_) => AlertSource::CosmosTx,
            ChainAlert::EthSmartContractEvents(_) => AlertSource::EthLog,
            ChainAlert::EthMonitorFunds(_) => AlertSource::EthTx,
            ChainAlert::EthTxOutcome(_) => AlertSource::EthTx,
            ChainAlert::ArchwayBroadcast => AlertSource::ArchwaysBroadcast,
        }
    }

    /// Classifies a rule body.
    pub fn source_type(&self) -> (r: AlertSource)
        ensures
            r == self.source_type_spec(),
    {
        match self {
            ChainAlert::CosmosSendFunds(_) => AlertSource::CosmosMsg,
            ChainAlert::CosmosMonitorFunds(_) => AlertSource::CosmosMsg,
            ChainAlert::CosmosSmartContractEvents(_) => AlertSource::CosmosMsg,
            ChainAlert::CosmosTxOutcome(_) => AlertSource::CosmosTx,
            ChainAlert::EthSmartContractEvents(_) => AlertSource::EthLog,
            ChainAlert::EthMonitorFunds(_) => AlertSource::EthTx,
            ChainAlert::EthTxOutcome(_) => AlertSource::EthTx,
            ChainAlert::ArchwayBroadcast => AlertSource::ArchwaysBroadcast,
        }
    }
}

// ---------------------------------------------------------------------------
// The persistence form of a rule body
// ---------------------------------------------------------------------------
/// The view of a rule body: every string as its characters.
pub enum ChainAlertView {
    CosmosSendFunds { from: Seq<char>, to: Seq<char> },
    CosmosMonitorFunds { address: Seq<char> },
    CosmosSmartContractEvents {
        address: Seq<char>,
        event_name: Seq<char>,
        event_attributes: Seq<(Seq<char>, Seq<char>)>,
    },
    CosmosTxOutcome { signer: Seq<char>, outcome: TxOutcomeKind },
    EthSmartContractEvents {
        contract_addr: Seq<char>,
        contract_abi: Seq<char>,
        event_name: Seq<char>,
        event_attributes: Seq<(Seq<char>, Seq<char>)>,
    },
    EthMonitorFunds { address: Seq<char> },
    EthTxOutcome { signer: Seq<char>, outcome: TxOutcomeKind },
    ArchwayBroadcast,
}

impl View for ChainAlert {
    type V = ChainAlertView;

    open spec fn view(&self) -> ChainAlertView {
        match self {
            ChainAlert::CosmosSendFunds(a) => ChainAlertView::CosmosSendFunds {
                from: a.from@,
                to: a.to@,
            },
            ChainAlert::CosmosMonitorFunds(a) => ChainAlertView::CosmosMonitorFunds {
                address: a.address@,
            },
            ChainAlert::CosmosSmartContractEvents(a) => ChainAlertView::CosmosSmartContractEvents {
                address: a.address@,
                event_name: a.event_name@,
                event_attributes: attrs_view(a.event_attributes@),
            },
            ChainAlert::CosmosTxOutcome(a) => ChainAlertView::CosmosTxOutcome {
                signer: a.signer@,
                outcome: a.outcome,
            },
            ChainAlert::EthSmartContractEvents(a) => ChainAlertView::EthSmartContractEvents {
                contract_addr: a.contract_addr@,
                contract_abi: a.contract_abi@,
                event_name: a.event_name@,
                event_attributes: attrs_view(a.event_attributes@),
            },
            ChainAlert::EthMonitorFunds(a) => ChainAlertView::EthMonitorFunds {
                address: a.address@,
            },
            ChainAlert::EthTxOutcome(a) => ChainAlertView::EthTxOutcome {
                signer: a.signer@,
                outcome: a.outcome,
            },
            ChainAlert::ArchwayBroadcast => ChainAlertView::ArchwayBroadcast,
        }
    }
}

/// A number of 256-fold digits: how many bytes a length field spans.
pub open spec fn pow256(k: nat) -> nat
    decreases k,
{
    if k == 0 {
        1
    } else {
        256 * pow256((k - 1) as nat)
    }
}

/// A number as `k` little-endian bytes.
pub open spec fn le_bytes(n: nat, k: nat) -> Seq<u8>
    decreases k,
{
    if k == 0 {
        Seq::empty()
    } else {
        seq![(n % 256) as u8] + le_bytes(n / 256, (k - 1) as nat)
    }
}

/// Little-endian byte strings have exactly their requested width.
pub broadcast proof fn lemma_le_bytes_len(n: nat, k: nat)
    ensures
        (#[trigger] le_bytes(n, k)).len() == k,
    decreases k,
{
    if k > 0 {
        lemma_le_bytes_len(n / 256, (k - 1) as nat);
    }
}

/// The number little-endian bytes stand for.
pub open spec fn de_bytes(b: Seq<u8>) -> nat
    decreases b.len(),
{
    if b.len() == 0 {
        0
    } else {
        b.first() as nat + 256 * de_bytes(b.drop_first())
    }
}

/// Reading little-endian bytes gives back the number they were made from.
proof fn lemma_le_de(n: nat, k: nat)
    requires
        n < pow256(k),
    ensures
        de_bytes(le_bytes(n, k)) == n,
    decreases k,
{
    if k > 0 {
        assert(n / 256 < pow256((k - 1) as nat)) by {
            assert(pow256(k) == 256 * pow256((k - 1) as nat));
        }
        lemma_le_de(n / 256, (k - 1) as nat);
        assert(le_bytes(n, k).drop_first() =~= le_bytes(n / 256, (k - 1) as nat));
        assert(n % 256 + 256 * (n / 256) == n);
    }
}

/// A number read from bytes is below the bytes' capacity.
proof fn lemma_de_bound(b: Seq<u8>)
    ensures
        de_bytes(b) < pow256(b.len() as nat),
    decreases b.len(),
{
    if b.len() > 0 {
        lemma_de_bound(b.drop_first());
    }
}

/// A length field is eight little-endian bytes.
pub open spec fn le8(n: nat) -> Seq<u8> {
    le_bytes(n, 8)
}

/// A string's persistence form: its byte length as eight little-endian
/// bytes, then its bytes.
pub open spec fn enc_str(s: Seq<char>) -> Seq<u8> {
    le8(encode_utf8(s).len()) + encode_utf8(s)
}

/// An outcome's persistence form: one byte.
pub open spec fn enc_outcome(o: TxOutcomeKind) -> Seq<u8> {
    if o is Succeeded {
        seq![0u8]
    } else {
        seq![1u8]
    }
}

/// An attribute list's persistence form: each pair's strings in turn.
pub open spec fn enc_attrs(a: Seq<(Seq<char>, Seq<char>)>) -> Seq<u8>
    decreases a.len(),
{
    if a.len() == 0 {
        Seq::empty()
    } else {
        enc_str(a.first().0) + enc_str(a.first().1) + enc_attrs(a.drop_first())
    }
}

/// A rule body's persistence form: a tag byte, then its fields; attribute
/// lists carry their pair count first.
pub open spec fn spec_enc(v: ChainAlertView) -> Seq<u8> {
    match v {
        ChainAlertView::CosmosSendFunds { from, to } => seq![1u8] + enc_str(from) + enc_str(to),
        ChainAlertView::CosmosMonitorFunds { address } => seq![2u8] + enc_str(address),
        ChainAlertView::CosmosSmartContractEvents { address, event_name, event_attributes } => seq![
            3u8,
        ] + enc_str(address) + enc_str(event_name) + le8(event_attributes.len()) + enc_attrs(
            event_attributes,
        ),
        ChainAlertView::CosmosTxOutcome { signer, outcome } => seq![4u8] + enc_str(signer)
            + enc_outcome(outcome),
        ChainAlertView::EthSmartContractEvents {
            contract_addr,
            contract_abi,
            event_name,
            event_attributes,
        } => seq![5u8] + enc_str(contract_addr) + enc_str(contract_abi) + enc_str(event_name)
            + le8(event_attributes.len()) + enc_attrs(event_attributes),
        ChainAlertView::EthMonitorFunds { address } => seq![6u8] + enc_str(address),
        ChainAlertView::EthTxOutcome { signer, outcome } => seq![7u8] + enc_str(signer)
            + enc_outcome(outcome),
        ChainAlertView::ArchwayBroadcast => seq![8u8],
    }
}

// ---------------------------------------------------------------------------
// Decoding
// ---------------------------------------------------------------------------
/// The length field at a position, when the bytes reach that far.
pub open spec fn dec_le8_at(b: Seq<u8>, pos: int) -> Option<nat> {
    if 0 <= pos && pos + 8 <= b.len() {
        Some(de_bytes(b.subrange(pos, pos + 8)))
    } else {
        None
    }
}

/// The string at a position and the position after it, when its length
/// field, its bytes and their UTF-8 shape all check out.
pub open spec fn dec_str_at(b: Seq<u8>, pos: int) -> Option<(Seq<char>, int)> {
    match dec_le8_at(b, pos) {
        None => None,
        Some(n) => if pos + 8 + n <= b.len() && valid_utf8(
            b.subrange(pos + 8, pos + 8 + n),
        ) {
            Some((decode_utf8(b.subrange(pos + 8, pos + 8 + n)), pos + 8 + n))
        } else {
            None
        },
    }
}

/// The outcome byte at a position.
pub open spec fn dec_outcome_at(b: Seq<u8>, pos: int) -> Option<(TxOutcomeKind, int)> {
    if 0 <= pos && pos < b.len() {
        if b[pos] == 0 {
            Some((TxOutcomeKind::Succeeded, pos + 1))
        } else if b[pos] == 1 {
            Some((TxOutcomeKind::Failed, pos + 1))
        } else {
            None
        }
    } else {
        None
    }
}

/// The `count` attribute pairs at a position and the position after them.
pub open spec fn dec_attrs_at(b: Seq<u8>, pos: int, count: nat) -> Option<
    (Seq<(Seq<char>, Seq<char>)>, int),
>
    decreases count,
{
    if count == 0 {
        Some((Seq::empty(), pos))
    } else {
        match dec_str_at(b, pos) {
            None => None,
            Some((k, p1)) => match dec_str_at(b, p1) {
                None => None,
                Some((v, p2)) => match dec_attrs_at(b, p2, (count - 1) as nat) {
                    None => None,
                    Some((rest, p3)) => Some((seq![(k, v)] + rest, p3)),
                },
            },
        }
    }
}

/// The rule body a byte string decodes to: the tag picks the variant, the
/// fields follow, and the bytes must be used up exactly.
pub open spec fn spec_dec(b: Seq<u8>) -> Option<ChainAlertView> {
    if b.len() == 0 {
        None
    } else if b[0] == 1 {
        match dec_str_at(b, 1) {
            Some((from, p1)) => match dec_str_at(b, p1) {
                Some((to, p2)) => if p2 == b.len() {
                    Some(ChainAlertView::CosmosSendFunds { from, to })
                } else {
                    None
                },
                None => None,
            },
            None => None,
        }
    } else if b[0] == 2 {
        match dec_str_at(b, 1) {
            Some((address, p1)) => if p1 == b.len() {
                Some(ChainAlertView::CosmosMonitorFunds { address })
            } else {
                None
            },
            None => None,
        }
    } else if b[0] == 3 {
        match dec_str_at(b, 1) {
            Some((address, p1)) => match dec_str_at(b, p1) {
                Some((event_name, p2)) => match dec_le8_at(b, p2) {
                    Some(count) => match dec_attrs_at(b, p2 + 8, count) {
                        Some((event_attributes, p3)) => if p3 == b.len() {
                            Some(
                                ChainAlertView::CosmosSmartContractEvents {
                                    address,
                                    event_name,
                                    event_attributes,
                                },
                            )
                        } else {
                            None
                        },
                        None => None,
                    },
                    None => None,
                },
                None => None,
            },
            None => None,
        }
    } else if b[0] == 4 {
        match dec_str_at(b, 1) {
            Some((signer, p1)) => match dec_outcome_at(b, p1) {
                Some((outcome, p2)) => if p2 == b.len() {
                    Some(ChainAlertView::CosmosTxOutcome { signer, outcome })
                } else {
                    None
                },
                None => None,
            },
            None => None,
        }
    } else if b[0] == 5 {
        match dec_str_at(b, 1) {
            Some((contract_addr, p1)) => match dec_str_at(b, p1) {
                Some((contract_abi, p2)) => match dec_str_at(b, p2) {
                    Some((event_name, p3)) => match dec_le8_at(b, p3) {
                        Some(count) => match dec_attrs_at(b, p3 + 8, count) {
                            Some((event_attributes, p4)) => if p4 == b.len() {
                                Some(
                                    ChainAlertView::EthSmartContractEvents {
                                        contract_addr,
                                        contract_abi,
                                        event_name,
                                        event_attributes,
                                    },
                                )
                            } else {
                                None
                            },
                            None => None,
                        },
                        None => None,
                    },
                    None => None,
                },
                None => None,
            },
            None => None,
        }
    } else if b[0] == 6 {
        match dec_str_at(b, 1) {
            Some((address, p1)) => if p1 == b.len() {
                Some(ChainAlertView::EthMonitorFunds { address })
            } else {
                None
            },
            None => None,
        }
    } else if b[0] == 7 {
        match dec_str_at(b, 1) {
            Some((signer, p1)) => match dec_outcome_at(b, p1) {
                Some((outcome, p2)) => if p2 == b.len() {
                    Some(ChainAlertView::EthTxOutcome { signer, outcome })
                } else {
                    None
                },
                None => None,
            },
            None => None,
        }
    } else if b[0] == 8 {
        if b.len() == 1 {
            Some(ChainAlertView::ArchwayBroadcast)
        } else {
            None
        }
    } else {
        None
    }
}

// ---------------------------------------------------------------------------
// Round trip
// ---------------------------------------------------------------------------
/// A string small enough for its length field.
pub open spec fn str_wf(s: Seq<char>) -> bool {
    encode_utf8(s).len() < pow256(8)
}

/// An attribute list small enough for its count field, of such strings.
pub open spec fn enc_attrs_wf(a: Seq<(Seq<char>, Seq<char>)>) -> bool {
    &&& a.len() < pow256(8)
    &&& forall|i: int| 0 <= i < a.len() ==> str_wf((#[trigger] a[i]).0) && str_wf(a[i].1)
}

/// A rule body view whose pieces fit their length fields. Every body an
/// executable program holds is of this shape.
pub open spec fn view_wf(v: ChainAlertView) -> bool {
    match v {
        ChainAlertView::CosmosSendFunds { from, to } => str_wf(from) && str_wf(to),
        ChainAlertView::CosmosMonitorFunds { address } => str_wf(address),
        ChainAlertView::CosmosSmartContractEvents { address, event_name, event_attributes } => {
            str_wf(address) && str_wf(event_name) && enc_attrs_wf(event_attributes)
        },
        ChainAlertView::CosmosTxOutcome { signer, .. } => str_wf(signer),
        ChainAlertView::EthSmartContractEvents {
            contract_addr,
            contract_abi,
            event_name,
            event_attributes,
        } => {
            str_wf(contract_addr) && str_wf(contract_abi) && str_wf(event_name) && enc_attrs_wf(
                event_attributes,
            )
        },
        ChainAlertView::EthMonitorFunds { address } => str_wf(address),
        ChainAlertView::EthTxOutcome { signer, .. } => str_wf(signer),
        ChainAlertView::ArchwayBroadcast => true,
    }
}

/// A window of an equal-to-encoded region equals the encoding's window.
proof fn lemma_subrange_of_eq(b: Seq<u8>, pos: int, e: Seq<u8>, off: int, l: int)
    requires
        0 <= pos,
        pos + e.len() <= b.len(),
        b.subrange(pos, pos + e.len() as int) == e,
        0 <= off,
        0 <= l,
        off + l <= e.len(),
    ensures
        b.subrange(pos + off, pos + off + l) == e.subrange(off, off + l),
{
    assert forall|i: int|
        0 <= i < l implies #[trigger] b.subrange(pos + off, pos + off + l)[i] == e.subrange(
        off,
        off + l,
    )[i] by {
        assert(b.subrange(pos, pos + e.len() as int)[off + i] == e[off + i]);
    }
    assert(b.subrange(pos + off, pos + off + l) =~= e.subrange(off, off + l));
}

/// A length field decodes to the number it was made from.
proof fn lemma_dec_le8_prefix(b: Seq<u8>, pos: int, n: nat)
    requires
        0 <= pos,
        pos + 8 <= b.len(),
        b.subrange(pos, pos + 8) == le8(n),
        n < pow256(8),
    ensures
        dec_le8_at(b, pos) == Some(n),
{
    broadcast use lemma_le_bytes_len;

    lemma_le_de(n, 8);
}

/// An encoded string decodes to itself, leaving the position after it.
proof fn lemma_dec_str_prefix(b: Seq<u8>, pos: int, s: Seq<char>)
    requires
        0 <= pos,
        pos + enc_str(s).len() <= b.len(),
        b.subrange(pos, pos + enc_str(s).len() as int) == enc_str(s),
        str_wf(s),
    ensures
        dec_str_at(b, pos) == Some((s, pos + enc_str(s).len() as int)),
{
    broadcast use lemma_le_bytes_len;

    let n = encode_utf8(s).len() as int;
    lemma_subrange_of_eq(b, pos, enc_str(s), 0, 8);
    assert(enc_str(s).subrange(0, 8) =~= le8(n as nat));
    lemma_dec_le8_prefix(b, pos, n as nat);
    lemma_subrange_of_eq(b, pos, enc_str(s), 8, n);
    assert(enc_str(s).subrange(8, 8 + n) =~= encode_utf8(s));
    vstd::utf8::encode_utf8_valid_utf8(s);
    vstd::utf8::encode_utf8_decode_utf8(s);
}

/// An encoded attribute list decodes to itself.
proof fn lemma_dec_attrs_prefix(b: Seq<u8>, pos: int, a: Seq<(Seq<char>, Seq<char>)>)
    requires
        0 <= pos,
        pos + enc_attrs(a).len() <= b.len(),
        b.subrange(pos, pos + enc_attrs(a).len() as int) == enc_attrs(a),
        forall|i: int| 0 <= i < a.len() ==> str_wf((#[trigger] a[i]).0) && str_wf(a[i].1),
    ensures
        dec_attrs_at(b, pos, a.len() as nat) == Some((a, pos + enc_attrs(a).len() as int)),
    decreases a.len(),
{
    broadcast use lemma_le_bytes_len;

    if a.len() > 0 {
        let k = a.first().0;
        let v = a.first().1;
        let lk = enc_str(k).len() as int;
        let lv = enc_str(v).len() as int;
        let rest = enc_attrs(a.drop_first());
        let e = enc_attrs(a);
        lemma_subrange_of_eq(b, pos, e, 0, lk);
        assert(e.subrange(0, lk) =~= enc_str(k));
        lemma_dec_str_prefix(b, pos, k);
        lemma_subrange_of_eq(b, pos, e, lk, lv);
        assert(e.subrange(lk, lk + lv) =~= enc_str(v));
        lemma_dec_str_prefix(b, pos + lk, v);
        lemma_subrange_of_eq(b, pos, e, lk + lv, rest.len() as int);
        assert(e.subrange(lk + lv, lk + lv + rest.len()) =~= rest);
        assert(forall|i: int|
            0 <= i < a.drop_first().len() ==> str_wf((#[trigger] a.drop_first()[i]).0) && str_wf(
                a.drop_first()[i].1,
            ));
        lemma_dec_attrs_prefix(b, pos + lk + lv, a.drop_first());
        assert(seq![(k, v)] + a.drop_first() =~= a);
        assert((a.first().0, a.first().1) == a.first());
    }
}

/// The round trip of the codec: decoding an encoded rule body gives the
/// body back, for every body whose strings fit their length fields.
#[verifier::rlimit(30)]
pub proof fn lemma_codec_round_trip(v: ChainAlertView)
    requires
        view_wf(v),
    ensures
        spec_dec(spec_enc(v)) == Some(v),
{
    broadcast use lemma_le_bytes_len;

    let b = spec_enc(v);
    match v {
        ChainAlertView::CosmosSendFunds { from, to } => {
            let l1 = enc_str(from).len() as int;
            let l2 = enc_str(to).len() as int;
            assert(b.subrange(1, 1 + l1) =~= enc_str(from));
            lemma_dec_str_prefix(b, 1, from);
            assert(b.subrange(1 + l1, 1 + l1 + l2) =~= enc_str(to));
            lemma_dec_str_prefix(b, 1 + l1, to);
        },
        ChainAlertView::CosmosMonitorFunds { address } => {
            let l1 = enc_str(address).len() as int;
            assert(b.subrange(1, 1 + l1) =~= enc_str(address));
            lemma_dec_str_prefix(b, 1, address);
        },
        ChainAlertView::CosmosSmartContractEvents { address, event_name, event_attributes } => {
            let l1 = enc_str(address).len() as int;
            let l2 = enc_str(event_name).len() as int;
            let la = enc_attrs(event_attributes).len() as int;
            assert(b.subrange(1, 1 + l1) =~= enc_str(address));
            lemma_dec_str_prefix(b, 1, address);
            assert(b.subrange(1 + l1, 1 + l1 + l2) =~= enc_str(event_name));
            lemma_dec_str_prefix(b, 1 + l1, event_name);
            assert(b.subrange(1 + l1 + l2, 1 + l1 + l2 + 8) =~= le8(event_attributes.len()));
            lemma_dec_le8_prefix(b, 1 + l1 + l2, event_attributes.len());
            assert(b.subrange(1 + l1 + l2 + 8, 1 + l1 + l2 + 8 + la) =~= enc_attrs(
                event_attributes,
            ));
            lemma_dec_attrs_prefix(b, 1 + l1 + l2 + 8, event_attributes);
        },
        ChainAlertView::CosmosTxOutcome { signer, outcome } => {
            let l1 = enc_str(signer).len() as int;
            assert(b.subrange(1, 1 + l1) =~= enc_str(signer));
            lemma_dec_str_prefix(b, 1, signer);
            assert(b[1 + l1] == enc_outcome(outcome)[0]);
        },
        ChainAlertView::EthSmartContractEvents {
            contract_addr,
            contract_abi,
            event_name,
            event_attributes,
        } => {
            let l1 = enc_str(contract_addr).len() as int;
            let l2 = enc_str(contract_abi).len() as int;
            let l3 = enc_str(event_name).len() as int;
            let la = enc_attrs(event_attributes).len() as int;
            assert(b.subrange(1, 1 + l1) =~= enc_str(contract_addr));
            lemma_dec_str_prefix(b, 1, contract_addr);
            assert(b.subrange(1 + l1, 1 + l1 + l2) =~= enc_str(contract_abi));
            lemma_dec_str_prefix(b, 1 + l1, contract_abi);
            assert(b.subrange(1 + l1 + l2, 1 + l1 + l2 + l3) =~= enc_str(event_name));
            lemma_dec_str_prefix(b, 1 + l1 + l2, event_name);
            assert(b.subrange(1 + l1 + l2 + l3, 1 + l1 + l2 + l3 + 8) =~= le8(
                event_attributes.len(),
            ));
            lemma_dec_le8_prefix(b, 1 + l1 + l2 + l3, event_attributes.len());
            assert(b.subrange(1 + l1 + l2 + l3 + 8, 1 + l1 + l2 + l3 + 8 + la) =~= enc_attrs(
                event_attributes,
            ));
            lemma_dec_attrs_prefix(b, 1 + l1 + l2 + l3 + 8, event_attributes);
        },
        ChainAlertView::EthMonitorFunds { address } => {
            let l1 = enc_str(address).len() as int;
            assert(b.subrange(1, 1 + l1) =~= enc_str(address));
            lemma_dec_str_prefix(b, 1, address);
        },
        ChainAlertView::EthTxOutcome { signer, outcome } => {
            let l1 = enc_str(signer).len() as int;
            assert(b.subrange(1, 1 + l1) =~= enc_str(signer));
            lemma_dec_str_prefix(b, 1, signer);
            assert(b[1 + l1] == enc_outcome(outcome)[0]);
        },
        ChainAlertView::ArchwayBroadcast => {},
    }
}

// ---------------------------------------------------------------------------
// Executable encoding
// ---------------------------------------------------------------------------
/// Appends a length field.
fn push_le8(out: &mut Vec<u8>, n: usize)
    ensures
        final(out)@ == old(out)@ + le8(n as nat),
{
    proof {
        broadcast use lemma_le_bytes_len;

    }
    let ghost base = out@;
    let mut x: u64 = n as u64;
    let mut i: usize = 0;
    while i < 8
        invariant
            i <= 8,
            out@ + le_bytes(x as nat, (8 - i) as nat) =~= base + le_bytes(n as nat, 8),
        decreases 8 - i,
    {
        let ghost prev = out@;
        let ghost xp = x as nat;
        out.push((x % 256) as u8);
        x = x / 256;
        i += 1;
        proof {
            assert(le_bytes(xp, (8 - i + 1) as nat) =~= seq![(xp % 256) as u8] + le_bytes(
                xp / 256,
                (8 - i) as nat,
            ));
            assert(out@ + le_bytes(x as nat, (8 - i) as nat) =~= prev + le_bytes(
                xp,
                (8 - i + 1) as nat,
            ));
        }
    }
    proof {
        assert(le_bytes(x as nat, 0) =~= Seq::<u8>::empty());
        assert(out@ =~= base + le8(n as nat));
    }
}

/// Appends a string's persistence form.
fn push_str_enc(out: &mut Vec<u8>, s: &String)
    ensures
        final(out)@ == old(out)@ + enc_str(s@),
{
    let ghost base = out@;
    let bytes = s.as_str().as_bytes_vec();
    push_le8(out, bytes.len());
    let mut i: usize = 0;
    while i < bytes.len()
        invariant
            i <= bytes@.len(),
            bytes@ == encode_utf8(s@),
            out@ =~= base + le8(encode_utf8(s@).len()) + bytes@.take(i as int),
        decreases bytes@.len() - i,
    {
        out.push(bytes[i]);
        proof {
            assert(bytes@.take(i + 1) =~= bytes@.take(i as int).push(bytes@[i as int]));
            assert(out@ =~= base + le8(encode_utf8(s@).len()) + bytes@.take(i + 1));
        }
        i += 1;
    }
    proof {
        assert(bytes@.take(bytes@.len() as int) =~= bytes@);
        assert(out@ =~= base + enc_str(s@));
    }
}

/// Appending one pair extends an attribute list's persistence form.
proof fn lemma_enc_attrs_push(a: Seq<(Seq<char>, Seq<char>)>, p: (Seq<char>, Seq<char>))
    ensures
        enc_attrs(a.push(p)) =~= enc_attrs(a) + enc_str(p.0) + enc_str(p.1),
    decreases a.len(),
{
    if a.len() == 0 {
        assert(a.push(p).first() == p);
        assert(a.push(p).drop_first() =~= Seq::<(Seq<char>, Seq<char>)>::empty());
        assert(a =~= Seq::<(Seq<char>, Seq<char>)>::empty());
        assert(enc_attrs(a.push(p).drop_first()) =~= Seq::<u8>::empty());
        assert(enc_attrs(a.push(p)) =~= enc_str(p.0) + enc_str(p.1) + Seq::<u8>::empty());
        assert(enc_attrs(a.push(p)) =~= enc_attrs(a) + enc_str(p.0) + enc_str(p.1));
    } else {
        assert(a.push(p).first() == a.first());
        assert(a.push(p).drop_first() =~= a.drop_first().push(p));
        lemma_enc_attrs_push(a.drop_first(), p);
        assert(enc_attrs(a.push(p)) =~= enc_attrs(a) + enc_str(p.0) + enc_str(p.1));
    }
}

/// Appends an attribute list's persistence form, its count first.
fn push_attrs_enc(out: &mut Vec<u8>, attrs: &Vec<(String, String)>)
    ensures
        final(out)@ == old(out)@ + le8(attrs@.len() as nat) + enc_attrs(attrs_view(attrs@)),
{
    push_le8(out, attrs.len());
    let ghost base = out@;
    let mut i: usize = 0;
    proof {
        assert(attrs_view(attrs@).take(0) =~= Seq::<(Seq<char>, Seq<char>)>::empty());
        assert(base + enc_attrs(attrs_view(attrs@).take(0)) =~= base);
    }
    while i < attrs.len()
        invariant
            i <= attrs@.len(),
            out@ =~= base + enc_attrs(attrs_view(attrs@).take(i as int)),
        decreases attrs@.len() - i,
    {
        let ghost done = attrs_view(attrs@).take(i as int);
        push_str_enc(out, &attrs[i].0);
        push_str_enc(out, &attrs[i].1);
        proof {
            let p = attrs_view(attrs@)[i as int];
            assert(attrs_view(attrs@).take(i + 1) =~= done.push(p));
            lemma_enc_attrs_push(done, p);
            assert(out@ =~= base + enc_attrs(attrs_view(attrs@).take(i + 1)));
        }
        i += 1;
    }
    proof {
        assert(attrs_view(attrs@).take(attrs@.len() as int) =~= attrs_view(attrs@));
    }
}

/// Serializes a rule body to its persistence form.
pub fn encode_alert(alert: &ChainAlert) -> (r: Vec<u8>)
    ensures
        r@ == spec_enc(alert@),
{
    let mut out: Vec<u8> = Vec::new();
    proof {
        assert(out@ =~= Seq::<u8>::empty());
    }
    match alert {
        ChainAlert::CosmosSendFunds(a) => {
            out.push(1);
            push_str_enc(&mut out, &a.from);
            push_str_enc(&mut out, &a.to);
            proof {
                assert(out@ =~= spec_enc(alert@));
            }
        },
        ChainAlert::CosmosMonitorFunds(a) => {
            out.push(2);
            push_str_enc(&mut out, &a.address);
            proof {
                assert(out@ =~= spec_enc(alert@));
            }
        },
        ChainAlert::CosmosSmartContractEvents(a) => {
            out.push(3);
            push_str_enc(&mut out, &a.address);
            push_str_enc(&mut out, &a.event_name);
            push_attrs_enc(&mut out, &a.event_attributes);
            proof {
                assert(out@ =~= spec_enc(alert@));
            }
        },
        ChainAlert::CosmosTxOutcome(a) => {
            out.push(4);
            push_str_enc(&mut out, &a.signer);
            out.push(
                match a.outcome {
                    TxOutcomeKind::Succeeded => 0,
                    TxOutcomeKind::Failed => 1,
                },
            );
            proof {
                assert(out@ =~= spec_enc(alert@));
            }
        },
        ChainAlert::EthSmartContractEvents(a) => {
            out.push(5);
            push_str_enc(&mut out, &a.contract_addr);
            push_str_enc(&mut out, &a.contract_abi);
            push_str_enc(&mut out, &a.event_name);
            push_attrs_enc(&mut out, &a.event_attributes);
            proof {
                assert(out@ =~= spec_enc(alert@));
            }
        },
        ChainAlert::EthMonitorFunds(a) => {
            out.push(6);
            push_str_enc(&mut out, &a.address);
            proof {
                assert(out@ =~= spec_enc(alert@));
            }
        },
        ChainAlert::EthTxOutcome(a) => {
            out.push(7);
            push_str_enc(&mut out, &a.signer);
            out.push(
                match a.outcome {
                    TxOutcomeKind::Succeeded => 0,
                    TxOutcomeKind::Failed => 1,
                },
            );
            proof {
                assert(out@ =~= spec_enc(alert@));
            }
        },
        ChainAlert::ArchwayBroadcast => {
            out.push(8);
            proof {
                assert(out@ =~= spec_enc(alert@));
            }
        },
    }
    out
}

// ---------------------------------------------------------------------------
// Executable decoding
// ---------------------------------------------------------------------------
/// Reads a length field.
#[verifier::loop_isolation(false)]
fn read_le8(b: &Vec<u8>, pos: usize) -> (r: Option<(u64, usize)>)
    ensures
        match r {
            Some((n, p)) => dec_le8_at(b@, pos as int) == Some(n as nat) && p == pos + 8,
            None => dec_le8_at(b@, pos as int) is None,
        },
{
    proof {
        broadcast use lemma_le_bytes_len;

        assert(pow256(0) == 1);
        assert(pow256(1) == 256);
        assert(pow256(2) == 0x10000);
        assert(pow256(3) == 0x100_0000);
        assert(pow256(4) == 0x1_0000_0000);
        assert(pow256(5) == 0x100_0000_0000);
        assert(pow256(6) == 0x1_0000_0000_0000);
        assert(pow256(7) == 0x100_0000_0000_0000);
    }
    if b.len() < 8 || pos > b.len() - 8 {
        return None;
    }
    let mut acc: u64 = 0;
    let mut i: usize = 8;
    while i > 0
        invariant
            i <= 8,
            acc as nat == de_bytes(b@.subrange(pos + i as int, pos as int + 8)),
            acc < pow256((8 - i) as nat),
        decreases i,
    {
        i -= 1;
        proof {
            assert(b@.subrange(pos + i as int, pos as int + 8).first() == b@[pos + i as int]);
            assert(b@.subrange(pos + i as int, pos as int + 8).drop_first() =~= b@.subrange(
                pos + i as int + 1,
                pos as int + 8,
            ));
            assert(pow256((8 - i) as nat) == 256 * pow256((7 - i) as nat));
        }
        acc = (b[pos + i] as u64) + 256 * acc;
        proof {
            assert(acc < pow256((8 - i) as nat));
        }
    }
    proof {
        lemma_de_bound(b@.subrange(pos as int, pos as int + 8));
    }
    Some((acc, pos + 8))
}

/// Copies a window of the bytes.
fn copy_bytes(b: &Vec<u8>, start: usize, end: usize) -> (r: Vec<u8>)
    requires
        start <= end <= b@.len(),
    ensures
        r@ == b@.subrange(start as int, end as int),
{
    let mut out: Vec<u8> = Vec::new();
    let mut i: usize = start;
    while i < end
        invariant
            start <= i <= end <= b@.len(),
            out@ =~= b@.subrange(start as int, i as int),
        decreases end - i,
    {
        out.push(b[i]);
        proof {
            assert(out@ =~= b@.subrange(start as int, i + 1));
        }
        i += 1;
    }
    out
}

/// Reads a string's persistence form.
fn read_string(b: &Vec<u8>, pos: usize) -> (r: Option<(String, usize)>)
    ensures
        match r {
            Some((s, p)) => dec_str_at(b@, pos as int) == Some((s@, p as int)) && p <= b@.len(),
            None => dec_str_at(b@, pos as int) is None,
        },
{
    let (n64, p) = match read_le8(b, pos) {
        Some(x) => x,
        None => {
            return None;
        },
    };
    if n64 > (b.len() - p) as u64 {
        return None;
    }
    let n = n64 as usize;
    let bytes = copy_bytes(b, p, p + n);
    match String::from_utf8(bytes) {
        Ok(s) => Some((s, p + n)),
        Err(_) => None,
    }
}

/// Reads an outcome byte.
fn read_outcome(b: &Vec<u8>, pos: usize) -> (r: Option<(TxOutcomeKind, usize)>)
    ensures
        match r {
            Some((o, p)) => dec_outcome_at(b@, pos as int) == Some((o, p as int)) && p <= b@.len(),
            None => dec_outcome_at(b@, pos as int) is None,
        },
{
    if pos >= b.len() {
        return None;
    }
    if b[pos] == 0 {
        Some((TxOutcomeKind::Succeeded, pos + 1))
    } else if b[pos] == 1 {
        Some((TxOutcomeKind::Failed, pos + 1))
    } else {
        None
    }
}

/// How a partially read attribute list continues: the whole read succeeds
/// with the pairs already read in front, or fails, as reading the remainder
/// does.
pub open spec fn attrs_read_continues(
    total: Option<(Seq<(Seq<char>, Seq<char>)>, int)>,
    done: Seq<(Seq<char>, Seq<char>)>,
    b: Seq<u8>,
    cur: int,
    remaining: nat,
) -> bool {
    match dec_attrs_at(b, cur, remaining) {
        Some((rest, p)) => total == Some::<(Seq<(Seq<char>, Seq<char>)>, int)>((done + rest, p)),
        None => total is None,
    }
}

/// Reads `count` attribute pairs.
#[verifier::loop_isolation(false)]
fn read_attrs(b: &Vec<u8>, pos: usize, count: u64) -> (r: Option<(Vec<(String, String)>, usize)>)
    requires
        pos <= b@.len(),
    ensures
        match r {
            Some((a, p)) => dec_attrs_at(b@, pos as int, count as nat) == Some(
                (attrs_view(a@), p as int),
            ) && p <= b@.len(),
            None => dec_attrs_at(b@, pos as int, count as nat) is None,
        },
{
    let mut acc: Vec<(String, String)> = Vec::new();
    let mut cur = pos;
    let mut k: u64 = 0;
    proof {
        assert(attrs_view(acc@) =~= Seq::<(Seq<char>, Seq<char>)>::empty());
    }
    while k < count
        invariant
            k <= count,
            cur <= b@.len(),
            attrs_read_continues(
                dec_attrs_at(b@, pos as int, count as nat),
                attrs_view(acc@),
                b@,
                cur as int,
                (count - k) as nat,
            ),
        decreases count - k,
    {
        let ghost done = attrs_view(acc@);
        let (ks, p1) = match read_string(b, cur) {
            Some(x) => x,
            None => {
                return None;
            },
        };
        let (vs, p2) = match read_string(b, p1) {
            Some(x) => x,
            None => {
                return None;
            },
        };
        acc.push((ks, vs));
        proof {
            assert(attrs_view(acc@) =~= done.push((ks@, vs@)));
            assert forall|rest: Seq<(Seq<char>, Seq<char>)>|
                true implies done + (seq![(ks@, vs@)] + rest) =~= done.push((ks@, vs@)) + rest by {}
        }
        cur = p2;
        k += 1;
    }
    proof {
        assert(dec_attrs_at(b@, cur as int, 0) == Some::<(Seq<(Seq<char>, Seq<char>)>, int)>(
            (Seq::empty(), cur as int),
        ));
        assert(attrs_view(acc@) + Seq::<(Seq<char>, Seq<char>)>::empty() =~= attrs_view(acc@));
    }
    Some((acc, cur))
}

/// Reads a rule body back from its persistence form; bytes that are not the
/// exact form of one body are refused.
pub fn decode_alert(bytes: &Vec<u8>) -> (r: Option<ChainAlert>)
    ensures
        match r {
            Some(alert) => spec_dec(bytes@) == Some(alert@),
            None => spec_dec(bytes@) is None,
        },
{
    if bytes.len() == 0 {
        return None;
    }
    let tag = bytes[0];
    if tag == 1 {
        let (from, p1) = match read_string(bytes, 1) {
            Some(x) => x,
            None => {
                return None;
            },
        };
        let (to, p2) = match read_string(bytes, p1) {
            Some(x) => x,
            None => {
                return None;
            },
        };
        if p2 != bytes.len() {
            return None;
        }
        Some(ChainAlert::CosmosSendFunds(AlertCosmosSendFunds { from, to }))
    } else if tag == 2 {
        let (address, p1) = match read_string(bytes, 1) {
            Some(x) => x,
            None => {
                return None;
            },
        };
        if p1 != bytes.len() {
            return None;
        }
        Some(ChainAlert::CosmosMonitorFunds(AlertCosmosMonitorFunds { address }))
    } else if tag == 3 {
        let (address, p1) = match read_string(bytes, 1) {
            Some(x) => x,
            None => {
                return None;
            },
        };
        let (event_name, p2) = match read_string(bytes, p1) {
            Some(x) => x,
            None => {
                return None;
            },
        };
        let (count, p3) = match read_le8(bytes, p2) {
            Some(x) => x,
            None => {
                return None;
            },
        };
        let (event_attributes, p4) = match read_attrs(bytes, p3, count) {
            Some(x) => x,
            None => {
                return None;
            },
        };
        if p4 != bytes.len() {
            return None;
        }
        Some(
            ChainAlert::CosmosSmartContractEvents(
                AlertCosmosSmartContractEvents { address, event_name, event_attributes },
            ),
        )
    } else if tag == 4 {
        let (signer, p1) = match read_string(bytes, 1) {
            Some(x) => x,
            None => {
                return None;
            },
        };
        let (outcome, p2) = match read_outcome(bytes, p1) {
            Some(x) => x,
            None => {
                return None;
            },
        };
        if p2 != bytes.len() {
            return None;
        }
        Some(ChainAlert::CosmosTxOutcome(AlertCosmosTxOutcome { signer, outcome }))
    } else if tag == 5 {
        let (contract_addr, p1) = match read_string(bytes, 1) {
            Some(x) => x,
            None => {
                return None;
            },
        };
        let (contract_abi, p2) = match read_string(bytes, p1) {
            Some(x) => x,
            None => {
                return None;
            },
        };
        let (event_name, p3) = match read_string(bytes, p2) {
            Some(x) => x,
            None => {
                return None;
            },
        };
        let (count, p4) = match read_le8(bytes, p3) {
            Some(x) => x,
            None => {
                return None;
            },
        };
        let (event_attributes, p5) = match read_attrs(bytes, p4, count) {
            Some(x) => x,
            None => {
                return None;
            },
        };
        if p5 != bytes.len() {
            return None;
        }
        Some(
            ChainAlert::EthSmartContractEvents(
                AlertEthSmartContractEvents {
                    contract_addr,
                    contract_abi,
                    event_name,
                    event_attributes,
                },
            ),
        )
    } else if tag == 6 {
        let (address, p1) = match read_string(bytes, 1) {
            Some(x) => x,
            None => {
                return None;
            },
        };
        if p1 != bytes.len() {
            return None;
        }
        Some(ChainAlert::EthMonitorFunds(AlertEthMonitorFunds { address }))
    } else if tag == 7 {
        let (signer, p1) = match read_string(bytes, 1) {
            Some(x) => x,
            None => {
                return None;
            },
        };
        let (outcome, p2) = match read_outcome(bytes, p1) {
            Some(x) => x,
            None => {
                return None;
            },
        };
        if p2 != bytes.len() {
            return None;
        }
        Some(ChainAlert::EthTxOutcome(AlertEthTxOutcome { signer, outcome }))
    } else if tag == 8 {
        if bytes.len() != 1 {
            return None;
        }
        Some(ChainAlert::ArchwayBroadcast)
    } else {
        None
    }
}

/// Serializes a rule body to its stored column: its encoding, rendered in
/// hexadecimal.
pub fn encode_alert_hex(alert: &ChainAlert) -> (r: String)
    ensures
        r@ == hex_of(spec_enc(alert@)),
{
    hex_string(&encode_alert(alert))
}

/// Reads a rule body back from its stored column.
pub fn decode_alert_hex(s: &str) -> (r: Option<ChainAlert>)
    ensures
        match r {
            Some(alert) => hex_parse(s@) matches Some(bytes) && spec_dec(bytes) == Some(alert@),
            None => hex_parse(s@) is None || spec_dec(hex_parse(s@).unwrap()) is None,
        },
{
    match hex_decode(s) {
        Some(bytes) => decode_alert(&bytes),
        None => None,
    }
}

/// The stored column's round trip: a body's encoding, rendered in
/// hexadecimal and parsed back, decodes to the body it came from.
pub proof fn lemma_hex_codec_round_trip(v: ChainAlertView)
    requires
        view_wf(v),
    ensures
        hex_parse(hex_of(spec_enc(v))) == Some(spec_enc(v)),
        spec_dec(spec_enc(v)) == Some(v),
{
    crate::strings::lemma_hex_parse_of(spec_enc(v));
    lemma_codec_round_trip(v);
}

} // verus!
