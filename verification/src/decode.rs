use vstd::prelude::*;

use base64::Engine;

use crate::events::AnyMsg;
use crate::model::{attrs_view, coins_view, CoinAmount, CoinAmountView};
use crate::strings::dec_str_of;

verus! {

// ---------------------------------------------------------------------------
// Decoded Cosmos messages
// ---------------------------------------------------------------------------
/// A decoded bank send: sender, recipient and the moved amounts, each amount
/// already rendered in decimal with its denomination.
#[derive(Clone, Debug, PartialEq)]
pub struct BankSend {
    pub from: String,
    pub to: String,
    pub amount: Vec<CoinAmount>,
}

/// The view of a decoded bank send.
pub struct BankSendView {
    pub from: Seq<char>,
    pub to: Seq<char>,
    pub amount: Seq<CoinAmountView>,
}

impl View for BankSend {
    type V = BankSendView;

    open spec fn view(&self) -> BankSendView {
        BankSendView { from: self.from@, to: self.to@, amount: coins_view(self.amount@) }
    }
}

/// The bank send that an `Any` payload decodes to, if it is one.
pub uninterp spec fn bank_send_of(type_url: Seq<char>, value: Seq<u8>) -> Option<BankSendView>;

/// Relies on `cosmrs::bank::MsgSend::from_any`: decodes a protobuf `Any` as a
/// bank send message; the result is a function of the payload alone.
#[verifier::external_body]
pub fn decode_bank_send(msg: &AnyMsg) -> (r: Option<BankSend>)
    ensures
        match r {
            Some(b) => bank_send_of(msg.type_url@, msg.value@) == Some(b@),
            None => bank_send_of(msg.type_url@, msg.value@) is None,
        },
{
    let any = cosmrs::Any { type_url: msg.type_url.clone(), value: msg.value.clone() };
    let b = match <cosmrs::bank::MsgSend as cosmrs::tx::Msg>::from_any(&any) {
        Ok(b) => b,
        Err(_) => return None,
    };
    Some(BankSend {
        from: b.from_address.to_string(),
        to: b.to_address.to_string(),
        amount: b
            .amount
            .iter()
            .map(|c| CoinAmount { amount: c.amount.to_string(), denom: c.denom.to_string() })
            .collect(),
    })
}

/// A decoded CosmWasm contract execution: the signer, the contract address
/// and the raw JSON handed to the contract.
#[derive(Clone, Debug, PartialEq)]
pub struct ExecContract {
    pub sender: String,
    pub contract: String,
    pub msg: Vec<u8>,
}

/// The view of a decoded contract execution.
pub struct ExecContractView {
    pub sender: Seq<char>,
    pub contract: Seq<char>,
    pub msg: Seq<u8>,
}

impl View for ExecContract {
    type V = ExecContractView;

    open spec fn view(&self) -> ExecContractView {
        ExecContractView { sender: self.sender@, contract: self.contract@, msg: self.msg@ }
    }
}

/// The contract execution that an `Any` payload decodes to, if it is one.
pub uninterp spec fn execute_contract_of(type_url: Seq<char>, value: Seq<u8>) -> Option<
    ExecContractView,
>;

/// Relies on `cosmrs::cosmwasm::MsgExecuteContract::from_any`: decodes a
/// protobuf `Any` as a contract execution; a function of the payload alone.
#[verifier::external_body]
pub fn decode_execute_contract(msg: &AnyMsg) -> (r: Option<ExecContract>)
    ensures
        match r {
            Some(e) => execute_contract_of(msg.type_url@, msg.value@) == Some(e@),
            None => execute_contract_of(msg.type_url@, msg.value@) is None,
        },
{
    let any = cosmrs::Any { type_url: msg.type_url.clone(), value: msg.value.clone() };
    let e = match <cosmrs::cosmwasm::MsgExecuteContract as cosmrs::tx::Msg>::from_any(&any) {
        Ok(e) => e,
        Err(_) => return None,
    };
    Some(ExecContract {
        sender: e.sender.to_string(),
        contract: e.contract.to_string(),
        msg: e.msg,
    })
}

/// A CW20 transfer instruction taken from a contract execution's JSON.
#[derive(Clone, Debug, PartialEq)]
pub struct Cw20Transfer {
    pub recipient: String,
    pub amount: String,
}

/// The view of a CW20 transfer.
pub struct Cw20TransferView {
    pub recipient: Seq<char>,
    pub amount: Seq<char>,
}

impl View for Cw20Transfer {
    type V = Cw20TransferView;

    open spec fn view(&self) -> Cw20TransferView {
        Cw20TransferView { recipient: self.recipient@, amount: self.amount@ }
    }
}

/// How a contract execution's JSON reads as a CW20 instruction: a transfer,
/// some other well-formed instruction, or no CW20 instruction at all.
#[derive(Clone, Debug, PartialEq)]
pub enum Cw20Parse {
    Transfer(Cw20Transfer),
    Other,
    Invalid,
}

/// The view of a parsed CW20 instruction.
pub enum Cw20ParseView {
    Transfer(Cw20TransferView),
    Other,
    Invalid,
}

impl View for Cw20Parse {
    type V = Cw20ParseView;

    open spec fn view(&self) -> Cw20ParseView {
        match self {
            Cw20Parse::Transfer(t) => Cw20ParseView::Transfer(t@),
            Cw20Parse::Other => Cw20ParseView::Other,
            Cw20Parse::Invalid => Cw20ParseView::Invalid,
        }
    }
}

/// How a contract execution's JSON parses as a CW20 instruction.
pub uninterp spec fn cw20_parse_of(data: Seq<u8>) -> Cw20ParseView;

/// Relies on `serde_json::from_slice` with `cw20_base::msg::ExecuteMsg`:
/// parses the JSON handed to a contract and tells a `transfer` from any
/// other well-formed instruction and from unreadable bytes; a function of
/// the bytes alone. The amount is rendered in decimal by
/// `cosmwasm_std::Uint128`'s display form.
#[verifier::external_body]
pub fn parse_cw20(data: &Vec<u8>) -> (r: Cw20Parse)
    ensures
        r@ == cw20_parse_of(data@),
{
    match serde_json::from_slice::<cw20_base::msg::ExecuteMsg>(data.as_slice()) {
        Ok(cw20_base::msg::ExecuteMsg::Transfer { recipient, amount }) => {
            Cw20Parse::Transfer(Cw20Transfer { recipient, amount: amount.to_string() })
        },
        Ok(_) => Cw20Parse::Other,
        Err(_) => Cw20Parse::Invalid,
    }
}

// ---------------------------------------------------------------------------
// Cosmos signer keys
// ---------------------------------------------------------------------------
/// The bech32 account ids that one signer public key stands for, under the
/// given prefix: one id for a single key, every member's id for a legacy
/// multisig key, nothing for a key kind the chain's tooling does not read.
pub uninterp spec fn signer_accounts_of(
    prefix: Seq<char>,
    type_url: Seq<char>,
    key: Seq<u8>,
) -> Option<Seq<Seq<char>>>;

/// Relies on `cosmrs::tx::SignerPublicKey::try_from(Any)` and
/// `cosmrs::crypto::PublicKey::account_id`: expands one signer public key to
/// bech32 account ids; a single key gives one id, a legacy Amino multisig
/// gives each member's id, any other key kind gives none. A function of the
/// prefix and the key bytes alone.
#[verifier::external_body]
pub fn signer_key_accounts(prefix: &str, key: &AnyMsg) -> (r: Option<Vec<String>>)
    ensures
        match r {
            Some(v) => signer_accounts_of(prefix@, key.type_url@, key.value@) == Some(
                v.deep_view(),
            ),
            None => signer_accounts_of(prefix@, key.type_url@, key.value@) is None,
        },
{
    let any = cosmrs::Any { type_url: key.type_url.clone(), value: key.value.clone() };
    match cosmrs::tx::SignerPublicKey::try_from(any).ok()? {
        cosmrs::tx::SignerPublicKey::Single(s) => {
            Some(vec![s.account_id(prefix).ok()?.to_string()])
        },
        cosmrs::tx::SignerPublicKey::LegacyAminoMultisig(m) => m
            .public_keys
            .iter()
            .map(|k| k.account_id(prefix).ok().map(|a| a.to_string()))
            .collect(),
        cosmrs::tx::SignerPublicKey::Any(_) => None,
    }
}

// ---------------------------------------------------------------------------
// Base64
// ---------------------------------------------------------------------------
/// The bytes a standard-alphabet base64 text decodes to, if it is well formed.
pub uninterp spec fn base64_decoded(s: Seq<char>) -> Option<Seq<u8>>;

/// Relies on `base64::engine::general_purpose::STANDARD`'s `decode`: the
/// standard-alphabet decoding of a text; a function of the text alone.
#[verifier::external_body]
pub fn decode_base64(s: &str) -> (r: Option<Vec<u8>>)
    ensures
        match r {
            Some(v) => base64_decoded(s@) == Some(v@),
            None => base64_decoded(s@) is None,
        },
{
    base64::prelude::BASE64_STANDARD.decode(s).ok()
}

// ---------------------------------------------------------------------------
// EVM ABI events
// ---------------------------------------------------------------------------
/// The views of a topic list.
pub open spec fn topics_view(v: Seq<Vec<u8>>) -> Seq<Seq<u8>> {
    v.map_values(|t: Vec<u8>| t@)
}

/// The named attributes that an ABI-described event parses out of a raw log,
/// if the ABI loads, names the event, and the log decodes under it. Numeric
/// values are rendered in decimal, addresses and byte strings in lowercase
/// hexadecimal without a prefix.
pub uninterp spec fn parsed_event_attrs(
    abi: Seq<u8>,
    event: Seq<char>,
    topics: Seq<Seq<u8>>,
    data: Seq<u8>,
) -> Option<Seq<(Seq<char>, Seq<char>)>>;

/// Relies on `ethabi::Contract::load`, `ethabi::Contract::event` and
/// `ethabi::Event::parse_log` (through `web3::ethabi`): loads a JSON ABI,
/// finds the named event and decodes the log's topics and data to named
/// parameters; a function of the four inputs alone. Unsigned and signed
/// numbers are rendered in decimal, every other value by its ABI text form.
#[verifier::external_body]
pub fn parse_event_log(
    abi: &Vec<u8>,
    event_name: &str,
    topics: &Vec<Vec<u8>>,
    data: &Vec<u8>,
) -> (r: Option<Vec<(String, String)>>)
    requires
        forall|i: int| 0 <= i < topics@.len() ==> (#[trigger] topics@[i])@.len() == 32,
    ensures
        match r {
            Some(v) => parsed_event_attrs(abi@, event_name@, topics_view(topics@), data@) == Some(
                attrs_view(v@),
            ),
            None => parsed_event_attrs(abi@, event_name@, topics_view(topics@), data@) is None,
        },
{
    let contract = web3::ethabi::Contract::load(abi.as_slice()).ok()?;
    let raw = web3::ethabi::RawLog {
        topics: topics.iter().map(|t| web3::types::H256::from_slice(t)).collect(),
        data: data.clone(),
    };
    let log = contract.event(event_name).ok()?.parse_log(raw).ok()?;
    Some(log.params.into_iter().map(|p| match p.value {
        web3::ethabi::Token::Uint(u) => (p.name, format!("{}", u)),
        web3::ethabi::Token::Int(i) => (p.name, format!("{}", i)),
        other => (p.name, format!("{}", other)),
    }).collect())
}

// ---------------------------------------------------------------------------
// 256-bit amounts
// ---------------------------------------------------------------------------
/// The number a big-endian byte string stands for.
pub open spec fn be_bytes_nat(b: Seq<u8>) -> nat
    decreases b.len(),
{
    if b.len() == 0 {
        0
    } else {
        be_bytes_nat(b.drop_last()) * 256 + b.last() as nat
    }
}

/// Relies on `web3::types::U256`: `from_big_endian` and its decimal display
/// form; renders a 32-byte big-endian amount in decimal.
#[verifier::external_body]
pub fn u256_decimal(bytes: &Vec<u8>) -> (r: String)
    requires
        bytes@.len() == 32,
    ensures
        r@ == dec_str_of(be_bytes_nat(bytes@)),
{
    let amount = web3::types::U256::from_big_endian(bytes.as_slice());
    format!("{}", amount)
}

// ---------------------------------------------------------------------------
// UTF-8 reconstruction
// ---------------------------------------------------------------------------
#[verifier::external_type_specification]
#[verifier::external_body]
pub struct ExFromUtf8Error(std::string::FromUtf8Error);

/// Relies on `String::from_utf8` of std: it succeeds exactly on valid UTF-8
/// and returns the string those bytes spell.
pub assume_specification[ String::from_utf8 ](v: Vec<u8>) -> (r: Result<
    String,
    std::string::FromUtf8Error,
>)
    ensures
        vstd::utf8::valid_utf8(v@) <==> r is Ok,
        r matches Ok(s) ==> s@ == vstd::utf8::decode_utf8(v@),
;

} // verus!
