use vstd::prelude::*;

use crate::model::{AlertSource, FilterError};

verus! {

/// A protobuf `Any`: a type URL and the encoded message bytes.
#[derive(Clone, Debug, PartialEq)]
pub struct AnyMsg {
    pub type_url: String,
    pub value: Vec<u8>,
}

/// What the chain registry knows of a Cosmos chain that filters read.
#[derive(Clone, Debug, PartialEq)]
pub struct CosmosChainData {
    pub bech32_prefix: String,
}

/// One key/value attribute of a logged contract event.
#[derive(Clone, Debug, PartialEq)]
pub struct EventAttribute {
    pub key: String,
    pub value: String,
}

/// One typed event of a message log.
#[derive(Clone, Debug, PartialEq)]
pub struct LogEvent {
    pub event_type: String,
    pub attributes: Vec<EventAttribute>,
}

/// The log of one message's execution.
#[derive(Clone, Debug, PartialEq)]
pub struct MsgLog {
    pub events: Vec<LogEvent>,
}

/// A whole Cosmos transaction: its signers' public keys, its result code and
/// its hash.
#[derive(Clone, Debug, PartialEq)]
pub struct AlertSourceCosmosTx {
    pub chain_id: String,
    pub chain_data: CosmosChainData,
    /// One entry per signer info of the transaction's auth info; `None` where
    /// the signer carries no public key.
    pub signer_keys: Vec<Option<AnyMsg>>,
    /// The result code of the transaction: zero on success.
    pub code: u32,
    pub tx_hash: String,
}

/// One message of a Cosmos transaction, with its execution log.
#[derive(Clone, Debug, PartialEq)]
pub struct AlertSourceCosmosMsg {
    pub chain_id: String,
    pub chain_data: CosmosChainData,
    pub msg_log: Option<MsgLog>,
    pub msg_index: u64,
    pub msg: AnyMsg,
    pub tx_hash: String,
}

/// One EVM log entry: the emitting contract's 20 address bytes, the topic
/// words and the data bytes.
#[derive(Clone, Debug, PartialEq)]
pub struct AlertSourceEthLog {
    pub chain_id: String,
    pub tx_hash: String,
    pub address: Vec<u8>,
    pub topics: Vec<Vec<u8>>,
    pub data: Vec<u8>,
    pub log_index: u64,
}

impl AlertSourceEthLog {
    /// The shape the chain guarantees: a 20-byte address and 32-byte topics.
    pub open spec fn wf(&self) -> bool {
        &&& self.address@.len() == 20
        &&& forall|i: int| 0 <= i < self.topics@.len() ==> (#[trigger] self.topics@[i])@.len() == 32
    }
}

/// One EVM transaction with its receipt, reduced to the fields filters read.
/// Addresses are their 20 raw bytes; `value` is the 32 big-endian bytes of
/// the transferred amount.
#[derive(Clone, Debug, PartialEq)]
pub struct AlertSourceEthTx {
    pub chain_id: String,
    pub tx_hash: String,
    /// The call data of the transaction.
    pub input: Vec<u8>,
    /// The native amount moved, as a 32-byte big-endian word.
    pub value: Vec<u8>,
    /// The transaction's recipient, absent for contract creation.
    pub to: Option<Vec<u8>>,
    /// The sender, from the receipt.
    pub receipt_from: Vec<u8>,
    /// The recipient, from the receipt.
    pub receipt_to: Option<Vec<u8>>,
    /// The receipt status: one on success, zero on failure, absent before
    /// the Byzantium fork.
    pub status: Option<u64>,
}

impl AlertSourceEthTx {
    /// The shape the chain guarantees: 20-byte addresses, a 32-byte amount.
    pub open spec fn wf(&self) -> bool {
        &&& self.value@.len() == 32
        &&& self.receipt_from@.len() == 20
        &&& (self.to matches Some(a) ==> a@.len() == 20)
        &&& (self.receipt_to matches Some(a) ==> a@.len() == 20)
    }
}

/// One ingested on-chain event, tagged by class.
#[derive(Clone, Debug, PartialEq)]
pub enum ProcessAlertSourceRequeust {
    CosmosTx(Box<AlertSourceCosmosTx>),
    CosmosMsg(Box<AlertSourceCosmosMsg>),
    EthLog(Box<AlertSourceEthLog>),
    EthTx(Box<AlertSourceEthTx>),
    ArchwaysBroadcast { chain_id: String, message: String, client_id: String },
}

/// The dispatch key of an event: its id (usually the transaction hash), its
/// chain and its class.
#[derive(Clone, Debug, PartialEq)]
pub struct AlertSourceContext {
    pub id: String,
    pub chain_id: String,
    pub source_type: AlertSource,
}

impl ProcessAlertSourceRequeust {
    /// The event class this event belongs to.
    pub open spec fn source_type_spec(&self) -> AlertSource {
        match self {
            ProcessAlertSourceRequeust::CosmosTx(_) => AlertSource::CosmosTx,
            ProcessAlertSourceRequeust::CosmosMsg(_) => AlertSource::CosmosMsg,
            ProcessAlertSourceRequeust::EthLog(_) => AlertSource::EthLog,
            ProcessAlertSourceRequeust::EthTx(_) => AlertSource::EthTx,
            ProcessAlertSourceRequeust::ArchwaysBroadcast { .. } => AlertSource::ArchwaysBroadcast,
        }
    }

    /// The characters of the chain id the event names.
    pub open spec fn chain_id_chars(&self) -> Seq<char> {
        match self {
            ProcessAlertSourceRequeust::CosmosTx(e) => e.chain_id@,
            ProcessAlertSourceRequeust::CosmosMsg(e) => e.chain_id@,
            ProcessAlertSourceRequeust::EthLog(e) => e.chain_id@,
            ProcessAlertSourceRequeust::EthTx(e) => e.chain_id@,
            ProcessAlertSourceRequeust::ArchwaysBroadcast { chain_id, .. } => chain_id@,
        }
    }

    /// The characters of the event id: the transaction hash, or empty for a
    /// broadcast.
    pub open spec fn event_id_chars(&self) -> Seq<char> {
        match self {
            ProcessAlertSourceRequeust::CosmosTx(e) => e.tx_hash@,
            ProcessAlertSourceRequeust::CosmosMsg(e) => e.tx_hash@,
            ProcessAlertSourceRequeust::EthLog(e) => e.tx_hash@,
            ProcessAlertSourceRequeust::EthTx(e) => e.tx_hash@,
            ProcessAlertSourceRequeust::ArchwaysBroadcast { .. } => Seq::empty(),
        }
    }

    /// Reports the event's dispatch key.
    pub fn ctx(&self) -> (r: AlertSourceContext)
        ensures
            r.source_type == self.source_type_spec(),
            r.chain_id@ == self.chain_id_chars(),
            r.id@ == self.event_id_chars(),
    {
        match self {
            ProcessAlertSourceRequeust::CosmosTx(e) => AlertSourceContext {
                id: e.tx_hash.clone(),
                chain_id: e.chain_id.clone(),
                source_type: AlertSource::CosmosTx,
            },
            ProcessAlertSourceRequeust::CosmosMsg(e) => AlertSourceContext {
                id: e.tx_hash.clone(),
                chain_id: e.chain_id.clone(),
                source_type: AlertSource::CosmosMsg,
            },
            ProcessAlertSourceRequeust::EthLog(e) => AlertSourceContext {
                id: e.tx_hash.clone(),
                chain_id: e.chain_id.clone(),
                source_type: AlertSource::EthLog,
            },
            ProcessAlertSourceRequeust::EthTx(e) => AlertSourceContext {
                id: e.tx_hash.clone(),
                chain_id: e.chain_id.clone(),
                source_type: AlertSource::EthTx,
            },
            ProcessAlertSourceRequeust::ArchwaysBroadcast { chain_id, .. } => {
                let r = AlertSourceContext {
                    id: String::new(),
                    chain_id: chain_id.clone(),
                    source_type: AlertSource::ArchwaysBroadcast,
                };
                proof {
                    assert(r.id@ =~= Seq::<char>::empty());
                }
                r
            },
        }
    }

    /// Hands out the Cosmos message event, or refuses the event class.
    pub fn get_cosmos_msg(&self) -> (r: Result<&AlertSourceCosmosMsg, FilterError>)
        ensures
            r is Ok <==> self is CosmosMsg,
            self matches ProcessAlertSourceRequeust::CosmosMsg(e) ==> r matches Ok(x) && *x == **e,
            r is Err ==> r == Err::<&AlertSourceCosmosMsg, FilterError>(FilterError::WrongEventKind),
    {
        if let ProcessAlertSourceRequeust::CosmosMsg(e) = self {
            Ok(&**e)
        } else {
            Err(FilterError::WrongEventKind)
        }
    }

    /// Hands out the Cosmos transaction event, or refuses the event class.
    pub fn get_cosmos_tx(&self) -> (r: Result<&AlertSourceCosmosTx, FilterError>)
        ensures
            r is Ok <==> self is CosmosTx,
            self matches ProcessAlertSourceRequeust::CosmosTx(e) ==> r matches Ok(x) && *x == **e,
            r is Err ==> r == Err::<&AlertSourceCosmosTx, FilterError>(FilterError::WrongEventKind),
    {
        if let ProcessAlertSourceRequeust::CosmosTx(e) = self {
            Ok(&**e)
        } else {
            Err(FilterError::WrongEventKind)
        }
    }

    /// Hands out the EVM log event, or refuses the event class.
    pub fn get_eth_log(&self) -> (r: Result<&AlertSourceEthLog, FilterError>)
        ensures
            r is Ok <==> self is EthLog,
            self matches ProcessAlertSourceRequeust::EthLog(e) ==> r matches Ok(x) && *x == **e,
            r is Err ==> r == Err::<&AlertSourceEthLog, FilterError>(FilterError::WrongEventKind),
    {
        if let ProcessAlertSourceRequeust::EthLog(e) = self {
            Ok(&**e)
        } else {
            Err(FilterError::WrongEventKind)
        }
    }

    /// Hands out the EVM transaction event, or refuses the event class.
    pub fn get_eth_tx(&self) -> (r: Result<&AlertSourceEthTx, FilterError>)
        ensures
            r is Ok <==> self is EthTx,
            self matches ProcessAlertSourceRequeust::EthTx(e) ==> r matches Ok(x) && *x == **e,
            r is Err ==> r == Err::<&AlertSourceEthTx, FilterError>(FilterError::WrongEventKind),
    {
        if let ProcessAlertSourceRequeust::EthTx(e) = self {
            Ok(&**e)
        } else {
            Err(FilterError::WrongEventKind)
        }
    }

    /// The shape the chain guarantees of the event's payload.
    pub open spec fn wf(&self) -> bool {
        match self {
            ProcessAlertSourceRequeust::EthLog(e) => e.wf(),
            ProcessAlertSourceRequeust::EthTx(e) => e.wf(),
            _ => true,
        }
    }
}

} // verus!
