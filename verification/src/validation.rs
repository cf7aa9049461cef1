use vstd::prelude::*;

use crate::alert_store::CreateAlertRequest;
use crate::model::ChainAlert;

verus! {

/// Why a request was refused before it reached a store.
#[derive(Clone, Copy, Debug, PartialEq, Eq, Structural)]
pub enum ValidationError {
    /// The request names no chain.
    MissingChainId,
    /// The rule variant requires an address and none was given.
    MissingAddress,
    /// The rule variant requires a signer and none was given.
    MissingSigner,
}

/// A request the gateway checks before acting on it.
pub trait Validateable {
    /// What the check decides.
    spec fn validate_spec(&self) -> Result<(), ValidationError>;

    /// Checks the request.
    fn validate(&self) -> (r: Result<(), ValidationError>)
        ensures
            r == self.validate_spec(),
    ;
}

impl Validateable for CreateAlertRequest {
    /// A new rule must name a chain, and its body must carry the address or
    /// signer its variant watches; a broadcast rule needs nothing more.
    open spec fn validate_spec(&self) -> Result<(), ValidationError> {
        if self.chain_id@.len() == 0 {
            Err(ValidationError::MissingChainId)
        } else {
            match self.alert {
                ChainAlert::CosmosSendFunds(a) => if a.from@.len() == 0 || a.to@.len() == 0 {
                    Err(ValidationError::MissingAddress)
                } else {
                    Ok(())
                },
                ChainAlert::CosmosMonitorFunds(a) => if a.address@.len() == 0 {
                    Err(ValidationError::MissingAddress)
                } else {
                    Ok(())
                },
                ChainAlert::CosmosSmartContractEvents(a) => if a.address@.len() == 0 {
                    Err(ValidationError::MissingAddress)
                } else {
                    Ok(())
                },
                ChainAlert::CosmosTxOutcome(a) => if a.signer@.len() == 0 {
                    Err(ValidationError::MissingSigner)
                } else {
                    Ok(())
                },
                ChainAlert::EthSmartContractEvents(a) => if a.contract_addr@.len() == 0 {
                    Err(ValidationError::MissingAddress)
                } else {
                    Ok(())
                },
                ChainAlert::EthMonitorFunds(a) => if a.address@.len() == 0 {
                    Err(ValidationError::MissingAddress)
                } else {
                    Ok(())
                },
                ChainAlert::EthTxOutcome(a) => if a.signer@.len() == 0 {
                    Err(ValidationError::MissingSigner)
                } else {
                    Ok(())
                },
                ChainAlert::ArchwayBroadcast => Ok(()),
            }
        }
    }

    fn validate(&self) -> (r: Result<(), ValidationError>)
        ensures
            r == self.validate_spec(),
    {
        if self.chain_id.as_str().is_empty() {
            return Err(ValidationError::MissingChainId);
        }
        match &self.alert {
            ChainAlert::CosmosSendFunds(a) => {
                if a.from.as_str().is_empty() || a.to.as_str().is_empty() {
                    Err(ValidationError::MissingAddress)
                } else {
                    Ok(())
                }
            },
            ChainAlert::CosmosMonitorFunds(a) => {
                if a.address.as_str().is_empty() {
                    Err(ValidationError::MissingAddress)
                } else {
                    Ok(())
                }
            },
            ChainAlert::CosmosSmartContractEvents(a) => {
                if a.address.as_str().is_empty() {
                    Err(ValidationError::MissingAddress)
                } else {
                    Ok(())
                }
            },
            ChainAlert::CosmosTxOutcome(a) => {
                if a.signer.as_str().is_empty() {
                    Err(ValidationError::MissingSigner)
                } else {
                    Ok(())
                }
            },
            ChainAlert::EthSmartContractEvents(a) => {
                if a.contract_addr.as_str().is_empty() {
                    Err(ValidationError::MissingAddress)
                } else {
                    Ok(())
                }
            },
            ChainAlert::EthMonitorFunds(a) => {
                if a.address.as_str().is_empty() {
                    Err(ValidationError::MissingAddress)
                } else {
                    Ok(())
                }
            },
            ChainAlert::EthTxOutcome(a) => {
                if a.signer.as_str().is_empty() {
                    Err(ValidationError::MissingSigner)
                } else {
                    Ok(())
                }
            },
            ChainAlert::ArchwayBroadcast => Ok(()),
        }
    }
}

} // verus!
