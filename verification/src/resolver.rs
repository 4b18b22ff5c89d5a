//! The contract address resolver: maps a logical contract role to the
//! network-specific address configured for it. Absence of an address is a
//! first-class configuration failure, reported before any message is built.

use vstd::prelude::*;

verus! {

/// Logical role of a contract on the network.
#[derive(Clone, Copy, Debug, PartialEq, Eq, Structural)]
pub enum ContractRole {
    Staking,
    Vesting,
}

/// Network configuration: the address of each contract role, populated once
/// at configuration time and immutable afterward.
#[derive(Clone, Debug)]
pub struct Config {
    pub staking_contract_address: Option<String>,
    pub vesting_contract_address: Option<String>,
}

/// The address view the configuration holds for a role, if any.
pub open spec fn spec_address_for(config: Config, role: ContractRole) -> Option<Seq<char>> {
    match role {
        ContractRole::Staking => match config.staking_contract_address {
            Some(a) => Some(a@),
            None => None,
        },
        ContractRole::Vesting => match config.vesting_contract_address {
            Some(a) => Some(a@),
            None => None,
        },
    }
}

/// Typed failures of the dispatch pipeline.
#[derive(Clone, Debug)]
pub enum DispatchError {
    /// The resolver has no address for the required role; non-retryable.
    ContractNotConfigured(ContractRole),
    /// Transport failure reaching the chain; retryable by the caller.
    NetworkError,
    /// The chain rejected a stale account sequence; retried once
    /// internally, surfaced if the retry also fails.
    SequenceMismatch,
    /// The chain executed but the contract logic rejected the message;
    /// surfaced verbatim.
    ContractRejected(String),
    /// The payload could not be encoded to the wire format; a programming
    /// defect, surfaced.
    SerializationError,
}

/// The human-readable name of a contract role.
pub open spec fn role_name(role: ContractRole) -> Seq<char> {
    match role {
        ContractRole::Staking => "staking"@,
        ContractRole::Vesting => "vesting"@,
    }
}

/// Renders the name of a contract role.
pub fn role_label(role: ContractRole) -> (r: String)
    ensures
        r@ == role_name(role),
{
    match role {
        ContractRole::Staking => "staking".to_owned(),
        ContractRole::Vesting => "vesting".to_owned(),
    }
}

/// Resolves the address configured for a role; fails with
/// `ContractNotConfigured` exactly when the configuration omits the role.
pub fn address_for(config: &Config, role: ContractRole) -> (r: Result<String, DispatchError>)
    ensures
        match r {
            Ok(a) => spec_address_for(*config, role) == Some(a@),
            Err(e) => match e {
                DispatchError::ContractNotConfigured(ro) => ro == role && spec_address_for(
                    *config,
                    role,
                ) is None,
                _ => false,
            },
        },
{
    let slot = match role {
        ContractRole::Staking => &config.staking_contract_address,
        ContractRole::Vesting => &config.vesting_contract_address,
    };
    match slot {
        Some(a) => Ok(a.clone()),
        None => Err(DispatchError::ContractNotConfigured(role)),
    }
}

} // verus!
