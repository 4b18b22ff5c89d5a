//! The transaction dispatcher: resolve the contract role's address, build
//! the payload, compute the fee, attach funds — then hand one prepared
//! request to the external signing client and classify what comes back.
//!
//! The network round trip itself lives outside this crate; here the
//! pipeline is a step function. A runner invokes the signing client with the
//! prepared request and feeds the outcome back in; a stale-sequence
//! rejection is retried exactly once, every other failure surfaces at once.

use vstd::prelude::*;

use crate::amount::Amount;
use crate::digits::append_str;
use crate::message::amounts_eq;
use crate::message::build;
use crate::message::payload_json;
use crate::message::spec_funds;
use crate::operation::default_fee;
use crate::operation::fee_for;
use crate::operation::fee_value;
use crate::operation::spec_fee_for;
use crate::operation::Fee;
use crate::operation::GasPrice;
use crate::operation::Operation;
use crate::resolver::address_for;
use crate::resolver::spec_address_for;
use crate::resolver::Config;
use crate::resolver::ContractRole;
use crate::resolver::role_label;
use crate::resolver::role_name;
use crate::resolver::DispatchError;

verus! {

/// What the external signing client returns on a confirmed dispatch;
/// passed through unchanged, never reinterpreted.
#[derive(Clone, Debug)]
pub struct ExecuteResult {
    pub tx_hash: String,
    pub gas_used: u64,
    pub logs: String,
}

/// The classified outcome of one invocation of the external signing
/// client, as the runner reports it back.
#[derive(Clone, Debug)]
pub enum ExecuteOutcome {
    Success(ExecuteResult),
    SequenceMismatch,
    NetworkFailure,
    ContractRejected(String),
    SerializationFailure,
}

/// Everything the external signing client needs for one execute call.
#[derive(Clone, Debug)]
pub struct ExecuteRequest {
    pub sender: String,
    pub contract_address: String,
    pub payload: String,
    pub fee: Fee,
    pub memo: String,
    pub funds: Vec<Amount>,
}

/// An in-flight dispatch: the request to (re)send and whether the one
/// internal retry has been spent.
#[derive(Clone, Debug)]
pub struct DispatchState {
    pub request: ExecuteRequest,
    pub retried: bool,
}

/// What the runner must do next: invoke the signing client, return the
/// result to the caller, or surface a failure.
#[derive(Clone, Debug)]
pub enum DispatchStep {
    Invoke(DispatchState),
    Done(ExecuteResult),
    Fail(DispatchError),
}

/// The contract role an operation addresses: staking for bonding and
/// delegation, vesting for the vesting contract's own bookkeeping.
pub open spec fn spec_role_of(op: Operation) -> ContractRole {
    match op {
        Operation::BondGateway { .. } => ContractRole::Staking,
        Operation::UnbondGateway => ContractRole::Staking,
        Operation::BondMixnode { .. } => ContractRole::Staking,
        Operation::UnbondMixnode => ContractRole::Staking,
        Operation::DelegateToMixnode { .. } => ContractRole::Staking,
        Operation::UndelegateFromMixnode { .. } => ContractRole::Staking,
        Operation::TrackUnbondGateway { .. } => ContractRole::Vesting,
        Operation::TrackUnbondMixnode { .. } => ContractRole::Vesting,
        Operation::TrackUndelegation { .. } => ContractRole::Vesting,
        Operation::WithdrawVestedCoins { .. } => ContractRole::Vesting,
        Operation::CreatePeriodicVestingAccount { .. } => ContractRole::Vesting,
    }
}

/// Resolves the contract role an operation addresses.
pub fn role_of(op: &Operation) -> (r: ContractRole)
    ensures
        r == spec_role_of(*op),
{
    match op {
        Operation::BondGateway { .. } => ContractRole::Staking,
        Operation::UnbondGateway => ContractRole::Staking,
        Operation::BondMixnode { .. } => ContractRole::Staking,
        Operation::UnbondMixnode => ContractRole::Staking,
        Operation::DelegateToMixnode { .. } => ContractRole::Staking,
        Operation::UndelegateFromMixnode { .. } => ContractRole::Staking,
        Operation::TrackUnbondGateway { .. } => ContractRole::Vesting,
        Operation::TrackUnbondMixnode { .. } => ContractRole::Vesting,
        Operation::TrackUndelegation { .. } => ContractRole::Vesting,
        Operation::WithdrawVestedCoins { .. } => ContractRole::Vesting,
        Operation::CreatePeriodicVestingAccount { .. } => ContractRole::Vesting,
    }
}

/// The fixed, human-readable memo naming each operation, sent with the
/// transaction for on-chain auditability.
pub open spec fn memo_of(op: Operation) -> Seq<char> {
    match op {
        Operation::BondGateway { .. } => "VestingContract::BondGateway"@,
        Operation::UnbondGateway => "VestingContract::UnbondGateway"@,
        Operation::TrackUnbondGateway { .. } => "VestingContract::TrackUnbondGateway"@,
        Operation::BondMixnode { .. } => "VestingContract::BondMixnode"@,
        Operation::UnbondMixnode => "VestingContract::UnbondMixnode"@,
        Operation::TrackUnbondMixnode { .. } => "VestingContract::TrackUnbondMixnode"@,
        Operation::WithdrawVestedCoins { .. } => "VestingContract::WithdrawVested"@,
        Operation::TrackUndelegation { .. } => "VestingContract::TrackUndelegation"@,
        Operation::DelegateToMixnode { .. } => "VestingContract::DeledateToMixnode"@,
        Operation::UndelegateFromMixnode { .. } => "VestingContract::UndelegateFromMixnode"@,
        Operation::CreatePeriodicVestingAccount { .. } => (
        "VestingContract::CreatePeriodicVestingAccount"@),
    }
}

/// Renders the fixed memo of an operation.
pub fn operation_memo(op: &Operation) -> (r: String)
    ensures
        r@ == memo_of(*op),
{
    match op {
        Operation::BondGateway { .. } => "VestingContract::BondGateway".to_owned(),
        Operation::UnbondGateway => "VestingContract::UnbondGateway".to_owned(),
        Operation::TrackUnbondGateway { .. } => "VestingContract::TrackUnbondGateway".to_owned(),
        Operation::BondMixnode { .. } => "VestingContract::BondMixnode".to_owned(),
        Operation::UnbondMixnode => "VestingContract::UnbondMixnode".to_owned(),
        Operation::TrackUnbondMixnode { .. } => "VestingContract::TrackUnbondMixnode".to_owned(),
        Operation::WithdrawVestedCoins { .. } => "VestingContract::WithdrawVested".to_owned(),
        Operation::TrackUndelegation { .. } => "VestingContract::TrackUndelegation".to_owned(),
        Operation::DelegateToMixnode { .. } => "VestingContract::DeledateToMixnode".to_owned(),
        Operation::UndelegateFromMixnode { .. } => (
        "VestingContract::UndelegateFromMixnode".to_owned()),
        Operation::CreatePeriodicVestingAccount { .. } => (
        "VestingContract::CreatePeriodicVestingAccount".to_owned()),
    }
}

/// The bare name of each operation, used when a failure is reported.
pub open spec fn op_name(op: Operation) -> Seq<char> {
    match op {
        Operation::BondGateway { .. } => "BondGateway"@,
        Operation::UnbondGateway => "UnbondGateway"@,
        Operation::TrackUnbondGateway { .. } => "TrackUnbondGateway"@,
        Operation::BondMixnode { .. } => "BondMixnode"@,
        Operation::UnbondMixnode => "UnbondMixnode"@,
        Operation::TrackUnbondMixnode { .. } => "TrackUnbondMixnode"@,
        Operation::WithdrawVestedCoins { .. } => "WithdrawVestedCoins"@,
        Operation::TrackUndelegation { .. } => "TrackUndelegation"@,
        Operation::DelegateToMixnode { .. } => "DelegateToMixnode"@,
        Operation::UndelegateFromMixnode { .. } => "UndelegateFromMixnode"@,
        Operation::CreatePeriodicVestingAccount { .. } => "CreatePeriodicVestingAccount"@,
    }
}

/// Renders the bare name of an operation.
pub fn operation_name(op: &Operation) -> (r: String)
    ensures
        r@ == op_name(*op),
{
    match op {
        Operation::BondGateway { .. } => "BondGateway".to_owned(),
        Operation::UnbondGateway => "UnbondGateway".to_owned(),
        Operation::TrackUnbondGateway { .. } => "TrackUnbondGateway".to_owned(),
        Operation::BondMixnode { .. } => "BondMixnode".to_owned(),
        Operation::UnbondMixnode => "UnbondMixnode".to_owned(),
        Operation::TrackUnbondMixnode { .. } => "TrackUnbondMixnode".to_owned(),
        Operation::WithdrawVestedCoins { .. } => "WithdrawVestedCoins".to_owned(),
        Operation::TrackUndelegation { .. } => "TrackUndelegation".to_owned(),
        Operation::DelegateToMixnode { .. } => "DelegateToMixnode".to_owned(),
        Operation::UndelegateFromMixnode { .. } => "UndelegateFromMixnode".to_owned(),
        Operation::CreatePeriodicVestingAccount { .. } => (
        "CreatePeriodicVestingAccount".to_owned()),
    }
}

/// The specific kind of each failure, in words; a contract rejection
/// carries the chain's reason verbatim.
pub open spec fn error_text(e: DispatchError) -> Seq<char> {
    match e {
        DispatchError::ContractNotConfigured(role) => "no address configured for the "@
            + role_name(role) + " contract"@,
        DispatchError::NetworkError => "network failure reaching the chain"@,
        DispatchError::SequenceMismatch => "account sequence mismatch"@,
        DispatchError::ContractRejected(reason) => "contract rejected: "@ + reason@,
        DispatchError::SerializationError => "payload could not be encoded"@,
    }
}

/// Renders a failure for the user: always the operation name, then the
/// specific kind, never a generic message.
pub fn describe_failure(op: &Operation, e: &DispatchError) -> (r: String)
    ensures
        r@ == op_name(*op) + ": "@ + error_text(*e),
{
    let mut out = operation_name(op);
    append_str(&mut out, ": ");
    match e {
        DispatchError::ContractNotConfigured(role) => {
            append_str(&mut out, "no address configured for the ");
            let label = role_label(*role);
            append_str(&mut out, label.as_str());
            append_str(&mut out, " contract");
        },
        DispatchError::NetworkError => {
            append_str(&mut out, "network failure reaching the chain");
        },
        DispatchError::SequenceMismatch => {
            append_str(&mut out, "account sequence mismatch");
        },
        DispatchError::ContractRejected(reason) => {
            append_str(&mut out, "contract rejected: ");
            append_str(&mut out, reason.as_str());
        },
        DispatchError::SerializationError => {
            append_str(&mut out, "payload could not be encoded");
        },
    }
    proof {
        assert(out@ =~= op_name(*op) + ": "@ + error_text(*e));
    }
    out
}

/// A prepared request carries exactly what the operation, caller,
/// configuration and gas price dictate.
pub open spec fn request_matches(
    op: Operation,
    sender: Seq<char>,
    config: Config,
    price: GasPrice,
    req: ExecuteRequest,
) -> bool {
    &&& spec_address_for(config, spec_role_of(op)) == Some(req.contract_address@)
    &&& req.sender@ == sender
    &&& req.payload@ == payload_json(op)
    &&& amounts_eq(req.funds@, spec_funds(op))
    &&& req.memo@ == memo_of(op)
    &&& req.fee.gas_limit == spec_fee_for(op).gas_limit
    &&& req.fee.amount@.len() == 1
    &&& req.fee.amount@[0].value as nat == fee_value(
        spec_fee_for(op).gas_limit as nat,
        price.micro_per_gas as nat,
    )
    &&& req.fee.amount@[0].denom@ == price.denom@
}

/// What `prepare_dispatch` guarantees: a request exactly as dictated, or
/// the resolver's failure, propagated unchanged before anything is built.
pub open spec fn prepare_post(
    op: Operation,
    sender: Seq<char>,
    config: Config,
    price: GasPrice,
    r: Result<ExecuteRequest, DispatchError>,
) -> bool {
    match r {
        Ok(req) => request_matches(op, sender, config, price, req),
        Err(e) => match e {
            DispatchError::ContractNotConfigured(role) => role == spec_role_of(op)
                && spec_address_for(config, role) is None,
            _ => false,
        },
    }
}

/// Resolves, builds and prices one operation into a ready execute request.
///
/// The address is resolved before any message is built, so a missing
/// configuration entry fails first and no partially-built message is
/// discarded mid-flight.
pub fn prepare_dispatch(
    op: &Operation,
    sender: &str,
    config: &Config,
    price: &GasPrice,
) -> (r: Result<ExecuteRequest, DispatchError>)
    ensures
        prepare_post(*op, sender@, *config, *price, r),
{
    let role = role_of(op);
    let contract_address = match address_for(config, role) {
        Ok(a) => a,
        Err(e) => {
            return Err(e);
        },
    };
    let (payload, funds) = build(op);
    let policy = fee_for(op);
    let fee = default_fee(&policy, price);
    let memo = operation_memo(op);
    Ok(
        ExecuteRequest {
            sender: sender.to_owned(),
            contract_address,
            payload,
            fee,
            memo,
            funds,
        },
    )
}

/// What `start_dispatch` guarantees: an invocation of a request exactly as
/// dictated with the retry unspent, or the resolver's failure and no
/// invocation at all.
pub open spec fn start_post(
    op: Operation,
    sender: Seq<char>,
    config: Config,
    price: GasPrice,
    r: DispatchStep,
) -> bool {
    match r {
        DispatchStep::Invoke(st) => !st.retried && request_matches(
            op,
            sender,
            config,
            price,
            st.request,
        ),
        DispatchStep::Done(_) => false,
        DispatchStep::Fail(e) => match e {
            DispatchError::ContractNotConfigured(role) => role == spec_role_of(op)
                && spec_address_for(config, role) is None,
            _ => false,
        },
    }
}

/// Starts a dispatch: either the first invocation of the prepared request,
/// or the resolver's failure with the external client never involved.
pub fn start_dispatch(op: &Operation, sender: &str, config: &Config, price: &GasPrice) -> (r:
    DispatchStep)
    ensures
        start_post(*op, sender@, *config, *price, r),
{
    match prepare_dispatch(op, sender, config, price) {
        Ok(request) => DispatchStep::Invoke(DispatchState { request, retried: false }),
        Err(e) => DispatchStep::Fail(e),
    }
}

/// The dispatcher's reaction to one outcome of the signing client: pass a
/// success through unchanged, re-invoke once on a stale sequence, surface
/// everything else as the matching typed error.
pub open spec fn dispatch_step_spec(state: DispatchState, outcome: ExecuteOutcome) -> DispatchStep {
    match outcome {
        ExecuteOutcome::Success(res) => DispatchStep::Done(res),
        ExecuteOutcome::SequenceMismatch => if !state.retried {
            DispatchStep::Invoke(DispatchState { request: state.request, retried: true })
        } else {
            DispatchStep::Fail(DispatchError::SequenceMismatch)
        },
        ExecuteOutcome::NetworkFailure => DispatchStep::Fail(DispatchError::NetworkError),
        ExecuteOutcome::ContractRejected(reason) => DispatchStep::Fail(
            DispatchError::ContractRejected(reason),
        ),
        ExecuteOutcome::SerializationFailure => DispatchStep::Fail(
            DispatchError::SerializationError,
        ),
    }
}

/// Advances an in-flight dispatch by one reported outcome.
pub fn on_execute_outcome(state: DispatchState, outcome: ExecuteOutcome) -> (r: DispatchStep)
    ensures
        r == dispatch_step_spec(state, outcome),
{
    match outcome {
        ExecuteOutcome::Success(res) => DispatchStep::Done(res),
        ExecuteOutcome::SequenceMismatch => {
            if !state.retried {
                DispatchStep::Invoke(DispatchState { request: state.request, retried: true })
            } else {
                DispatchStep::Fail(DispatchError::SequenceMismatch)
            }
        },
        ExecuteOutcome::NetworkFailure => DispatchStep::Fail(DispatchError::NetworkError),
        ExecuteOutcome::ContractRejected(reason) => DispatchStep::Fail(
            DispatchError::ContractRejected(reason),
        ),
        ExecuteOutcome::SerializationFailure => DispatchStep::Fail(
            DispatchError::SerializationError,
        ),
    }
}

/// Resolver failure short-circuits: with no address configured for the
/// operation's role, starting a dispatch fails with that role's
/// configuration error and the signing client is never invoked.
pub proof fn lemma_resolver_failure_short_circuits(
    op: Operation,
    sender: Seq<char>,
    config: Config,
    price: GasPrice,
    r: DispatchStep,
)
    requires
        start_post(op, sender, config, price, r),
        spec_address_for(config, spec_role_of(op)) is None,
    ensures
        !(r is Invoke),
        !(r is Done),
        r == DispatchStep::Fail(DispatchError::ContractNotConfigured(spec_role_of(op))),
{
    match r {
        DispatchStep::Invoke(st) => {
            assert(spec_address_for(config, spec_role_of(op)) == Some(st.request.contract_address@));
        },
        DispatchStep::Done(_) => {},
        DispatchStep::Fail(e) => {
            match e {
                DispatchError::ContractNotConfigured(role) => {},
                _ => {},
            }
        },
    }
}

/// A stale sequence number is retried exactly once: the first mismatch
/// re-invokes the same request with the retry spent; a success then
/// completes the dispatch, while a second mismatch surfaces the error.
pub proof fn lemma_sequence_mismatch_retried_once(st: DispatchState, res: ExecuteResult)
    requires
        !st.retried,
    ensures
        dispatch_step_spec(st, ExecuteOutcome::SequenceMismatch) == DispatchStep::Invoke(
            DispatchState { request: st.request, retried: true },
        ),
        dispatch_step_spec(
            DispatchState { request: st.request, retried: true },
            ExecuteOutcome::Success(res),
        ) == DispatchStep::Done(res),
        dispatch_step_spec(
            DispatchState { request: st.request, retried: true },
            ExecuteOutcome::SequenceMismatch,
        ) == DispatchStep::Fail(DispatchError::SequenceMismatch),
{
}

} // verus!
