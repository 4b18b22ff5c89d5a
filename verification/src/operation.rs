//! The operation registry: the closed catalog of supported contract
//! operations, each with the parameters it needs and its default fee policy.
//!
//! Fees are deterministic: with simulation unavailable the caller commits to
//! a fee computed from a fixed per-operation gas estimate and the configured
//! gas price, in exact integer arithmetic rounded up (a conservative
//! overestimate, never an underestimate).

use vstd::prelude::*;

use crate::amount::Amount;
use crate::amount::ValidationError;

verus! {

/// Descriptor of a mix node, embedded in bonding payloads.
#[derive(Clone, Debug, PartialEq, Eq)]
pub struct MixNode {
    pub host: String,
    pub mix_port: u16,
    pub verloc_port: u16,
    pub http_api_port: u16,
    pub sphinx_key: String,
    pub identity_key: String,
    pub version: String,
    pub profit_margin_percent: u8,
}

/// Descriptor of a gateway, embedded in bonding payloads.
#[derive(Clone, Debug, PartialEq, Eq)]
pub struct Gateway {
    pub host: String,
    pub mix_port: u16,
    pub clients_port: u16,
    pub location: String,
    pub sphinx_key: String,
    pub identity_key: String,
    pub version: String,
}

/// A supported operation, carrying exactly the parameters it needs;
/// immutable once constructed.
#[derive(Clone, Debug)]
pub enum Operation {
    BondGateway { gateway: Gateway, pledge: Amount, owner_signature: String },
    UnbondGateway,
    TrackUnbondGateway { owner: String, amount: Amount },
    BondMixnode { mix_node: MixNode, pledge: Amount, owner_signature: String },
    UnbondMixnode,
    TrackUnbondMixnode { owner: String, amount: Amount },
    WithdrawVestedCoins { amount: Amount },
    TrackUndelegation { owner: String, mix_identity: String, amount: Amount },
    DelegateToMixnode { mix_identity: String, amount: Amount },
    UndelegateFromMixnode { mix_identity: String },
    CreatePeriodicVestingAccount { address: String, start_time: Option<u64>, amount: Amount },
}

/// Per-operation default fee policy: a conservative gas estimate used when
/// live simulation is unavailable or disabled.
#[derive(Clone, Copy, Debug, PartialEq, Eq, Structural)]
pub struct FeePolicy {
    pub gas_limit: u64,
}

/// Gas price: millionths of a minor unit charged per gas unit, with its
/// denomination.
#[derive(Clone, Debug)]
pub struct GasPrice {
    pub micro_per_gas: u64,
    pub denom: String,
}

/// A concrete fee: the amounts to attach and the gas limit to commit to.
#[derive(Clone, Debug)]
pub struct Fee {
    pub amount: Vec<Amount>,
    pub gas_limit: u64,
}

/// The registry's policy for each operation.
pub open spec fn spec_fee_for(op: Operation) -> FeePolicy {
    match op {
        Operation::BondGateway { .. } => FeePolicy { gas_limit: 175000 },
        Operation::UnbondGateway => FeePolicy { gas_limit: 175000 },
        Operation::TrackUnbondGateway { .. } => FeePolicy { gas_limit: 100000 },
        Operation::BondMixnode { .. } => FeePolicy { gas_limit: 175000 },
        Operation::UnbondMixnode => FeePolicy { gas_limit: 175000 },
        Operation::TrackUnbondMixnode { .. } => FeePolicy { gas_limit: 100000 },
        Operation::WithdrawVestedCoins { .. } => FeePolicy { gas_limit: 150000 },
        Operation::TrackUndelegation { .. } => FeePolicy { gas_limit: 100000 },
        Operation::DelegateToMixnode { .. } => FeePolicy { gas_limit: 175000 },
        Operation::UndelegateFromMixnode { .. } => FeePolicy { gas_limit: 175000 },
        Operation::CreatePeriodicVestingAccount { .. } => FeePolicy { gas_limit: 175000 },
    }
}

/// Looks up the default fee policy of an operation. Total over the closed
/// enumeration: every variant has an entry, enforced by the exhaustive
/// match.
pub fn fee_for(op: &Operation) -> (r: FeePolicy)
    ensures
        r == spec_fee_for(*op),
{
    match op {
        Operation::BondGateway { .. } => FeePolicy { gas_limit: 175000 },
        Operation::UnbondGateway => FeePolicy { gas_limit: 175000 },
        Operation::TrackUnbondGateway { .. } => FeePolicy { gas_limit: 100000 },
        Operation::BondMixnode { .. } => FeePolicy { gas_limit: 175000 },
        Operation::UnbondMixnode => FeePolicy { gas_limit: 175000 },
        Operation::TrackUnbondMixnode { .. } => FeePolicy { gas_limit: 100000 },
        Operation::WithdrawVestedCoins { .. } => FeePolicy { gas_limit: 150000 },
        Operation::TrackUndelegation { .. } => FeePolicy { gas_limit: 100000 },
        Operation::DelegateToMixnode { .. } => FeePolicy { gas_limit: 175000 },
        Operation::UndelegateFromMixnode { .. } => FeePolicy { gas_limit: 175000 },
        Operation::CreatePeriodicVestingAccount { .. } => FeePolicy { gas_limit: 175000 },
    }
}

/// Fee totality: every operation variant has a defined, positive default
/// gas estimate; none falls through to a default.
pub proof fn lemma_fee_totality(op: Operation)
    ensures
        spec_fee_for(op).gas_limit >= 100000,
{
}

/// The minor-unit fee a gas limit costs at a price in millionths of a minor
/// unit per gas, rounded up.
pub open spec fn fee_value(gas_limit: nat, micro_per_gas: nat) -> nat {
    (gas_limit * micro_per_gas + 999999) / 1000000
}

/// Computes the concrete default fee of a policy at a gas price: one amount
/// in the price's denomination, rounded up to a whole minor unit.
pub fn default_fee(policy: &FeePolicy, price: &GasPrice) -> (f: Fee)
    ensures
        f.gas_limit == policy.gas_limit,
        f.amount@.len() == 1,
        f.amount@[0].value as nat == fee_value(policy.gas_limit as nat, price.micro_per_gas as nat),
        f.amount@[0].denom@ == price.denom@,
{
    proof {
        assert((policy.gas_limit as nat) * (price.micro_per_gas as nat) + 999999 <= u128::MAX)
            by (nonlinear_arith)
            requires
                policy.gas_limit <= u64::MAX,
                price.micro_per_gas <= u64::MAX,
        ;
    }
    let prod = (policy.gas_limit as u128) * (price.micro_per_gas as u128);
    let value = (prod + 999999) / 1000000;
    let amount = Amount { value, denom: price.denom.clone() };
    let mut amounts: Vec<Amount> = Vec::new();
    amounts.push(amount);
    Fee { amount: amounts, gas_limit: policy.gas_limit }
}

/// Sum of the magnitudes of a sequence of amounts.
pub open spec fn sum_values(s: Seq<Amount>) -> nat
    decreases s.len(),
{
    if s.len() == 0 {
        0
    } else {
        sum_values(s.drop_last()) + s.last().value as nat
    }
}

/// Every amount in the sequence carries the given denomination.
pub open spec fn all_denom(s: Seq<Amount>, d: Seq<char>) -> bool {
    forall|i: int| 0 <= i < s.len() ==> (#[trigger] s[i]).denom@ == d
}

/// The sum over a whole sequence is at least the sum over any prefix.
proof fn lemma_sum_prefix(s: Seq<Amount>, i: int)
    requires
        0 <= i <= s.len(),
    ensures
        sum_values(s) >= sum_values(s.take(i)),
    decreases s.len() - i,
{
    if i == s.len() {
        assert(s.take(i) =~= s);
    } else {
        lemma_sum_prefix(s, i + 1);
        assert(s.take(i + 1).drop_last() =~= s.take(i));
    }
}

/// Folds a list of fee line items into one amount of the given
/// denomination. A differing denomination among the items is a validation
/// failure, never a guess; so is an overflowing total.
pub fn sum_amounts(denom: &String, items: &Vec<Amount>) -> (r: Result<Amount, ValidationError>)
    ensures
        match r {
            Ok(a) => all_denom(items@, denom@) && sum_values(items@) <= u128::MAX && a.value as nat
                == sum_values(items@) && a.denom@ == denom@,
            Err(e) => match e {
                ValidationError::DenomMismatch => !all_denom(items@, denom@),
                ValidationError::NegativeOrOverflowAmount => all_denom(items@, denom@)
                    && sum_values(items@) > u128::MAX,
                _ => false,
            },
        },
{
    let n = items.len();
    let mut i: usize = 0;
    while i < n
        invariant
            0 <= i <= n,
            n == items@.len(),
            forall|j: int| 0 <= j < i ==> (#[trigger] items@[j]).denom@ == denom@,
        decreases n - i,
    {
        if !(items[i].denom == *denom) {
            return Err(ValidationError::DenomMismatch);
        }
        i = i + 1;
    }
    let mut acc: u128 = 0;
    let mut i: usize = 0;
    while i < n
        invariant
            0 <= i <= n,
            n == items@.len(),
            all_denom(items@, denom@),
            acc as nat == sum_values(items@.take(i as int)),
        decreases n - i,
    {
        proof {
            assert(items@.take(i as int + 1).drop_last() =~= items@.take(i as int));
        }
        match acc.checked_add(items[i].value) {
            Some(v) => {
                acc = v;
            },
            None => {
                proof {
                    lemma_sum_prefix(items@, i as int + 1);
                }
                return Err(ValidationError::NegativeOrOverflowAmount);
            },
        }
        i = i + 1;
    }
    proof {
        assert(items@.take(n as int) =~= items@);
    }
    Ok(Amount { value: acc, denom: denom.clone() })
}

/// Computes the approximate fee of an operation at a gas price when live
/// simulation is unavailable: the default fee's line items folded into one
/// amount of the gas price's denomination.
pub fn get_approximate_fee(op: &Operation, price: &GasPrice) -> (r: Result<
    Amount,
    ValidationError,
>)
    ensures
        match r {
            Ok(a) => a.value as nat == fee_value(
                spec_fee_for(*op).gas_limit as nat,
                price.micro_per_gas as nat,
            ) && a.denom@ == price.denom@,
            Err(_) => false,
        },
{
    let policy = fee_for(op);
    let fee = default_fee(&policy, price);
    proof {
        assert(fee.amount@.drop_last() =~= Seq::<Amount>::empty());
        assert(sum_values(Seq::<Amount>::empty()) == 0);
        assert(fee.amount@.last() == fee.amount@[0]);
        assert(sum_values(fee.amount@) == fee.amount@[0].value as nat);
        assert(all_denom(fee.amount@, price.denom@));
    }
    match sum_amounts(&price.denom, &fee.amount) {
        Ok(a) => Ok(a),
        Err(e) => {
            proof {
                assert(false);
            }
            Err(e)
        },
    }
}

} // verus!
