use nym_dispatch::amount::Amount;
use nym_dispatch::amount::ValidationError;
use nym_dispatch::operation::default_fee;
use nym_dispatch::operation::fee_for;
use nym_dispatch::operation::get_approximate_fee;
use nym_dispatch::operation::sum_amounts;
use nym_dispatch::operation::GasPrice;
use nym_dispatch::operation::Operation;

fn unym(value: u128) -> Amount {
    Amount { value, denom: "unym".to_string() }
}

fn price(micro_per_gas: u64) -> GasPrice {
    GasPrice { micro_per_gas, denom: "unym".to_string() }
}

fn every_operation() -> Vec<Operation> {
    vec![
        Operation::BondGateway {
            gateway: nym_dispatch::operation::Gateway {
                host: "1.2.3.4".to_string(),
                mix_port: 1789,
                clients_port: 9000,
                location: "earth".to_string(),
                sphinx_key: "sphinx".to_string(),
                identity_key: "identity".to_string(),
                version: "0.12.1".to_string(),
            },
            pledge: unym(100000000),
            owner_signature: "sig".to_string(),
        },
        Operation::UnbondGateway,
        Operation::TrackUnbondGateway { owner: "owner".to_string(), amount: unym(1) },
        Operation::BondMixnode {
            mix_node: nym_dispatch::operation::MixNode {
                host: "1.2.3.4".to_string(),
                mix_port: 1789,
                verloc_port: 1790,
                http_api_port: 8000,
                sphinx_key: "sphinx".to_string(),
                identity_key: "identity".to_string(),
                version: "0.12.1".to_string(),
                profit_margin_percent: 10,
            },
            pledge: unym(100000000),
            owner_signature: "sig".to_string(),
        },
        Operation::UnbondMixnode,
        Operation::TrackUnbondMixnode { owner: "owner".to_string(), amount: unym(1) },
        Operation::WithdrawVestedCoins { amount: unym(5) },
        Operation::TrackUndelegation {
            owner: "owner".to_string(),
            mix_identity: "id".to_string(),
            amount: unym(2),
        },
        Operation::DelegateToMixnode { mix_identity: "id".to_string(), amount: unym(3) },
        Operation::UndelegateFromMixnode { mix_identity: "id".to_string() },
        Operation::CreatePeriodicVestingAccount {
            address: "addr".to_string(),
            start_time: None,
            amount: unym(4),
        },
    ]
}

#[test]
fn fee_policy_defined_for_every_variant() {
    for op in every_operation() {
        let policy = fee_for(&op);
        assert!(policy.gas_limit >= 100000);
    }
}

#[test]
fn fee_policy_exact_gas_limits() {
    assert_eq!(fee_for(&Operation::UnbondMixnode).gas_limit, 175000);
    assert_eq!(fee_for(&Operation::UnbondGateway).gas_limit, 175000);
    assert_eq!(
        fee_for(&Operation::TrackUnbondMixnode { owner: "o".to_string(), amount: unym(1) })
            .gas_limit,
        100000
    );
    assert_eq!(fee_for(&Operation::WithdrawVestedCoins { amount: unym(1) }).gas_limit, 150000);
}

#[test]
fn default_fee_exact_value() {
    // 175000 gas at 0.025 unym per gas: 175000 * 25000 / 1000000 = 4375.
    let fee = default_fee(&fee_for(&Operation::UnbondMixnode), &price(25000));
    assert_eq!(fee.gas_limit, 175000);
    assert_eq!(fee.amount.len(), 1);
    assert_eq!(fee.amount[0], unym(4375));
}

#[test]
fn default_fee_rounds_up() {
    // 100000 * 25001 = 2500100000, over a million leaves a remainder: round up.
    let op = Operation::TrackUnbondGateway { owner: "o".to_string(), amount: unym(1) };
    let fee = default_fee(&fee_for(&op), &price(25001));
    assert_eq!(fee.amount[0], unym(2501));
}

#[test]
fn approximate_fee_folds_line_items() {
    let got = get_approximate_fee(&Operation::UnbondMixnode, &price(25000)).expect("total");
    assert_eq!(got, unym(4375));
}

#[test]
fn sum_amounts_empty_is_zero() {
    let total = sum_amounts(&"unym".to_string(), &vec![]).expect("empty sum");
    assert_eq!(total, unym(0));
}

#[test]
fn sum_amounts_adds() {
    let total =
        sum_amounts(&"unym".to_string(), &vec![unym(1), unym(2), unym(39)]).expect("same denom");
    assert_eq!(total, unym(42));
}

#[test]
fn sum_amounts_denom_mismatch() {
    let other = Amount { value: 1, denom: "uusd".to_string() };
    let e = sum_amounts(&"unym".to_string(), &vec![unym(1), other]).expect_err("mixed denoms");
    assert_eq!(e, ValidationError::DenomMismatch);
}

#[test]
fn sum_amounts_overflow() {
    let e = sum_amounts(&"unym".to_string(), &vec![unym(u128::MAX), unym(1)])
        .expect_err("overflow");
    assert_eq!(e, ValidationError::NegativeOrOverflowAmount);
}
