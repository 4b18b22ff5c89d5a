use nym_dispatch::amount::Amount;
use nym_dispatch::dispatch::describe_failure;
use nym_dispatch::dispatch::on_execute_outcome;
use nym_dispatch::dispatch::operation_memo;
use nym_dispatch::dispatch::prepare_dispatch;
use nym_dispatch::dispatch::role_of;
use nym_dispatch::dispatch::start_dispatch;
use nym_dispatch::dispatch::DispatchStep;
use nym_dispatch::dispatch::ExecuteOutcome;
use nym_dispatch::dispatch::ExecuteResult;
use nym_dispatch::operation::GasPrice;
use nym_dispatch::operation::MixNode;
use nym_dispatch::operation::Operation;
use nym_dispatch::resolver::address_for;
use nym_dispatch::resolver::Config;
use nym_dispatch::resolver::ContractRole;
use nym_dispatch::resolver::DispatchError;

fn unym(value: u128) -> Amount {
    Amount { value, denom: "unym".to_string() }
}

fn bond_mixnode(pledge: u128) -> Operation {
    Operation::BondMixnode {
        mix_node: MixNode {
            host: "1.2.3.4".to_string(),
            mix_port: 1789,
            verloc_port: 1790,
            http_api_port: 8000,
            sphinx_key: "spx".to_string(),
            identity_key: "idk".to_string(),
            version: "0.12.1".to_string(),
            profit_margin_percent: 10,
        },
        pledge: unym(pledge),
        owner_signature: "sig".to_string(),
    }
}

fn full_config() -> Config {
    Config {
        staking_contract_address: Some("nym1staking".to_string()),
        vesting_contract_address: Some("nym1vesting".to_string()),
    }
}

fn price() -> GasPrice {
    GasPrice { micro_per_gas: 25000, denom: "unym".to_string() }
}

#[test]
fn resolver_returns_configured_address() {
    let config = full_config();
    assert_eq!(
        address_for(&config, ContractRole::Staking).expect("configured"),
        "nym1staking".to_string()
    );
    assert_eq!(
        address_for(&config, ContractRole::Vesting).expect("configured"),
        "nym1vesting".to_string()
    );
}

#[test]
fn resolver_missing_role_is_typed_failure() {
    let config = Config {
        staking_contract_address: None,
        vesting_contract_address: Some("nym1vesting".to_string()),
    };
    match address_for(&config, ContractRole::Staking) {
        Err(DispatchError::ContractNotConfigured(ContractRole::Staking)) => {},
        other => panic!("expected ContractNotConfigured(Staking), got {:?}", other),
    }
}

#[test]
fn roles_of_operations() {
    assert_eq!(role_of(&bond_mixnode(1)), ContractRole::Staking);
    assert_eq!(role_of(&Operation::UnbondGateway), ContractRole::Staking);
    assert_eq!(
        role_of(&Operation::WithdrawVestedCoins { amount: unym(1) }),
        ContractRole::Vesting
    );
    assert_eq!(
        role_of(&Operation::TrackUndelegation {
            owner: "o".to_string(),
            mix_identity: "i".to_string(),
            amount: unym(1),
        }),
        ContractRole::Vesting
    );
}

#[test]
fn scenario_unconfigured_staking_role_fails_before_any_call() {
    // Bonding a mix node with an empty staking configuration fails with the
    // typed configuration error; no request is ever produced to invoke.
    let config = Config {
        staking_contract_address: None,
        vesting_contract_address: Some("nym1vesting".to_string()),
    };
    let op = bond_mixnode(100000000);
    match prepare_dispatch(&op, "nym1caller", &config, &price()) {
        Err(DispatchError::ContractNotConfigured(ContractRole::Staking)) => {},
        other => panic!("expected ContractNotConfigured(Staking), got {:?}", other),
    }
    match start_dispatch(&op, "nym1caller", &config, &price()) {
        DispatchStep::Fail(DispatchError::ContractNotConfigured(ContractRole::Staking)) => {},
        other => panic!("expected Fail(ContractNotConfigured(Staking)), got {:?}", other),
    }
}

#[test]
fn prepared_request_carries_everything_the_client_needs() {
    let op = bond_mixnode(100000000);
    let req = prepare_dispatch(&op, "nym1caller", &full_config(), &price()).expect("prepared");
    assert_eq!(req.sender, "nym1caller".to_string());
    assert_eq!(req.contract_address, "nym1staking".to_string());
    assert_eq!(req.memo, "VestingContract::BondMixnode".to_string());
    assert!(req.payload.starts_with("{\"bond_mixnode\":"));
    assert_eq!(req.funds, vec![unym(100000000)]);
    assert_eq!(req.fee.gas_limit, 175000);
    assert_eq!(req.fee.amount, vec![unym(4375)]);
}

#[test]
fn memos_name_the_operation() {
    assert_eq!(
        operation_memo(&Operation::UnbondGateway),
        "VestingContract::UnbondGateway".to_string()
    );
    assert_eq!(
        operation_memo(&Operation::DelegateToMixnode {
            mix_identity: "i".to_string(),
            amount: unym(1),
        }),
        "VestingContract::DeledateToMixnode".to_string()
    );
}

#[test]
fn success_passes_result_through_unchanged() {
    let op = Operation::UnbondMixnode;
    let st = match start_dispatch(&op, "nym1caller", &full_config(), &price()) {
        DispatchStep::Invoke(st) => st,
        other => panic!("expected Invoke, got {:?}", other),
    };
    assert!(!st.retried);
    let res = ExecuteResult {
        tx_hash: "CAFEBABE".to_string(),
        gas_used: 123456,
        logs: "ok".to_string(),
    };
    match on_execute_outcome(st, ExecuteOutcome::Success(res)) {
        DispatchStep::Done(r) => {
            assert_eq!(r.tx_hash, "CAFEBABE".to_string());
            assert_eq!(r.gas_used, 123456);
            assert_eq!(r.logs, "ok".to_string());
        },
        other => panic!("expected Done, got {:?}", other),
    }
}

#[test]
fn scenario_stale_sequence_succeeds_after_one_retry() {
    // A dispatch that observes a stale sequence number is re-invoked once
    // with the same request, and the retry's success completes it.
    let op = Operation::UnbondMixnode;
    let st = match start_dispatch(&op, "nym1caller", &full_config(), &price()) {
        DispatchStep::Invoke(st) => st,
        other => panic!("expected Invoke, got {:?}", other),
    };
    let payload_before = st.request.payload.clone();
    let retry = match on_execute_outcome(st, ExecuteOutcome::SequenceMismatch) {
        DispatchStep::Invoke(retry) => retry,
        other => panic!("expected a retry invocation, got {:?}", other),
    };
    assert!(retry.retried);
    assert_eq!(retry.request.payload, payload_before);
    let res = ExecuteResult {
        tx_hash: "HASH".to_string(),
        gas_used: 1,
        logs: String::new(),
    };
    match on_execute_outcome(retry, ExecuteOutcome::Success(res)) {
        DispatchStep::Done(r) => assert_eq!(r.tx_hash, "HASH".to_string()),
        other => panic!("expected Done after the retry, got {:?}", other),
    }
}

#[test]
fn second_stale_sequence_surfaces() {
    let op = Operation::UnbondMixnode;
    let st = match start_dispatch(&op, "nym1caller", &full_config(), &price()) {
        DispatchStep::Invoke(st) => st,
        other => panic!("expected Invoke, got {:?}", other),
    };
    let retry = match on_execute_outcome(st, ExecuteOutcome::SequenceMismatch) {
        DispatchStep::Invoke(retry) => retry,
        other => panic!("expected a retry invocation, got {:?}", other),
    };
    match on_execute_outcome(retry, ExecuteOutcome::SequenceMismatch) {
        DispatchStep::Fail(DispatchError::SequenceMismatch) => {},
        other => panic!("expected Fail(SequenceMismatch), got {:?}", other),
    }
}

#[test]
fn other_failures_surface_immediately() {
    let op = Operation::UnbondMixnode;
    let start = || match start_dispatch(&op, "nym1caller", &full_config(), &price()) {
        DispatchStep::Invoke(st) => st,
        other => panic!("expected Invoke, got {:?}", other),
    };
    match on_execute_outcome(start(), ExecuteOutcome::NetworkFailure) {
        DispatchStep::Fail(DispatchError::NetworkError) => {},
        other => panic!("expected Fail(NetworkError), got {:?}", other),
    }
    match on_execute_outcome(start(), ExecuteOutcome::ContractRejected("insufficient pledge".to_string())) {
        DispatchStep::Fail(DispatchError::ContractRejected(reason)) => {
            assert_eq!(reason, "insufficient pledge".to_string());
        },
        other => panic!("expected Fail(ContractRejected), got {:?}", other),
    }
    match on_execute_outcome(start(), ExecuteOutcome::SerializationFailure) {
        DispatchStep::Fail(DispatchError::SerializationError) => {},
        other => panic!("expected Fail(SerializationError), got {:?}", other),
    }
}

#[test]
fn failures_name_the_operation_and_kind() {
    let e = DispatchError::ContractNotConfigured(ContractRole::Staking);
    assert_eq!(
        describe_failure(&bond_mixnode(1), &e),
        "BondMixnode: no address configured for the staking contract".to_string()
    );
    let e = DispatchError::ContractRejected("insufficient pledge".to_string());
    assert_eq!(
        describe_failure(&Operation::UnbondMixnode, &e),
        "UnbondMixnode: contract rejected: insufficient pledge".to_string()
    );
    assert_eq!(
        describe_failure(&Operation::UnbondGateway, &DispatchError::SequenceMismatch),
        "UnbondGateway: account sequence mismatch".to_string()
    );
}
