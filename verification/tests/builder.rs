use nym_dispatch::amount::Amount;
use nym_dispatch::message::build;
use nym_dispatch::operation::Gateway;
use nym_dispatch::operation::MixNode;
use nym_dispatch::operation::Operation;

fn unym(value: u128) -> Amount {
    Amount { value, denom: "unym".to_string() }
}

fn mix_node() -> MixNode {
    MixNode {
        host: "1.2.3.4".to_string(),
        mix_port: 1789,
        verloc_port: 1790,
        http_api_port: 8000,
        sphinx_key: "spx".to_string(),
        identity_key: "idk".to_string(),
        version: "0.12.1".to_string(),
        profit_margin_percent: 10,
    }
}

#[test]
fn golden_bond_mixnode_payload() {
    let op = Operation::BondMixnode {
        mix_node: mix_node(),
        pledge: unym(100000000),
        owner_signature: "sig".to_string(),
    };
    let (payload, funds) = build(&op);
    let expected = "{\"bond_mixnode\":{\"mix_node\":{\"host\":\"1.2.3.4\",\"mix_port\":1789,\"verloc_port\":1790,\"http_api_port\":8000,\"sphinx_key\":\"spx\",\"identity_key\":\"idk\",\"version\":\"0.12.1\",\"profit_margin_percent\":10},\"owner_signature\":\"sig\"}}";
    assert_eq!(payload, expected.to_string());
    assert_eq!(funds, vec![unym(100000000)]);
}

#[test]
fn golden_bond_gateway_payload() {
    let op = Operation::BondGateway {
        gateway: Gateway {
            host: "1.2.3.4".to_string(),
            mix_port: 1789,
            clients_port: 9000,
            location: "earth".to_string(),
            sphinx_key: "spx".to_string(),
            identity_key: "idk".to_string(),
            version: "0.12.1".to_string(),
        },
        pledge: unym(50),
        owner_signature: "gwsig".to_string(),
    };
    let (payload, funds) = build(&op);
    let expected = "{\"bond_gateway\":{\"gateway\":{\"host\":\"1.2.3.4\",\"mix_port\":1789,\"clients_port\":9000,\"location\":\"earth\",\"sphinx_key\":\"spx\",\"identity_key\":\"idk\",\"version\":\"0.12.1\"},\"owner_signature\":\"gwsig\"}}";
    assert_eq!(payload, expected.to_string());
    assert_eq!(funds, vec![unym(50)]);
}

#[test]
fn golden_unbond_payloads_attach_nothing() {
    let (payload, funds) = build(&Operation::UnbondMixnode);
    assert_eq!(payload, "{\"unbond_mixnode\":{}}".to_string());
    assert!(funds.is_empty());
    let (payload, funds) = build(&Operation::UnbondGateway);
    assert_eq!(payload, "{\"unbond_gateway\":{}}".to_string());
    assert!(funds.is_empty());
}

#[test]
fn golden_track_payloads_embed_amount() {
    let op = Operation::TrackUnbondMixnode { owner: "nym1owner".to_string(), amount: unym(250) };
    let (payload, funds) = build(&op);
    assert_eq!(
        payload,
        "{\"track_unbond_mixnode\":{\"owner\":\"nym1owner\",\"amount\":{\"denom\":\"unym\",\"amount\":\"250\"}}}"
            .to_string()
    );
    assert!(funds.is_empty());

    let op = Operation::TrackUndelegation {
        owner: "nym1owner".to_string(),
        mix_identity: "idk".to_string(),
        amount: unym(7),
    };
    let (payload, funds) = build(&op);
    let expected = "{\"track_undelegation\":{\"owner\":\"nym1owner\",\"mix_identity\":\"idk\",\"amount\":{\"denom\":\"unym\",\"amount\":\"7\"}}}";
    assert_eq!(payload, expected.to_string());
    assert!(funds.is_empty());
}

#[test]
fn golden_withdraw_payload() {
    let (payload, funds) = build(&Operation::WithdrawVestedCoins { amount: unym(123) });
    assert_eq!(
        payload,
        "{\"withdraw_vested_coins\":{\"amount\":{\"denom\":\"unym\",\"amount\":\"123\"}}}"
            .to_string()
    );
    assert!(funds.is_empty());
}

#[test]
fn delegate_conveys_amount_only_through_funds() {
    let op = Operation::DelegateToMixnode {
        mix_identity: "idk".to_string(),
        amount: unym(300000),
    };
    let (payload, funds) = build(&op);
    assert_eq!(payload, "{\"delegate_to_mixnode\":{\"mix_identity\":\"idk\"}}".to_string());
    assert!(!payload.contains("amount"));
    assert_eq!(funds, vec![unym(300000)]);
}

#[test]
fn undelegate_attaches_nothing() {
    let op = Operation::UndelegateFromMixnode { mix_identity: "idk".to_string() };
    let (payload, funds) = build(&op);
    assert_eq!(payload, "{\"undelegate_from_mixnode\":{\"mix_identity\":\"idk\"}}".to_string());
    assert!(!payload.contains("amount"));
    assert!(funds.is_empty());
}

#[test]
fn golden_create_account_payloads() {
    let op = Operation::CreatePeriodicVestingAccount {
        address: "nym1new".to_string(),
        start_time: None,
        amount: unym(9000000),
    };
    let (payload, funds) = build(&op);
    assert_eq!(
        payload,
        "{\"create_account\":{\"address\":\"nym1new\",\"start_time\":null}}".to_string()
    );
    assert_eq!(funds, vec![unym(9000000)]);

    let op = Operation::CreatePeriodicVestingAccount {
        address: "nym1new".to_string(),
        start_time: Some(1640000000),
        amount: unym(9000000),
    };
    let (payload, _) = build(&op);
    assert_eq!(
        payload,
        "{\"create_account\":{\"address\":\"nym1new\",\"start_time\":1640000000}}".to_string()
    );
}

#[test]
fn string_values_are_json_escaped() {
    let op = Operation::UndelegateFromMixnode {
        mix_identity: "a\"b\\c\nd".to_string(),
    };
    let (payload, _) = build(&op);
    assert_eq!(
        payload,
        "{\"undelegate_from_mixnode\":{\"mix_identity\":\"a\\\"b\\\\c\\u000ad\"}}".to_string()
    );
}

#[test]
fn plain_characters_pass_through_unescaped() {
    let op = Operation::UndelegateFromMixnode { mix_identity: "née-østers".to_string() };
    let (payload, _) = build(&op);
    assert_eq!(
        payload,
        "{\"undelegate_from_mixnode\":{\"mix_identity\":\"née-østers\"}}".to_string()
    );
}
