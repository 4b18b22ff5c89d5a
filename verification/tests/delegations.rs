use nym_dispatch::amount::Amount;
use nym_dispatch::delegation::collect_gateway_delegations;
use nym_dispatch::delegation::collect_mix_delegations;
use nym_dispatch::delegation::query_gateway_delegations_page;
use nym_dispatch::delegation::query_mix_delegations_page;
use nym_dispatch::delegation::Delegation;
use nym_dispatch::delegation::PagedGatewayDelegationsResponse;
use nym_dispatch::delegation::PagedMixDelegationsResponse;

fn unym(value: u128) -> Amount {
    Amount { value, denom: "unym".to_string() }
}

fn store(n: usize) -> Vec<Delegation> {
    (0..n)
        .map(|i| Delegation::new(format!("node{}", i), unym(100 + i as u128)))
        .collect()
}

#[test]
fn accessors_return_the_parts() {
    let d = Delegation::new("node1".to_string(), unym(500));
    assert_eq!(d.node_identity(), &"node1".to_string());
    assert_eq!(d.amount(), &unym(500));
}

#[test]
fn display_names_amount_denom_and_identity() {
    let d = Delegation::new("node1".to_string(), unym(500));
    assert_eq!(d.display_string(), "500 unym delegated to node1".to_string());
}

#[test]
fn paged_mix_response_keeps_its_parts() {
    let page = PagedMixDelegationsResponse::new(
        "node1".to_string(),
        store(2),
        Some("cursor".to_string()),
    );
    assert_eq!(page.node_identity, "node1".to_string());
    assert_eq!(page.delegations, store(2));
    assert_eq!(page.start_next_after, Some("cursor".to_string()));
}

#[test]
fn paged_gateway_response_keeps_its_parts() {
    let page = PagedGatewayDelegationsResponse::new("gw1".to_string(), store(1), None);
    assert_eq!(page.node_identity, "gw1".to_string());
    assert_eq!(page.delegations, store(1));
    assert_eq!(page.start_next_after, None);
}

#[test]
fn first_page_holds_the_limit_and_a_cursor() {
    let all = store(5);
    let page = query_mix_delegations_page(&all, &"node".to_string(), &None, 2);
    assert_eq!(page.delegations, store(5)[0..2].to_vec());
    let cursor = page.start_next_after.expect("more results remain");
    let second = query_mix_delegations_page(&all, &"node".to_string(), &Some(cursor), 2);
    assert_eq!(second.delegations, store(5)[2..4].to_vec());
    let cursor = second.start_next_after.expect("one more page");
    let last = query_mix_delegations_page(&all, &"node".to_string(), &Some(cursor), 2);
    assert_eq!(last.delegations, store(5)[4..5].to_vec());
    assert_eq!(last.start_next_after, None);
}

#[test]
fn gateway_pages_behave_alike() {
    let all = store(3);
    let page = query_gateway_delegations_page(&all, &"gw".to_string(), &None, 3);
    assert_eq!(page.delegations, store(3));
    assert_eq!(page.start_next_after, None);
}

#[test]
fn empty_store_yields_one_empty_final_page() {
    let all: Vec<Delegation> = Vec::new();
    let page = query_mix_delegations_page(&all, &"node".to_string(), &None, 2);
    assert!(page.delegations.is_empty());
    assert_eq!(page.start_next_after, None);
}

#[test]
fn following_cursors_visits_each_exactly_once_in_order() {
    let all = store(7);
    for limit in [1usize, 2, 3, 7, 50] {
        let collected = collect_mix_delegations(&all, &"node".to_string(), limit);
        assert_eq!(collected, all);
    }
}

#[test]
fn collecting_an_empty_store_terminates_empty() {
    let all: Vec<Delegation> = Vec::new();
    let collected = collect_mix_delegations(&all, &"node".to_string(), 10);
    assert!(collected.is_empty());
}

#[test]
fn gateway_cursors_visit_each_exactly_once_in_order() {
    let all = store(4);
    for limit in [1usize, 3, 4] {
        let collected = collect_gateway_delegations(&all, &"gw".to_string(), limit);
        assert_eq!(collected, all);
    }
}
