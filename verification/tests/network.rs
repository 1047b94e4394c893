use replication_network::{Network, Node, Retrieved, StoreOutcome};

const PAYLOAD: &str = "PLDG FTW!!!!";

fn network_of(names: &[&str]) -> Network {
    let mut network = Network::new();
    for name in names {
        network.add_node(name);
    }
    network
}

fn holders(network: &Network, cid: &String) -> Vec<String> {
    let mut found = Vec::new();
    for id in network.node_ids() {
        let node = network.node(&id).unwrap();
        if node.retrieve_data(cid).is_some() {
            found.push(id);
        }
    }
    found
}

#[test]
fn new_network_has_no_nodes() {
    let network = Network::new();
    assert_eq!(network.node_count(), 0);
    assert!(network.node_ids().is_empty());
    assert!(network.node("node1").is_none());
}

#[test]
fn nodes_are_kept_in_joining_order() {
    let network = network_of(&["node2", "node3", "node1"]);
    assert_eq!(network.node_count(), 3);
    assert_eq!(network.node_ids(), vec!["node2", "node3", "node1"]);
}

#[test]
fn a_new_node_has_an_empty_store() {
    let network = network_of(&["node1"]);
    assert_eq!(network.node("node1").unwrap().len(), 0);
}

#[test]
fn adding_a_present_name_replaces_the_store_in_place() {
    let mut network = network_of(&["A", "B"]);
    let cid = network.store_data(PAYLOAD);
    assert_eq!(holders(&network, &cid), vec!["A"]);
    network.add_node("A");
    assert_eq!(network.node_count(), 2);
    assert_eq!(network.node_ids(), vec!["A", "B"]);
    assert_eq!(network.node("A").unwrap().len(), 0);
    assert_eq!(network.retrieve_data(&cid), None);
}

#[test]
fn replication_factor_is_half_the_nodes_and_at_least_one() {
    let expected: [usize; 10] = [1, 1, 1, 1, 2, 2, 3, 3, 4, 4];
    let mut network = Network::new();
    for n in 0..10 {
        assert_eq!(network.node_count(), n);
        assert_eq!(network.calculate_replication_factor(), expected[n]);
        assert_eq!(network.calculate_replication_factor(), std::cmp::max(1, n / 2));
        network.add_node(&format!("node{}", n));
    }
}

#[test]
fn replication_factor_stays_within_its_bounds() {
    let mut network = Network::new();
    for n in 0..40 {
        let factor = network.calculate_replication_factor();
        assert!(1 <= factor);
        assert!(factor <= std::cmp::max(n, 1));
        if n > 0 {
            assert!(factor <= n);
        }
        network.add_node(&format!("n{}", n));
    }
}

#[test]
fn store_returns_the_content_id_of_the_payload() {
    let mut network = network_of(&["node1", "node2", "node3"]);
    assert_eq!(network.store_data(PAYLOAD), Node::generate_cid(PAYLOAD));
    let mut empty = Network::new();
    assert_eq!(empty.store_data(PAYLOAD), Node::generate_cid(PAYLOAD));
}

#[test]
fn store_copies_to_the_first_nodes_only() {
    let mut network = network_of(&["a", "b", "c", "d", "e"]);
    let outcome = network.store_with_outcome(PAYLOAD);
    assert_eq!(
        outcome,
        StoreOutcome { cid: Node::generate_cid(PAYLOAD), target: 2, copies: 2 }
    );
    assert!(!outcome.under_replicated());
    assert_eq!(holders(&network, &outcome.cid), vec!["a", "b"]);
    assert_eq!(network.node("c").unwrap().len(), 0);
    assert_eq!(network.node("d").unwrap().len(), 0);
    assert_eq!(network.node("e").unwrap().len(), 0);
}

#[test]
fn store_reaches_as_many_nodes_as_the_factor() {
    for n in 1..12 {
        let names: Vec<String> = (0..n).map(|i| format!("node{}", i)).collect();
        let mut network = Network::new();
        for name in &names {
            network.add_node(name);
        }
        let factor = network.calculate_replication_factor();
        let outcome = network.store_with_outcome(PAYLOAD);
        assert_eq!(outcome.target, factor);
        assert_eq!(outcome.copies, factor);
        assert!(!outcome.under_replicated());
        assert_eq!(holders(&network, &outcome.cid), names[..factor].to_vec());
    }
}

#[test]
fn store_twice_in_a_network_changes_nothing() {
    let mut network = network_of(&["a", "b", "c", "d"]);
    let first = network.store_with_outcome(PAYLOAD);
    let second = network.store_with_outcome(PAYLOAD);
    assert_eq!(first, second);
    assert_eq!(holders(&network, &first.cid), vec!["a", "b"]);
    assert_eq!(network.node("a").unwrap().len(), 1);
    assert_eq!(network.node("b").unwrap().len(), 1);
}

#[test]
fn network_store_then_retrieve_gives_the_payload() {
    for n in 1..9 {
        let mut network = Network::new();
        for i in 0..n {
            network.add_node(&format!("node{}", i));
        }
        let cid = network.store_data(PAYLOAD);
        assert_eq!(network.retrieve_data(&cid), Some(String::from(PAYLOAD)));
    }
}

#[test]
fn retrieve_names_the_first_holder() {
    let mut network = network_of(&["x", "y", "z", "w"]);
    let cid = network.store_data(PAYLOAD);
    assert_eq!(
        network.retrieve_with_source(&cid),
        Some(Retrieved { node_id: String::from("x"), data: String::from(PAYLOAD) })
    );
    network.simulate_node_failure("x");
    assert_eq!(
        network.retrieve_with_source(&cid),
        Some(Retrieved { node_id: String::from("y"), data: String::from(PAYLOAD) })
    );
}

#[test]
fn network_retrieve_of_an_unknown_id_finds_nothing() {
    let mut network = network_of(&["node1", "node2"]);
    network.store_data(PAYLOAD);
    assert_eq!(network.retrieve_data(&Node::generate_cid("never stored")), None);
    assert_eq!(network.retrieve_with_source(&String::from("junk")), None);
}

#[test]
fn removing_a_node_keeps_the_order_of_the_others() {
    let mut network = network_of(&["a", "b", "c", "d"]);
    network.simulate_node_failure("b");
    assert_eq!(network.node_ids(), vec!["a", "c", "d"]);
    assert_eq!(network.node_count(), 3);
    assert!(network.node("b").is_none());
}

#[test]
fn removing_an_unknown_node_changes_nothing() {
    let mut network = network_of(&["a", "b"]);
    let cid = network.store_data(PAYLOAD);
    network.simulate_node_failure("nobody");
    assert_eq!(network.node_ids(), vec!["a", "b"]);
    assert_eq!(network.retrieve_data(&cid), Some(String::from(PAYLOAD)));
    let mut empty = Network::new();
    empty.simulate_node_failure("nobody");
    assert_eq!(empty.node_count(), 0);
}

#[test]
fn a_removed_node_that_joins_again_is_empty_and_last() {
    let mut network = network_of(&["a", "b"]);
    let cid = network.store_data(PAYLOAD);
    network.simulate_node_failure("a");
    network.add_node("a");
    assert_eq!(network.node_ids(), vec!["b", "a"]);
    assert_eq!(network.node("a").unwrap().len(), 0);
    assert_eq!(network.retrieve_data(&cid), None);
}

#[test]
fn payload_survives_the_loss_of_one_holder() {
    for n in 4..10 {
        let names: Vec<String> = (0..n).map(|i| format!("node{}", i)).collect();
        let copies = n / 2;
        for lost in 0..copies {
            let mut network = Network::new();
            for name in &names {
                network.add_node(name);
            }
            let cid = network.store_data(PAYLOAD);
            network.simulate_node_failure(&names[lost]);
            assert_eq!(network.retrieve_data(&cid), Some(String::from(PAYLOAD)));
        }
    }
}

#[test]
fn payload_is_lost_with_the_only_node() {
    let mut network = network_of(&["only"]);
    let cid = network.store_data(PAYLOAD);
    assert_eq!(network.retrieve_data(&cid), Some(String::from(PAYLOAD)));
    network.simulate_node_failure("only");
    assert_eq!(network.node_count(), 0);
    assert_eq!(network.retrieve_data(&cid), None);
}

#[test]
fn three_nodes_keep_one_copy() {
    let mut network = network_of(&["A", "B", "C"]);
    assert_eq!(network.calculate_replication_factor(), 1);
    let outcome = network.store_with_outcome(PAYLOAD);
    assert_eq!(outcome.cid, Node::generate_cid(PAYLOAD));
    assert_eq!(outcome.target, 1);
    assert_eq!(outcome.copies, 1);
    let holding = holders(&network, &outcome.cid);
    assert_eq!(holding.len(), 1);
    assert_eq!(holding, vec!["A"]);
    network.simulate_node_failure(&holding[0]);
    assert_eq!(network.retrieve_data(&outcome.cid), None);
}

#[test]
fn three_nodes_lose_nothing_with_another_node() {
    for other in ["B", "C"] {
        let mut network = network_of(&["A", "B", "C"]);
        let cid = network.store_data(PAYLOAD);
        assert_eq!(holders(&network, &cid), vec!["A"]);
        network.simulate_node_failure(other);
        assert_eq!(network.retrieve_data(&cid), Some(String::from(PAYLOAD)));
    }
}

#[test]
fn empty_network_stores_nowhere() {
    let mut network = Network::new();
    assert_eq!(network.calculate_replication_factor(), 1);
    let outcome = network.store_with_outcome(PAYLOAD);
    assert_eq!(
        outcome,
        StoreOutcome { cid: Node::generate_cid(PAYLOAD), target: 1, copies: 0 }
    );
    assert!(outcome.under_replicated());
    assert_eq!(network.node_count(), 0);
    assert_eq!(network.retrieve_data(&outcome.cid), None);
    assert_eq!(network.retrieve_data(&String::new()), None);
    assert_eq!(network.retrieve_with_source(&outcome.cid), None);
}

#[test]
fn lookups_find_each_of_several_payloads() {
    let mut network = network_of(&["a", "b", "c", "d", "e", "f"]);
    let payloads = ["first", "second", "third", ""];
    let cids: Vec<String> = payloads.iter().map(|p| network.store_data(p)).collect();
    for (payload, cid) in payloads.iter().zip(&cids) {
        assert_eq!(network.retrieve_data(cid), Some(String::from(*payload)));
        assert_eq!(holders(&network, cid), vec!["a", "b", "c"]);
    }
    assert_eq!(network.node("a").unwrap().len(), 4);
    assert_eq!(network.node("d").unwrap().len(), 0);
}
