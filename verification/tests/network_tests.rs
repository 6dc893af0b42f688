use test_harness::network::Network;
use test_harness::rng::SeededRng;

fn string_vec(items: &[&str]) -> Vec<String> {
    items.iter().map(|s| s.to_string()).collect()
}

/// Drain one replica until its inbox is empty, concatenating everything
/// received.
fn drain(network: &mut Network<String, SeededRng>, replica: u16) -> Vec<String> {
    let mut all = Vec::new();
    while network.has_unreceived(replica) {
        all.extend(network.receive(replica));
    }
    all
}

/// Collapse duplicates by first occurrence.
fn dedup_first(messages: &[String]) -> Vec<String> {
    let mut seen: Vec<String> = Vec::new();
    for m in messages {
        if !seen.contains(m) {
            seen.push(m.clone());
        }
    }
    seen
}

#[test]
fn fresh_network_is_idle() {
    let mut network: Network<String, SeededRng> = Network::new(SeededRng::new(1));
    assert!(network.is_idle());
    network.add_peer(0);
    network.add_peer(1);
    assert!(network.is_idle());
    assert!(!network.has_unreceived(0));
    assert!(!network.has_unreceived(1));
}

#[test]
fn broadcast_reaches_every_other_replica() {
    let mut network: Network<String, SeededRng> = Network::new(SeededRng::new(7));
    network.add_peer(0);
    network.add_peer(1);
    network.add_peer(2);
    network.broadcast(0, string_vec(&["x", "y"]));
    assert!(!network.is_idle());
    assert!(network.has_unreceived(1));
    assert!(network.has_unreceived(2));
}

#[test]
fn sender_never_receives_its_own_broadcast() {
    for seed in 0..20u64 {
        let mut network: Network<String, SeededRng> = Network::new(SeededRng::new(seed));
        network.add_peer(0);
        network.add_peer(1);
        network.broadcast(0, string_vec(&["a", "b", "c"]));
        assert!(!network.has_unreceived(0));
        network.broadcast(1, string_vec(&["d"]));
        let got = drain(&mut network, 1);
        for m in &got {
            assert_ne!(m, "d");
        }
    }
}

#[test]
fn each_message_is_delivered_one_to_three_times() {
    for seed in 0..20u64 {
        let mut network: Network<String, SeededRng> = Network::new(SeededRng::new(seed));
        network.add_peer(0);
        network.add_peer(1);
        network.broadcast(0, string_vec(&["x", "y"]));
        let got = drain(&mut network, 1);
        let xs = got.iter().filter(|m| m.as_str() == "x").count();
        let ys = got.iter().filter(|m| m.as_str() == "y").count();
        assert!((1..=3).contains(&xs), "{} copies of x", xs);
        assert!((1..=3).contains(&ys), "{} copies of y", ys);
    }
}

#[test]
fn per_sender_fifo_is_preserved() {
    for seed in 0..30u64 {
        let mut network: Network<String, SeededRng> = Network::new(SeededRng::new(seed));
        network.add_peer(0);
        network.add_peer(1);
        network.broadcast(0, string_vec(&["x", "y"]));
        let got = drain(&mut network, 1);
        let last_x = got.iter().rposition(|m| m == "x").unwrap();
        let first_y = got.iter().position(|m| m == "y").unwrap();
        assert!(last_x < first_y, "a copy of y overtook a copy of x: {:?}", got);
    }
}

#[test]
fn drained_messages_collapse_to_the_broadcast() {
    // Replicas {0, 1, 2}, fixed seed: after draining, the concatenation of
    // everything each receiver got, with duplicates collapsed by first
    // occurrence, is exactly the broadcast batch.
    let mut network: Network<String, SeededRng> = Network::new(SeededRng::new(42));
    network.add_peer(0);
    network.add_peer(1);
    network.add_peer(2);
    network.broadcast(0, string_vec(&["x", "y"]));
    let mut per_receiver: Vec<Vec<String>> = vec![Vec::new(), Vec::new()];
    while !network.is_idle() {
        per_receiver[0].extend(network.receive(1));
        per_receiver[1].extend(network.receive(2));
    }
    assert_eq!(dedup_first(&per_receiver[0]), string_vec(&["x", "y"]));
    assert_eq!(dedup_first(&per_receiver[1]), string_vec(&["x", "y"]));
}

#[test]
fn all_messages_log_concatenates_batches_in_order() {
    let mut network: Network<String, SeededRng> = Network::new(SeededRng::new(3));
    network.add_peer(0);
    network.add_peer(1);
    network.broadcast(0, string_vec(&["x", "y"]));
    network.broadcast(1, string_vec(&["z"]));
    let _ = network.receive(0);
    let _ = network.receive(1);
    assert_eq!(network.all_messages(), &string_vec(&["x", "y", "z"]));
    drain(&mut network, 0);
    drain(&mut network, 1);
    // receive never consumes the log
    assert_eq!(network.all_messages(), &string_vec(&["x", "y", "z"]));
}

#[test]
fn is_idle_iff_every_inbox_is_empty() {
    let mut network: Network<String, SeededRng> = Network::new(SeededRng::new(9));
    network.add_peer(0);
    network.add_peer(1);
    network.add_peer(2);
    network.broadcast(0, string_vec(&["m"]));
    assert!(!network.is_idle());
    drain(&mut network, 1);
    assert!(!network.is_idle());
    drain(&mut network, 2);
    assert!(network.is_idle());
}

#[test]
fn broadcast_with_no_other_replica_delivers_nothing() {
    let mut network: Network<String, SeededRng> = Network::new(SeededRng::new(11));
    network.add_peer(0);
    network.broadcast(0, string_vec(&["solo"]));
    assert!(network.is_idle());
    assert_eq!(network.all_messages(), &string_vec(&["solo"]));
}

#[test]
fn equal_seeds_give_equal_runs() {
    let mut first: Network<String, SeededRng> = Network::new(SeededRng::new(1234));
    let mut second: Network<String, SeededRng> = Network::new(SeededRng::new(1234));
    for network in [&mut first, &mut second] {
        network.add_peer(0);
        network.add_peer(1);
        network.add_peer(2);
    }
    let mut outputs_first: Vec<Vec<String>> = Vec::new();
    let mut outputs_second: Vec<Vec<String>> = Vec::new();
    for round in 0..5u32 {
        let batch = string_vec(&[&format!("a{}", round), &format!("b{}", round)]);
        first.broadcast(0, batch.clone());
        second.broadcast(0, batch);
        outputs_first.push(first.receive(1));
        outputs_second.push(second.receive(1));
        outputs_first.push(first.receive(2));
        outputs_second.push(second.receive(2));
    }
    assert_eq!(outputs_first, outputs_second);
    assert_eq!(first.all_messages(), second.all_messages());
}
