use mara_fed::member::{FedMember, NodeMember};
use mara_fed::peg::{
    filter_spend_tree, get_online_nodes, peg_history_type, peg_node_type, signing_steps, RoundAction,
    RoundEvent, RoundKind, RoundState, SigningRound, SpenderTreePaths,
};

fn node(identity: &str, key: &str, status: &str, own: bool) -> NodeMember {
    NodeMember {
        member: FedMember {
            identity: identity.to_string(),
            host: "h".to_string(),
            port: "1".to_string(),
            peer_id: format!("peer-{}", identity),
            user_pub: "u".to_string(),
            master_pub: "m".to_string(),
            status: status.to_string(),
        },
        pub_key: key.to_string(),
        is_own: own,
    }
}

fn path(keys: &[&str]) -> SpenderTreePaths {
    SpenderTreePaths { tree: keys.iter().map(|k| k.to_string()).collect() }
}

fn trees(paths: &[SpenderTreePaths]) -> Vec<Vec<String>> {
    paths.iter().map(|p| p.tree.clone()).collect()
}

#[test]
fn online_nodes_are_the_active_ones() {
    let nodes = vec![node("a", "ka", "active", true), node("b", "kb", "inactive", false), node("c", "kc", "active", false)];
    let online = get_online_nodes(&nodes);
    let ids: Vec<&str> = online.iter().map(|n| n.member.identity.as_str()).collect();
    assert_eq!(ids, vec!["a", "c"]);
}

#[test]
fn filter_spend_tree_keeps_paths_with_online_signers() {
    let nodes = vec![node("a", "ka", "active", true), node("b", "kb", "inactive", false), node("c", "kc", "active", false)];
    let paths = vec![path(&["ka", "kb"]), path(&["ka", "kc"]), path(&["kc"]), path(&["kx"]), path(&[])];
    let kept = filter_spend_tree(&paths, &nodes);
    assert_eq!(
        trees(&kept),
        vec![vec!["ka".to_string(), "kc".to_string()], vec!["kc".to_string()], Vec::<String>::new()]
    );
    // Filtering again changes nothing.
    assert_eq!(trees(&filter_spend_tree(&kept, &nodes)), trees(&kept));
}

#[test]
fn signing_steps_follow_path_order_and_stop_at_unheld_key() {
    let nodes = vec![node("a", "k1", "active", true), node("b", "k2", "active", false), node("c", "k1", "inactive", false)];
    let keys = |ks: &[&str]| ks.iter().map(|k| k.to_string()).collect::<Vec<String>>();
    assert_eq!(signing_steps(&keys(&["k2", "k1"]), &nodes), (vec![1, 0, 2], true));
    assert_eq!(signing_steps(&keys(&["k2", "k9", "k1"]), &nodes), (vec![1], false));
    assert_eq!(signing_steps(&keys(&[]), &nodes), (vec![], true));
}

#[test]
fn peg_direction_helpers() {
    assert_eq!(peg_node_type(&"0".to_string()), "maranode");
    assert_eq!(peg_node_type(&"1".to_string()), "bitcoin");
    assert_eq!(peg_history_type(&"1".to_string()), 1);
    assert_eq!(peg_history_type(&"0".to_string()), 2);
}

fn expect_generate(action: &RoundAction) -> usize {
    match action {
        RoundAction::GenerateTransaction { path } => *path,
        _ => panic!("expected a transaction to build"),
    }
}

#[test]
fn master_round_signs_locally_and_remotely_then_records() {
    let nodes = vec![node("own", "k1", "active", true), node("other", "k2", "active", false)];
    let paths = vec![path(&["k1", "k2"])];
    let round = SigningRound::new(RoundKind::Master, &paths, nodes, 17, 0);
    let (state, action) = round.start();
    assert_eq!(expect_generate(&action), 0);
    let (state, action) = round.step(state, RoundEvent::Generated("psbt0".to_string()));
    match &action {
        RoundAction::SignLocally { request } => {
            assert_eq!(request.hex, "psbt0");
            assert_eq!(request.index, "17");
            assert_eq!(request.account_type, "user");
        }
        _ => panic!("expected a local signature"),
    }
    let (state, action) = round.step(state, RoundEvent::Signed("psbt1".to_string()));
    match &action {
        RoundAction::RequestSignature { node, request } => {
            assert_eq!(*node, 1);
            assert_eq!(request.hex, "psbt1");
            assert_eq!(request.account_type, "user");
        }
        _ => panic!("expected a remote signature"),
    }
    let (state, action) = round.step(state, RoundEvent::Signed("psbt2".to_string()));
    match &action {
        RoundAction::FinalizeAndSubmit { hex } => assert_eq!(hex, "psbt2"),
        _ => panic!("expected submission"),
    }
    let (state, action) = round.step(state, RoundEvent::Submitted("txhash".to_string()));
    match &action {
        RoundAction::RecordTransfers { tx_hash } => assert_eq!(tx_hash, "txhash"),
        _ => panic!("expected recording"),
    }
    assert!(matches!(state, RoundState::Finished));
}

#[test]
fn master_round_stops_when_submission_fails() {
    let nodes = vec![node("own", "k1", "active", true)];
    let paths = vec![path(&["k1"]), path(&["k1"])];
    let round = SigningRound::new(RoundKind::Master, &paths, nodes, 3, 0);
    let (s, _) = round.start();
    let (s, _) = round.step(s, RoundEvent::Generated("p".to_string()));
    let (s, _) = round.step(s, RoundEvent::Signed("p1".to_string()));
    let (s, a) = round.step(s, RoundEvent::Submitted(String::new()));
    assert!(matches!(a, RoundAction::Stop));
    assert!(matches!(s, RoundState::Finished));
}

#[test]
fn peg_round_tries_next_path_when_submission_fails() {
    let nodes = vec![node("own", "k1", "active", true), node("b", "k2", "active", false)];
    let paths = vec![path(&["k1"]), path(&["k2"])];
    let round = SigningRound::new(RoundKind::Peg, &paths, nodes, 0, 2);
    let (s, _) = round.start();
    let (s, a) = round.step(s, RoundEvent::Generated("p".to_string()));
    match &a {
        RoundAction::SignLocally { request } => {
            assert_eq!(request.account_type, "master");
            assert_eq!(request.index, "0");
        }
        _ => panic!("expected a local signature"),
    }
    let (s, _) = round.step(s, RoundEvent::Signed("p1".to_string()));
    let (s, a) = round.step(s, RoundEvent::Submitted(String::new()));
    assert_eq!(expect_generate(&a), 1);
    let (s, a) = round.step(s, RoundEvent::Generated("q".to_string()));
    assert!(matches!(a, RoundAction::RequestSignature { node: 1, .. }));
    let (s, a) = round.step(s, RoundEvent::Signed("q1".to_string()));
    assert!(matches!(a, RoundAction::FinalizeAndSubmit { .. }));
    let (_, a) = round.step(s, RoundEvent::Submitted("h".to_string()));
    assert!(matches!(a, RoundAction::RecordTransfers { .. }));
}

#[test]
fn rounds_stop_without_work() {
    let nodes = vec![node("own", "k1", "active", true)];
    // No pending peg requests.
    let round = SigningRound::new(RoundKind::Peg, &vec![path(&["k1"])], nodes, 0, 0);
    assert!(matches!(round.start().1, RoundAction::Stop));
    // No path whose signers are online.
    let nodes = vec![node("own", "k1", "inactive", true)];
    let round = SigningRound::new(RoundKind::Master, &vec![path(&["k1"])], nodes, 0, 5);
    assert!(round.paths.is_empty());
    assert!(matches!(round.start().1, RoundAction::Stop));
    // An empty transaction ends the round; so does a failed build.
    let nodes = vec![node("own", "k1", "active", true)];
    let round = SigningRound::new(RoundKind::Master, &vec![path(&["k1"])], nodes, 0, 0);
    let (s, _) = round.start();
    let (_, a) = round.step(s, RoundEvent::Generated(String::new()));
    assert!(matches!(a, RoundAction::Stop));
    let (s, _) = round.start();
    let (_, a) = round.step(s, RoundEvent::GenerationFailed);
    assert!(matches!(a, RoundAction::Stop));
}

#[test]
fn empty_path_goes_straight_to_submission() {
    let nodes = vec![node("own", "k1", "active", true)];
    let round = SigningRound::new(RoundKind::Master, &vec![path(&[])], nodes, 0, 0);
    let (s, _) = round.start();
    let (_, a) = round.step(s, RoundEvent::Generated("p".to_string()));
    match a {
        RoundAction::FinalizeAndSubmit { hex } => assert_eq!(hex, "p"),
        _ => panic!("expected submission"),
    }
}
