use mara_fed::member::{
    build_node_members, decision_maker_for_height, get_members, is_decision_maker, member_endpoint,
    process_peer_message, strip_trailing_newline, FedMember,
};
use mara_fed::peer::{admin_peer_announcement, swarm_reaction, PeerMessageModel, SwarmEvent, SwarmReaction};

fn member(identity: &str, peer: &str, user_pub: &str, master_pub: &str, status: &str) -> FedMember {
    FedMember {
        identity: identity.to_string(),
        host: format!("host-{}", identity),
        port: "8080".to_string(),
        peer_id: peer.to_string(),
        user_pub: user_pub.to_string(),
        master_pub: master_pub.to_string(),
        status: status.to_string(),
    }
}

fn test_rows() -> Vec<FedMember> {
    vec![
        FedMember {
            identity: "identity1".to_string(),
            host: "host1".to_string(),
            port: "8080".to_string(),
            peer_id: "peerId1".to_string(),
            user_pub: "user_pub1".to_string(),
            master_pub: "master_pub1".to_string(),
            status: "active".to_string(),
        },
        FedMember {
            identity: "identity2".to_string(),
            host: "host2".to_string(),
            port: "8081".to_string(),
            peer_id: "peerId2".to_string(),
            user_pub: "user_pub2".to_string(),
            master_pub: "master_pub2".to_string(),
            status: "inactive".to_string(),
        },
    ]
}

#[test]
fn test_get_members() {
    // Test get_members without filtering by active status
    let members = get_members(test_rows(), false);
    assert_eq!(members.len(), 2);

    // Test get_members with filtering by active status
    let active_members = get_members(test_rows(), true);
    assert_eq!(active_members.len(), 1);
    assert_eq!(active_members[0].identity, "identity1");
    assert_eq!(active_members[0].status, "active");
}

#[test]
fn get_members_strips_key_line_endings_and_keeps_order() {
    let rows = vec![
        member("a", "p1", "upub\r\n", "mpub\n", "active"),
        member("b", "p2", "u2", "m2\n\n", "inactive"),
        member("c", "p3", "u3\n", "m3", "active"),
    ];
    let all = get_members(rows, false);
    let ids: Vec<&str> = all.iter().map(|m| m.identity.as_str()).collect();
    assert_eq!(ids, vec!["a", "b", "c"]);
    assert_eq!(all[0].user_pub, "upub");
    assert_eq!(all[0].master_pub, "mpub");
    assert_eq!(all[1].master_pub, "m2\n");
    assert_eq!(all[2].user_pub, "u3");
    assert_eq!(all[0].host, "host-a");
}

#[test]
fn active_listing_is_full_listing_restricted_to_active() {
    let rows = || {
        vec![
            member("a", "p1", "u", "m", "active"),
            member("b", "p2", "u", "m", "inactive"),
            member("c", "p3", "u", "m", "active"),
            member("d", "p4", "u", "m", "Active"),
        ]
    };
    let full: Vec<String> = get_members(rows(), false)
        .into_iter()
        .filter(|m| m.status == "active")
        .map(|m| m.identity)
        .collect();
    let active: Vec<String> = get_members(rows(), true).into_iter().map(|m| m.identity).collect();
    assert_eq!(active, full);
    assert_eq!(active, vec!["a".to_string(), "c".to_string()]);
}

#[test]
fn strip_trailing_newline_removes_one_terminator() {
    assert_eq!(strip_trailing_newline("key\r\n"), "key");
    assert_eq!(strip_trailing_newline("key\n"), "key");
    assert_eq!(strip_trailing_newline("key"), "key");
    assert_eq!(strip_trailing_newline("key\n\n"), "key\n");
    assert_eq!(strip_trailing_newline("key\r"), "key\r");
    assert_eq!(strip_trailing_newline(""), "");
    assert_eq!(strip_trailing_newline("\n"), "");
}

#[test]
fn build_node_members_marks_own_node() {
    let members = vec![member("n1", "p1", "u", "m", "active"), member("n2", "p2", "u", "m", "inactive")];
    let keys = vec!["key1".to_string(), "key2".to_string()];
    let nodes = build_node_members(&members, &keys, &"n2".to_string());
    assert_eq!(nodes.len(), 2);
    assert_eq!(nodes[0].pub_key, "key1");
    assert!(!nodes[0].is_own);
    assert_eq!(nodes[1].member.identity, "n2");
    assert_eq!(nodes[1].pub_key, "key2");
    assert!(nodes[1].is_own);
}

#[test]
fn decision_maker_rotates_over_active_members() {
    let active = vec![
        member("a", "peerA", "u", "m", "active"),
        member("b", "peerB", "u", "m", "active"),
        member("c", "peerC", "u", "m", "active"),
    ];
    assert_eq!(decision_maker_for_height(&active, 0), "peerA");
    assert_eq!(decision_maker_for_height(&active, 4), "peerB");
    assert_eq!(decision_maker_for_height(&active, 800_003), "peerC");
    assert_eq!(decision_maker_for_height(&active, 7), decision_maker_for_height(&active, 10));
}

#[test]
fn chosen_member_recognises_itself() {
    let all = vec![
        member("a", "peerA", "u", "m", "active"),
        member("b", "peerB", "u", "m", "inactive"),
        member("c", "peerC", "u", "m", "active"),
    ];
    let active = get_members(all.clone(), true);
    let admin = decision_maker_for_height(&active, 5);
    assert_eq!(admin, "peerC");
    let (decides, own) = is_decision_maker(&all, &"c".to_string(), &admin);
    assert!(decides);
    assert_eq!(own.peer_id, "peerC");
    let (decides_a, own_a) = is_decision_maker(&all, &"a".to_string(), &admin);
    assert!(!decides_a);
    assert_eq!(own_a.identity, "a");
}

#[test]
fn is_decision_maker_without_own_entry_uses_empty_member() {
    let all = vec![member("a", "peerA", "u", "m", "active")];
    let (decides, own) = is_decision_maker(&all, &"zzz".to_string(), &"peerA".to_string());
    assert!(!decides);
    assert_eq!(own.identity, "");
    assert_eq!(own.peer_id, "");
    // An unset admin peer matches the empty member's peer id.
    let (decides_empty, _) = is_decision_maker(&all, &"zzz".to_string(), &"".to_string());
    assert!(decides_empty);
}

#[test]
fn is_decision_maker_takes_first_entry_with_identity() {
    let all = vec![member("a", "first", "u", "m", "active"), member("a", "second", "u", "m", "active")];
    let (decides, own) = is_decision_maker(&all, &"a".to_string(), &"second".to_string());
    assert!(!decides);
    assert_eq!(own.peer_id, "first");
}

fn message(kind: &str, text: &str) -> PeerMessageModel {
    PeerMessageModel { peer_id: "sender".to_string(), message_type: kind.to_string(), message: text.to_string() }
}

#[test]
fn peer_message_updates_admin_peer_only_when_one_is_set() {
    assert_eq!(
        process_peer_message(&message("current_peer", "peerX"), &"peerA".to_string()),
        Some("peerX".to_string())
    );
    assert_eq!(process_peer_message(&message("current_peer", "peerX"), &"".to_string()), None);
    assert_eq!(process_peer_message(&message("other", "peerX"), &"peerA".to_string()), None);
}

#[test]
fn announced_admin_peer_is_adopted_by_receiver() {
    let announcement = admin_peer_announcement(&"me".to_string(), &"peerZ".to_string()).unwrap();
    assert_eq!(announcement.peer_id, "me");
    assert_eq!(announcement.message_type, "current_peer");
    assert_eq!(process_peer_message(&announcement, &"peerOld".to_string()), Some("peerZ".to_string()));
    assert!(admin_peer_announcement(&"me".to_string(), &"".to_string()).is_none());
}

#[test]
fn member_endpoint_builds_url() {
    let m = member("a", "p", "u", "m", "active");
    assert_eq!(member_endpoint(&m, "/transaction/sign"), "http://host-a:8080/transaction/sign");
    assert_eq!(member_endpoint(&m, "/wallet/listwallets"), "http://host-a:8080/wallet/listwallets");
}

#[test]
fn swarm_connections_set_member_status() {
    match swarm_reaction(SwarmEvent::ConnectionEstablished("p1".to_string())) {
        SwarmReaction::SetPeerStatus { peer, status } => {
            assert_eq!(peer, "p1");
            assert_eq!(status, "active");
        }
        _ => panic!("unexpected reaction"),
    }
    match swarm_reaction(SwarmEvent::ConnectionClosed("p2".to_string())) {
        SwarmReaction::SetPeerStatus { peer, status } => {
            assert_eq!(peer, "p2");
            assert_eq!(status, "inactive");
        }
        _ => panic!("unexpected reaction"),
    }
    match swarm_reaction(SwarmEvent::Discovered(vec!["a".to_string(), "b".to_string()])) {
        SwarmReaction::AddMemberPeers(p) => assert_eq!(p, vec!["a".to_string(), "b".to_string()]),
        _ => panic!("unexpected reaction"),
    }
    assert!(matches!(swarm_reaction(SwarmEvent::Other), SwarmReaction::Ignore));
}
