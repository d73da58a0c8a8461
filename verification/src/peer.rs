//! Messages exchanged between federation peers, and how a node reacts to
//! what happens on the peer network.
use vstd::prelude::*;
use crate::member::spec_process_peer_message;

verus! {

/// A message published on the federation's gossip topic.
pub struct PeerMessageModel {
    pub peer_id: String,
    pub message_type: String,
    pub message: String,
}

/// A text published to the swarm.
pub struct MyMessage {
    pub message: String,
}

/// The announcement of the current decision maker that a node publishes:
/// none while no admin peer is recorded, else a "current_peer" message from
/// `own_peer` naming `admin_peer`.
pub fn admin_peer_announcement(own_peer: &String, admin_peer: &String) -> (res: Option<PeerMessageModel>)
    ensures
        admin_peer@.len() == 0 <==> res is None,
        res matches Some(m) ==> m.peer_id@ == own_peer@ && m.message_type@ == "current_peer"@
            && m.message@ == admin_peer@,
{
    if admin_peer.as_str().unicode_len() == 0 {
        None
    } else {
        Some(
            PeerMessageModel {
                peer_id: own_peer.clone(),
                message_type: String::from_str("current_peer"),
                message: admin_peer.clone(),
            },
        )
    }
}

/// Law: a peer that already has an admin peer recorded adopts the admin peer
/// that another node announces.
pub proof fn lemma_announcement_is_adopted(
    message_type: Seq<char>,
    message: Seq<char>,
    announced: Seq<char>,
    receiver_admin_peer: Seq<char>,
)
    requires
        message_type == "current_peer"@,
        message == announced,
        receiver_admin_peer.len() > 0,
    ensures
        spec_process_peer_message(message_type, message, receiver_admin_peer) == Some(announced),
{
}

/// What happens on the peer network.
pub enum SwarmEvent {
    /// Peers found on the local network.
    Discovered(Vec<String>),
    /// Peers whose discovery expired.
    Expired(Vec<String>),
    /// A gossip message from `source`.
    Message { source: String, data: String },
    /// The node listens on a new address.
    NewListenAddr(String),
    ConnectionEstablished(String),
    ConnectionClosed(String),
    Other,
}

/// How the node reacts.
pub enum SwarmReaction {
    /// Add each of these peers that is a federation member as an explicit peer.
    AddMemberPeers(Vec<String>),
    /// Remove these explicit peers.
    RemovePeers(Vec<String>),
    /// Process the message (see `process_peer_message`).
    HandleMessage { source: String, data: String },
    /// Remember the address the node listens on.
    ListenOn(String),
    /// Record the member's status.
    SetPeerStatus { peer: String, status: String },
    Ignore,
}

/// The reaction to a network event: discovered peers are added when they are
/// members, expired ones removed, messages processed, the listening address
/// kept, and a member is "active" while connected and "inactive" once its
/// connection closes.
pub fn swarm_reaction(event: SwarmEvent) -> (res: SwarmReaction)
    ensures
        match event {
            SwarmEvent::Discovered(peers) => res matches SwarmReaction::AddMemberPeers(p) && p@ == peers@,
            SwarmEvent::Expired(peers) => res matches SwarmReaction::RemovePeers(p) && p@ == peers@,
            SwarmEvent::Message { source, data } => res matches SwarmReaction::HandleMessage {
                source: s,
                data: d,
            } && s@ == source@ && d@ == data@,
            SwarmEvent::NewListenAddr(a) => res matches SwarmReaction::ListenOn(b) && b@ == a@,
            SwarmEvent::ConnectionEstablished(peer) => res matches SwarmReaction::SetPeerStatus {
                peer: p,
                status,
            } && p@ == peer@ && status@ == "active"@,
            SwarmEvent::ConnectionClosed(peer) => res matches SwarmReaction::SetPeerStatus {
                peer: p,
                status,
            } && p@ == peer@ && status@ == "inactive"@,
            SwarmEvent::Other => res is Ignore,
        },
{
    match event {
        SwarmEvent::Discovered(peers) => SwarmReaction::AddMemberPeers(peers),
        SwarmEvent::Expired(peers) => SwarmReaction::RemovePeers(peers),
        SwarmEvent::Message { source, data } => SwarmReaction::HandleMessage { source, data },
        SwarmEvent::NewListenAddr(a) => SwarmReaction::ListenOn(a),
        SwarmEvent::ConnectionEstablished(peer) => SwarmReaction::SetPeerStatus {
            peer,
            status: String::from_str("active"),
        },
        SwarmEvent::ConnectionClosed(peer) => SwarmReaction::SetPeerStatus {
            peer,
            status: String::from_str("inactive"),
        },
        SwarmEvent::Other => SwarmReaction::Ignore,
    }
}

} // verus!
