//! Federation members: the member list as the store returns it, the nodes
//! that take part in signing, and the rotation of the decision maker.
use vstd::prelude::*;
use crate::peer::PeerMessageModel;

verus! {

/// A member of the federation as recorded in the member table.
pub struct FedMember {
    pub identity: String,
    pub host: String,
    pub port: String,
    pub peer_id: String,
    pub user_pub: String,
    pub master_pub: String,
    pub status: String,
}

/// The text of each field of a [`FedMember`].
pub ghost struct FedMemberView {
    pub identity: Seq<char>,
    pub host: Seq<char>,
    pub port: Seq<char>,
    pub peer_id: Seq<char>,
    pub user_pub: Seq<char>,
    pub master_pub: Seq<char>,
    pub status: Seq<char>,
}

impl View for FedMember {
    type V = FedMemberView;

    open spec fn view(&self) -> FedMemberView {
        FedMemberView {
            identity: self.identity@,
            host: self.host@,
            port: self.port@,
            peer_id: self.peer_id@,
            user_pub: self.user_pub@,
            master_pub: self.master_pub@,
            status: self.status@,
        }
    }
}

impl Clone for FedMember {
    fn clone(&self) -> (res: Self)
        ensures
            res@ == self@,
    {
        FedMember {
            identity: self.identity.clone(),
            host: self.host.clone(),
            port: self.port.clone(),
            peer_id: self.peer_id.clone(),
            user_pub: self.user_pub.clone(),
            master_pub: self.master_pub.clone(),
            status: self.status.clone(),
        }
    }
}

/// A member together with the public key it signs with, and whether it is
/// this node itself.
pub struct NodeMember {
    pub member: FedMember,
    pub pub_key: String,
    pub is_own: bool,
}

pub ghost struct NodeMemberView {
    pub member: FedMemberView,
    pub pub_key: Seq<char>,
    pub is_own: bool,
}

impl View for NodeMember {
    type V = NodeMemberView;

    open spec fn view(&self) -> NodeMemberView {
        NodeMemberView { member: self.member@, pub_key: self.pub_key@, is_own: self.is_own }
    }
}

/// The member list as served to clients.
pub struct MemberListModel {
    pub data: Vec<FedMember>,
}

pub open spec fn members_view(v: Seq<FedMember>) -> Seq<FedMemberView> {
    v.map_values(|m: FedMember| m@)
}

pub open spec fn nodes_view(v: Seq<NodeMember>) -> Seq<NodeMemberView> {
    v.map_values(|n: NodeMember| n@)
}

// ---------------------------------------------------------------------------
// Trailing line terminators
// ---------------------------------------------------------------------------

/// The text with one trailing line terminator ("\r\n" first, else "\n") removed.
pub open spec fn spec_strip_trailing_newline(s: Seq<char>) -> Seq<char> {
    if s.len() >= 2 && s[s.len() - 2] == '\r' && s[s.len() - 1] == '\n' {
        s.subrange(0, s.len() - 2)
    } else if s.len() >= 1 && s[s.len() - 1] == '\n' {
        s.subrange(0, s.len() - 1)
    } else {
        s
    }
}

/// Removes one trailing "\r\n", or else one trailing "\n", from `input`.
pub fn strip_trailing_newline(input: &str) -> (res: &str)
    ensures
        res@ == spec_strip_trailing_newline(input@),
        // What was removed is a line terminator, or nothing.
        input@ == res@ + seq!['\r', '\n'] || input@ == res@ + seq!['\n'] || input@ == res@,
{
    let n = input.unicode_len();
    if n >= 2 && input.get_char(n - 2) == '\r' && input.get_char(n - 1) == '\n' {
        let r = input.substring_char(0, n - 2);
        assert(input@ =~= r@ + seq!['\r', '\n']);
        r
    } else if n >= 1 && input.get_char(n - 1) == '\n' {
        let r = input.substring_char(0, n - 1);
        assert(input@ =~= r@ + seq!['\n']);
        r
    } else {
        input
    }
}

// ---------------------------------------------------------------------------
// Member listing
// ---------------------------------------------------------------------------

pub open spec fn is_active(m: FedMemberView) -> bool {
    m.status == "active"@
}

/// A member row with the line terminators removed from both public keys.
pub open spec fn cleaned_member(m: FedMemberView) -> FedMemberView {
    FedMemberView {
        identity: m.identity,
        host: m.host,
        port: m.port,
        peer_id: m.peer_id,
        user_pub: spec_strip_trailing_newline(m.user_pub),
        master_pub: spec_strip_trailing_newline(m.master_pub),
        status: m.status,
    }
}

/// The listing of `rows`: every row cleaned, in order, keeping only active
/// members when `active_only` holds.
pub open spec fn spec_get_members(rows: Seq<FedMemberView>, active_only: bool) -> Seq<FedMemberView>
    decreases rows.len(),
{
    if rows.len() == 0 {
        Seq::empty()
    } else {
        let prev = spec_get_members(rows.drop_last(), active_only);
        if !active_only || is_active(rows.last()) {
            prev.push(cleaned_member(rows.last()))
        } else {
            prev
        }
    }
}

fn cleaned(m: &FedMember) -> (res: FedMember)
    ensures
        res@ == cleaned_member(m@),
{
    FedMember {
        identity: m.identity.clone(),
        host: m.host.clone(),
        port: m.port.clone(),
        peer_id: m.peer_id.clone(),
        user_pub: String::from_str(strip_trailing_newline(m.user_pub.as_str())),
        master_pub: String::from_str(strip_trailing_newline(m.master_pub.as_str())),
        status: m.status.clone(),
    }
}

/// The member list built from the rows of the member table, in table order:
/// each row with trailing line terminators removed from its public keys; when
/// `is_active_only`, only the members whose status is "active".
pub fn get_members(rows: Vec<FedMember>, is_active_only: bool) -> (res: Vec<FedMember>)
    ensures
        members_view(res@) == spec_get_members(members_view(rows@), is_active_only),
{
    let ghost rv = members_view(rows@);
    let active = String::from_str("active");
    let mut members: Vec<FedMember> = Vec::new();
    let mut i: usize = 0;
    while i < rows.len()
        invariant
            i <= rows.len(),
            rv == members_view(rows@),
            active@ == "active"@,
            members_view(members@) == spec_get_members(rv.take(i as int), is_active_only),
        decreases rows.len() - i,
    {
        assert(rv.take(i + 1).drop_last() =~= rv.take(i as int));
        let item = cleaned(&rows[i]);
        if is_active_only == false {
            members.push(item);
        } else if rows[i].status == active {
            members.push(item);
        }
        assert(members_view(members@) =~= spec_get_members(rv.take(i + 1), is_active_only));
        i = i + 1;
    }
    assert(rv.take(rows.len() as int) =~= rv);
    members
}

/// Law: the active-only listing is the full listing restricted to active
/// members, in the same order.
pub proof fn lemma_active_listing_is_filtered_full_listing(rows: Seq<FedMemberView>)
    ensures
        spec_get_members(rows, true) == spec_get_members(rows, false).filter(
            |m: FedMemberView| is_active(m),
        ),
    decreases rows.len(),
{
    if rows.len() > 0 {
        lemma_active_listing_is_filtered_full_listing(rows.drop_last());
        let full = spec_get_members(rows.drop_last(), false);
        let pred = |m: FedMemberView| is_active(m);
        full.lemma_filter_push(cleaned_member(rows.last()), pred);
    } else {
        assert(spec_get_members(rows, false).filter(|m: FedMemberView| is_active(m)) =~= Seq::<
            FedMemberView,
        >::empty());
    }
}

// ---------------------------------------------------------------------------
// Signing nodes
// ---------------------------------------------------------------------------

/// The nodes built from `members` and the public keys derived for them, one
/// node per member, in order; a node is this node's own when its identity is
/// `own_identity`.
pub open spec fn spec_node_members(
    members: Seq<FedMemberView>,
    pub_keys: Seq<Seq<char>>,
    own_identity: Seq<char>,
) -> Seq<NodeMemberView> {
    Seq::new(
        members.len(),
        |i: int|
            NodeMemberView {
                member: members[i],
                pub_key: pub_keys[i],
                is_own: members[i].identity == own_identity,
            },
    )
}

/// Pairs each member with the public key derived for it and marks the member
/// whose identity is this node's (as `get_master_details` and
/// `get_user_address` do).
pub fn build_node_members(
    members: &Vec<FedMember>,
    pub_keys: &Vec<String>,
    own_identity: &String,
) -> (res: Vec<NodeMember>)
    requires
        members.len() == pub_keys.len(),
    ensures
        nodes_view(res@) == spec_node_members(
            members_view(members@),
            pub_keys@.map_values(|k: String| k@),
            own_identity@,
        ),
{
    let mut nodes: Vec<NodeMember> = Vec::new();
    let mut i: usize = 0;
    while i < members.len()
        invariant
            i <= members.len(),
            members.len() == pub_keys.len(),
            nodes.len() == i,
            forall|j: int|
                0 <= j < i ==> #[trigger] nodes@[j]@ == (NodeMemberView {
                    member: members@[j]@,
                    pub_key: pub_keys@[j]@,
                    is_own: members@[j].identity@ == own_identity@,
                }),
        decreases members.len() - i,
    {
        let is_own = if members[i].identity != *own_identity {
            false
        } else {
            true
        };
        nodes.push(
            NodeMember { member: members[i].clone(), pub_key: pub_keys[i].clone(), is_own: is_own },
        );
        i = i + 1;
    }
    assert(nodes_view(nodes@) =~= spec_node_members(
        members_view(members@),
        pub_keys@.map_values(|k: String| k@),
        own_identity@,
    ));
    nodes
}

// ---------------------------------------------------------------------------
// Decision maker
// ---------------------------------------------------------------------------

pub open spec fn empty_member() -> FedMemberView {
    FedMemberView {
        identity: Seq::empty(),
        host: Seq::empty(),
        port: Seq::empty(),
        peer_id: Seq::empty(),
        user_pub: Seq::empty(),
        master_pub: Seq::empty(),
        status: Seq::empty(),
    }
}

/// Index of the first member whose identity is `identity`.
pub open spec fn first_with_identity(members: Seq<FedMemberView>, identity: Seq<char>) -> Option<int>
    decreases members.len(),
{
    if members.len() == 0 {
        None
    } else if members[0].identity == identity {
        Some(0)
    } else {
        match first_with_identity(members.drop_first(), identity) {
            Some(i) => Some(i + 1),
            None => None,
        }
    }
}

/// This node's own member entry: the first with its identity, else a member
/// whose fields are all empty.
pub open spec fn spec_own_member(members: Seq<FedMemberView>, own_identity: Seq<char>) -> FedMemberView {
    match first_with_identity(members, own_identity) {
        Some(i) => members[i],
        None => empty_member(),
    }
}

proof fn lemma_first_with_identity(members: Seq<FedMemberView>, identity: Seq<char>, k: int)
    requires
        0 <= k <= members.len(),
        forall|j: int| 0 <= j < k ==> (#[trigger] members[j]).identity != identity,
    ensures
        first_with_identity(members, identity) == (match first_with_identity(
            members.subrange(k, members.len() as int),
            identity,
        ) {
            Some(i) => Some(i + k),
            None => None,
        }),
    decreases k,
{
    if k > 0 {
        assert(members[0].identity != identity);
        lemma_first_with_identity(members.drop_first(), identity, k - 1);
        assert(members.drop_first().subrange(k - 1, members.drop_first().len() as int) =~= members.subrange(k, members.len() as int));
    } else {
        assert(members.subrange(0, members.len() as int) =~= members);
        match first_with_identity(members, identity) {
            Some(i) => {},
            None => {},
        }
    }
}

fn empty_fed_member() -> (res: FedMember)
    ensures
        res@ == empty_member(),
{
    FedMember {
        identity: String::new(),
        host: String::new(),
        port: String::new(),
        peer_id: String::new(),
        user_pub: String::new(),
        master_pub: String::new(),
        status: String::new(),
    }
}

/// Whether this node (identity `own_identity`) is the current decision maker
/// recorded as `admin_peer`, together with its own member entry (the first
/// member with that identity, else an empty member).
pub fn is_decision_maker(members: &Vec<FedMember>, own_identity: &String, admin_peer: &String) -> (res: (
    bool,
    FedMember,
))
    ensures
        res.1@ == spec_own_member(members_view(members@), own_identity@),
        res.0 == (res.1.peer_id@ == admin_peer@),
{
    let ghost mv = members_view(members@);
    let mut current_member = empty_fed_member();
    let mut i: usize = 0;
    while i < members.len()
        invariant
            i <= members.len(),
            mv == members_view(members@),
            forall|j: int| 0 <= j < i ==> (#[trigger] mv[j]).identity != own_identity@,
            current_member@ == empty_member(),
        decreases members.len() - i,
    {
        if members[i].identity == *own_identity {
            proof {
                lemma_first_with_identity(mv, own_identity@, i as int);
                assert(mv.subrange(i as int, mv.len() as int)[0] == mv[i as int]);
            }
            let m = members[i].clone();
            let same = m.peer_id == *admin_peer;
            return (same, m);
        }
        i = i + 1;
    }
    proof {
        lemma_first_with_identity(mv, own_identity@, mv.len() as int);
        assert(mv.subrange(mv.len() as int, mv.len() as int).len() == 0);
    }
    let same = current_member.peer_id == *admin_peer;
    (same, current_member)
}

/// The peer chosen as decision maker at `block_height`: the active members
/// take turns, one per block, in listing order.
pub open spec fn spec_decision_maker(active_members: Seq<FedMemberView>, block_height: nat) -> FedMemberView {
    active_members[(block_height % active_members.len()) as int]
}

/// The peer id of the active member whose turn it is at `block_height`
/// (`set_decision_maker` stores it as `admin_peer`).
pub fn decision_maker_for_height(active_members: &Vec<FedMember>, block_height: usize) -> (res: String)
    requires
        active_members.len() > 0,
    ensures
        res@ == spec_decision_maker(members_view(active_members@), block_height as nat).peer_id,
{
    let position = block_height % active_members.len();
    active_members[position].peer_id.clone()
}

/// Law: the turn comes round again after one block per active member.
pub proof fn lemma_decision_maker_rotates(active_members: Seq<FedMemberView>, block_height: nat)
    requires
        active_members.len() > 0,
    ensures
        spec_decision_maker(active_members, block_height + active_members.len())
            == spec_decision_maker(active_members, block_height),
{
    let n = active_members.len();
    vstd::arithmetic::div_mod::lemma_mod_add_multiples_vanish(block_height as int, n as int);
}

/// Law: the member whose turn it is, once its peer id is stored as
/// `admin_peer`, recognises itself as the decision maker, provided no earlier
/// member in the full listing carries its identity.
pub proof fn lemma_chosen_member_decides(
    all_members: Seq<FedMemberView>,
    active_members: Seq<FedMemberView>,
    block_height: nat,
    j: int,
)
    requires
        active_members.len() > 0,
        0 <= j < all_members.len(),
        all_members[j] == spec_decision_maker(active_members, block_height),
        forall|i: int| 0 <= i < j ==> (#[trigger] all_members[i]).identity != all_members[j].identity,
    ensures
        spec_own_member(all_members, all_members[j].identity).peer_id
            == spec_decision_maker(active_members, block_height).peer_id,
{
    lemma_first_with_identity(all_members, all_members[j].identity, j);
    assert(all_members.subrange(j, all_members.len() as int)[0] == all_members[j]);
}

// ---------------------------------------------------------------------------
// Peer messages
// ---------------------------------------------------------------------------

/// The new `admin_peer` value a peer message asks for: a "current_peer"
/// message names the peer that now decides, and it is taken only while an
/// admin peer is already recorded (`current_admin_peer` not empty).
pub open spec fn spec_process_peer_message(message_type: Seq<char>, message: Seq<char>, current_admin_peer: Seq<char>) -> Option<Seq<char>> {
    if message_type == "current_peer"@ && current_admin_peer != Seq::<char>::empty() {
        Some(message)
    } else {
        None
    }
}

/// Decides what a message from a peer changes: `Some(peer)` when the recorded
/// `admin_peer` is to become `peer`, `None` when nothing changes.
pub fn process_peer_message(message: &PeerMessageModel, current_admin_peer: &String) -> (res: Option<String>)
    ensures
        res is Some <==> spec_process_peer_message(message.message_type@, message.message@, current_admin_peer@) is Some,
        res matches Some(v) ==> Some(v@) == spec_process_peer_message(message.message_type@, message.message@, current_admin_peer@),
{
    let kind = String::from_str("current_peer");
    let none = String::new();
    if message.message_type == kind {
        if *current_admin_peer != none {
            return Some(message.message.clone());
        }
    }
    None
}

// ---------------------------------------------------------------------------
// Member endpoints
// ---------------------------------------------------------------------------

/// `http://host:port` followed by `path`.
pub open spec fn spec_member_endpoint(member: FedMemberView, path: Seq<char>) -> Seq<char> {
    seq!['h', 't', 't', 'p', ':', '/', '/'] + member.host + seq![':'] + member.port + path
}

/// The URL of endpoint `path` on a member's node (such as
/// "/transaction/sign" or "/wallet/listwallets").
pub fn member_endpoint(member: &FedMember, path: &str) -> (res: String)
    ensures
        res@ == spec_member_endpoint(member@, path@),
{
    let mut url = String::from_str("http://");
    url.append(member.host.as_str());
    url.append(":");
    url.append(member.port.as_str());
    url.append(path);
    proof {
        reveal_strlit("http://");
        reveal_strlit(":");
    }
    url
}

} // verus!
