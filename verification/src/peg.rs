//! Moving funds out of the federation's multisig addresses: choosing the
//! spending paths whose signers are online, and the signing round that asks
//! the signers of a path in turn and submits the transaction.
use vstd::prelude::*;
use crate::member::{NodeMember, NodeMemberView, nodes_view, is_active};
use crate::transaction::{SignDTO, SignDTOView};
use crate::text::{spec_decimal, u32_to_string};

verus! {

/// A spending path of the multisig script: the public keys that must sign.
pub struct SpenderTreePaths {
    pub tree: Vec<String>,
}

impl View for SpenderTreePaths {
    type V = Seq<Seq<char>>;

    open spec fn view(&self) -> Seq<Seq<char>> {
        self.tree@.map_values(|k: String| k@)
    }
}

pub open spec fn paths_view(v: Seq<SpenderTreePaths>) -> Seq<Seq<Seq<char>>> {
    v.map_values(|p: SpenderTreePaths| p@)
}

fn clone_keys(v: &Vec<String>) -> (res: Vec<String>)
    ensures
        res@.map_values(|k: String| k@) == v@.map_values(|k: String| k@),
{
    let mut res: Vec<String> = Vec::new();
    let mut i: usize = 0;
    while i < v.len()
        invariant
            i <= v.len(),
            res.len() == i,
            forall|j: int| 0 <= j < i ==> #[trigger] res@[j]@ == v@[j]@,
        decreases v.len() - i,
    {
        res.push(v[i].clone());
        i = i + 1;
    }
    assert(res@.map_values(|k: String| k@) =~= v@.map_values(|k: String| k@));
    res
}

// ---------------------------------------------------------------------------
// Online nodes and available spending paths
// ---------------------------------------------------------------------------

pub open spec fn is_online(n: NodeMemberView) -> bool {
    is_active(n.member)
}

/// The nodes whose member is active, in order.
pub open spec fn spec_online_nodes(nodes: Seq<NodeMemberView>) -> Seq<NodeMemberView>
    decreases nodes.len(),
{
    if nodes.len() == 0 {
        Seq::empty()
    } else if is_online(nodes.last()) {
        spec_online_nodes(nodes.drop_last()).push(nodes.last())
    } else {
        spec_online_nodes(nodes.drop_last())
    }
}

/// Some online node signs with `key`.
pub open spec fn held_online(nodes: Seq<NodeMemberView>, key: Seq<char>) -> bool {
    exists|i: int| 0 <= i < nodes.len() && is_online(#[trigger] nodes[i]) && nodes[i].pub_key == key
}

/// Every key of `path` is held by an online node.
pub open spec fn path_available(nodes: Seq<NodeMemberView>, path: Seq<Seq<char>>) -> bool {
    forall|j: int| 0 <= j < path.len() ==> held_online(nodes, #[trigger] path[j])
}

/// The spending paths all of whose signers are online, in order.
pub open spec fn spec_filter_spend_tree(paths: Seq<Seq<Seq<char>>>, nodes: Seq<NodeMemberView>) -> Seq<
    Seq<Seq<char>>,
>
    decreases paths.len(),
{
    if paths.len() == 0 {
        Seq::empty()
    } else if path_available(nodes, paths.last()) {
        spec_filter_spend_tree(paths.drop_last(), nodes).push(paths.last())
    } else {
        spec_filter_spend_tree(paths.drop_last(), nodes)
    }
}

proof fn lemma_online_nodes_members(nodes: Seq<NodeMemberView>, key: Seq<char>)
    ensures
        (exists|i: int|
            0 <= i < spec_online_nodes(nodes).len() && (#[trigger] spec_online_nodes(nodes)[i]).pub_key
                == key) <==> held_online(nodes, key),
    decreases nodes.len(),
{
    if nodes.len() > 0 {
        let prev = nodes.drop_last();
        lemma_online_nodes_members(prev, key);
        let on = spec_online_nodes(nodes);
        let pon = spec_online_nodes(prev);
        if held_online(nodes, key) {
            let i = choose|i: int| 0 <= i < nodes.len() && is_online(#[trigger] nodes[i]) && nodes[i].pub_key == key;
            if i < nodes.len() - 1 {
                assert(prev[i] == nodes[i]);
                assert(held_online(prev, key));
                let k = choose|k: int| 0 <= k < pon.len() && (#[trigger] pon[k]).pub_key == key;
                assert(on[k] == pon[k]);
            } else {
                assert(on[on.len() - 1] == nodes.last());
            }
        }
        if exists|i: int| 0 <= i < on.len() && (#[trigger] on[i]).pub_key == key {
            let i = choose|i: int| 0 <= i < on.len() && (#[trigger] on[i]).pub_key == key;
            if is_online(nodes.last()) && i == on.len() - 1 {
                assert(nodes[nodes.len() - 1] == nodes.last());
            } else {
                assert(on[i] == pon[i]);
                let j = choose|j: int| 0 <= j < prev.len() && is_online(#[trigger] prev[j]) && prev[j].pub_key == key;
                assert(nodes[j] == prev[j]);
            }
        }
    }
}

/// The signing nodes whose member is active, in order.
pub fn get_online_nodes(signing_nodes: &Vec<NodeMember>) -> (res: Vec<&NodeMember>)
    ensures
        res@.map_values(|n: &NodeMember| n@) == spec_online_nodes(nodes_view(signing_nodes@)),
{
    let ghost nv = nodes_view(signing_nodes@);
    let active = String::from_str("active");
    let mut online: Vec<&NodeMember> = Vec::new();
    let mut i: usize = 0;
    while i < signing_nodes.len()
        invariant
            i <= signing_nodes.len(),
            nv == nodes_view(signing_nodes@),
            active@ == "active"@,
            online@.map_values(|n: &NodeMember| n@) == spec_online_nodes(nv.take(i as int)),
        decreases signing_nodes.len() - i,
    {
        assert(nv.take(i + 1).drop_last() =~= nv.take(i as int));
        if signing_nodes[i].member.status == active {
            online.push(&signing_nodes[i]);
        }
        assert(online@.map_values(|n: &NodeMember| n@) =~= spec_online_nodes(nv.take(i + 1)));
        i = i + 1;
    }
    assert(nv.take(signing_nodes.len() as int) =~= nv);
    online
}

fn key_is_online(online: &Vec<&NodeMember>, key: &String) -> (res: bool)
    ensures
        res == exists|i: int| 0 <= i < online@.len() && (#[trigger] online@[i]).pub_key@ == key@,
{
    let mut k: usize = 0;
    while k < online.len()
        invariant
            k <= online.len(),
            forall|i: int| 0 <= i < k ==> (#[trigger] online@[i]).pub_key@ != key@,
        decreases online.len() - k,
    {
        if online[k].pub_key == *key {
            return true;
        }
        k = k + 1;
    }
    false
}

/// Keeps the spending paths whose every public key belongs to an online
/// signing node, in their original order.
pub fn filter_spend_tree(spend_tree: &Vec<SpenderTreePaths>, signing_nodes: &Vec<NodeMember>) -> (res: Vec<
    SpenderTreePaths,
>)
    ensures
        paths_view(res@) == spec_filter_spend_tree(paths_view(spend_tree@), nodes_view(signing_nodes@)),
{
    let ghost nv = nodes_view(signing_nodes@);
    let ghost pv = paths_view(spend_tree@);
    let online = get_online_nodes(signing_nodes);
    let ghost ov = online@.map_values(|n: &NodeMember| n@);
    let mut kept: Vec<SpenderTreePaths> = Vec::new();
    let mut p: usize = 0;
    while p < spend_tree.len()
        invariant
            p <= spend_tree.len(),
            nv == nodes_view(signing_nodes@),
            pv == paths_view(spend_tree@),
            ov == online@.map_values(|n: &NodeMember| n@),
            ov == spec_online_nodes(nv),
            paths_view(kept@) == spec_filter_spend_tree(pv.take(p as int), nv),
        decreases spend_tree.len() - p,
    {
        let tree = &spend_tree[p].tree;
        let ghost path = pv[p as int];
        assert(path == tree@.map_values(|k: String| k@));
        let mut is_available = true;
        let mut j: usize = 0;
        while j < tree.len() && is_available
            invariant
                j <= tree.len(),
                path == tree@.map_values(|k: String| k@),
                ov == online@.map_values(|n: &NodeMember| n@),
                ov == spec_online_nodes(nv),
                is_available ==> forall|m: int| 0 <= m < j ==> held_online(nv, #[trigger] path[m]),
                !is_available ==> !path_available(nv, path),
            decreases tree.len() - j + (if is_available { 1int } else { 0int }),
        {
            let found = key_is_online(&online, &tree[j]);
            proof {
                lemma_online_nodes_members(nv, path[j as int]);
                if found {
                    let i = choose|i: int| 0 <= i < online@.len() && (#[trigger] online@[i]).pub_key@ == tree@[j as int]@;
                    assert(ov[i].pub_key == path[j as int]);
                } else {
                    assert forall|i: int| 0 <= i < ov.len() implies (#[trigger] ov[i]).pub_key != path[j as int] by {
                        assert(ov[i] == online@[i]@);
                    }
                }
            }
            if !found {
                is_available = false;
            } else {
                j = j + 1;
            }
        }
        assert(pv.take(p + 1).drop_last() =~= pv.take(p as int));
        if is_available {
            assert(path_available(nv, path));
            kept.push(SpenderTreePaths { tree: clone_keys(tree) });
        } else {
            assert(!path_available(nv, path));
        }
        assert(paths_view(kept@) =~= spec_filter_spend_tree(pv.take(p + 1), nv));
        p = p + 1;
    }
    assert(pv.take(spend_tree.len() as int) =~= pv);
    kept
}

/// Law: filtering an already filtered set of spending paths keeps all of them.
pub proof fn lemma_filter_spend_tree_idempotent(paths: Seq<Seq<Seq<char>>>, nodes: Seq<NodeMemberView>)
    ensures
        spec_filter_spend_tree(spec_filter_spend_tree(paths, nodes), nodes) == spec_filter_spend_tree(
            paths,
            nodes,
        ),
    decreases paths.len(),
{
    if paths.len() > 0 {
        lemma_filter_spend_tree_idempotent(paths.drop_last(), nodes);
        let f = spec_filter_spend_tree(paths, nodes);
        if path_available(nodes, paths.last()) {
            assert(f.drop_last() =~= spec_filter_spend_tree(paths.drop_last(), nodes));
        }
    }
}

// ---------------------------------------------------------------------------
// Signing plan of one spending path
// ---------------------------------------------------------------------------

/// Indices of the nodes that sign with `key`, in node order.
pub open spec fn spec_matching_nodes(nodes: Seq<NodeMemberView>, key: Seq<char>) -> Seq<usize>
    decreases nodes.len(),
{
    if nodes.len() == 0 {
        Seq::empty()
    } else if nodes.last().pub_key == key {
        spec_matching_nodes(nodes.drop_last(), key).push((nodes.len() - 1) as usize)
    } else {
        spec_matching_nodes(nodes.drop_last(), key)
    }
}

/// The signatures asked for a path: for each key in order, every node holding
/// it, in node order; the walk stops at the first key that no node holds, and
/// the flag says whether every key was held.
pub open spec fn spec_sign_plan(path: Seq<Seq<char>>, nodes: Seq<NodeMemberView>) -> (Seq<usize>, bool)
    decreases path.len(),
{
    if path.len() == 0 {
        (Seq::empty(), true)
    } else {
        let (prev, complete) = spec_sign_plan(path.drop_last(), nodes);
        let m = spec_matching_nodes(nodes, path.last());
        if !complete || m.len() == 0 {
            (prev, false)
        } else {
            (prev + m, true)
        }
    }
}

proof fn lemma_plan_stops(path: Seq<Seq<char>>, nodes: Seq<NodeMemberView>, k: int)
    requires
        0 <= k <= path.len(),
        !spec_sign_plan(path.take(k), nodes).1,
    ensures
        spec_sign_plan(path, nodes) == spec_sign_plan(path.take(k), nodes),
    decreases path.len(),
{
    if k < path.len() {
        assert(path.drop_last().take(k) =~= path.take(k));
        lemma_plan_stops(path.drop_last(), nodes, k);
    } else {
        assert(path.take(k) =~= path);
    }
}

proof fn lemma_matching_nodes_hold_key(nodes: Seq<NodeMemberView>, key: Seq<char>)
    requires
        nodes.len() <= usize::MAX,
    ensures
        forall|i: int|
            0 <= i < spec_matching_nodes(nodes, key).len() ==> {
                let n = #[trigger] spec_matching_nodes(nodes, key)[i];
                n < nodes.len() && nodes[n as int].pub_key == key
            },
        (exists|i: int| 0 <= i < nodes.len() && (#[trigger] nodes[i]).pub_key == key) ==> spec_matching_nodes(nodes, key).len() > 0,
    decreases nodes.len(),
{
    if nodes.len() > 0 {
        lemma_matching_nodes_hold_key(nodes.drop_last(), key);
        let prev = nodes.drop_last();
        let pm = spec_matching_nodes(prev, key);
        let m = spec_matching_nodes(nodes, key);
        assert forall|i: int| 0 <= i < m.len() implies {
            let n = #[trigger] m[i];
            n < nodes.len() && nodes[n as int].pub_key == key
        } by {
            if i < pm.len() {
                assert(m[i] == pm[i]);
                assert(prev[pm[i] as int] == nodes[pm[i] as int]);
            } else {
                assert(m[i] == (nodes.len() - 1) as usize);
                assert(nodes[nodes.len() - 1] == nodes.last());
            }
        }
        if exists|i: int| 0 <= i < nodes.len() && (#[trigger] nodes[i]).pub_key == key {
            let i = choose|i: int| 0 <= i < nodes.len() && (#[trigger] nodes[i]).pub_key == key;
            if i < nodes.len() - 1 {
                assert(prev[i] == nodes[i]);
            }
        }
    }
}

/// Every planned signer holds some key of the path, and a complete plan has a
/// holder for every key.
proof fn lemma_plan_signers(path: Seq<Seq<char>>, nodes: Seq<NodeMemberView>)
    requires
        nodes.len() <= usize::MAX,
    ensures
        forall|i: int|
            0 <= i < spec_sign_plan(path, nodes).0.len() ==> {
                let n = #[trigger] spec_sign_plan(path, nodes).0[i];
                n < nodes.len() && path.contains(nodes[n as int].pub_key)
            },
        spec_sign_plan(path, nodes).1 ==> forall|j: int|
            0 <= j < path.len() ==> spec_matching_nodes(nodes, #[trigger] path[j]).len() > 0,
    decreases path.len(),
{
    if path.len() > 0 {
        let prefix = path.drop_last();
        lemma_plan_signers(prefix, nodes);
        lemma_matching_nodes_hold_key(nodes, path.last());
        let (prev, complete) = spec_sign_plan(prefix, nodes);
        let m = spec_matching_nodes(nodes, path.last());
        assert forall|i: int| 0 <= i < spec_sign_plan(path, nodes).0.len() implies {
            let n = #[trigger] spec_sign_plan(path, nodes).0[i];
            n < nodes.len() && path.contains(nodes[n as int].pub_key)
        } by {
            let s = spec_sign_plan(path, nodes).0;
            if i < prev.len() {
                assert(s[i] == prev[i]);
                let n = prev[i];
                let w = choose|w: int| 0 <= w < prefix.len() && prefix[w] == nodes[n as int].pub_key;
                assert(path[w] == prefix[w]);
            } else {
                assert(s[i] == m[i - prev.len()]);
                assert(path[path.len() - 1] == path.last());
            }
        }
        if spec_sign_plan(path, nodes).1 {
            assert forall|j: int| 0 <= j < path.len() implies spec_matching_nodes(nodes, #[trigger] path[j]).len() > 0 by {
                if j < path.len() - 1 {
                    assert(path[j] == prefix[j]);
                }
            }
        }
    }
}

/// The signers to ask for `path`, in order, and whether every key of the path
/// has a signer (see `spec_sign_plan`).
pub fn signing_steps(path: &Vec<String>, nodes: &Vec<NodeMember>) -> (res: (Vec<usize>, bool))
    ensures
        (res.0@, res.1) == spec_sign_plan(path@.map_values(|k: String| k@), nodes_view(nodes@)),
{
    let ghost pv = path@.map_values(|k: String| k@);
    let ghost nv = nodes_view(nodes@);
    let mut steps: Vec<usize> = Vec::new();
    let mut i: usize = 0;
    while i < path.len()
        invariant
            i <= path.len(),
            pv == path@.map_values(|k: String| k@),
            nv == nodes_view(nodes@),
            (steps@, true) == spec_sign_plan(pv.take(i as int), nv),
        decreases path.len() - i,
    {
        let ghost before = steps@;
        let ghost key = pv[i as int];
        let mut found = false;
        let mut j: usize = 0;
        while j < nodes.len()
            invariant
                j <= nodes.len(),
                nv == nodes_view(nodes@),
                key == path@[i as int]@,
                i < path.len(),
                steps@ == before + spec_matching_nodes(nv.take(j as int), key),
                found == (spec_matching_nodes(nv.take(j as int), key).len() > 0),
            decreases nodes.len() - j,
        {
            assert(nv.take(j + 1).drop_last() =~= nv.take(j as int));
            if nodes[j].pub_key == path[i] {
                steps.push(j);
                found = true;
            }
            assert(steps@ =~= before + spec_matching_nodes(nv.take(j + 1), key));
            j = j + 1;
        }
        assert(nv.take(nodes.len() as int) =~= nv);
        assert(pv.take(i + 1).drop_last() =~= pv.take(i as int));
        assert(pv.take(i + 1).last() == key);
        if !found {
            proof {
                lemma_plan_stops(pv, nv, i + 1);
            }
            return (steps, false);
        }
        i = i + 1;
    }
    assert(pv.take(path.len() as int) =~= pv);
    (steps, true)
}

/// Every node holding `key` is among its matching nodes.
proof fn lemma_matching_nodes_include_holders(nodes: Seq<NodeMemberView>, key: Seq<char>, n: int)
    requires
        nodes.len() <= usize::MAX,
        0 <= n < nodes.len(),
        nodes[n].pub_key == key,
    ensures
        spec_matching_nodes(nodes, key).contains(n as usize),
    decreases nodes.len(),
{
    let prev = nodes.drop_last();
    let pm = spec_matching_nodes(prev, key);
    if n == nodes.len() - 1 {
        assert(nodes.last() == nodes[n]);
        assert(spec_matching_nodes(nodes, key)[pm.len() as int] == n as usize);
    } else {
        assert(prev[n] == nodes[n]);
        lemma_matching_nodes_include_holders(prev, key, n);
        let w = choose|w: int| 0 <= w < pm.len() && pm[w] == n as usize;
        if nodes.last().pub_key == key {
            assert(spec_matching_nodes(nodes, key)[w] == pm[w]);
        }
    }
}

/// Law: the signing plan of a path asks only holders of the path's keys; it
/// is complete exactly when every key has a holder among the nodes, and a
/// complete plan asks every holder of every key.
pub proof fn lemma_plan_asks_every_holder(path: Seq<Seq<char>>, nodes: Seq<NodeMemberView>)
    requires
        nodes.len() <= usize::MAX,
    ensures
        forall|i: int|
            0 <= i < spec_sign_plan(path, nodes).0.len() ==> {
                let n = #[trigger] spec_sign_plan(path, nodes).0[i];
                n < nodes.len() && path.contains(nodes[n as int].pub_key)
            },
        spec_sign_plan(path, nodes).1 <==> (forall|j: int|
            0 <= j < path.len() ==> exists|n: int| 0 <= n < nodes.len() && #[trigger] nodes[n].pub_key == #[trigger] path[j]),
        spec_sign_plan(path, nodes).1 ==> forall|j: int, n: int|
            0 <= j < path.len() && 0 <= n < nodes.len() && #[trigger] nodes[n].pub_key == #[trigger] path[j]
                ==> spec_sign_plan(path, nodes).0.contains(n as usize),
    decreases path.len(),
{
    lemma_plan_signers(path, nodes);
    if path.len() > 0 {
        let prefix = path.drop_last();
        lemma_plan_asks_every_holder(prefix, nodes);
        lemma_matching_nodes_hold_key(nodes, path.last());
        let (prev, complete) = spec_sign_plan(prefix, nodes);
        let m = spec_matching_nodes(nodes, path.last());
        let plan = spec_sign_plan(path, nodes);
        if plan.1 {
            assert forall|j: int| 0 <= j < path.len() implies exists|n: int|
                0 <= n < nodes.len() && #[trigger] nodes[n].pub_key == #[trigger] path[j] by {
                let mj = spec_matching_nodes(nodes, path[j]);
                lemma_matching_nodes_hold_key(nodes, path[j]);
                assert(mj.len() > 0);
                let n = mj[0] as int;
                assert(nodes[n].pub_key == path[j]);
            }
            assert forall|j: int, n: int|
                0 <= j < path.len() && 0 <= n < nodes.len() && #[trigger] nodes[n].pub_key == #[trigger] path[j]
                implies plan.0.contains(n as usize) by {
                assert(plan.0 == prev + m);
                if j < path.len() - 1 {
                    assert(prefix[j] == path[j]);
                    assert(prev.contains(n as usize));
                    let w = choose|w: int| 0 <= w < prev.len() && prev[w] == n as usize;
                    assert(plan.0[w] == prev[w]);
                } else {
                    assert(path[j] == path.last());
                    lemma_matching_nodes_include_holders(nodes, path.last(), n);
                    let w = choose|w: int| 0 <= w < m.len() && m[w] == n as usize;
                    assert(plan.0[prev.len() + w] == m[w]);
                }
            }
        } else {
            if forall|j: int| 0 <= j < path.len() ==> exists|n: int|
                0 <= n < nodes.len() && #[trigger] nodes[n].pub_key == #[trigger] path[j] {
                assert forall|j: int| 0 <= j < prefix.len() implies exists|n: int|
                    0 <= n < nodes.len() && #[trigger] nodes[n].pub_key == #[trigger] prefix[j] by {
                    assert(prefix[j] == path[j]);
                }
                assert(complete);
                let last = path.len() - 1;
                assert(path[last] == path.last());
                let n = choose|n: int| 0 <= n < nodes.len() && #[trigger] nodes[n].pub_key == path[last];
                assert(nodes[n].pub_key == path.last());
                assert(m.len() > 0);
                assert(false);
            }
        }
    }
}

/// Law: every spending path that `filter_spend_tree` keeps has a signer for
/// each of its keys, so its signing plan is complete.
pub proof fn lemma_kept_paths_are_signable(paths: Seq<Seq<Seq<char>>>, nodes: Seq<NodeMemberView>, k: int)
    requires
        nodes.len() <= usize::MAX,
        0 <= k < spec_filter_spend_tree(paths, nodes).len(),
    ensures
        spec_sign_plan(spec_filter_spend_tree(paths, nodes)[k], nodes).1,
    decreases paths.len(),
{
    let f = spec_filter_spend_tree(paths, nodes);
    if path_available(nodes, paths.last()) && k == f.len() - 1 {
        lemma_available_path_signable(paths.last(), nodes);
    } else {
        lemma_kept_paths_are_signable(paths.drop_last(), nodes, k);
    }
}

proof fn lemma_available_path_signable(path: Seq<Seq<char>>, nodes: Seq<NodeMemberView>)
    requires
        nodes.len() <= usize::MAX,
        path_available(nodes, path),
    ensures
        spec_sign_plan(path, nodes).1,
    decreases path.len(),
{
    if path.len() > 0 {
        assert forall|j: int| 0 <= j < path.drop_last().len() implies held_online(nodes, #[trigger] path.drop_last()[j]) by {
            assert(path.drop_last()[j] == path[j]);
        }
        lemma_available_path_signable(path.drop_last(), nodes);
        assert(held_online(nodes, path[path.len() - 1]));
        lemma_matching_nodes_hold_key(nodes, path.last());
    }
}

// ---------------------------------------------------------------------------
// The signing round
// ---------------------------------------------------------------------------

/// Which transfer a round settles: `Master` sweeps a user deposit address into
/// the master address (keys derived at the address's index, signed as
/// "user"); `Peg` pays out pending peg requests from the master address
/// (signed as "master").
#[derive(Clone, Copy, PartialEq, Eq, Structural)]
pub enum RoundKind {
    Master,
    Peg,
}

/// One attempt to move funds: the spending paths to try, the signing nodes,
/// the derivation index the signers use, and how many pending transfers the
/// transaction settles.
pub struct SigningRound {
    pub kind: RoundKind,
    pub paths: Vec<SpenderTreePaths>,
    pub nodes: Vec<NodeMember>,
    pub index: u32,
    pub pending: usize,
}

pub ghost struct RoundView {
    pub kind: RoundKind,
    pub paths: Seq<Seq<Seq<char>>>,
    pub nodes: Seq<NodeMemberView>,
    pub index: u32,
    pub pending: nat,
}

impl View for SigningRound {
    type V = RoundView;

    open spec fn view(&self) -> RoundView {
        RoundView {
            kind: self.kind,
            paths: paths_view(self.paths@),
            nodes: nodes_view(self.nodes@),
            index: self.index,
            pending: self.pending as nat,
        }
    }
}

/// Where a round stands.
pub enum RoundState {
    /// Waiting for the unsigned transaction built for spending path `path`.
    Generating { path: usize },
    /// Waiting for the signature of `signers[next]`.
    Signing { path: usize, signers: Vec<usize>, next: usize, complete: bool },
    /// Waiting for the hash under which the node accepted the transaction.
    Submitting { path: usize },
    Finished,
}

pub ghost enum RoundStateView {
    Generating { path: int },
    Signing { path: int, signers: Seq<usize>, next: int, complete: bool },
    Submitting { path: int },
    Finished,
}

impl View for RoundState {
    type V = RoundStateView;

    open spec fn view(&self) -> RoundStateView {
        match self {
            RoundState::Generating { path } => RoundStateView::Generating { path: *path as int },
            RoundState::Signing { path, signers, next, complete } => RoundStateView::Signing {
                path: *path as int,
                signers: signers@,
                next: *next as int,
                complete: *complete,
            },
            RoundState::Submitting { path } => RoundStateView::Submitting { path: *path as int },
            RoundState::Finished => RoundStateView::Finished,
        }
    }
}

/// What the outside work of the last action produced.
pub enum RoundEvent {
    /// The unsigned transaction; empty when the address holds nothing to spend.
    Generated(String),
    GenerationFailed,
    /// The transaction with one more signature.
    Signed(String),
    /// The transaction hash; empty when the node refused the transaction.
    Submitted(String),
}

pub ghost enum RoundEventView {
    Generated(Seq<char>),
    GenerationFailed,
    Signed(Seq<char>),
    Submitted(Seq<char>),
}

impl View for RoundEvent {
    type V = RoundEventView;

    open spec fn view(&self) -> RoundEventView {
        match self {
            RoundEvent::Generated(h) => RoundEventView::Generated(h@),
            RoundEvent::GenerationFailed => RoundEventView::GenerationFailed,
            RoundEvent::Signed(h) => RoundEventView::Signed(h@),
            RoundEvent::Submitted(h) => RoundEventView::Submitted(h@),
        }
    }
}

/// The outside work to do next.
pub enum RoundAction {
    /// Build the unsigned transaction for spending path `path`.
    GenerateTransaction { path: usize },
    /// Sign with this node's own key.
    SignLocally { request: SignDTO },
    /// Ask signing node `node` for its signature.
    RequestSignature { node: usize, request: SignDTO },
    /// Finalize the fully signed transaction and submit it to the chain.
    FinalizeAndSubmit { hex: String },
    /// Mark the pending transfers as settled by transaction `tx_hash`; the round is over.
    RecordTransfers { tx_hash: String },
    /// The round is over.
    Stop,
}

pub ghost enum RoundActionView {
    GenerateTransaction { path: int },
    SignLocally { request: SignDTOView },
    RequestSignature { node: int, request: SignDTOView },
    FinalizeAndSubmit { hex: Seq<char> },
    RecordTransfers { tx_hash: Seq<char> },
    Stop,
}

impl View for RoundAction {
    type V = RoundActionView;

    open spec fn view(&self) -> RoundActionView {
        match self {
            RoundAction::GenerateTransaction { path } => RoundActionView::GenerateTransaction {
                path: *path as int,
            },
            RoundAction::SignLocally { request } => RoundActionView::SignLocally { request: request@ },
            RoundAction::RequestSignature { node, request } => RoundActionView::RequestSignature {
                node: *node as int,
                request: request@,
            },
            RoundAction::FinalizeAndSubmit { hex } => RoundActionView::FinalizeAndSubmit { hex: hex@ },
            RoundAction::RecordTransfers { tx_hash } => RoundActionView::RecordTransfers {
                tx_hash: tx_hash@,
            },
            RoundAction::Stop => RoundActionView::Stop,
        }
    }
}

/// The signing request for `hex`: signed as "user" at the round's index for a
/// master sweep, as "master" for a peg payout.
pub open spec fn spec_sign_request(r: RoundView, hex: Seq<char>) -> SignDTOView {
    SignDTOView {
        hex: hex,
        index: spec_decimal(r.index as nat),
        account_type: if r.kind == RoundKind::Master {
            "user"@
        } else {
            "master"@
        },
    }
}

/// Ask node `node` to sign: locally when it is this node, else over the network.
pub open spec fn spec_sign_action(r: RoundView, node: usize, hex: Seq<char>) -> RoundActionView {
    if r.nodes[node as int].is_own {
        RoundActionView::SignLocally { request: spec_sign_request(r, hex) }
    } else {
        RoundActionView::RequestSignature { node: node as int, request: spec_sign_request(r, hex) }
    }
}

/// Move on to spending path `q`, or stop when none is left.
pub open spec fn spec_next_path(r: RoundView, q: int) -> (RoundStateView, RoundActionView) {
    if q < r.paths.len() {
        (RoundStateView::Generating { path: q }, RoundActionView::GenerateTransaction { path: q })
    } else {
        (RoundStateView::Finished, RoundActionView::Stop)
    }
}

/// Continue path `p` with `hex` at signer `k`: ask the next signer; when all
/// were asked, submit if every key had a signer, else try the next path.
pub open spec fn spec_continue_signing(
    r: RoundView,
    p: int,
    signers: Seq<usize>,
    complete: bool,
    hex: Seq<char>,
    k: int,
) -> (RoundStateView, RoundActionView) {
    if k < signers.len() {
        (
            RoundStateView::Signing { path: p, signers, next: k, complete },
            spec_sign_action(r, signers[k], hex),
        )
    } else if complete {
        (RoundStateView::Submitting { path: p }, RoundActionView::FinalizeAndSubmit { hex })
    } else {
        spec_next_path(r, p + 1)
    }
}

/// How a round begins: nothing to do without a spending path, or, for a peg
/// payout, without a pending request; otherwise build the transaction for the
/// first path.
pub open spec fn spec_start(r: RoundView) -> (RoundStateView, RoundActionView) {
    if r.paths.len() == 0 || (r.kind == RoundKind::Peg && r.pending == 0) {
        (RoundStateView::Finished, RoundActionView::Stop)
    } else {
        spec_next_path(r, 0)
    }
}

/// The rules of the round.
pub open spec fn spec_step(r: RoundView, s: RoundStateView, e: RoundEventView) -> (
    RoundStateView,
    RoundActionView,
) {
    match (s, e) {
        (RoundStateView::Generating { path }, RoundEventView::Generated(hex)) => {
            if hex.len() == 0 {
                (RoundStateView::Finished, RoundActionView::Stop)
            } else {
                let (signers, complete) = spec_sign_plan(r.paths[path], r.nodes);
                spec_continue_signing(r, path, signers, complete, hex, 0)
            }
        },
        (RoundStateView::Signing { path, signers, next, complete }, RoundEventView::Signed(hex)) => {
            spec_continue_signing(r, path, signers, complete, hex, next + 1)
        },
        (RoundStateView::Submitting { path }, RoundEventView::Submitted(tx_hash)) => {
            if tx_hash.len() > 0 {
                (RoundStateView::Finished, RoundActionView::RecordTransfers { tx_hash })
            } else if r.kind == RoundKind::Master {
                (RoundStateView::Finished, RoundActionView::Stop)
            } else {
                spec_next_path(r, path + 1)
            }
        },
        _ => (RoundStateView::Finished, RoundActionView::Stop),
    }
}

/// The states a round can be in: each names one of its paths, and a signing
/// state follows the plan of that path.
pub open spec fn round_state_wf(r: RoundView, s: RoundStateView) -> bool {
    match s {
        RoundStateView::Generating { path } => 0 <= path < r.paths.len(),
        RoundStateView::Signing { path, signers, next, complete } => {
            &&& 0 <= path < r.paths.len()
            &&& (signers, complete) == spec_sign_plan(r.paths[path], r.nodes)
            &&& 0 <= next < signers.len()
        },
        RoundStateView::Submitting { path } => {
            &&& 0 <= path < r.paths.len()
            &&& spec_sign_plan(r.paths[path], r.nodes).1
        },
        RoundStateView::Finished => true,
    }
}

impl SigningRound {
    /// A round over the spending paths of `paths` whose signers are all online
    /// (see `filter_spend_tree`).
    pub fn new(
        kind: RoundKind,
        paths: &Vec<SpenderTreePaths>,
        nodes: Vec<NodeMember>,
        index: u32,
        pending: usize,
    ) -> (res: Self)
        ensures
            res.kind == kind,
            res@.paths == spec_filter_spend_tree(paths_view(paths@), nodes_view(nodes@)),
            res@.nodes == nodes_view(nodes@),
            res.index == index,
            res.pending == pending,
    {
        let kept = filter_spend_tree(paths, &nodes);
        SigningRound { kind, paths: kept, nodes, index, pending }
    }

    fn sign_request(&self, hex: String) -> (res: SignDTO)
        ensures
            res@ == spec_sign_request(self@, hex@),
    {
        let account_type = match self.kind {
            RoundKind::Master => String::from_str("user"),
            RoundKind::Peg => String::from_str("master"),
        };
        SignDTO { hex, index: u32_to_string(self.index), account_type }
    }

    fn next_path(&self, q: usize) -> (res: (RoundState, RoundAction))
        ensures
            (res.0@, res.1@) == spec_next_path(self@, q as int),
    {
        if q < self.paths.len() {
            (RoundState::Generating { path: q }, RoundAction::GenerateTransaction { path: q })
        } else {
            (RoundState::Finished, RoundAction::Stop)
        }
    }

    fn continue_signing(
        &self,
        p: usize,
        signers: Vec<usize>,
        complete: bool,
        hex: String,
        k: usize,
    ) -> (res: (RoundState, RoundAction))
        requires
            p < self.paths.len(),
            forall|i: int| 0 <= i < signers.len() ==> (#[trigger] signers@[i]) < self.nodes.len(),
        ensures
            (res.0@, res.1@) == spec_continue_signing(self@, p as int, signers@, complete, hex@, k as int),
    {
        if k < signers.len() {
            let node = signers[k];
            let own = self.nodes[node].is_own;
            let request = self.sign_request(hex);
            let action = if own {
                RoundAction::SignLocally { request }
            } else {
                RoundAction::RequestSignature { node, request }
            };
            (RoundState::Signing { path: p, signers, next: k, complete }, action)
        } else if complete {
            (RoundState::Submitting { path: p }, RoundAction::FinalizeAndSubmit { hex })
        } else {
            self.next_path(p + 1)
        }
    }

    /// The first state and action of the round.
    pub fn start(&self) -> (res: (RoundState, RoundAction))
        ensures
            (res.0@, res.1@) == spec_start(self@),
    {
        if self.paths.len() == 0 {
            return (RoundState::Finished, RoundAction::Stop);
        }
        if let RoundKind::Peg = self.kind {
            if self.pending == 0 {
                return (RoundState::Finished, RoundAction::Stop);
            }
        }
        self.next_path(0)
    }

    /// The next state and action after `event`, following `spec_step`.
    pub fn step(&self, state: RoundState, event: RoundEvent) -> (res: (RoundState, RoundAction))
        requires
            round_state_wf(self@, state@),
        ensures
            (res.0@, res.1@) == spec_step(self@, state@, event@),
    {
        let node_count = self.nodes.len();
        let path_count = self.paths.len();
        proof {
            assert(self.nodes@.len() == self@.nodes.len());
        }
        match (state, event) {
            (RoundState::Generating { path }, RoundEvent::Generated(hex)) => {
                if hex.unicode_len() == 0 {
                    (RoundState::Finished, RoundAction::Stop)
                } else {
                    let (signers, complete) = signing_steps(&self.paths[path].tree, &self.nodes);
                    proof {
                        assert(self.paths[path as int]@ == self@.paths[path as int]);
                        lemma_plan_signers(self@.paths[path as int], self@.nodes);
                        let plan = spec_sign_plan(self@.paths[path as int], self@.nodes).0;
                        assert(signers@ == plan);
                        assert forall|i: int| 0 <= i < signers.len() implies (#[trigger] signers@[i]) < self.nodes.len() by {
                            assert(signers@[i] == plan[i]);
                        }
                    }
                    self.continue_signing(path, signers, complete, hex, 0)
                }
            },
            (
                RoundState::Signing { path, signers, next, complete },
                RoundEvent::Signed(hex),
            ) => {
                let signer_count = signers.len();
                proof {
                    lemma_plan_signers(self@.paths[path as int], self@.nodes);
                    let plan = spec_sign_plan(self@.paths[path as int], self@.nodes).0;
                    assert(signers@ == plan);
                    assert forall|i: int| 0 <= i < signers.len() implies (#[trigger] signers@[i]) < self.nodes.len() by {
                        assert(signers@[i] == plan[i]);
                    }
                }
                self.continue_signing(path, signers, complete, hex, next + 1)
            },
            (RoundState::Submitting { path }, RoundEvent::Submitted(tx_hash)) => {
                if tx_hash.unicode_len() > 0 {
                    (RoundState::Finished, RoundAction::RecordTransfers { tx_hash })
                } else if self.kind == RoundKind::Master {
                    (RoundState::Finished, RoundAction::Stop)
                } else {
                    self.next_path(path + 1)
                }
            },
            _ => (RoundState::Finished, RoundAction::Stop),
        }
    }
}

// ---------------------------------------------------------------------------
// Laws of the round
// ---------------------------------------------------------------------------

/// Law: how a round begins. Without a spending path, or for a peg payout
/// without a pending request, nothing is done; otherwise the transaction of
/// the first spending path is built, whatever the number of pending
/// requests.
pub proof fn lemma_round_begins_with_first_path(r: RoundView)
    ensures
        r.paths.len() == 0 ==> spec_start(r) == (RoundStateView::Finished, RoundActionView::Stop),
        r.kind == RoundKind::Peg && r.pending == 0 ==> spec_start(r) == (
            RoundStateView::Finished,
            RoundActionView::Stop,
        ),
        r.paths.len() > 0 && (r.kind == RoundKind::Master || r.pending > 0) ==> spec_start(r) == (
            RoundStateView::Generating { path: 0 },
            RoundActionView::GenerateTransaction { path: 0 },
        ),
{
}

/// Law: a round starts in a well-formed state, and every step from a
/// well-formed state leads to one.
pub proof fn lemma_round_stays_well_formed(r: RoundView, s: RoundStateView, e: RoundEventView)
    requires
        round_state_wf(r, s),
    ensures
        round_state_wf(r, spec_start(r).0),
        round_state_wf(r, spec_step(r, s, e).0),
{
}

/// Law: every signature the round asks for goes to a node that holds a key of
/// the spending path being signed, and is asked of this node itself exactly
/// when the node is its own.
pub proof fn lemma_signers_hold_path_keys(r: RoundView, s: RoundStateView, e: RoundEventView)
    requires
        round_state_wf(r, s),
        r.nodes.len() <= usize::MAX,
    ensures
        ({
            let (s2, a) = spec_step(r, s, e);
            (a is SignLocally || a is RequestSignature) ==> (s2 matches RoundStateView::Signing { path, signers, next, .. } && {
                let n = signers[next];
                &&& n < r.nodes.len()
                &&& r.paths[path].contains(r.nodes[n as int].pub_key)
                &&& (a is SignLocally <==> r.nodes[n as int].is_own)
                &&& (a matches RoundActionView::RequestSignature { node, .. } ==> node == n)
            })
        }),
{
    let (s2, a) = spec_step(r, s, e);
    if let RoundStateView::Signing { path, signers, next, .. } = s2 {
        lemma_plan_signers(r.paths[path], r.nodes);
        assert(signers == spec_sign_plan(r.paths[path], r.nodes).0);
    }
}

/// Law: the round submits a transaction only for a spending path each of
/// whose keys is held by some signing node.
pub proof fn lemma_submits_only_fully_signed_paths(r: RoundView, s: RoundStateView, e: RoundEventView)
    requires
        round_state_wf(r, s),
        r.nodes.len() <= usize::MAX,
    ensures
        ({
            let (s2, a) = spec_step(r, s, e);
            a is FinalizeAndSubmit ==> (s2 matches RoundStateView::Submitting { path } && forall|j: int|
                #![trigger r.paths[path][j]]
                0 <= j < r.paths[path].len() ==> exists|i: int|
                    0 <= i < r.nodes.len() && (#[trigger] r.nodes[i]).pub_key == r.paths[path][j])
        }),
{
    let (s2, a) = spec_step(r, s, e);
    if let RoundStateView::Submitting { path } = s2 {
        lemma_plan_signers(r.paths[path], r.nodes);
        assert forall|j: int| #![trigger r.paths[path][j]] 0 <= j < r.paths[path].len() implies exists|i: int|
            0 <= i < r.nodes.len() && (#[trigger] r.nodes[i]).pub_key == r.paths[path][j] by {
            let key = r.paths[path][j];
            lemma_matching_nodes_hold_key(r.nodes, key);
            let n = spec_matching_nodes(r.nodes, key)[0];
            assert(r.nodes[n as int].pub_key == key);
        }
    }
}

/// Progress measure of a state: paths left, then phase, then signers left.
pub open spec fn round_rank(r: RoundView, s: RoundStateView) -> (int, int, int) {
    match s {
        RoundStateView::Generating { path } => (r.paths.len() - path, 2, 0),
        RoundStateView::Signing { path, signers, next, .. } => (r.paths.len() - path, 1, signers.len() - next),
        RoundStateView::Submitting { path } => (r.paths.len() - path, 0, 0),
        RoundStateView::Finished => (0, 0, 0),
    }
}

pub open spec fn rank_less(a: (int, int, int), b: (int, int, int)) -> bool {
    a.0 < b.0 || (a.0 == b.0 && (a.1 < b.1 || (a.1 == b.1 && a.2 < b.2)))
}

/// Law: every step either ends the round or strictly lowers its progress
/// measure, whose first part never goes below one, so a round ends after
/// finitely many actions, whatever the outside work reports.
pub proof fn lemma_round_progresses(r: RoundView, s: RoundStateView, e: RoundEventView)
    requires
        round_state_wf(r, s),
    ensures
        ({
            let s2 = spec_step(r, s, e).0;
            s2 is Finished || (rank_less(round_rank(r, s2), round_rank(r, s)) && round_rank(r, s2).0 >= 1)
        }),
{
}

// ---------------------------------------------------------------------------
// Peg payouts
// ---------------------------------------------------------------------------

/// The chain a peg payout is sent on: requests of object type "0" (peg-in)
/// are paid on the side chain ("maranode"), all others on Bitcoin.
pub fn peg_node_type(object_type: &String) -> (res: String)
    ensures
        res@ == (if object_type@ == "0"@ {
            "maranode"@
        } else {
            "bitcoin"@
        }),
{
    let peg_in = String::from_str("0");
    if *object_type == peg_in {
        String::from_str("maranode")
    } else {
        String::from_str("bitcoin")
    }
}

/// The history type a settled peg payout is recorded under: 1 for object
/// type "1" (peg-out), 2 for all others.
pub fn peg_history_type(object_type: &String) -> (res: u32)
    ensures
        res == (if object_type@ == "1"@ {
            1u32
        } else {
            2u32
        }),
{
    let peg_out = String::from_str("1");
    if *object_type == peg_out {
        1
    } else {
        2
    }
}

} // verus!
