//! The node registry: what storage nodes advertise, keyed by their own id.
//! Nothing in the store depends on it.
use crate::types::{NodeInfo, NodeInfoView, StoreError};
use vstd::prelude::*;

verus! {

/// Registered nodes, at most one per id, in order of first registration.
pub struct NodeRegistry {
    nodes: Vec<NodeInfo>,
}

/// The views of a list of nodes.
pub open spec fn nodes_view(v: Seq<NodeInfo>) -> Seq<NodeInfoView> {
    v.map_values(|n: NodeInfo| n@)
}

pub open spec fn has_node(s: Seq<NodeInfoView>, id: Seq<char>) -> bool {
    exists|i: int| 0 <= i < s.len() && s[i].id == id
}

/// Position of the node with this id.
pub open spec fn node_slot(s: Seq<NodeInfoView>, id: Seq<char>) -> int {
    choose|i: int| 0 <= i < s.len() && s[i].id == id
}

pub open spec fn distinct_ids(s: Seq<NodeInfoView>) -> bool {
    forall|i: int, j: int| 0 <= i < j < s.len() ==> (#[trigger] s[i]).id != (#[trigger] s[j]).id
}

/// A node record with `last_seen` set to `now`.
pub open spec fn seen_at(n: NodeInfoView, now: u64) -> NodeInfoView {
    NodeInfoView { last_seen: now, ..n }
}

/// The registry after a registration: the record, stamped with `now`,
/// replaces the one with the same id in full, or is appended.
pub open spec fn after_register(s: Seq<NodeInfoView>, info: NodeInfoView, now: u64) -> Seq<
    NodeInfoView,
> {
    if has_node(s, info.id) {
        s.update(node_slot(s, info.id), seen_at(info, now))
    } else {
        s.push(seen_at(info, now))
    }
}

/// What a heartbeat returns.
pub open spec fn heartbeat_result(s: Seq<NodeInfoView>, id: Seq<char>) -> Result<(), StoreError> {
    if has_node(s, id) {
        Ok(())
    } else {
        Err(StoreError::NotFound)
    }
}

/// The registry after a heartbeat: only the node's `last_seen` changes.
pub open spec fn after_heartbeat(s: Seq<NodeInfoView>, id: Seq<char>, now: u64) -> Seq<
    NodeInfoView,
> {
    if has_node(s, id) {
        s.update(node_slot(s, id), seen_at(s[node_slot(s, id)], now))
    } else {
        s
    }
}

impl View for NodeRegistry {
    type V = Seq<NodeInfoView>;

    closed spec fn view(&self) -> Seq<NodeInfoView> {
        nodes_view(self.nodes@)
    }
}

impl NodeRegistry {
    pub closed spec fn wf(&self) -> bool {
        distinct_ids(self@)
    }

    /// An empty registry.
    pub fn new() -> (r: NodeRegistry)
        ensures
            r.wf(),
            r@.len() == 0,
    {
        let r = NodeRegistry { nodes: Vec::new() };
        assert(r@ =~= Seq::empty());
        r
    }

    /// How many nodes are registered.
    pub fn len(&self) -> (r: usize)
        ensures
            r == self@.len(),
    {
        self.nodes.len()
    }

    fn find_node(&self, id: &String) -> (r: Option<usize>)
        requires
            self.wf(),
        ensures
            match r {
                Some(i) => has_node(self@, id@) && i as int == node_slot(self@, id@) && i
                    < self@.len(),
                None => !has_node(self@, id@),
            },
    {
        let mut i: usize = 0;
        while i < self.nodes.len()
            invariant
                self.wf(),
                i <= self@.len(),
                forall|k: int| 0 <= k < i ==> self@[k].id != id@,
            decreases self.nodes.len() - i,
        {
            if self.nodes[i].id == *id {
                assert(self@[i as int].id == id@);
                let ghost j = node_slot(self@, id@);
                assert(self@[j].id == id@);
                return Some(i);
            }
            assert(self@[i as int] == self.nodes@[i as int]@);
            i = i + 1;
        }
        None
    }
}

/// Records what a node advertises, stamped with `now` whatever `last_seen`
/// it brought; a record with the same id is replaced in full.
pub fn register_node(registry: &mut NodeRegistry, info: NodeInfo, now: u64) -> (r: Result<
    (),
    StoreError,
>)
    requires
        old(registry).wf(),
    ensures
        final(registry).wf(),
        r == Ok::<(), StoreError>(()),
        final(registry)@ == after_register(old(registry)@, info@, now),
{
    let ghost s0 = registry@;
    let mut node = info;
    node.last_seen = now;
    match registry.find_node(&node.id) {
        Some(i) => {
            registry.nodes.remove(i);
            registry.nodes.insert(i, node);
            proof {
                assert(registry@ =~= after_register(s0, info@, now));
                assert forall|a: int, b: int| 0 <= a < b < registry@.len() implies (
                #[trigger] registry@[a]).id != (#[trigger] registry@[b]).id by {
                    assert(s0[a].id != s0[b].id || a == i || b == i);
                    assert(s0[i as int].id == info@.id);
                }
            }
        },
        None => {
            registry.nodes.push(node);
            proof {
                assert(registry@ =~= after_register(s0, info@, now));
                assert forall|a: int, b: int| 0 <= a < b < registry@.len() implies (
                #[trigger] registry@[a]).id != (#[trigger] registry@[b]).id by {
                    if b == s0.len() {
                        assert(s0[a].id != info@.id);
                    } else {
                        assert(s0[a].id != s0[b].id);
                    }
                }
            }
        },
    }
    Ok(())
}

/// Refreshes a registered node's `last_seen`, or reports `NotFound`.
pub fn update_node_heartbeat(registry: &mut NodeRegistry, node_id: String, now: u64) -> (r:
    Result<(), StoreError>)
    requires
        old(registry).wf(),
    ensures
        final(registry).wf(),
        r == heartbeat_result(old(registry)@, node_id@),
        final(registry)@ == after_heartbeat(old(registry)@, node_id@, now),
{
    let ghost s0 = registry@;
    match registry.find_node(&node_id) {
        Some(i) => {
            let mut node = registry.nodes.remove(i);
            node.last_seen = now;
            registry.nodes.insert(i, node);
            proof {
                assert(registry@ =~= after_heartbeat(s0, node_id@, now));
                assert forall|a: int, b: int| 0 <= a < b < registry@.len() implies (
                #[trigger] registry@[a]).id != (#[trigger] registry@[b]).id by {
                    assert(s0[a].id != s0[b].id);
                }
            }
            Ok(())
        },
        None => Err(StoreError::NotFound),
    }
}

/// Every registered node.
pub fn list_nodes(registry: &NodeRegistry) -> (r: Vec<NodeInfo>)
    ensures
        nodes_view(r@) == registry@,
{
    let mut out: Vec<NodeInfo> = Vec::new();
    let mut i: usize = 0;
    while i < registry.nodes.len()
        invariant
            i <= registry@.len(),
            nodes_view(out@) == registry@.take(i as int),
        decreases registry.nodes.len() - i,
    {
        let ghost prev = out@;
        out.push(registry.nodes[i].copy());
        assert(registry@[i as int] == registry.nodes@[i as int]@);
        assert(registry@.take(i + 1) =~= registry@.take(i as int).push(registry@[i as int]));
        assert(nodes_view(out@) =~= nodes_view(prev).push(registry@[i as int]));
        assert(nodes_view(out@) =~= registry@.take(i + 1));
        i = i + 1;
    }
    assert(registry@.take(i as int) =~= registry@);
    out
}

} // verus!
