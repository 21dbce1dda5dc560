use std::collections::HashMap;
use std::collections::HashSet;

use vstd::prelude::*;

use crate::bytes::copy_bytes;
use crate::bytes::ByteMap;

verus! {

broadcast use vstd::std_specs::hash::group_hash_axioms;

/// Identifies one version of a substate: the transaction that wrote it and
/// the index of the output within that transaction.
#[derive(Clone, Copy, Debug, PartialEq, Eq)]
pub struct OutputId {
    pub transaction_hash: [u8; 32],
    pub output_index: u32,
}

impl View for OutputId {
    type V = OutputId;

    open spec fn view(&self) -> OutputId {
        *self
    }
}

/// A stored substate together with the id of the output that wrote it.
#[derive(Debug, PartialEq, Eq)]
pub struct Output {
    pub substate: Vec<u8>,
    pub output_id: OutputId,
}

/// The mathematical content of an `Output`.
pub struct OutputView {
    pub substate: Seq<u8>,
    pub output_id: OutputId,
}

impl View for Output {
    type V = OutputView;

    open spec fn view(&self) -> OutputView {
        OutputView { substate: self.substate@, output_id: self.output_id }
    }
}

impl Output {
    /// Copies an output.
    pub fn duplicate(&self) -> (r: Output)
        ensures
            r@ == self@,
    {
        Output { substate: copy_bytes(self.substate.as_slice()), output_id: self.output_id }
    }
}

/// The content of a substate store: substates and spaces, by address.
pub struct StoreView {
    pub substates: Map<Seq<u8>, OutputView>,
    pub spaces: Map<Seq<u8>, OutputId>,
}

/// A substate store held in memory.
pub struct InMemorySubstateStore {
    substates: ByteMap<Output>,
    spaces: ByteMap<OutputId>,
}

impl View for InMemorySubstateStore {
    type V = StoreView;

    closed spec fn view(&self) -> StoreView {
        StoreView { substates: self.substates@, spaces: self.spaces@ }
    }
}

impl InMemorySubstateStore {
    /// Creates an empty store.
    pub fn new() -> (r: Self)
        ensures
            r@.substates == Map::<Seq<u8>, OutputView>::empty(),
            r@.spaces == Map::<Seq<u8>, OutputId>::empty(),
    {
        InMemorySubstateStore { substates: ByteMap::new(), spaces: ByteMap::new() }
    }

    /// Reads the substate at an address.
    pub fn get_substate(&self, address: &[u8]) -> (r: Option<Output>)
        ensures
            match r {
                Some(o) => self@.substates.contains_key(address@) && o@ == self@.substates[address@],
                None => !self@.substates.contains_key(address@),
            },
    {
        match self.substates.get(address) {
            Some(o) => Some(o.duplicate()),
            None => None,
        }
    }

    /// Reads the space at an address, which must be present.
    pub fn get_space(&self, address: &[u8]) -> (r: OutputId)
        requires
            self@.spaces.contains_key(address@),
        ensures
            r == self@.spaces[address@],
    {
        match self.spaces.get(address) {
            Some(o) => *o,
            None => vstd::pervasive::unreached(),
        }
    }

    /// Writes a space.
    pub fn put_space(&mut self, address: &[u8], output_id: OutputId)
        ensures
            final(self)@.spaces == old(self)@.spaces.insert(address@, output_id),
            final(self)@.substates == old(self)@.substates,
    {
        self.spaces.insert(copy_bytes(address), output_id);
    }

    /// Writes a substate.
    pub fn put_substate(&mut self, address: &[u8], output: Output)
        ensures
            final(self)@.substates == old(self)@.substates.insert(address@, output@),
            final(self)@.spaces == old(self)@.spaces,
    {
        self.substates.insert(copy_bytes(address), output);
    }
}

/// The content of a staged node: its parent, whether it has children (and
/// so may not be written any more), and the writes staged in it.
pub struct NodeView {
    pub parent_id: u64,
    pub locked: bool,
    pub spaces: Map<Seq<u8>, OutputId>,
    pub outputs: Map<Seq<u8>, OutputView>,
}

/// Nodes form an acyclic graph towards the parent.
struct StagedExecutionStoreNode {
    parent_id: u64,
    locked: bool,
    spaces: ByteMap<OutputId>,
    outputs: ByteMap<Output>,
}

impl View for StagedExecutionStoreNode {
    type V = NodeView;

    closed spec fn view(&self) -> NodeView {
        NodeView {
            parent_id: self.parent_id,
            locked: self.locked,
            spaces: self.spaces@,
            outputs: self.outputs@,
        }
    }
}

impl StagedExecutionStoreNode {
    fn new(parent_id: u64) -> (r: Self)
        ensures
            r@ == (NodeView {
                parent_id,
                locked: false,
                spaces: Map::empty(),
                outputs: Map::empty(),
            }),
    {
        StagedExecutionStoreNode {
            parent_id,
            locked: false,
            spaces: ByteMap::new(),
            outputs: ByteMap::new(),
        }
    }
}

/// Every node id lies in `1..=cur_id` and every node's parent id is smaller
/// than its own id, so following parents always ends at the root `0`.
pub open spec fn acyclic(m: Map<u64, NodeView>, cur_id: u64) -> bool {
    forall|n: u64| #[trigger] m.contains_key(n) ==> 0 < n <= cur_id && m[n].parent_id < n
}

/// The parent of every node is the root or a node.
pub open spec fn closed(m: Map<u64, NodeView>) -> bool {
    forall|n: u64| #[trigger] m.contains_key(n) ==> m[n].parent_id == 0 || m.contains_key(m[n].parent_id)
}

/// `n` is a node whose chain of parents passes through `a` (strictly above `n`).
pub open spec fn is_descendant(m: Map<u64, NodeView>, n: u64, a: u64) -> bool
    decreases n,
{
    if m.contains_key(n) && m[n].parent_id < n {
        let p = m[n].parent_id;
        p == a || (p != 0 && is_descendant(m, p, a))
    } else {
        false
    }
}

/// The nodes of `m` that are not descendants of `a`.
pub open spec fn remove_descendants(m: Map<u64, NodeView>, a: u64) -> Map<u64, NodeView> {
    Map::new(|n: u64| m.contains_key(n) && !is_descendant(m, n, a), |n: u64| m[n])
}

/// `m` with the children of `a` made children of the root.
pub open spec fn reroot(m: Map<u64, NodeView>, a: u64) -> Map<u64, NodeView> {
    Map::new(
        |n: u64| m.contains_key(n),
        |n: u64|
            if m[n].parent_id == a {
                NodeView { parent_id: 0, ..m[n] }
            } else {
                m[n]
            },
    )
}

/// The nodes left after merging `a` into the root store, step by step: `a`
/// is removed, and then each of its ancestors together with all of that
/// ancestor's descendants; finally (when `a` is the node being merged) its
/// children become children of the root.
pub open spec fn merge_nodes(m: Map<u64, NodeView>, a: u64, remove_children: bool) -> Map<
    u64,
    NodeView,
>
    decreases a,
{
    if a == 0 {
        if remove_children {
            remove_descendants(m, 0)
        } else {
            m
        }
    } else if m.contains_key(a) && m[a].parent_id < a {
        let m1 = m.remove(a);
        let m2 = if remove_children {
            remove_descendants(m1, a)
        } else {
            m1
        };
        let m3 = merge_nodes(m2, m[a].parent_id, true);
        if remove_children {
            m3
        } else {
            reroot(m3, a)
        }
    } else {
        m
    }
}

/// The nodes after staging a new node `child` on `parent_id`: the parent
/// (unless it is the root store) is locked, and the child starts unlocked
/// and empty.
pub open spec fn staged_child(m: Map<u64, NodeView>, parent_id: u64, child: u64) -> Map<u64, NodeView> {
    (if parent_id == 0 {
        m
    } else {
        m.insert(parent_id, NodeView { locked: true, ..m[parent_id] })
    }).insert(
        child,
        NodeView { parent_id, locked: false, spaces: Map::empty(), outputs: Map::empty() },
    )
}

/// The nodes left after merging node `id`: exactly its descendants, with
/// its children now children of the root.
pub open spec fn merged_nodes(m: Map<u64, NodeView>, id: u64) -> Map<u64, NodeView> {
    reroot(Map::new(|n: u64| is_descendant(m, n, id), |n: u64| m[n]), id)
}

/// The chain of parents from `a` up to the root consists of nodes.
pub open spec fn chain_intact(m: Map<u64, NodeView>, a: u64) -> bool
    decreases a,
{
    a == 0 || (m.contains_key(a) && m[a].parent_id < a && chain_intact(m, m[a].parent_id))
}

/// The substates staged along the chain from the root down to `a`, nearer
/// nodes overriding farther ones.
pub open spec fn chain_outputs(m: Map<u64, NodeView>, a: u64) -> Map<Seq<u8>, OutputView>
    decreases a,
{
    if a != 0 && m.contains_key(a) && m[a].parent_id < a {
        chain_outputs(m, m[a].parent_id).union_prefer_right(m[a].outputs)
    } else {
        Map::empty()
    }
}

/// The spaces staged along the chain from the root down to `a`.
pub open spec fn chain_spaces(m: Map<u64, NodeView>, a: u64) -> Map<Seq<u8>, OutputId>
    decreases a,
{
    if a != 0 && m.contains_key(a) && m[a].parent_id < a {
        chain_spaces(m, m[a].parent_id).union_prefer_right(m[a].spaces)
    } else {
        Map::empty()
    }
}

/// What node `a` reads at an address: its own write, else its parent's
/// reading, and at the root the root store's content.
pub open spec fn resolve_substate(
    m: Map<u64, NodeView>,
    root: Map<Seq<u8>, OutputView>,
    a: u64,
    address: Seq<u8>,
) -> Option<OutputView>
    decreases a,
{
    if a == 0 {
        if root.contains_key(address) {
            Some(root[address])
        } else {
            None
        }
    } else if m.contains_key(a) && m[a].parent_id < a {
        if m[a].outputs.contains_key(address) {
            Some(m[a].outputs[address])
        } else {
            resolve_substate(m, root, m[a].parent_id, address)
        }
    } else {
        None
    }
}

/// What node `a` reads as the space at an address.
pub open spec fn resolve_space(
    m: Map<u64, NodeView>,
    root: Map<Seq<u8>, OutputId>,
    a: u64,
    address: Seq<u8>,
) -> Option<OutputId>
    decreases a,
{
    if a == 0 {
        if root.contains_key(address) {
            Some(root[address])
        } else {
            None
        }
    } else if m.contains_key(a) && m[a].parent_id < a {
        if m[a].spaces.contains_key(address) {
            Some(m[a].spaces[address])
        } else {
            resolve_space(m, root, m[a].parent_id, address)
        }
    } else {
        None
    }
}

/// The two maps hold the same nodes with ids up to `x`.
pub open spec fn agree_upto(m1: Map<u64, NodeView>, m2: Map<u64, NodeView>, x: u64) -> bool {
    forall|k: u64|
        k <= x ==> (#[trigger] m1.contains_key(k) == m2.contains_key(k) && (m1.contains_key(k)
            ==> m1[k] == m2[k]))
}

/// The chain functions at `a` only look at nodes with ids up to `a`.
pub proof fn lemma_agree_upto(m1: Map<u64, NodeView>, m2: Map<u64, NodeView>, a: u64, x: u64)
    requires
        agree_upto(m1, m2, x),
        a <= x,
    ensures
        chain_intact(m1, a) == chain_intact(m2, a),
        chain_outputs(m1, a) == chain_outputs(m2, a),
        chain_spaces(m1, a) == chain_spaces(m2, a),
        forall|b: u64| is_descendant(m1, a, b) == is_descendant(m2, a, b),
    decreases a,
{
    assert(m1.contains_key(a) == m2.contains_key(a));
    if a != 0 && m1.contains_key(a) && m1[a].parent_id < a {
        lemma_agree_upto(m1, m2, m1[a].parent_id, x);
    }
    assert forall|b: u64| is_descendant(m1, a, b) == is_descendant(m2, a, b) by {
        if m1.contains_key(a) && m1[a].parent_id < a {
            let p = m1[a].parent_id;
            assert(is_descendant(m1, p, b) == is_descendant(m2, p, b));
        }
    }
}

/// A descendant has a larger id than its ancestor.
pub proof fn lemma_descendant_larger(m: Map<u64, NodeView>, n: u64, a: u64)
    requires
        is_descendant(m, n, a),
    ensures
        n > a,
    decreases n,
{
    let p = m[n].parent_id;
    if p != a {
        lemma_descendant_larger(m, p, a);
    }
}

/// In a closed acyclic map every node hangs below the root.
pub proof fn lemma_closed_reaches_root(m: Map<u64, NodeView>, cur_id: u64, n: u64)
    requires
        acyclic(m, cur_id),
        closed(m),
        m.contains_key(n),
    ensures
        is_descendant(m, n, 0),
        chain_intact(m, n),
    decreases n,
{
    let p = m[n].parent_id;
    if p != 0 {
        lemma_closed_reaches_root(m, cur_id, p);
    } else {
        assert(chain_intact(m, p));
    }
}

/// The nodes of `m` not hanging below the root.
pub open spec fn detached(m: Map<u64, NodeView>) -> Map<u64, NodeView> {
    remove_descendants(m, 0)
}

proof fn lemma_step_descendant_reaches_root(m: Map<u64, NodeView>, a: u64, n: u64)
    requires
        m.contains_key(a),
        is_descendant(m, a, 0),
        is_descendant(m.remove(a), n, a),
    ensures
        is_descendant(m, n, 0),
    decreases n,
{
    let m1 = m.remove(a);
    let q = m1[n].parent_id;
    if q != a {
        lemma_step_descendant_reaches_root(m, a, q);
    }
}

proof fn lemma_step_keeps_root_reach(m: Map<u64, NodeView>, a: u64, n: u64)
    requires
        m.contains_key(a),
        ({
            let m2 = remove_descendants(m.remove(a), a);
            m2.contains_key(n)
        }),
    ensures
        is_descendant(remove_descendants(m.remove(a), a), n, 0) == is_descendant(m, n, 0),
    decreases n,
{
    let m1 = m.remove(a);
    let m2 = remove_descendants(m1, a);
    let q = m[n].parent_id;
    if q < n && q != 0 {
        if m2.contains_key(q) {
            lemma_step_keeps_root_reach(m, a, q);
        } else {
            if q == a {
                assert(is_descendant(m1, n, a));
            } else if m1.contains_key(q) && is_descendant(m1, q, a) {
                assert(is_descendant(m1, n, a));
            } else {
                assert(!m.contains_key(q));
            }
        }
    }
}

/// Merging the ancestors of a node (each with all its descendants) leaves
/// exactly the nodes that do not hang below the root.
pub proof fn lemma_merge_ancestors(m: Map<u64, NodeView>, cur_id: u64, a: u64)
    requires
        acyclic(m, cur_id),
        a == 0 || (m.contains_key(a) && is_descendant(m, a, 0)),
    ensures
        merge_nodes(m, a, true) == detached(m),
    decreases a,
{
    if a == 0 {
        assert(merge_nodes(m, a, true) =~= detached(m));
    } else {
        let m1 = m.remove(a);
        let m2 = remove_descendants(m1, a);
        let p = m[a].parent_id;
        assert(acyclic(m2, cur_id));
        if p != 0 {
            assert(is_descendant(m, p, 0));
            assert(!is_descendant(m1, p, a)) by {
                if is_descendant(m1, p, a) {
                    lemma_descendant_larger(m1, p, a);
                }
            }
            assert(m2.contains_key(p));
            lemma_step_keeps_root_reach(m, a, p);
        }
        lemma_merge_ancestors(m2, cur_id, p);
        assert forall|n: u64| #[trigger] detached(m2).contains_key(n) == detached(m).contains_key(
            n,
        ) by {
            if m2.contains_key(n) {
                lemma_step_keeps_root_reach(m, a, n);
            } else if m.contains_key(n) {
                if n != a {
                    lemma_step_descendant_reaches_root(m, a, n);
                }
            }
        }
        assert(detached(m2) =~= detached(m));
    }
}

proof fn lemma_root_reach_is_not_descendant(m: Map<u64, NodeView>, cur_id: u64, id: u64, n: u64)
    requires
        acyclic(m, cur_id),
        closed(m),
        m.contains_key(id),
        m.contains_key(n),
        n != id,
    ensures
        is_descendant(m.remove(id), n, 0) == !is_descendant(m, n, id),
    decreases n,
{
    let m1 = m.remove(id);
    let q = m[n].parent_id;
    assert(m1.contains_key(n) && m1[n] == m[n]);
    if q != 0 && q != id {
        lemma_root_reach_is_not_descendant(m, cur_id, id, q);
    } else if q == id {
        assert(!is_descendant(m1, q, 0));
    }
}

/// Merging a node step by step leaves exactly its descendants, with its
/// children made children of the root.
pub proof fn lemma_merge_nodes(m: Map<u64, NodeView>, cur_id: u64, id: u64)
    requires
        acyclic(m, cur_id),
        closed(m),
        m.contains_key(id),
    ensures
        merge_nodes(m, id, false) == merged_nodes(m, id),
{
    let m1 = m.remove(id);
    let p = m[id].parent_id;
    assert(acyclic(m1, cur_id));
    if p != 0 {
        lemma_closed_reaches_root(m, cur_id, p);
        assert(agree_upto(m, m1, p));
        lemma_agree_upto(m, m1, p, p);
    }
    lemma_merge_ancestors(m1, cur_id, p);
    let d = Map::new(|n: u64| is_descendant(m, n, id), |n: u64| m[n]);
    assert forall|n: u64| #[trigger] detached(m1).contains_key(n) == d.contains_key(n) by {
        if n == id {
            if is_descendant(m, n, id) {
                lemma_descendant_larger(m, n, id);
            }
        } else if m.contains_key(n) {
            lemma_root_reach_is_not_descendant(m, cur_id, id, n);
        }
    }
    assert(detached(m1) =~= d);
}

/// Merging keeps ids and keeps parents below their children.
pub proof fn lemma_merge_nodes_acyclic(m: Map<u64, NodeView>, cur_id: u64, a: u64, rc: bool)
    requires
        acyclic(m, cur_id),
    ensures
        acyclic(merge_nodes(m, a, rc), cur_id),
    decreases a,
{
    if a != 0 && m.contains_key(a) && m[a].parent_id < a {
        let m1 = m.remove(a);
        let m2 = if rc {
            remove_descendants(m1, a)
        } else {
            m1
        };
        assert(acyclic(m2, cur_id));
        lemma_merge_nodes_acyclic(m2, cur_id, m[a].parent_id, true);
    }
}

/// The root store after applying the chain of `a` shows what `a` read.
pub proof fn lemma_chain_resolves(
    m: Map<u64, NodeView>,
    root: Map<Seq<u8>, OutputView>,
    spaces: Map<Seq<u8>, OutputId>,
    a: u64,
    address: Seq<u8>,
)
    requires
        chain_intact(m, a),
    ensures
        resolve_substate(m, root, a, address) == (if root.union_prefer_right(
            chain_outputs(m, a),
        ).contains_key(address) {
            Some(root.union_prefer_right(chain_outputs(m, a))[address])
        } else {
            None
        }),
        resolve_space(m, spaces, a, address) == (if spaces.union_prefer_right(
            chain_spaces(m, a),
        ).contains_key(address) {
            Some(spaces.union_prefer_right(chain_spaces(m, a))[address])
        } else {
            None
        }),
    decreases a,
{
    if a != 0 {
        lemma_chain_resolves(m, root, spaces, m[a].parent_id, address);
    }
}

/// A write staged in node `id` (or in the root store when `id` is `0`) is
/// what node `id` then reads at that address, and other addresses read as
/// before.
pub proof fn lemma_read_your_write(
    m: Map<u64, NodeView>,
    root: Map<Seq<u8>, OutputView>,
    id: u64,
    address: Seq<u8>,
    v: OutputView,
    other: Seq<u8>,
)
    requires
        id == 0 || (m.contains_key(id) && m[id].parent_id < id),
    ensures
        id == 0 ==> resolve_substate(m, root.insert(address, v), id, address) == Some(v),
        id == 0 && other != address ==> resolve_substate(m, root.insert(address, v), id, other)
            == resolve_substate(m, root, id, other),
        id != 0 ==> resolve_substate(
            m.insert(id, NodeView { outputs: m[id].outputs.insert(address, v), ..m[id] }),
            root,
            id,
            address,
        ) == Some(v),
        id != 0 && other != address ==> resolve_substate(
            m.insert(id, NodeView { outputs: m[id].outputs.insert(address, v), ..m[id] }),
            root,
            id,
            other,
        ) == resolve_substate(m, root, id, other),
{
    if id != 0 {
        let m2 = m.insert(id, NodeView { outputs: m[id].outputs.insert(address, v), ..m[id] });
        assert(agree_upto(m, m2, (m[id].parent_id) as u64)) by {
            assert forall|k: u64| k <= m[id].parent_id implies (#[trigger] m.contains_key(k)
                == m2.contains_key(k) && (m.contains_key(k) ==> m[k] == m2[k])) by {
                assert(k != id);
            }
        }
        lemma_resolve_agree(m, m2, root, m[id].parent_id, other, m[id].parent_id);
    }
}

/// Reading at node `a` only looks at nodes with ids up to `a`.
pub proof fn lemma_resolve_agree(
    m1: Map<u64, NodeView>,
    m2: Map<u64, NodeView>,
    root: Map<Seq<u8>, OutputView>,
    a: u64,
    address: Seq<u8>,
    x: u64,
)
    requires
        agree_upto(m1, m2, x),
        a <= x,
    ensures
        resolve_substate(m1, root, a, address) == resolve_substate(m2, root, a, address),
    decreases a,
{
    assert(m1.contains_key(a) == m2.contains_key(a));
    if a != 0 && m1.contains_key(a) && m1[a].parent_id < a {
        lemma_resolve_agree(m1, m2, root, m1[a].parent_id, address, x);
    }
}

/// A write staged in node `id` is not seen from any node other than `id`
/// and its descendants.
pub proof fn lemma_write_isolated(
    m: Map<u64, NodeView>,
    root: Map<Seq<u8>, OutputView>,
    id: u64,
    address: Seq<u8>,
    v: OutputView,
    b: u64,
    other: Seq<u8>,
)
    requires
        m.contains_key(id),
        b != id,
        !is_descendant(m, b, id),
    ensures
        resolve_substate(
            m.insert(id, NodeView { outputs: m[id].outputs.insert(address, v), ..m[id] }),
            root,
            b,
            other,
        ) == resolve_substate(m, root, b, other),
    decreases b,
{
    let m2 = m.insert(id, NodeView { outputs: m[id].outputs.insert(address, v), ..m[id] });
    if b != 0 && m.contains_key(b) && m[b].parent_id < b {
        let p = m[b].parent_id;
        assert(m2[b] == m[b]);
        if !m[b].outputs.contains_key(other) {
            assert(p != id);
            assert(!is_descendant(m, p, id));
            lemma_write_isolated(m, root, id, address, v, p, other);
        }
    }
}

/// A freshly staged child node reads exactly what its parent reads.
pub proof fn lemma_new_child_reads_parent(
    m: Map<u64, NodeView>,
    root: Map<Seq<u8>, OutputView>,
    cur_id: u64,
    parent_id: u64,
    address: Seq<u8>,
)
    requires
        acyclic(m, cur_id),
        cur_id < u64::MAX,
        parent_id == 0 || m.contains_key(parent_id),
    ensures
        ({
            let locked = if parent_id == 0 {
                m
            } else {
                m.insert(parent_id, NodeView { locked: true, ..m[parent_id] })
            };
            let child = (cur_id + 1) as u64;
            let m2 = locked.insert(
                child,
                NodeView { parent_id, locked: false, spaces: Map::empty(), outputs: Map::empty() },
            );
            resolve_substate(m2, root, child, address) == resolve_substate(
                m,
                root,
                parent_id,
                address,
            )
        }),
{
    let locked = if parent_id == 0 {
        m
    } else {
        m.insert(parent_id, NodeView { locked: true, ..m[parent_id] })
    };
    let child = (cur_id + 1) as u64;
    let m2 = locked.insert(
        child,
        NodeView { parent_id, locked: false, spaces: Map::empty(), outputs: Map::empty() },
    );
    assert(parent_id <= cur_id);
    lemma_resolve_agree_locked(m, m2, root, parent_id, address, cur_id);
}

/// Locking a node does not change what any node reads.
proof fn lemma_resolve_agree_locked(
    m1: Map<u64, NodeView>,
    m2: Map<u64, NodeView>,
    root: Map<Seq<u8>, OutputView>,
    a: u64,
    address: Seq<u8>,
    x: u64,
)
    requires
        forall|k: u64|
            k <= x ==> (#[trigger] m1.contains_key(k) == m2.contains_key(k) && (m1.contains_key(k)
                ==> m1[k].parent_id == m2[k].parent_id && m1[k].outputs == m2[k].outputs)),
        a <= x,
    ensures
        resolve_substate(m1, root, a, address) == resolve_substate(m2, root, a, address),
    decreases a,
{
    assert(m1.contains_key(a) == m2.contains_key(a));
    if a != 0 && m1.contains_key(a) && m1[a].parent_id < a {
        lemma_resolve_agree_locked(m1, m2, root, m1[a].parent_id, address, x);
    }
}

/// Structure which manages the acyclic graph of staged stores on top of a
/// root store.
pub struct StagedExecutionStores {
    parent: InMemorySubstateStore,
    nodes: HashMap<u64, StagedExecutionStoreNode>,
    cur_id: u64,
}

impl StagedExecutionStores {
    /// The staged nodes by id.
    pub closed spec fn nodes_view(&self) -> Map<u64, NodeView> {
        self.nodes@.map_values(|n: StagedExecutionStoreNode| n@)
    }

    /// The root store's content.
    pub closed spec fn parent_view(&self) -> StoreView {
        self.parent@
    }

    /// The last id handed out.
    pub closed spec fn cur_id(&self) -> u64 {
        self.cur_id
    }

    /// The node graph is acyclic and closed.
    pub open spec fn wf(&self) -> bool {
        acyclic(self.nodes_view(), self.cur_id()) && closed(self.nodes_view())
    }

    /// Stages stores on top of `parent`.
    pub fn new(parent: InMemorySubstateStore) -> (r: Self)
        ensures
            r.wf(),
            r.nodes_view() == Map::<u64, NodeView>::empty(),
            r.cur_id() == 0,
            r.parent_view() == parent@,
    {
        let r = StagedExecutionStores { parent, nodes: HashMap::new(), cur_id: 0 };
        assert(r.nodes_view() =~= Map::<u64, NodeView>::empty());
        r
    }

    /// The root store.
    pub fn parent_store(&self) -> (r: &InMemorySubstateStore)
        ensures
            r@ == self.parent_view(),
    {
        &self.parent
    }

    /// Gives back the root store.
    pub fn into_parent(self) -> (r: InMemorySubstateStore)
        ensures
            r@ == self.parent_view(),
    {
        self.parent
    }

    /// The number of staged nodes.
    pub fn node_count(&self) -> (r: usize)
        ensures
            r == self.nodes_view().len(),
    {
        assert(self.nodes_view().dom() =~= self.nodes@.dom());
        self.nodes.len()
    }

    /// The parent of a staged node, if the node exists.
    pub fn node_parent(&self, id: u64) -> (r: Option<u64>)
        ensures
            match r {
                Some(p) => self.nodes_view().contains_key(id) && p == self.nodes_view()[id].parent_id,
                None => !self.nodes_view().contains_key(id),
            },
    {
        match self.nodes.get(&id) {
            Some(node) => Some(node.parent_id),
            None => None,
        }
    }

    /// Whether a staged node exists and has children staged on it.
    pub fn node_locked(&self, id: u64) -> (r: Option<bool>)
        ensures
            match r {
                Some(l) => self.nodes_view().contains_key(id) && l == self.nodes_view()[id].locked,
                None => !self.nodes_view().contains_key(id),
            },
    {
        match self.nodes.get(&id) {
            Some(node) => Some(node.locked),
            None => None,
        }
    }

    /// Stages a new node on top of `parent_id` (`0` for the root store) and
    /// returns its id; the parent node becomes locked.
    pub fn new_child_node(&mut self, parent_id: u64) -> (r: u64)
        requires
            old(self).wf(),
            parent_id == 0 || old(self).nodes_view().contains_key(parent_id),
            old(self).cur_id() < u64::MAX,
        ensures
            final(self).wf(),
            r == old(self).cur_id() + 1,
            final(self).cur_id() == r,
            final(self).parent_view() == old(self).parent_view(),
            final(self).nodes_view() == staged_child(old(self).nodes_view(), parent_id, r),
    {
        let ghost old_view = self.nodes_view();
        if parent_id != 0 {
            match self.nodes.remove(&parent_id) {
                Some(mut parent) => {
                    parent.locked = true;
                    self.nodes.insert(parent_id, parent);
                },
                None => {
                    assert(false);
                },
            }
        }
        self.cur_id = self.cur_id + 1;
        self.nodes.insert(self.cur_id, StagedExecutionStoreNode::new(parent_id));
        proof {
            let target = (if parent_id == 0 {
                old_view
            } else {
                old_view.insert(parent_id, NodeView { locked: true, ..old_view[parent_id] })
            }).insert(
                self.cur_id,
                NodeView { parent_id, locked: false, spaces: Map::empty(), outputs: Map::empty() },
            );
            assert(self.nodes_view() =~= target);
        }
        self.cur_id
    }

    /// Opens node `id` (`0` for the root store) for reading and writing; the
    /// node must exist and must not have children staged on it.
    pub fn get_output_store(self, id: u64) -> (r: ExecutionStore)
        requires
            self.wf(),
            id == 0 || (self.nodes_view().contains_key(id) && !self.nodes_view()[id].locked),
        ensures
            r.valid(),
            r.id() == id,
            r.stores_nodes() == self.nodes_view(),
            r.stores_parent() == self.parent_view(),
            r.stores_cur_id() == self.cur_id(),
    {
        ExecutionStore { stores: self, id }
    }

    /// Removes every node that descends from `id`.
    fn remove_children(&mut self, id: u64)
        requires
            acyclic(old(self).nodes_view(), old(self).cur_id()),
            id <= old(self).cur_id(),
        ensures
            final(self).nodes_view() == remove_descendants(old(self).nodes_view(), id),
            final(self).cur_id() == old(self).cur_id(),
            final(self).parent_view() == old(self).parent_view(),
    {
        let ghost m = self.nodes_view();
        let mut removed: HashSet<u64> = HashSet::new();
        let mut i: u64 = id;
        proof {
            assert forall|k: u64| k <= i && #[trigger] is_descendant(m, k, id) implies false by {
                lemma_descendant_larger(m, k, id);
            }
            assert(removed@ =~= Set::new(|j: u64| j <= i && is_descendant(m, j, id)));
        }
        while i < self.cur_id
            invariant
                id <= i <= self.cur_id,
                self.cur_id == old(self).cur_id,
                self.parent@ == old(self).parent@,
                m == old(self).nodes_view(),
                acyclic(m, self.cur_id),
                removed@ == Set::new(|j: u64| j <= i && is_descendant(m, j, id)),
                forall|k: u64|
                    #[trigger] self.nodes_view().contains_key(k) == (m.contains_key(k) && !(k <= i
                        && is_descendant(m, k, id))),
                forall|k: u64| #[trigger]
                    self.nodes_view().contains_key(k) ==> self.nodes_view()[k] == m[k],
            decreases self.cur_id - i,
        {
            i = i + 1;
            let is_child = match self.nodes.get(&i) {
                Some(node) => {
                    let p = node.parent_id;
                    assert(self.nodes_view().contains_key(i));
                    assert(self.nodes_view()[i] == node@);
                    assert(m.contains_key(i) && m[i].parent_id == p);
                    assert(p < i);
                    let r = p == id || (p != 0 && removed.contains(&p));
                    proof {
                        if p != 0 && p != id {
                            assert(removed@.contains(p) == (p <= i - 1 && is_descendant(m, p, id)));
                        }
                        assert(r == is_descendant(m, i, id));
                    }
                    r
                },
                None => {
                    assert(!self.nodes_view().contains_key(i));
                    assert(!m.contains_key(i));
                    assert(!is_descendant(m, i, id));
                    false
                },
            };
            let ghost before = self.nodes_view();
            if is_child {
                removed.insert(i);
                self.nodes.remove(&i);
                proof {
                    assert(self.nodes_view() =~= before.remove(i));
                }
            }
            proof {
                assert(removed@ =~= Set::new(|j: u64| j <= i && is_descendant(m, j, id)));
                assert forall|k: u64| #[trigger] self.nodes_view().contains_key(k) == (m.contains_key(k)
                    && !(k <= i && is_descendant(m, k, id))) by {
                    if k != i {
                        assert(before.contains_key(k) == self.nodes_view().contains_key(k));
                    }
                }
            }
        }
        proof {
            assert forall|k: u64| #[trigger] m.contains_key(k) && is_descendant(m, k, id) implies k
                <= i by {}
            assert(self.nodes_view() =~= remove_descendants(m, id));
        }
    }

    /// Makes the children of `id` children of the root.
    fn set_root_parent(&mut self, id: u64)
        requires
            acyclic(old(self).nodes_view(), old(self).cur_id()),
        ensures
            final(self).nodes_view() == reroot(old(self).nodes_view(), id),
            final(self).cur_id() == old(self).cur_id(),
            final(self).parent_view() == old(self).parent_view(),
    {
        let ghost m = self.nodes_view();
        let mut i: u64 = 0;
        while i < self.cur_id
            invariant
                i <= self.cur_id,
                self.cur_id == old(self).cur_id,
                self.parent@ == old(self).parent@,
                m == old(self).nodes_view(),
                acyclic(m, self.cur_id),
                forall|k: u64| #[trigger]
                    self.nodes_view().contains_key(k) == m.contains_key(k),
                forall|k: u64|
                    #[trigger] self.nodes_view().contains_key(k) ==> self.nodes_view()[k] == (if k
                        <= i {
                        reroot(m, id)[k]
                    } else {
                        m[k]
                    }),
            decreases self.cur_id - i,
        {
            i = i + 1;
            let ghost before = self.nodes_view();
            match self.nodes.remove(&i) {
                Some(mut node) => {
                    assert(before.contains_key(i) && before[i] == node@);
                    if node.parent_id == id {
                        node.parent_id = 0;
                    }
                    self.nodes.insert(i, node);
                    assert(self.nodes_view() =~= before.insert(i, reroot(m, id)[i]));
                },
                None => {
                    assert(self.nodes_view() =~= before);
                },
            }
        }
        proof {
            assert(self.nodes_view() =~= reroot(m, id));
        }
    }

    /// Applies the writes staged in node `id`, and in all of its ancestors,
    /// to the root store. Afterwards only the descendants of `id` remain,
    /// its children now staged directly on the root store.
    pub fn merge_to_parent(&mut self, id: u64)
        requires
            old(self).wf(),
            id == 0 || old(self).nodes_view().contains_key(id),
        ensures
            final(self).wf(),
            final(self).cur_id() == old(self).cur_id(),
            id == 0 ==> final(self).nodes_view() == old(self).nodes_view() && final(self).parent_view() == old(self).parent_view(),
            id != 0 ==> final(self).nodes_view() == merged_nodes(old(self).nodes_view(), id),
            final(self).parent_view().substates == old(self).parent_view().substates.union_prefer_right(
                chain_outputs(old(self).nodes_view(), id),
            ),
            final(self).parent_view().spaces == old(self).parent_view().spaces.union_prefer_right(
                chain_spaces(old(self).nodes_view(), id),
            ),
            forall|address: Seq<u8>|
                resolve_substate(
                    old(self).nodes_view(),
                    old(self).parent_view().substates,
                    id,
                    address,
                ) == resolve_substate(
                    final(self).nodes_view(),
                    final(self).parent_view().substates,
                    0,
                    address,
                ),
            forall|address: Seq<u8>|
                resolve_space(old(self).nodes_view(), old(self).parent_view().spaces, id, address)
                    == resolve_space(
                    final(self).nodes_view(),
                    final(self).parent_view().spaces,
                    0,
                    address,
                ),
    {
        let ghost m = self.nodes_view();
        proof {
            if id != 0 {
                lemma_closed_reaches_root(m, self.cur_id, id);
            }
        }
        self.merge_to_parent_recurse(id, false);
        proof {
            if id == 0 {
                assert(self.parent@.substates =~= old(self).parent@.substates);
                assert(self.parent@.spaces =~= old(self).parent@.spaces);
            } else {
                lemma_merge_nodes(m, self.cur_id, id);
                let r = self.nodes_view();
                assert forall|n: u64| #[trigger] r.contains_key(n) implies r[n].parent_id == 0
                    || r.contains_key(r[n].parent_id) by {
                    if m[n].parent_id != id {
                        assert(is_descendant(m, n, id));
                        assert(is_descendant(m, m[n].parent_id, id));
                    }
                }
            }
            assert forall|address: Seq<u8>|
                resolve_substate(m, old(self).parent@.substates, id, address) == resolve_substate(
                    self.nodes_view(),
                    self.parent@.substates,
                    0,
                    address,
                ) by {
                lemma_chain_resolves(
                    m,
                    old(self).parent@.substates,
                    old(self).parent@.spaces,
                    id,
                    address,
                );
            }
            assert forall|address: Seq<u8>|
                resolve_space(m, old(self).parent@.spaces, id, address) == resolve_space(
                    self.nodes_view(),
                    self.parent@.spaces,
                    0,
                    address,
                ) by {
                lemma_chain_resolves(
                    m,
                    old(self).parent@.substates,
                    old(self).parent@.spaces,
                    id,
                    address,
                );
            }
        }
    }

    fn merge_to_parent_recurse(&mut self, id: u64, remove_children: bool)
        requires
            acyclic(old(self).nodes_view(), old(self).cur_id()),
            chain_intact(old(self).nodes_view(), id),
        ensures
            final(self).nodes_view() == merge_nodes(old(self).nodes_view(), id, remove_children),
            final(self).cur_id() == old(self).cur_id(),
            final(self).parent_view().substates == old(self).parent_view().substates.union_prefer_right(
                chain_outputs(old(self).nodes_view(), id),
            ),
            final(self).parent_view().spaces == old(self).parent_view().spaces.union_prefer_right(
                chain_spaces(old(self).nodes_view(), id),
            ),
        decreases id,
    {
        let ghost m = self.nodes_view();
        if id == 0 {
            if remove_children {
                self.remove_children(0);
            }
            proof {
                assert(self.parent@.substates =~= old(self).parent@.substates.union_prefer_right(
                    chain_outputs(m, id),
                ));
                assert(self.parent@.spaces =~= old(self).parent@.spaces.union_prefer_right(
                    chain_spaces(m, id),
                ));
            }
            return ;
        }
        let mut node = match self.nodes.remove(&id) {
            Some(node) => node,
            None => vstd::pervasive::unreached(),
        };
        let ghost m1 = m.remove(id);
        proof {
            assert(self.nodes_view() =~= m1);
            assert(node@ == m[id]);
        }
        if remove_children {
            self.remove_children(id);
        }
        let ghost m2 = self.nodes_view();
        let ghost p = node.parent_id;
        proof {
            assert(agree_upto(m, m2, p)) by {
                assert forall|k: u64| k <= p implies (#[trigger] m.contains_key(k)
                    == m2.contains_key(k) && (m.contains_key(k) ==> m[k] == m2[k])) by {
                    if remove_children && m1.contains_key(k) && is_descendant(m1, k, id) {
                        lemma_descendant_larger(m1, k, id);
                    }
                }
            }
            lemma_agree_upto(m, m2, p, p);
        }
        self.merge_to_parent_recurse(node.parent_id, true);
        let ghost before_apply = self.parent@;
        let ghost node_spaces = node.spaces@;
        let ghost node_outputs = node.outputs@;
        let ghost nodes_after = self.nodes@;
        proof {
            assert(node_spaces == m[id].spaces && node_outputs == m[id].outputs);
            assert(self.parent@.spaces.union_prefer_right(node.spaces@) == before_apply.spaces.union_prefer_right(node_spaces));
        }
        while node.spaces.len() > 0
            invariant
                before_apply.spaces.union_prefer_right(node_spaces)
                    == self.parent@.spaces.union_prefer_right(node.spaces@),
                self.parent@.substates == before_apply.substates,
                node.outputs@ == node_outputs,
                self.nodes@ == nodes_after,
                self.cur_id == old(self).cur_id,
            decreases node.spaces.size(),
        {
            match node.spaces.pop() {
                Some(entry) => {
                    let ghost before = self.parent@.spaces;
                    let ghost rest = node.spaces@;
                    self.parent.put_space(entry.0.as_slice(), entry.1);
                    proof {
                        assert(before.union_prefer_right(rest.insert(entry.0@, entry.1@))
                            =~= before.insert(entry.0@, entry.1@).union_prefer_right(rest));
                    }
                },
                None => vstd::pervasive::unreached(),
            }
        }
        proof {
            assert(self.parent@.spaces.union_prefer_right(node.spaces@) =~= self.parent@.spaces);
            assert(self.parent@.substates.union_prefer_right(node.outputs@) == before_apply.substates.union_prefer_right(node_outputs));
        }
        while node.outputs.len() > 0
            invariant
                before_apply.substates.union_prefer_right(node_outputs)
                    == self.parent@.substates.union_prefer_right(node.outputs@),
                self.parent@.spaces == before_apply.spaces.union_prefer_right(node_spaces),
                self.nodes@ == nodes_after,
                self.cur_id == old(self).cur_id,
            decreases node.outputs.size(),
        {
            match node.outputs.pop() {
                Some(entry) => {
                    let ghost before = self.parent@.substates;
                    let ghost rest = node.outputs@;
                    self.parent.put_substate(entry.0.as_slice(), entry.1);
                    proof {
                        assert(before.union_prefer_right(rest.insert(entry.0@, entry.1@))
                            =~= before.insert(entry.0@, entry.1@).union_prefer_right(rest));
                    }
                },
                None => vstd::pervasive::unreached(),
            }
        }
        proof {
            assert(self.parent@.substates.union_prefer_right(node.outputs@) =~= self.parent@.substates);
        }
        proof {
            lemma_merge_nodes_acyclic(m2, self.cur_id, p, true);
        }
        if !remove_children {
            self.set_root_parent(id);
        }
        proof {
            assert(self.parent@.substates =~= old(self).parent@.substates.union_prefer_right(
                chain_outputs(m, id),
            ));
            assert(self.parent@.spaces =~= old(self).parent@.spaces.union_prefer_right(
                chain_spaces(m, id),
            ));
        }
    }
}

/// A store that reads through node `id` of the staged stores and writes
/// into it (or into the root store when `id` is `0`).
pub struct ExecutionStore {
    stores: StagedExecutionStores,
    id: u64,
}

impl ExecutionStore {
    /// The node this store reads and writes.
    pub closed spec fn id(&self) -> u64 {
        self.id
    }

    /// The staged nodes.
    pub closed spec fn stores_nodes(&self) -> Map<u64, NodeView> {
        self.stores.nodes_view()
    }

    /// The root store's content.
    pub closed spec fn stores_parent(&self) -> StoreView {
        self.stores.parent_view()
    }

    /// The last id handed out.
    pub closed spec fn stores_cur_id(&self) -> u64 {
        self.stores.cur_id()
    }

    /// The node graph is well formed and the node exists.
    pub open spec fn valid(&self) -> bool {
        &&& acyclic(self.stores_nodes(), self.stores_cur_id())
        &&& closed(self.stores_nodes())
        &&& (self.id() == 0 || self.stores_nodes().contains_key(self.id()))
    }

    /// Gives back the staged stores.
    pub fn into_stores(self) -> (r: StagedExecutionStores)
        ensures
            r.nodes_view() == self.stores_nodes(),
            r.parent_view() == self.stores_parent(),
            r.cur_id() == self.stores_cur_id(),
    {
        self.stores
    }

    fn get_substate_recurse(&self, address: &[u8], id: u64) -> (r: Option<Output>)
        requires
            self.valid(),
            chain_intact(self.stores_nodes(), id),
        ensures
            match r {
                Some(o) => resolve_substate(
                    self.stores_nodes(),
                    self.stores_parent().substates,
                    id,
                    address@,
                ) == Some(o@),
                None => resolve_substate(
                    self.stores_nodes(),
                    self.stores_parent().substates,
                    id,
                    address@,
                ) is None,
            },
        decreases id,
    {
        if id == 0 {
            return self.stores.parent.get_substate(address);
        }
        let node = match self.stores.nodes.get(&id) {
            Some(node) => node,
            None => vstd::pervasive::unreached(),
        };
        assert(node@ == self.stores_nodes()[id]);
        if let Some(output) = node.outputs.get(address) {
            return Some(output.duplicate());
        }
        self.get_substate_recurse(address, node.parent_id)
    }

    fn get_space_recurse(&self, address: &[u8], id: u64) -> (r: OutputId)
        requires
            self.valid(),
            chain_intact(self.stores_nodes(), id),
            resolve_space(self.stores_nodes(), self.stores_parent().spaces, id, address@) is Some,
        ensures
            resolve_space(self.stores_nodes(), self.stores_parent().spaces, id, address@) == Some(
                r,
            ),
        decreases id,
    {
        if id == 0 {
            return self.stores.parent.get_space(address);
        }
        let node = match self.stores.nodes.get(&id) {
            Some(node) => node,
            None => vstd::pervasive::unreached(),
        };
        assert(node@ == self.stores_nodes()[id]);
        if let Some(output_id) = node.spaces.get(address) {
            return *output_id;
        }
        self.get_space_recurse(address, node.parent_id)
    }

    /// Reads a substate as seen from this store's node.
    pub fn get_substate(&self, address: &[u8]) -> (r: Option<Output>)
        requires
            self.valid(),
        ensures
            match r {
                Some(o) => resolve_substate(
                    self.stores_nodes(),
                    self.stores_parent().substates,
                    self.id(),
                    address@,
                ) == Some(o@),
                None => resolve_substate(
                    self.stores_nodes(),
                    self.stores_parent().substates,
                    self.id(),
                    address@,
                ) is None,
            },
    {
        proof {
            if self.id != 0 {
                lemma_closed_reaches_root(self.stores_nodes(), self.stores_cur_id(), self.id);
            }
        }
        self.get_substate_recurse(address, self.id)
    }

    /// Reads a space as seen from this store's node; some node on the way to
    /// the root, or the root store, must hold it.
    pub fn get_space(&self, address: &[u8]) -> (r: OutputId)
        requires
            self.valid(),
            resolve_space(self.stores_nodes(), self.stores_parent().spaces, self.id(), address@) is Some,
        ensures
            resolve_space(self.stores_nodes(), self.stores_parent().spaces, self.id(), address@)
                == Some(r),
    {
        proof {
            if self.id != 0 {
                lemma_closed_reaches_root(self.stores_nodes(), self.stores_cur_id(), self.id);
            }
        }
        self.get_space_recurse(address, self.id)
    }

    /// Writes a space into this store's node.
    pub fn put_space(&mut self, address: &[u8], output_id: OutputId)
        requires
            old(self).valid(),
        ensures
            final(self).valid(),
            final(self).id() == old(self).id(),
            final(self).stores_cur_id() == old(self).stores_cur_id(),
            old(self).id() == 0 ==> final(self).stores_nodes() == old(self).stores_nodes()
                && final(self).stores_parent().spaces == old(self).stores_parent().spaces.insert(
                address@,
                output_id,
            ) && final(self).stores_parent().substates == old(self).stores_parent().substates,
            old(self).id() != 0 ==> final(self).stores_parent() == old(self).stores_parent()
                && final(self).stores_nodes() == old(self).stores_nodes().insert(
                old(self).id(),
                NodeView {
                    spaces: old(self).stores_nodes()[old(self).id()].spaces.insert(
                        address@,
                        output_id,
                    ),
                    ..old(self).stores_nodes()[old(self).id()]
                },
            ),
    {
        if self.id == 0 {
            self.stores.parent.put_space(address, output_id);
        } else {
            let ghost m = self.stores.nodes_view();
            let mut node = match self.stores.nodes.remove(&self.id) {
                Some(node) => node,
                None => vstd::pervasive::unreached(),
            };
            node.spaces.insert(copy_bytes(address), output_id);
            self.stores.nodes.insert(self.id, node);
            proof {
                assert(self.stores.nodes_view() =~= m.insert(
                    self.id,
                    NodeView { spaces: m[self.id].spaces.insert(address@, output_id), ..m[self.id] },
                ));
            }
        }
    }

    /// Writes a substate into this store's node.
    pub fn put_substate(&mut self, address: &[u8], output: Output)
        requires
            old(self).valid(),
        ensures
            final(self).valid(),
            final(self).id() == old(self).id(),
            final(self).stores_cur_id() == old(self).stores_cur_id(),
            old(self).id() == 0 ==> final(self).stores_nodes() == old(self).stores_nodes()
                && final(self).stores_parent().substates == old(self).stores_parent().substates.insert(address@, output@) && final(self).stores_parent().spaces == old(self).stores_parent().spaces,
            old(self).id() != 0 ==> final(self).stores_parent() == old(self).stores_parent()
                && final(self).stores_nodes() == old(self).stores_nodes().insert(
                old(self).id(),
                NodeView {
                    outputs: old(self).stores_nodes()[old(self).id()].outputs.insert(
                        address@,
                        output@,
                    ),
                    ..old(self).stores_nodes()[old(self).id()]
                },
            ),
    {
        if self.id == 0 {
            self.stores.parent.put_substate(address, output);
        } else {
            let ghost m = self.stores.nodes_view();
            let ghost ov = output@;
            let mut node = match self.stores.nodes.remove(&self.id) {
                Some(node) => node,
                None => vstd::pervasive::unreached(),
            };
            node.outputs.insert(copy_bytes(address), output);
            self.stores.nodes.insert(self.id, node);
            proof {
                assert(self.stores.nodes_view() =~= m.insert(
                    self.id,
                    NodeView { outputs: m[self.id].outputs.insert(address@, ov), ..m[self.id] },
                ));
            }
        }
    }
}

/// Staging a child on a node locks the node for good: staging further
/// children keeps every existing lock, and merging keeps the lock of every
/// node that remains. So once a node has had a child staged on it, no
/// output store can be taken for it again.
pub proof fn lemma_locked_stays_locked(m: Map<u64, NodeView>, parent_id: u64, child: u64, id: u64, n: u64)
    ensures
        parent_id != 0 && parent_id != child ==> staged_child(m, parent_id, child)[parent_id].locked,
        m.contains_key(n) && m[n].locked && n != child ==> staged_child(m, parent_id, child).contains_key(n)
            && staged_child(m, parent_id, child)[n].locked,
        merged_nodes(m, id).contains_key(n) ==> m.contains_key(n) && merged_nodes(m, id)[n].locked
            == m[n].locked,
{
    if merged_nodes(m, id).contains_key(n) {
        assert(is_descendant(m, n, id));
    }
}

} // verus!
