use vstd::prelude::*;

use crate::assoc::seq_has_key;
use crate::assoc::AssocMap;
use crate::bytes::ByteMap;
use crate::errors::DropFailure;
use crate::errors::RuntimeError;
use crate::model::AuthZone;
use crate::model::Bucket;
use crate::model::ComponentInfo;
use crate::model::ComponentState;
use crate::model::HeapKeyValueStore;
use crate::model::NonFungible;
use crate::model::Package;
use crate::model::Proof;
use crate::model::ResourceManager;
use crate::model::System;
use crate::model::Vault;
use crate::model::Worktop;
use crate::types::RENodeId;

verus! {

/// The non-fungible units of a resource, by the bytes of their ids.
pub type NonFungibleSet = ByteMap<NonFungible>;

/// A node owned on the heap.
pub enum RENode {
    Bucket(Bucket),
    Proof(Proof),
    Vault(Vault),
    KeyValueStore(HeapKeyValueStore),
    Component(ComponentInfo, ComponentState),
    Package(Package),
    Resource(ResourceManager),
    NonFungibles(NonFungibleSet),
    Worktop(Worktop),
    AuthZone(AuthZone),
    System(System),
}

impl RENode {
    /// The bucket of a bucket node.
    pub fn bucket(&self) -> (r: &Bucket)
        requires
            *self is Bucket,
        ensures
            *r == self->Bucket_0,
    {
        match self {
            RENode::Bucket(bucket) => bucket,
            _ => vstd::pervasive::unreached(),
        }
    }

    /// The resource manager of a resource node.
    pub fn resource_manager(&self) -> (r: &ResourceManager)
        requires
            *self is Resource,
        ensures
            *r == self->Resource_0,
    {
        match self {
            RENode::Resource(resource_manager) => resource_manager,
            _ => vstd::pervasive::unreached(),
        }
    }

    /// The resource manager of a resource node, for update.
    pub fn resource_manager_mut(&mut self) -> (r: &mut ResourceManager)
        requires
            *old(self) is Resource,
        ensures
            *r == old(self)->Resource_0,
            *final(self) == RENode::Resource(*final(r)),
    {
        match self {
            RENode::Resource(resource_manager) => resource_manager,
            _ => vstd::pervasive::unreached(),
        }
    }

    /// The units of a non-fungibles node.
    pub fn non_fungibles(&self) -> (r: &NonFungibleSet)
        requires
            *self is NonFungibles,
        ensures
            *r == self->NonFungibles_0,
    {
        match self {
            RENode::NonFungibles(non_fungibles) => non_fungibles,
            _ => vstd::pervasive::unreached(),
        }
    }

    /// The units of a non-fungibles node, for update.
    pub fn non_fungibles_mut(&mut self) -> (r: &mut NonFungibleSet)
        requires
            *old(self) is NonFungibles,
        ensures
            *r == old(self)->NonFungibles_0,
            *final(self) == RENode::NonFungibles(*final(r)),
    {
        match self {
            RENode::NonFungibles(non_fungibles) => non_fungibles,
            _ => vstd::pervasive::unreached(),
        }
    }

    /// The package of a package node.
    pub fn package(&self) -> (r: &Package)
        requires
            *self is Package,
        ensures
            *r == self->Package_0,
    {
        match self {
            RENode::Package(package) => package,
            _ => vstd::pervasive::unreached(),
        }
    }

    /// The info of a component node.
    pub fn component_info(&self) -> (r: &ComponentInfo)
        requires
            *self is Component,
        ensures
            *r == self->Component_0,
    {
        match self {
            RENode::Component(info, _) => info,
            _ => vstd::pervasive::unreached(),
        }
    }

    /// The info of a component node, for update.
    pub fn component_info_mut(&mut self) -> (r: &mut ComponentInfo)
        requires
            *old(self) is Component,
        ensures
            *r == old(self)->Component_0,
            *final(self) == RENode::Component(*final(r), old(self)->Component_1),
    {
        match self {
            RENode::Component(info, _) => info,
            _ => vstd::pervasive::unreached(),
        }
    }

    /// The state of a component node.
    pub fn component_state(&self) -> (r: &ComponentState)
        requires
            *self is Component,
        ensures
            *r == self->Component_1,
    {
        match self {
            RENode::Component(_, state) => state,
            _ => vstd::pervasive::unreached(),
        }
    }

    /// The state of a component node, for update.
    pub fn component_state_mut(&mut self) -> (r: &mut ComponentState)
        requires
            *old(self) is Component,
        ensures
            *r == old(self)->Component_1,
            *final(self) == RENode::Component(old(self)->Component_0, *final(r)),
    {
        match self {
            RENode::Component(_, state) => state,
            _ => vstd::pervasive::unreached(),
        }
    }

    /// The store of a key-value store node.
    pub fn kv_store(&self) -> (r: &HeapKeyValueStore)
        requires
            *self is KeyValueStore,
        ensures
            *r == self->KeyValueStore_0,
    {
        match self {
            RENode::KeyValueStore(store) => store,
            _ => vstd::pervasive::unreached(),
        }
    }

    /// The store of a key-value store node, for update.
    pub fn kv_store_mut(&mut self) -> (r: &mut HeapKeyValueStore)
        requires
            *old(self) is KeyValueStore,
        ensures
            *r == old(self)->KeyValueStore_0,
            *final(self) == RENode::KeyValueStore(*final(r)),
    {
        match self {
            RENode::KeyValueStore(store) => store,
            _ => vstd::pervasive::unreached(),
        }
    }

    /// The vault of a vault node.
    pub fn vault(&self) -> (r: &Vault)
        requires
            *self is Vault,
        ensures
            *r == self->Vault_0,
    {
        match self {
            RENode::Vault(vault) => vault,
            _ => vstd::pervasive::unreached(),
        }
    }

    /// The vault of a vault node, for update.
    pub fn vault_mut(&mut self) -> (r: &mut Vault)
        requires
            *old(self) is Vault,
        ensures
            *r == old(self)->Vault_0,
            *final(self) == RENode::Vault(*final(r)),
    {
        match self {
            RENode::Vault(vault) => vault,
            _ => vstd::pervasive::unreached(),
        }
    }

    /// The system of a system node.
    pub fn system(&self) -> (r: &System)
        requires
            *self is System,
        ensures
            *r == self->System_0,
    {
        match self {
            RENode::System(system) => system,
            _ => vstd::pervasive::unreached(),
        }
    }

    /// The auth zone of an auth zone node, for update.
    pub fn auth_zone_mut(&mut self) -> (r: &mut AuthZone)
        requires
            *old(self) is AuthZone,
        ensures
            *r == old(self)->AuthZone_0,
            *final(self) == RENode::AuthZone(*final(r)),
    {
        match self {
            RENode::AuthZone(auth_zone) => auth_zone,
            _ => vstd::pervasive::unreached(),
        }
    }

    /// Whether the node may be moved to another call frame: not a locked
    /// bucket, a restricted proof, or a frame's own worktop, auth zone or
    /// system.
    pub fn verify_can_move(&self) -> (r: Result<(), RuntimeError>)
        ensures
            match self {
                RENode::Bucket(b) => if b.locked {
                    r == Err::<(), RuntimeError>(RuntimeError::CantMoveLockedBucket)
                } else {
                    r is Ok
                },
                RENode::Proof(p) => if p.restricted {
                    r == Err::<(), RuntimeError>(RuntimeError::CantMoveRestrictedProof)
                } else {
                    r is Ok
                },
                RENode::Worktop(..) | RENode::AuthZone(..) | RENode::System(..) => r == Err::<
                    (),
                    RuntimeError,
                >(RuntimeError::ValueNotAllowed),
                _ => r is Ok,
            },
    {
        match self {
            RENode::Bucket(bucket) => {
                if bucket.is_locked() {
                    Err(RuntimeError::CantMoveLockedBucket)
                } else {
                    Ok(())
                }
            },
            RENode::Proof(proof) => {
                if proof.is_restricted() {
                    Err(RuntimeError::CantMoveRestrictedProof)
                } else {
                    Ok(())
                }
            },
            RENode::KeyValueStore(..) => Ok(()),
            RENode::Component(..) => Ok(()),
            RENode::Vault(..) => Ok(()),
            RENode::Resource(..) => Ok(()),
            RENode::NonFungibles(..) => Ok(()),
            RENode::Package(..) => Ok(()),
            RENode::Worktop(..) => Err(RuntimeError::ValueNotAllowed),
            RENode::AuthZone(..) => Err(RuntimeError::ValueNotAllowed),
            RENode::System(..) => Err(RuntimeError::ValueNotAllowed),
        }
    }

    /// Whether the node may be stored: only key-value stores, components
    /// and vaults may.
    pub fn verify_can_persist(&self) -> (r: Result<(), RuntimeError>)
        ensures
            (*self is KeyValueStore || *self is Component || *self is Vault) ==> r is Ok,
            !(*self is KeyValueStore || *self is Component || *self is Vault) ==> r == Err::<
                (),
                RuntimeError,
            >(RuntimeError::ValueNotAllowed),
    {
        match self {
            RENode::KeyValueStore(..) => Ok(()),
            RENode::Component(..) => Ok(()),
            RENode::Vault(..) => Ok(()),
            RENode::Resource(..) => Err(RuntimeError::ValueNotAllowed),
            RENode::NonFungibles(..) => Err(RuntimeError::ValueNotAllowed),
            RENode::Package(..) => Err(RuntimeError::ValueNotAllowed),
            RENode::Bucket(..) => Err(RuntimeError::ValueNotAllowed),
            RENode::Proof(..) => Err(RuntimeError::ValueNotAllowed),
            RENode::Worktop(..) => Err(RuntimeError::ValueNotAllowed),
            RENode::AuthZone(..) => Err(RuntimeError::ValueNotAllowed),
            RENode::System(..) => Err(RuntimeError::ValueNotAllowed),
        }
    }

    /// Drops the node; only proofs may be dropped.
    pub fn try_drop(self) -> (r: Result<(), DropFailure>)
        ensures
            r == drop_result(self),
    {
        match self {
            RENode::Package(..) => Err(DropFailure::Package),
            RENode::Vault(..) => Err(DropFailure::Vault),
            RENode::KeyValueStore(..) => Err(DropFailure::KeyValueStore),
            RENode::Component(..) => Err(DropFailure::Component),
            RENode::Bucket(..) => Err(DropFailure::Bucket),
            RENode::Resource(..) => Err(DropFailure::Resource),
            RENode::NonFungibles(..) => Err(DropFailure::Resource),
            RENode::Worktop(..) => Err(DropFailure::Worktop),
            RENode::AuthZone(..) => Err(DropFailure::AuthZone),
            RENode::System(..) => Err(DropFailure::System),
            RENode::Proof(proof) => {
                proof.drop();
                Ok(())
            },
        }
    }
}

/// A value owned on the heap: a root node and the nodes it owns.
pub struct REValue {
    pub root: RENode,
    pub non_root_nodes: AssocMap<RENodeId, RENode>,
}

/// The node of `v` named by `id`: the root for `None`.
pub open spec fn node_of(v: REValue, id: Option<RENodeId>) -> RENode {
    match id {
        None => v.root,
        Some(i) => v.non_root_nodes@[i],
    }
}

/// The node named by `id` exists in `v`.
pub open spec fn has_node(v: REValue, id: Option<RENodeId>) -> bool {
    match id {
        None => true,
        Some(i) => v.non_root_nodes@.contains_key(i),
    }
}

/// `w` is `v` with the node named by `id` replaced by `n`.
pub open spec fn replaced(v: REValue, w: REValue, id: Option<RENodeId>, n: RENode) -> bool {
    match id {
        None => w.root == n && w.non_root_nodes@ == v.non_root_nodes@,
        Some(i) => w.root == v.root && w.non_root_nodes@ == v.non_root_nodes@.insert(i, n),
    }
}

/// The id option as a plain value.
pub open spec fn id_of(id: Option<&RENodeId>) -> Option<RENodeId> {
    match id {
        Some(i) => Some(*i),
        None => None,
    }
}

impl REValue {
    /// The root node.
    pub fn root(&self) -> (r: &RENode)
        ensures
            *r == self.root,
    {
        &self.root
    }

    /// The root node, for update.
    pub fn root_mut(&mut self) -> (r: &mut RENode)
        ensures
            *r == old(self).root,
            replaced(*old(self), *final(self), None, *final(r)),
    {
        &mut self.root
    }

    /// An owned node, which must exist.
    pub fn non_root(&self, id: &RENodeId) -> (r: &RENode)
        requires
            self.non_root_nodes@.contains_key(*id),
        ensures
            *r == self.non_root_nodes@[*id],
    {
        match self.non_root_nodes.get(id) {
            Some(n) => n,
            None => vstd::pervasive::unreached(),
        }
    }

    /// An owned node, which must exist, for update.
    pub fn non_root_mut(&mut self, id: &RENodeId) -> (r: &mut RENode)
        requires
            old(self).non_root_nodes@.contains_key(*id),
        ensures
            *r == old(self).non_root_nodes@[*id],
            replaced(*old(self), *final(self), Some(*id), *final(r)),
    {
        self.non_root_nodes.get_mut(id)
    }

    /// The root for `None`, else the owned node with the id, which must exist.
    pub fn get(&self, id: Option<&RENodeId>) -> (r: &RENode)
        requires
            has_node(*self, id_of(id)),
        ensures
            *r == node_of(*self, id_of(id)),
    {
        if let Some(value_id) = id {
            self.non_root(value_id)
        } else {
            &self.root
        }
    }

    /// The root for `None`, else the owned node with the id, which must
    /// exist; for update.
    pub fn get_mut(&mut self, id: Option<&RENodeId>) -> (r: &mut RENode)
        requires
            has_node(*old(self), id_of(id)),
        ensures
            *r == node_of(*old(self), id_of(id)),
            replaced(*old(self), *final(self), id_of(id), *final(r)),
    {
        if let Some(value_id) = id {
            self.non_root_mut(value_id)
        } else {
            &mut self.root
        }
    }

    /// Adds owned nodes; a given node replaces an owned one with its id.
    pub fn insert_non_root_nodes(&mut self, values: AssocMap<RENodeId, RENode>)
        ensures
            final(self).root == old(self).root,
            final(self).non_root_nodes@ == old(self).non_root_nodes@.union_prefer_right(values@),
    {
        self.non_root_nodes.insert_all(values);
    }

    /// All nodes of the value, the root given the id `root_id`.
    pub fn to_nodes(self, root_id: RENodeId) -> (r: AssocMap<RENodeId, RENode>)
        ensures
            r@ == self.non_root_nodes@.insert(root_id, self.root),
    {
        let mut nodes = self.non_root_nodes;
        nodes.insert(root_id, self.root);
        nodes
    }

    /// Drops the value by dropping its root.
    pub fn try_drop(self) -> (r: Result<(), DropFailure>)
        ensures
            r == drop_result(self.root),
    {
        self.root.try_drop()
    }

    /// The ids of the owned nodes, each once.
    pub fn all_descendants(&self) -> (r: Vec<RENodeId>)
        ensures
            r@.no_duplicates(),
            forall|id: RENodeId| r@.contains(id) <==> self.non_root_nodes@.contains_key(id),
    {
        let r = self.non_root_nodes.keys();
        proof {
            assert forall|id: RENodeId| r@.contains(id) <==> self.non_root_nodes@.contains_key(
                id,
            ) by {
                if r@.contains(id) {
                    let i = choose|i: int| 0 <= i < r@.len() && r@[i] == id;
                    assert(r@[i]@ == id);
                    assert(seq_has_key(r@, id));
                }
                if self.non_root_nodes@.contains_key(id) {
                    assert(seq_has_key(r@, id));
                    let i = choose|i: int| 0 <= i < r@.len() && r@[i]@ == id;
                    assert(r@[i] == id);
                }
            }
            assert forall|i: int, j: int| 0 <= i < r@.len() && 0 <= j < r@.len() && i != j implies r@[i] != r@[j] by {
                if i < j {
                    assert(r@[i]@ != r@[j]@);
                } else {
                    assert(r@[j]@ != r@[i]@);
                }
            }
        }
        r
    }
}

/// `f` holds all nodes of the values in `m`, each value's root under its
/// id; where ids repeat, `f` holds one of the nodes with that id.
pub open spec fn flattened(m: Map<RENodeId, REValue>, f: Map<RENodeId, RENode>) -> bool {
    &&& forall|id: RENodeId| #[trigger]
        f.contains_key(id) <==> (m.contains_key(id) || exists|v: RENodeId| #[trigger]
            m.contains_key(v) && m[v].non_root_nodes@.contains_key(id))
    &&& forall|id: RENodeId| #[trigger]
        f.contains_key(id) ==> ((m.contains_key(id) && f[id] == m[id].root) || exists|v: RENodeId|
            #[trigger] m.contains_key(v) && m[v].non_root_nodes@.contains_key(id) && f[id]
                == m[v].non_root_nodes@[id])
}

/// All nodes of the given values, each value's root under its id.
pub fn flatten_values(values: AssocMap<RENodeId, REValue>) -> (r: AssocMap<RENodeId, RENode>)
    ensures
        flattened(values@, r@),
{
    let mut values = values;
    let ghost all = values@;
    let mut nodes: AssocMap<RENodeId, RENode> = AssocMap::new();
    while !values.is_empty()
        invariant
            forall|v: RENodeId| #[trigger]
                values@.contains_key(v) ==> all.contains_key(v) && values@[v] == all[v],
            forall|id: RENodeId| #[trigger]
                all.contains_key(id) ==> nodes@.contains_key(id) || values@.contains_key(id),
            forall|v: RENodeId, id: RENodeId| #[trigger]
                all.contains_key(v) && #[trigger] all[v].non_root_nodes@.contains_key(id) ==> nodes@.contains_key(id)
                    || values@.contains_key(v),
            forall|id: RENodeId| #[trigger]
                nodes@.contains_key(id) ==> ((all.contains_key(id) && nodes@[id] == all[id].root)
                    || exists|v: RENodeId| #[trigger]
                    all.contains_key(v) && all[v].non_root_nodes@.contains_key(id) && nodes@[id]
                        == all[v].non_root_nodes@[id]),
        decreases values.size(),
    {
        let ghost before = values@;
        match values.pop() {
            Some((id, val)) => {
                proof {
                    assert(before.contains_key(id) && before[id] == val);
                    assert(all.contains_key(id) && all[id] == val);
                    assert forall|v: RENodeId| #[trigger]
                        values@.contains_key(v) implies all.contains_key(v) && values@[v] == all[v] by {
                        assert(before.contains_key(v));
                    }
                }
                let ghost old_nodes = nodes@;
                let ghost vr = val.root;
                let ghost vn = val.non_root_nodes@;
                nodes.insert_all(val.to_nodes(id));
                proof {
                    assert forall|x: RENodeId| #[trigger] nodes@.contains_key(x) implies ((all.contains_key(x)
                        && nodes@[x] == all[x].root) || exists|v: RENodeId| #[trigger]
                        all.contains_key(v) && all[v].non_root_nodes@.contains_key(x) && nodes@[x]
                            == all[v].non_root_nodes@[x]) by {
                        if vn.insert(id, vr).contains_key(x) {
                            if x == id {
                                assert(nodes@[x] == all[id].root);
                            } else {
                                assert(all[id].non_root_nodes@.contains_key(x) && nodes@[x]
                                    == all[id].non_root_nodes@[x]);
                            }
                        } else {
                            assert(old_nodes.contains_key(x) && nodes@[x] == old_nodes[x]);
                        }
                    }
                    assert forall|v: RENodeId, x: RENodeId| #[trigger]
                        all.contains_key(v) && #[trigger] all[v].non_root_nodes@.contains_key(x) implies nodes@.contains_key(x)
                            || values@.contains_key(v) by {
                        if v != id {
                            if !values@.contains_key(v) {
                                assert(!before.contains_key(v) || v == id);
                            }
                        }
                    }
                }
            },
            None => vstd::pervasive::unreached(),
        }
    }
    proof {
        assert forall|x: RENodeId| #[trigger] nodes@.contains_key(x) <==> (all.contains_key(x) || exists|v: RENodeId| #[trigger]
            all.contains_key(v) && all[v].non_root_nodes@.contains_key(x)) by {
            if exists|v: RENodeId| #[trigger] all.contains_key(v) && all[v].non_root_nodes@.contains_key(x) {
                let v = choose|v: RENodeId| #[trigger] all.contains_key(v) && all[v].non_root_nodes@.contains_key(x);
                assert(nodes@.contains_key(x) || values@.contains_key(v));
            }
            if all.contains_key(x) {
                assert(nodes@.contains_key(x) || values@.contains_key(x));
            }
        }
    }
    nodes
}

impl REValue {
    /// The bucket of a bucket value.
    pub fn into_bucket(self) -> (r: Bucket)
        requires
            self.root is Bucket,
        ensures
            r == self.root->Bucket_0,
    {
        match self.root {
            RENode::Bucket(bucket) => bucket,
            _ => vstd::pervasive::unreached(),
        }
    }

    /// The proof of a proof value.
    pub fn into_proof(self) -> (r: Proof)
        requires
            self.root is Proof,
        ensures
            r == self.root->Proof_0,
    {
        match self.root {
            RENode::Proof(proof) => proof,
            _ => vstd::pervasive::unreached(),
        }
    }

    /// The units of a non-fungibles value.
    pub fn into_non_fungibles(self) -> (r: NonFungibleSet)
        requires
            self.root is NonFungibles,
        ensures
            r == self.root->NonFungibles_0,
    {
        match self.root {
            RENode::NonFungibles(non_fungibles) => non_fungibles,
            _ => vstd::pervasive::unreached(),
        }
    }
}

/// A value whose nodes are built from other values.
pub enum REComplexValue {
    Component(ComponentInfo, ComponentState),
}

impl REComplexValue {
    /// The value with this node as root and all nodes of the given values,
    /// each value's root under its id.
    pub fn into_re_value(self, non_root_values: AssocMap<RENodeId, REValue>) -> (r: REValue)
        ensures
            r.root == match self {
                REComplexValue::Component(info, state) => RENode::Component(info, state),
            },
            flattened(non_root_values@, r.non_root_nodes@),
    {
        let non_root_nodes = flatten_values(non_root_values);
        match self {
            REComplexValue::Component(info, state) => REValue {
                root: RENode::Component(info, state),
                non_root_nodes,
            },
        }
    }
}

/// A value made of a single node.
pub enum REPrimitiveValue {
    Package(Package),
    Bucket(Bucket),
    Proof(Proof),
    KeyValue(HeapKeyValueStore),
    Resource(ResourceManager),
    NonFungibles(u64, NonFungibleSet),
    Vault(Vault),
}

impl REPrimitiveValue {
    /// The value with this node as its only node.
    pub fn into_re_value(self) -> (r: REValue)
        ensures
            r.non_root_nodes@ == Map::<RENodeId, RENode>::empty(),
            r.root == match self {
                REPrimitiveValue::Resource(m) => RENode::Resource(m),
                REPrimitiveValue::NonFungibles(_, s) => RENode::NonFungibles(s),
                REPrimitiveValue::Package(p) => RENode::Package(p),
                REPrimitiveValue::Bucket(b) => RENode::Bucket(b),
                REPrimitiveValue::Proof(p) => RENode::Proof(p),
                REPrimitiveValue::KeyValue(s) => RENode::KeyValueStore(s),
                REPrimitiveValue::Vault(v) => RENode::Vault(v),
            },
    {
        let root = match self {
            REPrimitiveValue::Resource(resource_manager) => RENode::Resource(resource_manager),
            REPrimitiveValue::NonFungibles(_resource_address, non_fungibles) => RENode::NonFungibles(
                non_fungibles,
            ),
            REPrimitiveValue::Package(package) => RENode::Package(package),
            REPrimitiveValue::Bucket(bucket) => RENode::Bucket(bucket),
            REPrimitiveValue::Proof(proof) => RENode::Proof(proof),
            REPrimitiveValue::KeyValue(store) => RENode::KeyValueStore(store),
            REPrimitiveValue::Vault(vault) => RENode::Vault(vault),
        };
        REValue { root, non_root_nodes: AssocMap::new() }
    }
}

/// A value sorted by whether it is made of one node or several.
pub enum REValueByComplexity {
    Primitive(REPrimitiveValue),
    Complex(REComplexValue),
}

/// What dropping a node gives: only proofs may be dropped; every other
/// kind of node fails with its own kind.
pub open spec fn drop_result(n: RENode) -> Result<(), DropFailure> {
    match n {
        RENode::Proof(..) => Ok(()),
        RENode::Package(..) => Err(DropFailure::Package),
        RENode::Vault(..) => Err(DropFailure::Vault),
        RENode::KeyValueStore(..) => Err(DropFailure::KeyValueStore),
        RENode::Component(..) => Err(DropFailure::Component),
        RENode::Bucket(..) => Err(DropFailure::Bucket),
        RENode::Resource(..) => Err(DropFailure::Resource),
        RENode::NonFungibles(..) => Err(DropFailure::Resource),
        RENode::Worktop(..) => Err(DropFailure::Worktop),
        RENode::AuthZone(..) => Err(DropFailure::AuthZone),
        RENode::System(..) => Err(DropFailure::System),
    }
}

/// Only proofs can be dropped. Every other node, in particular one that
/// holds resources (a bucket or a vault), refuses to be dropped and names
/// its own kind.
pub proof fn lemma_only_proofs_drop(n: RENode)
    ensures
        drop_result(n) is Ok <==> n is Proof,
        n is Bucket ==> drop_result(n) == Err::<(), DropFailure>(DropFailure::Bucket),
        n is Vault ==> drop_result(n) == Err::<(), DropFailure>(DropFailure::Vault),
        (n is Resource || n is NonFungibles) ==> drop_result(n) == Err::<(), DropFailure>(
            DropFailure::Resource,
        ),
        n is Component ==> drop_result(n) == Err::<(), DropFailure>(DropFailure::Component),
        n is KeyValueStore ==> drop_result(n) == Err::<(), DropFailure>(DropFailure::KeyValueStore),
        n is Package ==> drop_result(n) == Err::<(), DropFailure>(DropFailure::Package),
        n is Worktop ==> drop_result(n) == Err::<(), DropFailure>(DropFailure::Worktop),
        n is AuthZone ==> drop_result(n) == Err::<(), DropFailure>(DropFailure::AuthZone),
        n is System ==> drop_result(n) == Err::<(), DropFailure>(DropFailure::System),
{
}

} // verus!
