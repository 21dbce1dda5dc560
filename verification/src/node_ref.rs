use vstd::prelude::*;

use crate::assoc::AssocMap;
use crate::errors::KernelError;
use crate::errors::RuntimeError;
use crate::errors::NodeToSubstateFailure;
use crate::model::AuthZone;
use crate::model::Bucket;
use crate::model::ComponentInfo;
use crate::model::ComponentState;
use crate::model::GlobalRENode;
use crate::model::HeapKeyValueStore;
use crate::model::KeyValueStoreEntrySubstate;
use crate::model::decode_non_fungible;
use crate::model::decode_non_fungible_substate;
use crate::model::encode_component_info;
use crate::model::encode_non_fungible;
use crate::model::encode_non_fungible_substate;
use crate::model::encode_option;
use crate::model::encode_optional;
use crate::model::NonFungibleSubstate;
use crate::model::NonFungibleView;
use crate::model::ScryptoValue;
use crate::model::Package;
use crate::model::Proof;
use crate::model::ResourceManager;
use crate::model::System;
use crate::model::VaultSubstate;
use crate::model::Vault;
use crate::model::Worktop;
use crate::track::converted_vault;
use crate::track::default_entry;
use crate::track::holds_vault;
use crate::track::lock_acquired;
use crate::track::lock_released;
use crate::track::same_track;
use crate::track::BorrowedSubstate;
use crate::track::Substate;
use crate::track::SubstateCache;
use crate::track::SubstateView;
use crate::track::Track;
use crate::types::NonFungibleId;
use crate::types::RENodeId;
use crate::types::SubstateId;
use crate::types::SubstateKey;
use crate::values::has_node;
use crate::values::flatten_values;
use crate::values::flattened;
use crate::values::id_of;
use crate::values::node_of;
use crate::values::replaced;
use crate::values::RENode;
use crate::values::REValue;

verus! {

/// A node owned on the heap of a call frame.
pub type HeapRENode = RENode;

/// A value owned on the heap of a call frame, with the nodes it owns.
pub type HeapRootRENode = REValue;

/// A call frame: the values it owns, by the id of their root.
pub struct CallFrame {
    pub owned_heap_nodes: AssocMap<RENodeId, REValue>,
}

/// Where a node lives: in a value owned by a call frame (its root or one
/// of the nodes it owns), or in the tracked store.
#[derive(Clone, Copy, Debug, PartialEq, Eq, Structural)]
pub enum RENodePointer {
    Heap { frame_id: usize, root: RENodeId, id: Option<RENodeId> },
    Store(RENodeId),
}

/// The heap value a pointer names exists in the call frames.
pub open spec fn heap_value_exists(p: RENodePointer, frames: Seq<CallFrame>) -> bool {
    match p {
        RENodePointer::Heap { frame_id, root, .. } => frame_id < frames.len()
            && frames[frame_id as int].owned_heap_nodes@.contains_key(root),
        RENodePointer::Store(..) => true,
    }
}

/// The heap value a pointer names.
pub open spec fn heap_value(p: RENodePointer, frames: Seq<CallFrame>) -> REValue {
    frames[p->frame_id as int].owned_heap_nodes@[p->root]
}

/// `new` is `old` with the values of frame `f` changed to `m`.
pub open spec fn frames_updated(
    old: Seq<CallFrame>,
    new: Seq<CallFrame>,
    f: int,
    m: Map<RENodeId, REValue>,
) -> bool {
    &&& new.len() == old.len()
    &&& forall|i: int| 0 <= i < old.len() && i != f ==> new[i] == old[i]
    &&& new[f].owned_heap_nodes@ == m
}

impl RENodePointer {
    /// Locks the substate of a stored node; heap nodes need no lock.
    pub fn acquire_lock(
        &self,
        substate_id: SubstateId,
        mutable: bool,
        write_through: bool,
        track: &mut Track,
    ) -> (r: Result<(), KernelError>)
        ensures
            *self is Heap ==> r is Ok && same_track(*old(track), *final(track)),
            *self is Store ==> match r {
                Ok(()) => lock_acquired(*old(track), *final(track), substate_id@, mutable, Ok(())),
                Err(KernelError::SubstateError(e)) => lock_acquired(
                    *old(track),
                    *final(track),
                    substate_id@,
                    mutable,
                    Err(e),
                ),
                Err(_) => false,
            },
    {
        match self {
            RENodePointer::Store(..) => match track.acquire_lock(
                substate_id.duplicate(),
                mutable,
                write_through,
            ) {
                Ok(()) => Ok(()),
                Err(e) => Err(KernelError::SubstateError(e)),
            },
            RENodePointer::Heap { .. } => Ok(()),
        }
    }

    /// Releases the lock on the substate of a stored node; heap nodes need
    /// no lock.
    pub fn release_lock(&self, substate_id: SubstateId, write_through: bool, track: &mut Track) -> (r:
        Result<(), KernelError>)
        ensures
            *self is Heap ==> r is Ok && same_track(*old(track), *final(track)),
            *self is Store ==> match r {
                Ok(()) => lock_released(*old(track), *final(track), substate_id@, Ok(())),
                Err(KernelError::SubstateError(e)) => lock_released(
                    *old(track),
                    *final(track),
                    substate_id@,
                    Err(e),
                ),
                Err(_) => false,
            },
    {
        match self {
            RENodePointer::Store(..) => match track.release_lock(substate_id, write_through) {
                Ok(()) => Ok(()),
                Err(e) => Err(KernelError::SubstateError(e)),
            },
            RENodePointer::Heap { .. } => Ok(()),
        }
    }

    /// The pointer to a node owned by this one: within the same heap value,
    /// or in the store.
    pub fn child(&self, child_id: RENodeId) -> (r: RENodePointer)
        ensures
            r == match *self {
                RENodePointer::Heap { frame_id, root, .. } => RENodePointer::Heap {
                    frame_id,
                    root,
                    id: Some(child_id),
                },
                RENodePointer::Store(..) => RENodePointer::Store(child_id),
            },
    {
        match self {
            RENodePointer::Heap { frame_id, root, .. } => RENodePointer::Heap {
                frame_id: *frame_id,
                root: *root,
                id: Option::Some(child_id),
            },
            RENodePointer::Store(..) => RENodePointer::Store(child_id),
        }
    }

    /// Takes the node out for native code: a heap value leaves its frame,
    /// a stored substate leaves the track, until returned.
    pub fn borrow_native_ref(
        &self,
        substate_id: SubstateId,
        call_frames: &mut Vec<CallFrame>,
        track: &mut Track,
    ) -> (r: NativeSubstateRef)
        requires
            heap_value_exists(*self, old(call_frames)@),
            *self is Store ==> old(track).substates().contains_key(substate_id@),
        ensures
            *self is Heap ==> {
                &&& r == NativeSubstateRef::Stack(
                    heap_value(*self, old(call_frames)@),
                    self->frame_id,
                    self->root,
                    self->id,
                )
                &&& frames_updated(
                    old(call_frames)@,
                    final(call_frames)@,
                    self->frame_id as int,
                    old(call_frames)@[self->frame_id as int].owned_heap_nodes@.remove(self->root),
                )
                &&& same_track(*old(track), *final(track))
            },
            *self is Store ==> {
                &&& r is Track && r->Track_0@ == substate_id@
                &&& r->Track_1.substate == old(track).substates()[substate_id@]
                &&& final(track).substates() == old(track).substates().remove(substate_id@)
                &&& final(track).locks() == old(track).locks()
                &&& final(track).key_values() == old(track).key_values()
                &&& final(call_frames)@ == old(call_frames)@
            },
    {
        match self {
            RENodePointer::Heap { frame_id, root, id } => {
                let ghost frames = call_frames@;
                let mut frame = call_frames.remove(*frame_id);
                let re_value = match frame.owned_heap_nodes.remove(root) {
                    Some(v) => v,
                    None => vstd::pervasive::unreached(),
                };
                call_frames.insert(*frame_id, frame);
                proof {
                    assert forall|i: int| 0 <= i < frames.len() && i != *frame_id implies call_frames@[i]
                        == frames[i] by {}
                }
                NativeSubstateRef::Stack(re_value, *frame_id, *root, *id)
            },
            RENodePointer::Store(..) => {
                let value = track.take_substate(substate_id.duplicate());
                NativeSubstateRef::Track(substate_id, value)
            },
        }
    }

    /// A reference to the node, for reading.
    pub fn to_ref<'f>(&self, call_frames: &'f Vec<CallFrame>, track: &'f mut Track) -> (r: RENodeRef<
        'f,
    >)
        requires
            heap_value_exists(*self, call_frames@),
        ensures
            *self is Heap ==> r is Stack && *(r->Stack_0) == heap_value(*self, call_frames@)
                && r->Stack_1 == self->id,
            *self is Store ==> r is Track && r->Track_1 == self->Store_0 && *(r->Track_0) == *old(track),
            *self is Store ==> *final(track) == *final(r->Track_0),
            *self is Heap ==> *final(track) == *old(track),
    {
        match self {
            RENodePointer::Heap { frame_id, root, id } => {
                let frame = &call_frames[*frame_id];
                let value = match frame.owned_heap_nodes.get(root) {
                    Some(v) => v,
                    None => vstd::pervasive::unreached(),
                };
                RENodeRef::Stack(value, *id)
            },
            RENodePointer::Store(node_id) => RENodeRef::Track(track, *node_id),
        }
    }

    /// A reference to the node, for update.
    pub fn to_ref_mut<'f>(&self, call_frames: &'f mut Vec<CallFrame>, track: &'f mut Track) -> (r:
        RENodeRefMut<'f>)
        requires
            heap_value_exists(*self, old(call_frames)@),
        ensures
            *self is Heap ==> r is Stack && *(r->Stack_0) == heap_value(*self, old(call_frames)@)
                && r->Stack_1 == self->id,
            *self is Heap ==> frames_updated(
                old(call_frames)@,
                final(call_frames)@,
                self->frame_id as int,
                old(call_frames)@[self->frame_id as int].owned_heap_nodes@.insert(self->root, *final(r->Stack_0)),
            ),
            *self is Store ==> r is Track && r->Track_1 == self->Store_0 && *(r->Track_0) == *old(track),
            *self is Store ==> *final(track) == *final(r->Track_0) && final(call_frames)@ == old(call_frames)@,
            *self is Heap ==> *final(track) == *old(track),
    {
        match self {
            RENodePointer::Heap { frame_id, root, id } => {
                let frame = &mut call_frames[*frame_id];
                let value = frame.owned_heap_nodes.get_mut(root);
                RENodeRefMut::Stack(value, *id)
            },
            RENodePointer::Store(node_id) => RENodeRefMut::Track(track, *node_id),
        }
    }
}

/// A node taken out for native code.
pub enum NativeSubstateRef {
    /// A heap value taken from frame `1` where it was owned under id `2`;
    /// `3` names the node within it (its root for `None`).
    Stack(REValue, usize, RENodeId, Option<RENodeId>),
    /// A substate taken from the track.
    Track(SubstateId, BorrowedSubstate),
}

/// The node a taken heap value is used for.
pub open spec fn stack_node(s: NativeSubstateRef) -> RENode {
    node_of(s->Stack_0, s->Stack_3)
}

/// `s` is a taken heap value whose node exists.
pub open spec fn stack_node_exists(s: NativeSubstateRef) -> bool {
    s is Stack && has_node(s->Stack_0, s->Stack_3)
}

/// `new` is the taken heap value `old` with its node replaced by `n`.
pub open spec fn stack_updated(old: NativeSubstateRef, new: NativeSubstateRef, n: RENode) -> bool {
    &&& new is Stack
    &&& new->Stack_1 == old->Stack_1
    &&& new->Stack_2 == old->Stack_2
    &&& new->Stack_3 == old->Stack_3
    &&& replaced(old->Stack_0, new->Stack_0, old->Stack_3, n)
}

/// The cached substate of a taken substate.
pub open spec fn tracked_cache(s: NativeSubstateRef) -> SubstateCache {
    s->Track_1.substate
}

/// `new` is the taken substate `old` with its cache replaced by `c`.
pub open spec fn tracked_updated(old: NativeSubstateRef, new: NativeSubstateRef, c: SubstateCache) -> bool {
    new is Track && new->Track_0 == old->Track_0 && new->Track_1.substate == c
}

impl NativeSubstateRef {
    /// The bucket of a taken bucket node.
    pub fn bucket_mut(&mut self) -> (r: &mut Bucket)
        requires
            stack_node_exists(*old(self)),
            stack_node(*old(self)) is Bucket,
        ensures
            *r == stack_node(*old(self))->Bucket_0,
            stack_updated(*old(self), *final(self), RENode::Bucket(*final(r))),
    {
        match self {
            NativeSubstateRef::Stack(root, _frame_id, _root_id, maybe_child) => {
                match root.get_mut(maybe_child.as_ref()) {
                    RENode::Bucket(bucket) => bucket,
                    _ => vstd::pervasive::unreached(),
                }
            },
            _ => vstd::pervasive::unreached(),
        }
    }

    /// The proof of a taken proof node.
    pub fn proof_mut(&mut self) -> (r: &mut Proof)
        requires
            stack_node_exists(*old(self)),
            stack_node(*old(self)) is Proof,
        ensures
            *r == stack_node(*old(self))->Proof_0,
            stack_updated(*old(self), *final(self), RENode::Proof(*final(r))),
    {
        match self {
            NativeSubstateRef::Stack(root, _frame_id, _root_id, maybe_child) => {
                match root.get_mut(maybe_child.as_ref()) {
                    RENode::Proof(proof) => proof,
                    _ => vstd::pervasive::unreached(),
                }
            },
            _ => vstd::pervasive::unreached(),
        }
    }

    /// The worktop of a taken worktop node.
    pub fn worktop_mut(&mut self) -> (r: &mut Worktop)
        requires
            stack_node_exists(*old(self)),
            stack_node(*old(self)) is Worktop,
        ensures
            *r == stack_node(*old(self))->Worktop_0,
            stack_updated(*old(self), *final(self), RENode::Worktop(*final(r))),
    {
        match self {
            NativeSubstateRef::Stack(root, _frame_id, _root_id, maybe_child) => {
                match root.get_mut(maybe_child.as_ref()) {
                    RENode::Worktop(worktop) => worktop,
                    _ => vstd::pervasive::unreached(),
                }
            },
            _ => vstd::pervasive::unreached(),
        }
    }

    /// The vault of a taken vault node, or of a taken vault substate (which
    /// is turned into the vault node first).
    pub fn vault_mut(&mut self) -> (r: &mut Vault)
        requires
            *old(self) is Stack ==> stack_node_exists(*old(self)) && stack_node(*old(self)) is Vault,
            *old(self) is Track ==> holds_vault(tracked_cache(*old(self))),
        ensures
            *old(self) is Stack ==> *r == stack_node(*old(self))->Vault_0 && stack_updated(
                *old(self),
                *final(self),
                RENode::Vault(*final(r)),
            ),
            *old(self) is Track ==> *r == converted_vault(tracked_cache(*old(self)))
                && tracked_updated(*old(self), *final(self), SubstateCache::Converted(*final(r))),
    {
        match self {
            NativeSubstateRef::Stack(root, _frame_id, _root_id, maybe_child) => {
                root.get_mut(maybe_child.as_ref()).vault_mut()
            },
            NativeSubstateRef::Track(_address, value) => {
                value.substate.convert_to_node();
                value.substate.vault_mut()
            },
        }
    }

    /// The system of a taken system substate.
    pub fn system_mut(&mut self) -> (r: &mut System)
        requires
            *old(self) is Track,
            tracked_cache(*old(self)) matches SubstateCache::Raw(Substate::System(_)),
        ensures
            *r == tracked_cache(*old(self))->Raw_0->System_0,
            tracked_updated(
                *old(self),
                *final(self),
                SubstateCache::Raw(Substate::System(*final(r))),
            ),
    {
        match self {
            NativeSubstateRef::Track(_address, value) => value.substate.raw_mut().system_mut(),
            _ => vstd::pervasive::unreached(),
        }
    }

    /// The info of a taken component node.
    pub fn component_info_mut(&mut self) -> (r: &mut ComponentInfo)
        requires
            stack_node_exists(*old(self)),
            stack_node(*old(self)) is Component,
        ensures
            *r == stack_node(*old(self))->Component_0,
            stack_updated(
                *old(self),
                *final(self),
                RENode::Component(*final(r), stack_node(*old(self))->Component_1),
            ),
    {
        match self {
            NativeSubstateRef::Stack(root, _frame_id, _root_id, maybe_child) => {
                root.get_mut(maybe_child.as_ref()).component_info_mut()
            },
            _ => vstd::pervasive::unreached(),
        }
    }

    /// The package of a taken package substate.
    pub fn package_mut(&mut self) -> (r: &Package)
        requires
            *old(self) is Track,
            tracked_cache(*old(self)) matches SubstateCache::Raw(Substate::Package(_)),
        ensures
            *r == tracked_cache(*old(self))->Raw_0->Package_0,
            *final(self) == *old(self),
    {
        match self {
            NativeSubstateRef::Track(_address, value) => value.substate.raw().package(),
            _ => vstd::pervasive::unreached(),
        }
    }

    /// The resource manager of a taken resource node or substate.
    pub fn resource_manager_mut(&mut self) -> (r: &mut ResourceManager)
        requires
            *old(self) is Stack ==> stack_node_exists(*old(self)) && stack_node(*old(self)) is Resource,
            *old(self) is Track ==> tracked_cache(*old(self)) matches SubstateCache::Raw(
                Substate::ResourceManager(_),
            ),
        ensures
            *old(self) is Stack ==> *r == stack_node(*old(self))->Resource_0 && stack_updated(
                *old(self),
                *final(self),
                RENode::Resource(*final(r)),
            ),
            *old(self) is Track ==> *r == tracked_cache(*old(self))->Raw_0->ResourceManager_0
                && tracked_updated(
                *old(self),
                *final(self),
                SubstateCache::Raw(Substate::ResourceManager(*final(r))),
            ),
    {
        match self {
            NativeSubstateRef::Stack(value, _frame_id, _root_id, maybe_child) => value.get_mut(
                maybe_child.as_ref(),
            ).resource_manager_mut(),
            NativeSubstateRef::Track(_address, value) => value.substate.raw_mut().resource_manager_mut(),
        }
    }

    /// The auth zone of a taken auth zone node.
    pub fn auth_zone_mut(&mut self) -> (r: &mut AuthZone)
        requires
            stack_node_exists(*old(self)),
            stack_node(*old(self)) is AuthZone,
        ensures
            *r == stack_node(*old(self))->AuthZone_0,
            stack_updated(*old(self), *final(self), RENode::AuthZone(*final(r))),
    {
        match self {
            NativeSubstateRef::Stack(value, _frame_id, _root_id, maybe_child) => {
                value.get_mut(maybe_child.as_ref()).auth_zone_mut()
            },
            NativeSubstateRef::Track(..) => vstd::pervasive::unreached(),
        }
    }

    /// The node of a taken global substate.
    pub fn global_re_node(&mut self) -> (r: &GlobalRENode)
        requires
            *old(self) is Track,
            tracked_cache(*old(self)) matches SubstateCache::Raw(Substate::GlobalRENode(_)),
        ensures
            *r == tracked_cache(*old(self))->Raw_0->GlobalRENode_0,
            *final(self) == *old(self),
    {
        match self {
            NativeSubstateRef::Stack(..) => vstd::pervasive::unreached(),
            NativeSubstateRef::Track(_address, value) => value.substate.raw().global_re_node(),
        }
    }

    /// Puts the taken node back where it was taken from.
    pub fn return_to_location(self, call_frames: &mut Vec<CallFrame>, track: &mut Track)
        requires
            self is Stack ==> self->Stack_1 < old(call_frames)@.len(),
        ensures
            self is Stack ==> frames_updated(
                old(call_frames)@,
                final(call_frames)@,
                self->Stack_1 as int,
                old(call_frames)@[self->Stack_1 as int].owned_heap_nodes@.insert(
                    self->Stack_2,
                    self->Stack_0,
                ),
            ) && same_track(*old(track), *final(track)),
            self is Track ==> final(call_frames)@ == old(call_frames)@ && final(track).substates()
                == old(track).substates().insert(self->Track_0@, self->Track_1.substate) && final(track).locks() == old(track).locks() && final(track).key_values() == old(track).key_values(),
    {
        match self {
            NativeSubstateRef::Stack(owned, frame_id, node_id, ..) => {
                let ghost frames = call_frames@;
                let mut frame = call_frames.remove(frame_id);
                frame.owned_heap_nodes.insert(node_id, owned);
                call_frames.insert(frame_id, frame);
                proof {
                    assert forall|i: int| 0 <= i < frames.len() && i != frame_id implies call_frames@[i]
                        == frames[i] by {}
                }
            },
            NativeSubstateRef::Track(substate_id, substate) => {
                track.return_substate(substate_id, substate)
            },
        }
    }
}

/// A reference to a node for reading: a heap value and the node within
/// it, or the track and a stored node.
pub enum RENodeRef<'f> {
    Stack(&'f REValue, Option<RENodeId>),
    Track(&'f mut Track, RENodeId),
}

/// The heap node a reading reference names.
pub open spec fn ref_node<'f>(r: RENodeRef<'f>) -> RENode {
    node_of(*(r->Stack_0), r->Stack_1)
}

/// The reference names a heap node that exists.
pub open spec fn ref_node_exists<'f>(r: RENodeRef<'f>) -> bool {
    r is Stack && has_node(*(r->Stack_0), r->Stack_1)
}

/// The track a reading reference to a stored node goes through.
pub open spec fn ref_track<'f>(r: RENodeRef<'f>) -> Track {
    *(r->Track_0)
}

/// The track holds a stored substate of the given kind at `key`.
pub open spec fn holds_raw(t: Track, key: SubstateKey, kind: spec_fn(Substate) -> bool) -> bool {
    t.substates().contains_key(key) && t.substates()[key] is Raw && kind(
        t.substates()[key]->Raw_0,
    )
}

/// The stored substate at `key`.
pub open spec fn raw_at(t: Track, key: SubstateKey) -> Substate {
    t.substates()[key]->Raw_0
}

impl<'f> RENodeRef<'f> {
    /// The bucket of a heap bucket node.
    pub fn bucket(&self) -> (r: &Bucket)
        requires
            ref_node_exists(*self),
            ref_node(*self) is Bucket,
        ensures
            *r == ref_node(*self)->Bucket_0,
    {
        match self {
            RENodeRef::Stack(value, id) => value.get(id.as_ref()).bucket(),
            RENodeRef::Track(..) => vstd::pervasive::unreached(),
        }
    }

    /// The vault of a vault node; a stored vault substate is turned into
    /// the vault node first.
    pub fn vault(&mut self) -> (r: &Vault)
        requires
            *old(self) is Stack ==> ref_node_exists(*old(self)) && ref_node(*old(self)) is Vault,
            *old(self) is Track ==> old(self)->Track_1 is Vault && ref_track(
                *old(self),
            ).substates().contains_key(SubstateKey::Vault(old(self)->Track_1->Vault_0))
                && holds_vault(
                ref_track(*old(self)).substates()[SubstateKey::Vault(old(self)->Track_1->Vault_0)],
            ),
        ensures
            *old(self) is Stack ==> *r == ref_node(*old(self))->Vault_0 && *final(self) == *old(self),
            *old(self) is Track ==> {
                let key = SubstateKey::Vault(old(self)->Track_1->Vault_0);
                &&& *r == converted_vault(ref_track(*old(self)).substates()[key])
                &&& *final(self) is Track
                &&& final(self)->Track_1 == old(self)->Track_1
                &&& ref_track(*final(self)).substates() == ref_track(
                    *old(self),
                ).substates().insert(key, SubstateCache::Converted(*r))
                &&& ref_track(*final(self)).locks() == ref_track(*old(self)).locks()
                &&& ref_track(*final(self)).key_values() == ref_track(*old(self)).key_values()
            },
    {
        match self {
            RENodeRef::Stack(value, id) => value.get(id.as_ref()).vault(),
            RENodeRef::Track(track, node_id) => {
                let substate_id = match node_id {
                    RENodeId::Vault(vault_id) => SubstateId::Vault(*vault_id),
                    _ => vstd::pervasive::unreached(),
                };
                let substate = track.borrow_substate_mut(substate_id);
                substate.convert_to_node();
                substate.vault()
            },
        }
    }

    /// The system of a system node.
    pub fn system(&self) -> (r: &System)
        requires
            *self is Stack ==> ref_node_exists(*self) && ref_node(*self) is System,
            *self is Track ==> self->Track_1 is System && holds_raw(
                ref_track(*self),
                SubstateKey::System(self->Track_1->System_0),
                |s: Substate| s is System,
            ),
        ensures
            *self is Stack ==> *r == ref_node(*self)->System_0,
            *self is Track ==> *r == raw_at(
                ref_track(*self),
                SubstateKey::System(self->Track_1->System_0),
            )->System_0,
    {
        match self {
            RENodeRef::Stack(value, id) => value.get(id.as_ref()).system(),
            RENodeRef::Track(track, node_id) => {
                let substate_id = match node_id {
                    RENodeId::System(component_address) => SubstateId::System(*component_address),
                    _ => vstd::pervasive::unreached(),
                };
                track.borrow_substate(substate_id).raw().system()
            },
        }
    }

    /// The resource manager of a resource node.
    pub fn resource_manager(&self) -> (r: &ResourceManager)
        requires
            *self is Stack ==> ref_node_exists(*self) && ref_node(*self) is Resource,
            *self is Track ==> self->Track_1 is ResourceManager && holds_raw(
                ref_track(*self),
                SubstateKey::ResourceManager(self->Track_1->ResourceManager_0),
                |s: Substate| s is ResourceManager,
            ),
        ensures
            *self is Stack ==> *r == ref_node(*self)->Resource_0,
            *self is Track ==> *r == raw_at(
                ref_track(*self),
                SubstateKey::ResourceManager(self->Track_1->ResourceManager_0),
            )->ResourceManager_0,
    {
        match self {
            RENodeRef::Stack(value, id) => value.get(id.as_ref()).resource_manager(),
            RENodeRef::Track(track, node_id) => {
                let substate_id = match node_id {
                    RENodeId::ResourceManager(resource_address) => SubstateId::ResourceManager(
                        *resource_address,
                    ),
                    _ => vstd::pervasive::unreached(),
                };
                track.borrow_substate(substate_id).raw().resource_manager()
            },
        }
    }

    /// The state of a component node.
    pub fn component_state(&self) -> (r: &ComponentState)
        requires
            *self is Stack ==> ref_node_exists(*self) && ref_node(*self) is Component,
            *self is Track ==> self->Track_1 is Component && holds_raw(
                ref_track(*self),
                SubstateKey::ComponentState(self->Track_1->Component_0),
                |s: Substate| s is ComponentState,
            ),
        ensures
            *self is Stack ==> *r == ref_node(*self)->Component_1,
            *self is Track ==> *r == raw_at(
                ref_track(*self),
                SubstateKey::ComponentState(self->Track_1->Component_0),
            )->ComponentState_0,
    {
        match self {
            RENodeRef::Stack(value, id) => value.get(id.as_ref()).component_state(),
            RENodeRef::Track(track, node_id) => {
                let substate_id = match node_id {
                    RENodeId::Component(component_address) => SubstateId::ComponentState(
                        *component_address,
                    ),
                    _ => vstd::pervasive::unreached(),
                };
                track.borrow_substate(substate_id).raw().component_state()
            },
        }
    }

    /// The info of a component node.
    pub fn component_info(&self) -> (r: &ComponentInfo)
        requires
            *self is Stack ==> ref_node_exists(*self) && ref_node(*self) is Component,
            *self is Track ==> self->Track_1 is Component && holds_raw(
                ref_track(*self),
                SubstateKey::ComponentInfo(self->Track_1->Component_0),
                |s: Substate| s is ComponentInfo,
            ),
        ensures
            *self is Stack ==> *r == ref_node(*self)->Component_0,
            *self is Track ==> *r == raw_at(
                ref_track(*self),
                SubstateKey::ComponentInfo(self->Track_1->Component_0),
            )->ComponentInfo_0,
    {
        match self {
            RENodeRef::Stack(value, id) => value.get(id.as_ref()).component_info(),
            RENodeRef::Track(track, node_id) => {
                let substate_id = match node_id {
                    RENodeId::Component(component_address) => SubstateId::ComponentInfo(
                        *component_address,
                    ),
                    _ => vstd::pervasive::unreached(),
                };
                track.borrow_substate(substate_id).raw().component_info()
            },
        }
    }

    /// The package of a package node.
    pub fn package(&self) -> (r: &Package)
        requires
            *self is Stack ==> ref_node_exists(*self) && ref_node(*self) is Package,
            *self is Track ==> self->Track_1 is Package && holds_raw(
                ref_track(*self),
                SubstateKey::Package(self->Track_1->Package_0),
                |s: Substate| s is Package,
            ),
        ensures
            *self is Stack ==> *r == ref_node(*self)->Package_0,
            *self is Track ==> *r == raw_at(
                ref_track(*self),
                SubstateKey::Package(self->Track_1->Package_0),
            )->Package_0,
    {
        match self {
            RENodeRef::Stack(value, id) => value.get(id.as_ref()).package(),
            RENodeRef::Track(track, node_id) => {
                let substate_id = match node_id {
                    RENodeId::Package(package_address) => SubstateId::Package(*package_address),
                    _ => vstd::pervasive::unreached(),
                };
                track.borrow_substate(substate_id).raw().package()
            },
        }
    }
}

/// A reference to a node for update: a heap value and the node within it,
/// or the track and a stored node.
pub enum RENodeRefMut<'f> {
    Stack(&'f mut REValue, Option<RENodeId>),
    Track(&'f mut Track, RENodeId),
}

/// The heap value a reference for update points to.
pub open spec fn mref_value<'f>(r: RENodeRefMut<'f>) -> REValue {
    *(r->Stack_0)
}

/// The heap node a reference for update names.
pub open spec fn mref_node<'f>(r: RENodeRefMut<'f>) -> RENode {
    node_of(mref_value(r), r->Stack_1)
}

/// The reference for update names a heap node that exists.
pub open spec fn mref_node_exists<'f>(r: RENodeRefMut<'f>) -> bool {
    r is Stack && has_node(mref_value(r), r->Stack_1)
}

/// The track a reference for update to a stored node goes through.
pub open spec fn mref_track<'f>(r: RENodeRefMut<'f>) -> Track {
    *(r->Track_0)
}

/// `new` names the same heap node as `old`, which is replaced by `n`.
pub open spec fn mref_stack_updated<'f>(old: RENodeRefMut<'f>, new: RENodeRefMut<'f>, n: RENode) -> bool {
    new is Stack && new->Stack_1 == old->Stack_1 && replaced(mref_value(old), mref_value(new), old->Stack_1, n)
}

/// What reading the entry at `key` of a key-value space gives: the
/// written entry, else the space's empty entry.
pub open spec fn entry_view(t: Track, parent: SubstateKey, key: Seq<u8>) -> SubstateView {
    if t.key_values().contains_key((parent, key)) {
        t.key_values()[(parent, key)]@
    } else {
        default_entry(parent)
    }
}

/// The entry of `key` in a heap key-value store.
pub open spec fn store_entry(n: RENode, key: Seq<u8>) -> Option<Seq<u8>> {
    if n->KeyValueStore_0.store@.contains_key(key) {
        Some(n->KeyValueStore_0.store@[key])
    } else {
        None
    }
}

/// The unit of `id` in a heap non-fungibles node.
pub open spec fn set_entry(n: RENode, id: Seq<u8>) -> Option<NonFungibleView> {
    if n->NonFungibles_0@.contains_key(id) {
        Some(n->NonFungibles_0@[id])
    } else {
        None
    }
}

/// The space holding the units of the resource a stored node manages.
pub open spec fn non_fungible_space<'f>(r: RENodeRefMut<'f>) -> SubstateKey {
    SubstateKey::NonFungibleSpace(r->Track_1->ResourceManager_0)
}

/// The space holding the entries of a stored key-value store node.
pub open spec fn key_value_space<'f>(r: RENodeRefMut<'f>) -> SubstateKey {
    SubstateKey::KeyValueStoreSpace(r->Track_1->KeyValueStore_0)
}

/// The reference can read the given substate.
pub open spec fn readable<'f>(r: RENodeRefMut<'f>, substate_id: SubstateKey) -> bool {
    match substate_id {
        SubstateKey::ComponentInfo(..) => can_read_component_info(r),
        SubstateKey::ComponentState(..) => can_read_component_state(r),
        SubstateKey::NonFungible(_, id) => can_read_non_fungible(r, id),
        SubstateKey::KeyValueStoreEntry(_, key) => can_read_entry(r, key),
        _ => false,
    }
}

/// What reading the given substate gives.
pub open spec fn read_value<'f>(r: RENodeRefMut<'f>, substate_id: SubstateKey) -> Seq<u8> {
    match substate_id {
        SubstateKey::ComponentInfo(..) => encode_component_info(component_info_of(r)@),
        SubstateKey::ComponentState(..) => component_state_of(r)@,
        SubstateKey::NonFungible(_, id) => encode_non_fungible_substate(non_fungible_of(r, id)),
        SubstateKey::KeyValueStoreEntry(_, key) => encode_option(entry_of(r, key)),
        _ => Seq::empty(),
    }
}

/// The reference names a component whose info can be read.
pub open spec fn can_read_component_info<'f>(r: RENodeRefMut<'f>) -> bool {
    &&& r is Stack ==> mref_node_exists(r) && mref_node(r) is Component
    &&& r is Track ==> r->Track_1 is Component && holds_raw(
        mref_track(r),
        SubstateKey::ComponentInfo(r->Track_1->Component_0),
        |s: Substate| s is ComponentInfo,
    )
}

/// The info of the component the reference names.
pub open spec fn component_info_of<'f>(r: RENodeRefMut<'f>) -> ComponentInfo {
    if r is Stack {
        mref_node(r)->Component_0
    } else {
        raw_at(mref_track(r), SubstateKey::ComponentInfo(r->Track_1->Component_0))->ComponentInfo_0
    }
}

/// The reference names a component whose state can be read.
pub open spec fn can_read_component_state<'f>(r: RENodeRefMut<'f>) -> bool {
    &&& r is Stack ==> mref_node_exists(r) && mref_node(r) is Component
    &&& r is Track ==> r->Track_1 is Component && holds_raw(
        mref_track(r),
        SubstateKey::ComponentState(r->Track_1->Component_0),
        |s: Substate| s is ComponentState,
    )
}

/// The state of the component the reference names.
pub open spec fn component_state_of<'f>(r: RENodeRefMut<'f>) -> ComponentState {
    if r is Stack {
        mref_node(r)->Component_1
    } else {
        raw_at(mref_track(r), SubstateKey::ComponentState(r->Track_1->Component_0))->ComponentState_0
    }
}

/// The reference names non-fungible units whose unit `id` can be read.
pub open spec fn can_read_non_fungible<'f>(r: RENodeRefMut<'f>, id: Seq<u8>) -> bool {
    &&& r is Stack ==> mref_node_exists(r) && mref_node(r) is NonFungibles
    &&& r is Track ==> r->Track_1 is ResourceManager && entry_view(
        mref_track(r),
        non_fungible_space(r),
        id,
    ) is NonFungible
}

/// The unit `id` of the non-fungible units the reference names.
pub open spec fn non_fungible_of<'f>(r: RENodeRefMut<'f>, id: Seq<u8>) -> Option<NonFungibleView> {
    if r is Stack {
        set_entry(mref_node(r), id)
    } else {
        entry_view(mref_track(r), non_fungible_space(r), id)->NonFungible_0
    }
}

/// The reference names a key-value store whose entry `key` can be read.
pub open spec fn can_read_entry<'f>(r: RENodeRefMut<'f>, key: Seq<u8>) -> bool {
    &&& r is Stack ==> mref_node_exists(r) && mref_node(r) is KeyValueStore
    &&& r is Track ==> r->Track_1 is KeyValueStore && entry_view(
        mref_track(r),
        key_value_space(r),
        key,
    ) is KeyValueStoreEntry
}

/// The entry `key` of the key-value store the reference names.
pub open spec fn entry_of<'f>(r: RENodeRefMut<'f>, key: Seq<u8>) -> Option<Seq<u8>> {
    if r is Stack {
        store_entry(mref_node(r), key)
    } else {
        entry_view(mref_track(r), key_value_space(r), key)->KeyValueStoreEntry_0
    }
}

/// Every node of the given values can be persisted under its id.
pub open spec fn values_persistable(m: Map<RENodeId, REValue>) -> bool {
    &&& forall|v: RENodeId| #[trigger] m.contains_key(v) ==> persistable(v, m[v].root)
    &&& forall|v: RENodeId, c: RENodeId|
        #[trigger] m.contains_key(v) && #[trigger] m[v].non_root_nodes@.contains_key(c) ==> persistable(
            c,
            m[v].non_root_nodes@[c],
        )
}

/// `new` is `old` with its node replaced by `n` and the nodes `f` added.
pub open spec fn stack_written<'f>(
    old: RENodeRefMut<'f>,
    new: RENodeRefMut<'f>,
    n: RENode,
    f: Map<RENodeId, RENode>,
) -> bool {
    &&& new is Stack
    &&& new->Stack_1 == old->Stack_1
    &&& match old->Stack_1 {
        None => mref_value(new).root == n && mref_value(new).non_root_nodes@ == mref_value(
            old,
        ).non_root_nodes@.union_prefer_right(f),
        Some(i) => mref_value(new).root == mref_value(old).root && mref_value(
            new,
        ).non_root_nodes@ == mref_value(old).non_root_nodes@.insert(i, n).union_prefer_right(f),
    }
}

/// What putting `value` at `key` of the key-value store that `old` names,
/// and keeping the values `to_store` it owns, leads to.
pub open spec fn kv_store_put_done<'f>(
    old: RENodeRefMut<'f>,
    new: RENodeRefMut<'f>,
    key: Seq<u8>,
    value: Seq<u8>,
    to_store: Map<RENodeId, REValue>,
    r: Result<(), NodeToSubstateFailure>,
) -> bool {
    &&& old is Stack ==> r is Ok && exists|n: RENode, f: Map<RENodeId, RENode>|
        #![trigger stack_written(old, new, n, f)]
        {
            &&& n is KeyValueStore
            &&& n->KeyValueStore_0.store@ == mref_node(old)->KeyValueStore_0.store@.insert(key, value)
            &&& flattened(to_store, f)
            &&& stack_written(old, new, n, f)
        }
    &&& old is Track ==> new is Track && new->Track_1 == old->Track_1 && exists|
        mid: Track,
        f: Map<RENodeId, RENode>,
    |
        #![trigger persisted(mid, mref_track(new), f, r)]
        {
            &&& mid.substates() == mref_track(old).substates()
            &&& mid.locks() == mref_track(old).locks()
            &&& entries_view(mid.key_values()) == entries_view(
                mref_track(old).key_values(),
            ).insert((key_value_space(old), key), SubstateView::KeyValueStoreEntry(Some(value)))
            &&& flattened(to_store, f)
            &&& persisted(mid, mref_track(new), f, r)
        }
}

/// What setting the state of the component that `old` names to `value`,
/// and keeping the values `to_store` it owns, leads to.
pub open spec fn component_state_set_done<'f>(
    old: RENodeRefMut<'f>,
    new: RENodeRefMut<'f>,
    value: Seq<u8>,
    to_store: Map<RENodeId, REValue>,
    r: Result<(), NodeToSubstateFailure>,
) -> bool {
    &&& old is Stack ==> r is Ok && exists|n: RENode, f: Map<RENodeId, RENode>|
        #![trigger stack_written(old, new, n, f)]
        {
            &&& n is Component
            &&& n->Component_0 == mref_node(old)->Component_0
            &&& n->Component_1@ == value
            &&& flattened(to_store, f)
            &&& stack_written(old, new, n, f)
        }
    &&& old is Track ==> new is Track && new->Track_1 == old->Track_1 && exists|
        mid: Track,
        f: Map<RENodeId, RENode>,
    |
        #![trigger persisted(mid, mref_track(new), f, r)]
        {
            let key = SubstateKey::ComponentState(old->Track_1->Component_0);
            &&& mid.substates().dom() == mref_track(old).substates().dom()
            &&& forall|k: SubstateKey| #[trigger]
                mid.substates().contains_key(k) && k != key ==> mid.substates()[k] == mref_track(
                    old,
                ).substates()[k]
            &&& mid.substates()[key] is Raw && mid.substates()[key]->Raw_0 is ComponentState
                && mid.substates()[key]->Raw_0->ComponentState_0@ == value
            &&& mid.locks() == mref_track(old).locks()
            &&& mid.key_values() == mref_track(old).key_values()
            &&& flattened(to_store, f)
            &&& persisted(mid, mref_track(new), f, r)
        }
}

/// What putting the unit decoded from `value` under `id` into the
/// non-fungible units that `old` names leads to.
pub open spec fn non_fungible_put_done<'f>(
    old: RENodeRefMut<'f>,
    new: RENodeRefMut<'f>,
    id: Seq<u8>,
    value: Seq<u8>,
) -> bool {
    let decoded = decode_non_fungible_substate(value)->Some_0;
    &&& old is Stack ==> exists|n: RENode|
        #![trigger mref_stack_updated(old, new, n)]
        {
            &&& n is NonFungibles
            &&& n->NonFungibles_0@ == mref_node(old)->NonFungibles_0@.insert(id, decoded->Some_0)
            &&& mref_stack_updated(old, new, n)
        }
    &&& old is Track ==> {
        &&& new is Track
        &&& new->Track_1 == old->Track_1
        &&& mref_track(new).substates() == mref_track(old).substates()
        &&& mref_track(new).locks() == mref_track(old).locks()
        &&& entries_view(mref_track(new).key_values()) == entries_view(
            mref_track(old).key_values(),
        ).insert((non_fungible_space(old), id), SubstateView::NonFungible(decoded))
    }
}

/// A value can be put as unit `id` of the non-fungible units `r` names.
pub open spec fn can_put_non_fungible<'f>(r: RENodeRefMut<'f>, value: Seq<u8>) -> bool {
    &&& decode_non_fungible_substate(value) is Some
    &&& r is Stack ==> mref_node_exists(r) && mref_node(r) is NonFungibles
        && decode_non_fungible_substate(value)->Some_0 is Some
    &&& r is Track ==> r->Track_1 is ResourceManager
}

/// What removing unit `id` of the stored non-fungible units `old` names
/// leads to.
pub open spec fn non_fungible_removed<'f>(old: RENodeRefMut<'f>, new: RENodeRefMut<'f>, id: Seq<u8>) -> bool {
    &&& new is Track
    &&& new->Track_1 == old->Track_1
    &&& mref_track(new).substates() == mref_track(old).substates()
    &&& mref_track(new).locks() == mref_track(old).locks()
    &&& mref_track(new).key_values() == mref_track(old).key_values().insert(
        (non_fungible_space(old), id),
        Substate::NonFungible(NonFungibleSubstate(None)),
    )
}

impl<'f> RENodeRefMut<'f> {
    /// Reads a substate of the node as an encoded value: a component's info
    /// or state, a unit of non-fungibles, or an entry of a key-value store.
    pub fn read_scrypto_value(&mut self, substate_id: &SubstateId) -> (r: Result<
        ScryptoValue,
        RuntimeError,
    >)
        requires
            readable(*old(self), substate_id@),
        ensures
            r matches Ok(v) && v@ == read_value(*old(self), substate_id@),
            *final(self) == *old(self),
    {
        match substate_id {
            SubstateId::ComponentInfo(..) => Ok(self.component_info().info()),
            SubstateId::ComponentState(..) => Ok(
                ScryptoValue::from_slice(self.component_state().state()),
            ),
            SubstateId::NonFungible(.., id) => Ok(self.non_fungible_get(id)),
            SubstateId::KeyValueStoreEntry(.., key) => Ok(self.kv_store_get(key.as_slice())),
            _ => vstd::pervasive::unreached(),
        }
    }

    /// Resets a unit of the stored non-fungibles to none.
    pub fn replace_value_with_default(&mut self, substate_id: &SubstateId)
        requires
            substate_id is NonFungible,
            *old(self) is Track,
            old(self)->Track_1 is ResourceManager,
        ensures
            non_fungible_removed(*old(self), *final(self), substate_id@->NonFungible_1),
    {
        match substate_id {
            SubstateId::NonFungible(.., id) => self.non_fungible_remove(id),
            _ => vstd::pervasive::unreached(),
        }
    }

    /// Writes a substate of the node from an encoded value: a component's
    /// state, an entry of a key-value store, or a unit of non-fungibles;
    /// `child_nodes` are the values that the written value now owns.
    pub fn write_value(
        &mut self,
        substate_id: SubstateId,
        value: ScryptoValue,
        child_nodes: AssocMap<RENodeId, REValue>,
    ) -> (r: Result<(), NodeToSubstateFailure>)
        requires
            substate_id is ComponentState || substate_id is KeyValueStoreEntry || substate_id is NonFungible,
            substate_id is ComponentState ==> can_set_component_state(*old(self)),
            substate_id is KeyValueStoreEntry ==> can_put_entry(*old(self)),
            substate_id is NonFungible ==> can_put_non_fungible(*old(self), value@),
            *old(self) is Track ==> values_persistable(child_nodes@),
        ensures
            substate_id is ComponentState ==> component_state_set_done(
                *old(self),
                *final(self),
                value@,
                child_nodes@,
                r,
            ),
            substate_id is KeyValueStoreEntry ==> kv_store_put_done(
                *old(self),
                *final(self),
                substate_id@->KeyValueStoreEntry_1,
                value@,
                child_nodes@,
                r,
            ),
            substate_id is NonFungible ==> r is Ok && non_fungible_put_done(
                *old(self),
                *final(self),
                substate_id@->NonFungible_1,
                value@,
            ),
    {
        match substate_id {
            SubstateId::ComponentState(..) => {
                self.component_state_set(value, child_nodes)?;
            },
            SubstateId::KeyValueStoreEntry(.., key) => {
                self.kv_store_put(key, value, child_nodes)?;
            },
            SubstateId::NonFungible(.., id) => self.non_fungible_put(id, value),
            _ => vstd::pervasive::unreached(),
        }
        Ok(())
    }

    /// Puts an encoded value at a key of the key-value store node, and keeps
    /// the values it owns: on the heap within the same value, in the track
    /// as substates.
    pub fn kv_store_put(
        &mut self,
        key: Vec<u8>,
        value: ScryptoValue,
        to_store: AssocMap<RENodeId, REValue>,
    ) -> (r: Result<(), NodeToSubstateFailure>)
        requires
            can_put_entry(*old(self)),
            *old(self) is Track ==> values_persistable(to_store@),
        ensures
            kv_store_put_done(*old(self), *final(self), key@, value@, to_store@, r),
    {
        let ghost key_view = key@;
        let ghost value_view = value@;
        match self {
            RENodeRefMut::Stack(re_value, id) => {
                let ghost before = **re_value;
                let node = re_value.get_mut(id.as_ref());
                let store = node.kv_store_mut();
                store.put(key, value);
                let ghost n = *node;
                let nodes = flatten_values(to_store);
                let ghost f = nodes@;
                re_value.insert_non_root_nodes(nodes);
                proof {
                    assert(n is KeyValueStore);
                    assert(stack_written(*old(self), *self, n, f));
                }
                Ok(())
            },
            RENodeRefMut::Track(track, node_id) => {
                let parent_substate_id = match node_id {
                    RENodeId::KeyValueStore(kv_store_id) => SubstateId::KeyValueStoreSpace(
                        *kv_store_id,
                    ),
                    _ => vstd::pervasive::unreached(),
                };
                track.set_key_value(
                    parent_substate_id,
                    key,
                    Substate::KeyValueStoreEntry(KeyValueStoreEntrySubstate(Some(value.raw))),
                );
                let ghost mid = **track;
                proof {
                    assert(entries_view(mid.key_values()) =~= entries_view(
                        mref_track(*old(self)).key_values(),
                    ).insert(
                        (key_value_space(*old(self)), key_view),
                        SubstateView::KeyValueStoreEntry(Some(value_view)),
                    ));
                }
                let nodes = flatten_values(to_store);
                let ghost f = nodes@;
                proof {
                    assert forall|c: RENodeId| #[trigger] nodes@.contains_key(c) implies persistable(c, nodes@[c]) by {}
                }
                let r = insert_non_root_nodes(track, nodes);
                proof {
                    assert(persisted(mid, mref_track(*self), f, r));
                }
                r
            },
        }
    }

    /// Reads the entry at a key of the key-value store node as an encoded
    /// optional value.
    pub fn kv_store_get(&mut self, key: &[u8]) -> (r: ScryptoValue)
        requires
            can_read_entry(*old(self), key@),
        ensures
            r@ == encode_option(entry_of(*old(self), key@)),
            *final(self) == *old(self),
    {
        let wrapper = match self {
            RENodeRefMut::Stack(re_value, id) => {
                let store = re_value.get(id.as_ref()).kv_store();
                match store.get(key) {
                    Some(v) => KeyValueStoreEntrySubstate(Some(crate::bytes::copy_bytes(v.raw.as_slice()))),
                    None => KeyValueStoreEntrySubstate(None),
                }
            },
            RENodeRefMut::Track(track, node_id) => {
                let parent_substate_id = match node_id {
                    RENodeId::KeyValueStore(kv_store_id) => SubstateId::KeyValueStoreSpace(
                        *kv_store_id,
                    ),
                    _ => vstd::pervasive::unreached(),
                };
                let substate_value = track.read_key_value(
                    parent_substate_id,
                    crate::bytes::copy_bytes(key),
                );
                substate_value.into_key_value_entry()
            },
        };
        encode_optional(&wrapper)
    }

    /// Reads a unit of the non-fungibles node as an encoded non-fungible
    /// slot.
    pub fn non_fungible_get(&mut self, id: &NonFungibleId) -> (r: ScryptoValue)
        requires
            can_read_non_fungible(*old(self), id@),
        ensures
            r@ == encode_non_fungible_substate(non_fungible_of(*old(self), id@)),
            *final(self) == *old(self),
    {
        let wrapper = match self {
            RENodeRefMut::Stack(value, re_id) => {
                let non_fungible_set = value.get(re_id.as_ref()).non_fungibles();
                match non_fungible_set.get(id.0.as_slice()) {
                    Some(v) => NonFungibleSubstate(Some(v.duplicate())),
                    None => NonFungibleSubstate(None),
                }
            },
            RENodeRefMut::Track(track, node_id) => {
                let parent_substate_id = match node_id {
                    RENodeId::ResourceManager(resource_address) => SubstateId::NonFungibleSpace(
                        *resource_address,
                    ),
                    _ => vstd::pervasive::unreached(),
                };
                let substate_value = track.read_key_value(parent_substate_id, id.to_vec());
                substate_value.into_non_fungible()
            },
        };
        encode_non_fungible(&wrapper)
    }

    /// Resets a unit of the stored non-fungibles to none.
    pub fn non_fungible_remove(&mut self, id: &NonFungibleId)
        requires
            *old(self) is Track,
            old(self)->Track_1 is ResourceManager,
        ensures
            non_fungible_removed(*old(self), *final(self), id@),
    {
        match self {
            RENodeRefMut::Stack(..) => vstd::pervasive::unreached(),
            RENodeRefMut::Track(track, node_id) => {
                let parent_substate_id = match node_id {
                    RENodeId::ResourceManager(resource_address) => SubstateId::NonFungibleSpace(
                        *resource_address,
                    ),
                    _ => vstd::pervasive::unreached(),
                };
                track.set_key_value(
                    parent_substate_id,
                    id.to_vec(),
                    Substate::NonFungible(NonFungibleSubstate(None)),
                );
            },
        }
    }

    /// Puts the unit decoded from an encoded value under an id of the
    /// non-fungibles node.
    pub fn non_fungible_put(&mut self, id: NonFungibleId, value: ScryptoValue)
        requires
            can_put_non_fungible(*old(self), value@),
        ensures
            non_fungible_put_done(*old(self), *final(self), id@, value@),
    {
        let ghost id_view = id@;
        let ghost decoded = decode_non_fungible_substate(value@)->Some_0;
        match self {
            RENodeRefMut::Stack(re_value, re_id) => {
                let wrapper = match decode_non_fungible(&value) {
                    Some(w) => w,
                    None => vstd::pervasive::unreached(),
                };
                let node = re_value.get_mut(re_id.as_ref());
                let non_fungible_set = node.non_fungibles_mut();
                if let Some(non_fungible) = wrapper.0 {
                    non_fungible_set.insert(id.0, non_fungible);
                } else {
                    vstd::pervasive::unreached()
                }
                let ghost n = *node;
                proof {
                    assert(n is NonFungibles);
                    assert(mref_stack_updated(*old(self), *self, n));
                }
            },
            RENodeRefMut::Track(track, node_id) => {
                let parent_substate_id = match node_id {
                    RENodeId::ResourceManager(resource_address) => SubstateId::NonFungibleSpace(
                        *resource_address,
                    ),
                    _ => vstd::pervasive::unreached(),
                };
                let wrapper = match decode_non_fungible(&value) {
                    Some(w) => w,
                    None => vstd::pervasive::unreached(),
                };
                let ghost before = entries_view(track.key_values());
                track.set_key_value(parent_substate_id, id.to_vec(), Substate::NonFungible(wrapper));
                proof {
                    assert(entries_view(track.key_values()) =~= before.insert(
                        (non_fungible_space(*old(self)), id_view),
                        SubstateView::NonFungible(decoded),
                    ));
                }
            },
        }
    }

    /// Sets the encoded state of the component node, and keeps the values
    /// it owns: on the heap within the same value, in the track as
    /// substates.
    pub fn component_state_set(&mut self, value: ScryptoValue, to_store: AssocMap<RENodeId, REValue>) -> (r:
        Result<(), NodeToSubstateFailure>)
        requires
            can_set_component_state(*old(self)),
            *old(self) is Track ==> values_persistable(to_store@),
        ensures
            component_state_set_done(*old(self), *final(self), value@, to_store@, r),
    {
        let ghost value_view = value@;
        match self {
            RENodeRefMut::Stack(re_value, id) => {
                let node = re_value.get_mut(id.as_ref());
                let component_state = node.component_state_mut();
                component_state.set_state(value.raw);
                let ghost n = *node;
                let nodes = flatten_values(to_store);
                let ghost f = nodes@;
                re_value.insert_non_root_nodes(nodes);
                proof {
                    assert(n is Component);
                    assert(stack_written(*old(self), *self, n, f));
                }
                Ok(())
            },
            RENodeRefMut::Track(track, node_id) => {
                let substate_id = match node_id {
                    RENodeId::Component(component_address) => SubstateId::ComponentState(
                        *component_address,
                    ),
                    _ => vstd::pervasive::unreached(),
                };
                *track.borrow_substate_mut(substate_id) = SubstateCache::Raw(
                    Substate::ComponentState(ComponentState::new(value.raw)),
                );
                let ghost mid = **track;
                let nodes = flatten_values(to_store);
                let ghost f = nodes@;
                proof {
                    assert forall|c: RENodeId| #[trigger] nodes@.contains_key(c) implies persistable(c, nodes@[c]) by {}
                }
                let r = insert_non_root_nodes(track, nodes);
                proof {
                    let key = SubstateKey::ComponentState(old(self)->Track_1->Component_0);
                    assert(mid.substates().dom() =~= mref_track(*old(self)).substates().dom());
                    assert(mid.substates()[key] is Raw && mid.substates()[key]->Raw_0 is ComponentState
                        && mid.substates()[key]->Raw_0->ComponentState_0@ == value_view);
                    assert(persisted(mid, mref_track(*self), f, r));
                }
                r
            },
        }
    }

    /// The info of the component node.
    pub fn component_info(&mut self) -> (r: &ComponentInfo)
        requires
            can_read_component_info(*old(self)),
        ensures
            *r == component_info_of(*old(self)),
            *final(self) == *old(self),
    {
        match self {
            RENodeRefMut::Stack(re_value, id) => re_value.get(id.as_ref()).component_info(),
            RENodeRefMut::Track(track, node_id) => {
                let substate_id = match node_id {
                    RENodeId::Component(component_address) => SubstateId::ComponentInfo(
                        *component_address,
                    ),
                    _ => vstd::pervasive::unreached(),
                };
                track.borrow_substate(substate_id).raw().component_info()
            },
        }
    }

    /// The state of the component node.
    pub fn component_state(&mut self) -> (r: &ComponentState)
        requires
            can_read_component_state(*old(self)),
        ensures
            *r == component_state_of(*old(self)),
            *final(self) == *old(self),
    {
        match self {
            RENodeRefMut::Stack(re_value, id) => re_value.get(id.as_ref()).component_state(),
            RENodeRefMut::Track(track, node_id) => {
                let substate_id = match node_id {
                    RENodeId::Component(component_address) => SubstateId::ComponentState(
                        *component_address,
                    ),
                    _ => vstd::pervasive::unreached(),
                };
                track.borrow_substate(substate_id).raw().component_state()
            },
        }
    }

    /// The vault of the vault node; a stored vault substate is turned into
    /// the vault node first.
    pub fn vault_mut(&mut self) -> (r: &mut Vault)
        requires
            *old(self) is Stack ==> mref_node_exists(*old(self)) && mref_node(*old(self)) is Vault,
            *old(self) is Track ==> old(self)->Track_1 is Vault && mref_track(
                *old(self),
            ).substates().contains_key(SubstateKey::Vault(old(self)->Track_1->Vault_0))
                && holds_vault(
                mref_track(*old(self)).substates()[SubstateKey::Vault(old(self)->Track_1->Vault_0)],
            ),
        ensures
            *old(self) is Stack ==> *r == mref_node(*old(self))->Vault_0 && mref_stack_updated(
                *old(self),
                *final(self),
                RENode::Vault(*final(r)),
            ),
            *old(self) is Track ==> {
                let key = SubstateKey::Vault(old(self)->Track_1->Vault_0);
                &&& *r == converted_vault(mref_track(*old(self)).substates()[key])
                &&& *final(self) is Track
                &&& final(self)->Track_1 == old(self)->Track_1
                &&& mref_track(*final(self)).substates() == mref_track(
                    *old(self),
                ).substates().insert(key, SubstateCache::Converted(*final(r)))
                &&& mref_track(*final(self)).locks() == mref_track(*old(self)).locks()
                &&& mref_track(*final(self)).key_values() == mref_track(*old(self)).key_values()
            },
    {
        match self {
            RENodeRefMut::Stack(re_value, id) => re_value.get_mut(id.as_ref()).vault_mut(),
            RENodeRefMut::Track(track, node_id) => {
                let substate_id = match node_id {
                    RENodeId::Vault(vault_id) => SubstateId::Vault(*vault_id),
                    _ => vstd::pervasive::unreached(),
                };
                let substate = track.borrow_substate_mut(substate_id);
                substate.convert_to_node();
                substate.vault_mut()
            },
        }
    }
}

/// The reference names a key-value store that entries can be put into.
pub open spec fn can_put_entry<'f>(r: RENodeRefMut<'f>) -> bool {
    &&& r is Stack ==> mref_node_exists(r) && mref_node(r) is KeyValueStore
    &&& r is Track ==> r->Track_1 is KeyValueStore
}

/// The reference names a component whose state can be set.
pub open spec fn can_set_component_state<'f>(r: RENodeRefMut<'f>) -> bool {
    &&& r is Stack ==> mref_node_exists(r) && mref_node(r) is Component
    &&& r is Track ==> r->Track_1 is Component && mref_track(r).substates().contains_key(
        SubstateKey::ComponentState(r->Track_1->Component_0),
    )
}

/// Checks that a stored value keeps exactly the nodes it owned: every node
/// it owned must still be owned (else the node was removed), and every
/// node it owns must have been owned before (else it was not found).
pub fn verify_stored_value_update(old: &[RENodeId], missing: &[RENodeId]) -> (r: Result<
    (),
    RuntimeError,
>)
    ensures
        r is Ok <==> (forall|x: RENodeId| old@.contains(x) <==> missing@.contains(x)),
        r matches Err(RuntimeError::KernelError(KernelError::StoredNodeRemoved(x))) ==> old@.contains(x)
            && !missing@.contains(x),
        (exists|x: RENodeId| old@.contains(x) && !missing@.contains(x)) ==> r matches Err(
            RuntimeError::KernelError(KernelError::StoredNodeRemoved(_)),
        ),
        r matches Err(RuntimeError::KernelError(KernelError::RENodeNotFound(y))) ==> missing@.contains(y)
            && !old@.contains(y),
        r is Err ==> (r matches Err(RuntimeError::KernelError(KernelError::StoredNodeRemoved(_))))
            || (r matches Err(RuntimeError::KernelError(KernelError::RENodeNotFound(_)))),
{
    let mut i: usize = 0;
    while i < old.len()
        invariant
            i <= old@.len(),
            forall|j: int| 0 <= j < i ==> missing@.contains(#[trigger] old@[j]),
        decreases old@.len() - i,
    {
        let old_id = old[i];
        if !contains_id(missing, &old_id) {
            return Err(RuntimeError::KernelError(KernelError::StoredNodeRemoved(old_id)));
        }
        i = i + 1;
    }
    proof {
        assert forall|x: RENodeId| old@.contains(x) implies missing@.contains(x) by {
            let j = choose|j: int| 0 <= j < old@.len() && old@[j] == x;
            assert(missing@.contains(old@[j]));
        }
    }
    let mut k: usize = 0;
    while k < missing.len()
        invariant
            k <= missing@.len(),
            forall|x: RENodeId| old@.contains(x) ==> missing@.contains(x),
            forall|j: int| 0 <= j < k ==> old@.contains(#[trigger] missing@[j]),
        decreases missing@.len() - k,
    {
        let missing_id = missing[k];
        if !contains_id(old, &missing_id) {
            return Err(RuntimeError::KernelError(KernelError::RENodeNotFound(missing_id)));
        }
        k = k + 1;
    }
    proof {
        assert forall|x: RENodeId| missing@.contains(x) implies old@.contains(x) by {
            let j = choose|j: int| 0 <= j < missing@.len() && missing@[j] == x;
            assert(old@.contains(missing@[j]));
        }
    }
    Ok(())
}

fn contains_id(ids: &[RENodeId], id: &RENodeId) -> (r: bool)
    ensures
        r == ids@.contains(*id),
{
    let mut i: usize = 0;
    while i < ids.len()
        invariant
            i <= ids@.len(),
            forall|j: int| 0 <= j < i ==> ids@[j] != *id,
        decreases ids@.len() - i,
    {
        if ids[i] == *id {
            return true;
        }
        i = i + 1;
    }
    false
}

/// A heap node can be persisted under `id`: a vault, component or
/// key-value store node under an id of its kind.
pub open spec fn persistable(id: RENodeId, n: RENode) -> bool {
    ||| (n is Vault && id is Vault)
    ||| (n is Component && id is Component)
    ||| (n is KeyValueStore && id is KeyValueStore)
}

/// Some node of `m` is a vault with part of it locked.
pub open spec fn has_locked_vault(m: Map<RENodeId, RENode>) -> bool {
    exists|id: RENodeId| #[trigger] m.contains_key(id) && m[id] is Vault && m[id]->Vault_0.locked_amount != 0
}

/// Persisting the nodes of `m` creates a substate at `k`.
pub open spec fn creates(m: Map<RENodeId, RENode>, k: SubstateKey) -> bool {
    match k {
        SubstateKey::Vault(a) => m.contains_key(RENodeId::Vault(a)),
        SubstateKey::ComponentInfo(a) => m.contains_key(RENodeId::Component(a)),
        SubstateKey::ComponentState(a) => m.contains_key(RENodeId::Component(a)),
        _ => false,
    }
}

/// The substate that persisting the nodes of `m` creates at `k`.
pub open spec fn created_value(m: Map<RENodeId, RENode>, k: SubstateKey) -> SubstateCache {
    match k {
        SubstateKey::Vault(a) => SubstateCache::Raw(
            Substate::Vault(VaultSubstate(m[RENodeId::Vault(a)]->Vault_0.resource)),
        ),
        SubstateKey::ComponentInfo(a) => SubstateCache::Raw(
            Substate::ComponentInfo(m[RENodeId::Component(a)]->Component_0),
        ),
        SubstateKey::ComponentState(a) => SubstateCache::Raw(
            Substate::ComponentState(m[RENodeId::Component(a)]->Component_1),
        ),
        _ => arbitrary(),
    }
}

/// The substates that persisting the nodes of `m` creates.
pub open spec fn created_substates(m: Map<RENodeId, RENode>) -> Map<SubstateKey, SubstateCache> {
    Map::new(|k: SubstateKey| creates(m, k), |k: SubstateKey| created_value(m, k))
}

/// Persisting the nodes of `m` writes an entry at `k`.
pub open spec fn writes_entry(m: Map<RENodeId, RENode>, k: (SubstateKey, Seq<u8>)) -> bool {
    k.0 is KeyValueStoreSpace && m.contains_key(RENodeId::KeyValueStore(k.0->KeyValueStoreSpace_0))
        && m[RENodeId::KeyValueStore(
        k.0->KeyValueStoreSpace_0,
    )] is KeyValueStore && m[RENodeId::KeyValueStore(
        k.0->KeyValueStoreSpace_0,
    )]->KeyValueStore_0.store@.contains_key(k.1)
}

/// The entries that persisting the nodes of `m` writes.
pub open spec fn written_entries(m: Map<RENodeId, RENode>) -> Map<(SubstateKey, Seq<u8>), SubstateView> {
    Map::new(
        |k: (SubstateKey, Seq<u8>)| writes_entry(m, k),
        |k: (SubstateKey, Seq<u8>)|
            SubstateView::KeyValueStoreEntry(
                Some(
                    m[RENodeId::KeyValueStore(
                        k.0->KeyValueStoreSpace_0,
                    )]->KeyValueStore_0.store@[k.1],
                ),
            ),
    )
}

/// The views of the written entries of a track.
pub open spec fn entries_view(kv: Map<(SubstateKey, Seq<u8>), Substate>) -> Map<
    (SubstateKey, Seq<u8>),
    SubstateView,
> {
    kv.map_values(|s: Substate| s@)
}

/// `new` is `old` with the nodes `done` of `m` persisted, and none of the
/// others: `done` holds no partly locked vault, and some partly locked vault
/// of `m` is not among them.
pub open spec fn partly_persisted(
    old: Track,
    new: Track,
    m: Map<RENodeId, RENode>,
    done: Map<RENodeId, RENode>,
) -> bool {
    &&& forall|id: RENodeId| #[trigger] done.contains_key(id) ==> m.contains_key(id) && m[id] == done[id]
    &&& !has_locked_vault(done)
    &&& exists|id: RENodeId|
        #[trigger] m.contains_key(id) && !done.contains_key(id) && m[id] is Vault
            && m[id]->Vault_0.locked_amount != 0
    &&& new.substates() == old.substates().union_prefer_right(created_substates(done))
    &&& entries_view(new.key_values()) == entries_view(old.key_values()).union_prefer_right(
        written_entries(done),
    )
}

/// `new` and `r` are what persisting the nodes of `m` into `old` leads to:
/// it fails exactly when some vault is partly locked, having persisted only
/// some of the other nodes (which ones depends on the order they are taken
/// in) and not that vault; otherwise each vault becomes a vault substate,
/// each component its info and state substates, and each key-value store
/// its entries.
pub open spec fn persisted(old: Track, new: Track, m: Map<RENodeId, RENode>, r: Result<(), NodeToSubstateFailure>) -> bool {
    &&& new.locks() == old.locks()
    &&& (r is Err <==> has_locked_vault(m))
    &&& (r is Err ==> r == Err::<(), NodeToSubstateFailure>(NodeToSubstateFailure::VaultPartiallyLocked))
    &&& (r is Err ==> exists|done: Map<RENodeId, RENode>| #[trigger] partly_persisted(old, new, m, done))
    &&& (r is Ok ==> new.substates() == old.substates().union_prefer_right(created_substates(m)))
    &&& (r is Ok ==> entries_view(new.key_values()) == entries_view(old.key_values()).union_prefer_right(written_entries(m)))
}

fn persist_key_value_store(track: &mut Track, kv_id: u64, store: HeapKeyValueStore)
    ensures
        final(track).substates() == old(track).substates(),
        final(track).locks() == old(track).locks(),
        entries_view(final(track).key_values()) == entries_view(old(track).key_values()).union_prefer_right(
            written_entries(map![RENodeId::KeyValueStore(kv_id) => RENode::KeyValueStore(store)]),
        ),
{
    let ghost m = map![RENodeId::KeyValueStore(kv_id) => RENode::KeyValueStore(store)];
    let ghost all = store.store@;
    let ghost target = entries_view(old(track).key_values()).union_prefer_right(written_entries(m));
    let mut entries = store.store;
    let ghost space = SubstateKey::KeyValueStoreSpace(kv_id);
    proof {
        assert(written_entries(m) =~= Map::new(
            |k: (SubstateKey, Seq<u8>)| k.0 == space && all.contains_key(k.1),
            |k: (SubstateKey, Seq<u8>)| SubstateView::KeyValueStoreEntry(Some(all[k.1])),
        ));
    }
    while entries.len() > 0
        invariant
            track.substates() == old(track).substates(),
            track.locks() == old(track).locks(),
            space == SubstateKey::KeyValueStoreSpace(kv_id),
            forall|k: Seq<u8>| #[trigger] entries@.contains_key(k) ==> all.contains_key(k) && entries@[k] == all[k],
            entries_view(track.key_values()).union_prefer_right(Map::new(
                |k: (SubstateKey, Seq<u8>)| k.0 == space && entries@.contains_key(k.1),
                |k: (SubstateKey, Seq<u8>)| SubstateView::KeyValueStoreEntry(Some(entries@[k.1])),
            )) == target,
        decreases entries.size(),
    {
        let ghost before_entries = entries@;
        let ghost before_kv = entries_view(track.key_values());
        let n = entries.len();
        match entries.pop() {
            Some((k, v)) => {
                let ghost kk = k@;
                let ghost vv = v@;
                track.set_key_value(
                    SubstateId::KeyValueStoreSpace(kv_id),
                    k,
                    Substate::KeyValueStoreEntry(KeyValueStoreEntrySubstate(Some(v.raw))),
                );
                proof {
                    assert(entries_view(track.key_values()) =~= before_kv.insert(
                        (space, kk),
                        SubstateView::KeyValueStoreEntry(Some(vv)),
                    ));
                    assert forall|x: Seq<u8>| #[trigger] entries@.contains_key(x) implies all.contains_key(x) && entries@[x] == all[x] by {
                        assert(before_entries.contains_key(x));
                    }
                    let rest = Map::new(
                        |k: (SubstateKey, Seq<u8>)| k.0 == space && entries@.contains_key(k.1),
                        |k: (SubstateKey, Seq<u8>)| SubstateView::KeyValueStoreEntry(Some(entries@[k.1])),
                    );
                    let prev = Map::new(
                        |k: (SubstateKey, Seq<u8>)| k.0 == space && before_entries.contains_key(k.1),
                        |k: (SubstateKey, Seq<u8>)| SubstateView::KeyValueStoreEntry(Some(before_entries[k.1])),
                    );
                    assert(before_kv.union_prefer_right(prev) =~= before_kv.insert(
                        (space, kk),
                        SubstateView::KeyValueStoreEntry(Some(vv)),
                    ).union_prefer_right(rest));
                }
            },
            None => vstd::pervasive::unreached(),
        }
    }
    proof {
        let rest = Map::new(
            |k: (SubstateKey, Seq<u8>)| k.0 == space && entries@.contains_key(k.1),
            |k: (SubstateKey, Seq<u8>)| SubstateView::KeyValueStoreEntry(Some(entries@[k.1])),
        );
        assert(entries_view(track.key_values()).union_prefer_right(rest) =~= entries_view(track.key_values()));
    }
}

fn persist_node(track: &mut Track, id: RENodeId, node: RENode) -> (r: Result<(), NodeToSubstateFailure>)
    requires
        persistable(id, node),
    ensures
        persisted(*old(track), *final(track), map![id => node], r),
        r is Err ==> same_track(*old(track), *final(track)),
{
    let ghost m = map![id => node];
    match node {
        RENode::Vault(vault) => {
            let resource = match vault.resource() {
                Ok(resource) => resource,
                Err(_) => {
                    assert(m.contains_key(id));
                    proof {
                        let none = Map::<RENodeId, RENode>::empty();
                        assert(created_substates(none) =~= Map::empty());
                        assert(written_entries(none) =~= Map::empty());
                        assert(track.substates() =~= old(track).substates().union_prefer_right(created_substates(none)));
                        assert(entries_view(track.key_values()) =~= entries_view(old(track).key_values()).union_prefer_right(written_entries(none)));
                        assert(partly_persisted(*old(track), *track, m, none));
                    }
                    return Err(NodeToSubstateFailure::VaultPartiallyLocked);
                },
            };
            let vault_id = match id {
                RENodeId::Vault(v) => v,
                _ => vstd::pervasive::unreached(),
            };
            track.create_uuid_substate(SubstateId::Vault(vault_id), Substate::Vault(VaultSubstate(resource)));
            proof {
                assert(created_substates(m) =~= map![SubstateKey::Vault(vault_id) => SubstateCache::Raw(Substate::Vault(VaultSubstate(resource)))]);
                assert(track.substates() =~= old(track).substates().union_prefer_right(created_substates(m)));
                assert(written_entries(m) =~= Map::empty());
                assert(entries_view(track.key_values()) =~= entries_view(old(track).key_values()).union_prefer_right(written_entries(m)));
                assert(!has_locked_vault(m));
            }
            Ok(())
        },
        RENode::Component(component, component_state) => {
            let component_address = match id {
                RENodeId::Component(a) => a,
                _ => vstd::pervasive::unreached(),
            };
            let ghost info = component;
            let ghost state = component_state;
            track.create_uuid_substate(SubstateId::ComponentInfo(component_address), Substate::ComponentInfo(component));
            track.create_uuid_substate(
                SubstateId::ComponentState(component_address),
                Substate::ComponentState(component_state),
            );
            proof {
                assert(created_substates(m) =~= map![
                    SubstateKey::ComponentInfo(component_address) => SubstateCache::Raw(Substate::ComponentInfo(info)),
                    SubstateKey::ComponentState(component_address) => SubstateCache::Raw(Substate::ComponentState(state))
                ]);
                assert(track.substates() =~= old(track).substates().union_prefer_right(created_substates(m)));
                assert(written_entries(m) =~= Map::empty());
                assert(entries_view(track.key_values()) =~= entries_view(old(track).key_values()).union_prefer_right(written_entries(m)));
                assert(!has_locked_vault(m));
            }
            Ok(())
        },
        RENode::KeyValueStore(store) => {
            let kv_id = match id {
                RENodeId::KeyValueStore(k) => k,
                _ => vstd::pervasive::unreached(),
            };
            persist_key_value_store(track, kv_id, store);
            proof {
                assert(created_substates(m) =~= Map::empty());
                assert(track.substates() =~= old(track).substates().union_prefer_right(created_substates(m)));
                assert(!has_locked_vault(m));
            }
            Ok(())
        },
        _ => vstd::pervasive::unreached(),
    }
}

/// Persists heap nodes into the track: vaults, components and key-value
/// stores become substates and entries. Fails when a vault is partly
/// locked.
pub fn insert_non_root_nodes(track: &mut Track, values: AssocMap<RENodeId, RENode>) -> (r: Result<
    (),
    NodeToSubstateFailure,
>)
    requires
        forall|id: RENodeId| #[trigger] values@.contains_key(id) ==> persistable(id, values@[id]),
    ensures
        persisted(*old(track), *final(track), values@, r),
{
    let mut remaining = values;
    let ghost all = remaining@;
    let ghost mut done: Map<RENodeId, RENode> = Map::empty();
    proof {
        assert(created_substates(done) =~= Map::empty());
        assert(written_entries(done) =~= Map::empty());
        assert(track.substates() =~= old(track).substates().union_prefer_right(created_substates(done)));
        assert(entries_view(track.key_values()) =~= entries_view(old(track).key_values()).union_prefer_right(written_entries(done)));
        assert(all =~= done.union_prefer_right(remaining@));
    }
    while !remaining.is_empty()
        invariant
            all == values@,
            all == done.union_prefer_right(remaining@),
            forall|id: RENodeId| #[trigger] done.contains_key(id) ==> !remaining@.contains_key(id),
            forall|id: RENodeId| #[trigger] all.contains_key(id) ==> persistable(id, all[id]),
            !has_locked_vault(done),
            track.locks() == old(track).locks(),
            track.substates() == old(track).substates().union_prefer_right(created_substates(done)),
            entries_view(track.key_values()) == entries_view(old(track).key_values()).union_prefer_right(written_entries(done)),
        decreases remaining.size(),
    {
        let ghost before = remaining@;
        let ghost before_track = *track;
        match remaining.pop() {
            Some((id, node)) => {
                let ghost n = node;
                proof {
                    assert(all.contains_key(id) && all[id] == node);
                }
                match persist_node(track, id, node) {
                    Ok(()) => {},
                    Err(e) => {
                        proof {
                            let single = map![id => n];
                            assert(has_locked_vault(single));
                            let x = choose|x: RENodeId| #[trigger] single.contains_key(x) && single[x] is Vault && single[x]->Vault_0.locked_amount != 0;
                            assert(x == id);
                            assert(all.contains_key(id) && all[id] is Vault && all[id]->Vault_0.locked_amount != 0);
                            assert(has_locked_vault(all));
                            assert(before.contains_key(id));
                            assert(!done.contains_key(id));
                            assert forall|x: RENodeId| #[trigger] done.contains_key(x) implies all.contains_key(x) && all[x] == done[x] by {
                                assert(!before.contains_key(x));
                            }
                            assert(partly_persisted(*old(track), *track, all, done));
                        }
                        return Err(e);
                    },
                }
                proof {
                    let single = map![id => n];
                    let done2 = done.insert(id, n);
                    assert(!done.contains_key(id));
                    assert(created_substates(done2) =~= created_substates(done).union_prefer_right(created_substates(single)));
                    assert(written_entries(done2) =~= written_entries(done).union_prefer_right(written_entries(single)));
                    assert(track.substates() =~= old(track).substates().union_prefer_right(created_substates(done2)));
                    assert(entries_view(track.key_values()) =~= entries_view(old(track).key_values()).union_prefer_right(written_entries(done2)));
                    assert(!has_locked_vault(done2)) by {
                        if has_locked_vault(done2) {
                            let x = choose|x: RENodeId| #[trigger] done2.contains_key(x) && done2[x] is Vault && done2[x]->Vault_0.locked_amount != 0;
                            if x == id {
                                assert(single.contains_key(id));
                                assert(has_locked_vault(single));
                            } else {
                                assert(done.contains_key(x));
                            }
                        }
                    }
                    assert forall|x: RENodeId| #[trigger] done2.contains_key(x) implies !remaining@.contains_key(x) by {
                        if x != id {
                            assert(before.contains_key(x) ==> !done.contains_key(x));
                        }
                    }
                    assert(all =~= done2.union_prefer_right(remaining@));
                    done = done2;
                }
            },
            None => vstd::pervasive::unreached(),
        }
    }
    proof {
        assert(all =~= done);
    }
    Ok(())
}

/// Taking a heap value out for native code and putting it back leaves the
/// call frames as they were.
pub proof fn lemma_heap_borrow_return_restores(
    frames0: Seq<CallFrame>,
    frames1: Seq<CallFrame>,
    frames2: Seq<CallFrame>,
    f: int,
    root: RENodeId,
)
    requires
        0 <= f < frames0.len(),
        frames0[f].owned_heap_nodes@.contains_key(root),
        frames_updated(frames0, frames1, f, frames0[f].owned_heap_nodes@.remove(root)),
        frames_updated(
            frames1,
            frames2,
            f,
            frames1[f].owned_heap_nodes@.insert(root, frames0[f].owned_heap_nodes@[root]),
        ),
    ensures
        frames2.len() == frames0.len(),
        forall|i: int| 0 <= i < frames0.len() && i != f ==> frames2[i] == frames0[i],
        frames2[f].owned_heap_nodes@ == frames0[f].owned_heap_nodes@,
{
    assert(frames2[f].owned_heap_nodes@ =~= frames0[f].owned_heap_nodes@);
}

/// Taking a stored substate out for native code and putting it back leaves
/// the track as it was.
pub proof fn lemma_store_borrow_return_restores(t0: Track, t1: Track, t2: Track, key: SubstateKey)
    requires
        t0.substates().contains_key(key),
        t1.substates() == t0.substates().remove(key),
        t1.locks() == t0.locks(),
        t1.key_values() == t0.key_values(),
        t2.substates() == t1.substates().insert(key, t0.substates()[key]),
        t2.locks() == t1.locks(),
        t2.key_values() == t1.key_values(),
    ensures
        same_track(t0, t2),
{
    assert(t2.substates() =~= t0.substates());
}

} // verus!
