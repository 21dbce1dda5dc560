use radix_engine::assoc::AssocMap;
use radix_engine::bytes::ByteMap;
use radix_engine::errors::{KernelError, NodeToSubstateFailure, RuntimeError, TrackError};
use radix_engine::model::{
    decode_non_fungible, encode_non_fungible, encode_optional, Bucket, ComponentInfo,
    ComponentState, HeapKeyValueStore, KeyValueStoreEntrySubstate, NonFungible,
    NonFungibleSubstate, Resource, ScryptoValue, System, Vault, VaultSubstate,
};
use radix_engine::node_ref::{
    insert_non_root_nodes, verify_stored_value_update, CallFrame, NativeSubstateRef,
    RENodePointer, RENodeRef, RENodeRefMut,
};
use radix_engine::track::{Substate, SubstateCache, Track};
use radix_engine::types::{NonFungibleId, RENodeId, SubstateId};
use radix_engine::values::{RENode, REValue};

fn resource() -> Resource {
    Resource { resource_address: 5, amount: 100 }
}

fn value(root: RENode) -> REValue {
    REValue { root, non_root_nodes: AssocMap::new() }
}

fn frame_with(id: RENodeId, v: REValue) -> CallFrame {
    let mut owned = AssocMap::new();
    owned.insert(id, v);
    CallFrame { owned_heap_nodes: owned }
}

#[test]
fn test_child_pointer() {
    let heap = RENodePointer::Heap { frame_id: 1, root: RENodeId::Bucket(3), id: None };
    assert_eq!(
        heap.child(RENodeId::Vault(4)),
        RENodePointer::Heap { frame_id: 1, root: RENodeId::Bucket(3), id: Some(RENodeId::Vault(4)) }
    );
    let store = RENodePointer::Store(RENodeId::Component(2));
    assert_eq!(store.child(RENodeId::Vault(4)), RENodePointer::Store(RENodeId::Vault(4)));
}

#[test]
fn test_heap_pointer_needs_no_lock() {
    let mut track = Track::new();
    let heap = RENodePointer::Heap { frame_id: 0, root: RENodeId::Bucket(3), id: None };
    assert_eq!(heap.acquire_lock(SubstateId::Bucket(3), true, false, &mut track), Ok(()));
    assert_eq!(heap.release_lock(SubstateId::Bucket(3), false, &mut track), Ok(()));
    let store = RENodePointer::Store(RENodeId::System(1));
    assert_eq!(
        store.acquire_lock(SubstateId::System(1), true, false, &mut track),
        Err(KernelError::SubstateError(TrackError::NotFound(SubstateId::System(1))))
    );
    track.create_uuid_substate(SubstateId::System(1), Substate::System(System { epoch: 1 }));
    assert_eq!(store.acquire_lock(SubstateId::System(1), true, false, &mut track), Ok(()));
    assert_eq!(
        store.acquire_lock(SubstateId::System(1), false, false, &mut track),
        Err(KernelError::SubstateError(TrackError::SubstateLocked(SubstateId::System(1))))
    );
    assert_eq!(store.release_lock(SubstateId::System(1), false, &mut track), Ok(()));
}

#[test]
fn test_borrow_and_return_heap_bucket() {
    let bucket = Bucket { resource: resource(), locked: false };
    let mut frames = vec![frame_with(RENodeId::Bucket(3), value(RENode::Bucket(bucket)))];
    let mut track = Track::new();
    let pointer = RENodePointer::Heap { frame_id: 0, root: RENodeId::Bucket(3), id: None };
    let mut native = pointer.borrow_native_ref(SubstateId::Bucket(3), &mut frames, &mut track);
    assert!(!frames[0].owned_heap_nodes.contains_key(&RENodeId::Bucket(3)));
    native.bucket_mut().locked = true;
    native.return_to_location(&mut frames, &mut track);
    match frames[0].owned_heap_nodes.get(&RENodeId::Bucket(3)) {
        Some(v) => assert_eq!(v.root.bucket(), &Bucket { resource: resource(), locked: true }),
        None => panic!("the bucket is back"),
    }
}

#[test]
fn test_borrow_and_return_stored_vault() {
    let mut frames: Vec<CallFrame> = vec![];
    let mut track = Track::new();
    track.create_uuid_substate(SubstateId::Vault(7), Substate::Vault(VaultSubstate(resource())));
    let pointer = RENodePointer::Store(RENodeId::Vault(7));
    let mut native = pointer.borrow_native_ref(SubstateId::Vault(7), &mut frames, &mut track);
    assert!(!track.contains_substate(&SubstateId::Vault(7)));
    assert!(matches!(native, NativeSubstateRef::Track(..)));
    native.vault_mut().locked_amount = 4;
    native.return_to_location(&mut frames, &mut track);
    match track.borrow_substate(SubstateId::Vault(7)) {
        SubstateCache::Converted(v) => {
            assert_eq!(*v, Vault { resource: resource(), locked_amount: 4 })
        }
        _ => panic!("expected the vault node"),
    }
}

#[test]
fn test_to_ref_reads_heap_and_store() {
    let frames = vec![frame_with(
        RENodeId::Component(1),
        value(RENode::Component(
            ComponentInfo { package_address: 2, blueprint_name: b"B".to_vec() },
            ComponentState::new(vec![4]),
        )),
    )];
    let mut track = Track::new();
    track.create_uuid_substate(SubstateId::System(9), Substate::System(System { epoch: 6 }));
    {
        let heap = RENodePointer::Heap { frame_id: 0, root: RENodeId::Component(1), id: None };
        let r = heap.to_ref(&frames, &mut track);
        assert_eq!(r.component_state().state(), &[4u8][..]);
        assert_eq!(r.component_info().package_address, 2);
    }
    {
        let store = RENodePointer::Store(RENodeId::System(9));
        let r = store.to_ref(&frames, &mut track);
        assert!(matches!(r, RENodeRef::Track(..)));
        assert_eq!(r.system(), &System { epoch: 6 });
    }
}

#[test]
fn test_kv_store_put_and_get_on_heap() {
    let mut frames = vec![frame_with(
        RENodeId::KeyValueStore(1),
        value(RENode::KeyValueStore(HeapKeyValueStore::new())),
    )];
    let mut track = Track::new();
    let pointer = RENodePointer::Heap { frame_id: 0, root: RENodeId::KeyValueStore(1), id: None };
    let mut r = pointer.to_ref_mut(&mut frames, &mut track);
    assert_eq!(r.kv_store_get(b"k"), ScryptoValue { raw: encode_optional(&KeyValueStoreEntrySubstate(None)).raw });
    let mut children = AssocMap::new();
    children.insert(RENodeId::Vault(2), value(RENode::Vault(Vault::new(resource()))));
    assert_eq!(r.kv_store_put(b"k".to_vec(), ScryptoValue { raw: vec![3] }, children), Ok(()));
    assert_eq!(
        r.kv_store_get(b"k"),
        encode_optional(&KeyValueStoreEntrySubstate(Some(vec![3])))
    );
    let v = frames[0].owned_heap_nodes.get(&RENodeId::KeyValueStore(1)).expect("kept");
    assert!(v.non_root_nodes.contains_key(&RENodeId::Vault(2)));
}

#[test]
fn test_kv_store_put_and_get_in_track() {
    let mut track = Track::new();
    let mut r = RENodeRefMut::Track(&mut track, RENodeId::KeyValueStore(4));
    let mut children = AssocMap::new();
    children.insert(RENodeId::Vault(2), value(RENode::Vault(Vault::new(resource()))));
    assert_eq!(r.kv_store_put(vec![1], ScryptoValue { raw: vec![8, 9] }, children), Ok(()));
    assert_eq!(
        r.kv_store_get(&[1]),
        encode_optional(&KeyValueStoreEntrySubstate(Some(vec![8, 9])))
    );
    assert_eq!(r.kv_store_get(&[2]), encode_optional(&KeyValueStoreEntrySubstate(None)));
    assert!(track.contains_substate(&SubstateId::Vault(2)));
}

#[test]
fn test_kv_store_put_fails_on_locked_vault() {
    let mut track = Track::new();
    let mut r = RENodeRefMut::Track(&mut track, RENodeId::KeyValueStore(4));
    let mut children = AssocMap::new();
    children.insert(
        RENodeId::Vault(2),
        value(RENode::Vault(Vault { resource: resource(), locked_amount: 1 })),
    );
    assert_eq!(
        r.kv_store_put(vec![1], ScryptoValue { raw: vec![8] }, children),
        Err(NodeToSubstateFailure::VaultPartiallyLocked)
    );
}

#[test]
fn test_non_fungibles_on_heap() {
    let mut frames = vec![frame_with(
        RENodeId::ResourceManager(1),
        value(RENode::NonFungibles(ByteMap::new())),
    )];
    let mut track = Track::new();
    let pointer = RENodePointer::Heap { frame_id: 0, root: RENodeId::ResourceManager(1), id: None };
    let mut r = pointer.to_ref_mut(&mut frames, &mut track);
    let id = NonFungibleId::from_u32(5);
    assert_eq!(r.non_fungible_get(&id), encode_non_fungible(&NonFungibleSubstate(None)));
    let nf = NonFungible { immutable_data: vec![1], mutable_data: vec![2, 3] };
    let encoded = encode_non_fungible(&NonFungibleSubstate(Some(nf)));
    r.non_fungible_put(NonFungibleId::from_u32(5), ScryptoValue { raw: encoded.raw.clone() });
    assert_eq!(r.non_fungible_get(&id), encoded);
    let read = r
        .read_scrypto_value(&SubstateId::NonFungible(1, NonFungibleId::from_u32(5)))
        .expect("readable");
    assert_eq!(
        decode_non_fungible(&read),
        Some(NonFungibleSubstate(Some(NonFungible { immutable_data: vec![1], mutable_data: vec![2, 3] })))
    );
}

#[test]
fn test_non_fungibles_in_track() {
    let mut track = Track::new();
    let mut r = RENodeRefMut::Track(&mut track, RENodeId::ResourceManager(1));
    let id = NonFungibleId::from_u32(5);
    let nf = NonFungible { immutable_data: vec![1], mutable_data: vec![] };
    let encoded = encode_non_fungible(&NonFungibleSubstate(Some(nf)));
    r.write_value(
        SubstateId::NonFungible(1, NonFungibleId::from_u32(5)),
        ScryptoValue { raw: encoded.raw.clone() },
        AssocMap::new(),
    )
    .expect("written");
    assert_eq!(r.non_fungible_get(&id), encoded);
    r.replace_value_with_default(&SubstateId::NonFungible(1, NonFungibleId::from_u32(5)));
    assert_eq!(r.non_fungible_get(&id), encode_non_fungible(&NonFungibleSubstate(None)));
}

#[test]
fn test_component_state_set_in_track_and_heap() {
    let mut track = Track::new();
    track.create_uuid_substate(
        SubstateId::ComponentState(3),
        Substate::ComponentState(ComponentState::new(vec![1])),
    );
    {
        let mut r = RENodeRefMut::Track(&mut track, RENodeId::Component(3));
        assert_eq!(
            r.read_scrypto_value(&SubstateId::ComponentState(3)),
            Ok(ScryptoValue { raw: vec![1] })
        );
        assert_eq!(r.component_state_set(ScryptoValue { raw: vec![2, 2] }, AssocMap::new()), Ok(()));
        assert_eq!(r.component_state().state(), &[2u8, 2][..]);
    }
    let mut heap_value = value(RENode::Component(
        ComponentInfo { package_address: 1, blueprint_name: vec![] },
        ComponentState::new(vec![]),
    ));
    let mut r = RENodeRefMut::Stack(&mut heap_value, None);
    r.write_value(SubstateId::ComponentState(3), ScryptoValue { raw: vec![6] }, AssocMap::new())
        .expect("written");
    assert_eq!(r.component_state().state(), &[6u8][..]);
    let info = r.read_scrypto_value(&SubstateId::ComponentInfo(3)).expect("readable");
    assert_eq!(info, ComponentInfo { package_address: 1, blueprint_name: vec![] }.info());
}

#[test]
fn test_insert_non_root_nodes() {
    let mut track = Track::new();
    let mut nodes = AssocMap::new();
    nodes.insert(RENodeId::Vault(1), RENode::Vault(Vault::new(resource())));
    nodes.insert(
        RENodeId::Component(2),
        RENode::Component(
            ComponentInfo { package_address: 1, blueprint_name: vec![] },
            ComponentState::new(vec![1]),
        ),
    );
    let mut store = HeapKeyValueStore::new();
    store.put(vec![9], ScryptoValue { raw: vec![10] });
    nodes.insert(RENodeId::KeyValueStore(3), RENode::KeyValueStore(store));
    assert_eq!(insert_non_root_nodes(&mut track, nodes), Ok(()));
    assert!(track.contains_substate(&SubstateId::Vault(1)));
    assert!(track.contains_substate(&SubstateId::ComponentInfo(2)));
    assert!(track.contains_substate(&SubstateId::ComponentState(2)));
    match track.read_key_value(SubstateId::KeyValueStoreSpace(3), vec![9]) {
        Substate::KeyValueStoreEntry(e) => assert_eq!(e, KeyValueStoreEntrySubstate(Some(vec![10]))),
        _ => panic!("expected an entry"),
    }
    let mut locked = AssocMap::new();
    locked.insert(RENodeId::Vault(4), RENode::Vault(Vault { resource: resource(), locked_amount: 2 }));
    assert_eq!(
        insert_non_root_nodes(&mut track, locked),
        Err(NodeToSubstateFailure::VaultPartiallyLocked)
    );
}

#[test]
fn test_verify_stored_value_update() {
    let a = RENodeId::Vault(1);
    let b = RENodeId::Vault(2);
    assert_eq!(verify_stored_value_update(&[a, b], &[b, a]), Ok(()));
    assert_eq!(
        verify_stored_value_update(&[a, b], &[a]),
        Err(RuntimeError::KernelError(KernelError::StoredNodeRemoved(b)))
    );
    assert_eq!(
        verify_stored_value_update(&[a], &[a, b]),
        Err(RuntimeError::KernelError(KernelError::RENodeNotFound(b)))
    );
    assert_eq!(verify_stored_value_update(&[], &[]), Ok(()));
}

#[test]
fn test_native_accessors() {
    let mut track = Track::new();
    let mut frames: Vec<CallFrame> = vec![];
    track.create_uuid_substate(SubstateId::System(1), Substate::System(System { epoch: 2 }));
    let pointer = RENodePointer::Store(RENodeId::System(1));
    let mut native = pointer.borrow_native_ref(SubstateId::System(1), &mut frames, &mut track);
    native.system_mut().epoch = 3;
    native.return_to_location(&mut frames, &mut track);
    assert_eq!(track.borrow_substate(SubstateId::System(1)).raw().system(), &System { epoch: 3 });
}
