use radix_engine::assoc::AssocMap;
use radix_engine::bytes::ByteMap;
use radix_engine::errors::{DropFailure, RuntimeError};
use radix_engine::model::{
    Bucket, ComponentInfo, ComponentState, HeapKeyValueStore, Package, Proof, Resource, Vault,
    Worktop,
};
use radix_engine::types::RENodeId;
use radix_engine::values::{flatten_values, REComplexValue, RENode, REPrimitiveValue, REValue};

fn resource() -> Resource {
    Resource { resource_address: 5, amount: 100 }
}

fn vault_value() -> REValue {
    REValue { root: RENode::Vault(Vault::new(resource())), non_root_nodes: AssocMap::new() }
}

#[test]
fn test_verify_can_move() {
    let locked = RENode::Bucket(Bucket { resource: resource(), locked: true });
    assert_eq!(locked.verify_can_move(), Err(RuntimeError::CantMoveLockedBucket));
    let free = RENode::Bucket(Bucket { resource: resource(), locked: false });
    assert_eq!(free.verify_can_move(), Ok(()));
    let restricted = RENode::Proof(Proof { resource_address: 5, amount: 1, restricted: true });
    assert_eq!(restricted.verify_can_move(), Err(RuntimeError::CantMoveRestrictedProof));
    assert_eq!(RENode::Vault(Vault::new(resource())).verify_can_move(), Ok(()));
    assert_eq!(
        RENode::Worktop(Worktop { resources: vec![] }).verify_can_move(),
        Err(RuntimeError::ValueNotAllowed)
    );
}

#[test]
fn test_verify_can_persist() {
    assert_eq!(RENode::Vault(Vault::new(resource())).verify_can_persist(), Ok(()));
    assert_eq!(RENode::KeyValueStore(HeapKeyValueStore::new()).verify_can_persist(), Ok(()));
    assert_eq!(
        RENode::Bucket(Bucket { resource: resource(), locked: false }).verify_can_persist(),
        Err(RuntimeError::ValueNotAllowed)
    );
    assert_eq!(
        RENode::Package(Package { code: vec![1] }).verify_can_persist(),
        Err(RuntimeError::ValueNotAllowed)
    );
}

#[test]
fn test_try_drop() {
    assert_eq!(RENode::Proof(Proof { resource_address: 5, amount: 1, restricted: false }).try_drop(), Ok(()));
    assert_eq!(RENode::Vault(Vault::new(resource())).try_drop(), Err(DropFailure::Vault));
    assert_eq!(RENode::NonFungibles(ByteMap::new()).try_drop(), Err(DropFailure::Resource));
    assert_eq!(vault_value().try_drop(), Err(DropFailure::Vault));
}

#[test]
fn test_re_value_nodes() {
    let mut value = vault_value();
    let mut children = AssocMap::new();
    children.insert(RENodeId::Vault(2), RENode::Vault(Vault::new(Resource { resource_address: 2, amount: 2 })));
    children.insert(RENodeId::KeyValueStore(3), RENode::KeyValueStore(HeapKeyValueStore::new()));
    value.insert_non_root_nodes(children);
    let mut ids = value.all_descendants();
    ids.sort_by_key(|id| format!("{:?}", id));
    assert_eq!(ids, vec![RENodeId::KeyValueStore(3), RENodeId::Vault(2)]);
    assert!(matches!(value.get(None), RENode::Vault(_)));
    assert!(matches!(value.get(Some(&RENodeId::KeyValueStore(3))), RENode::KeyValueStore(_)));
    match value.get_mut(Some(&RENodeId::Vault(2))) {
        RENode::Vault(v) => v.locked_amount = 1,
        _ => panic!("expected a vault"),
    }
    match value.non_root(&RENodeId::Vault(2)) {
        RENode::Vault(v) => assert_eq!(v.locked_amount, 1),
        _ => panic!("expected a vault"),
    }
    let nodes = value.to_nodes(RENodeId::Vault(1));
    assert!(nodes.contains_key(&RENodeId::Vault(1)));
    assert!(nodes.contains_key(&RENodeId::Vault(2)));
    assert!(nodes.contains_key(&RENodeId::KeyValueStore(3)));
}

#[test]
fn test_into_re_value() {
    let mut owned = AssocMap::new();
    let mut inner = vault_value();
    let mut grand = AssocMap::new();
    grand.insert(RENodeId::Vault(9), RENode::Vault(Vault::new(resource())));
    inner.insert_non_root_nodes(grand);
    owned.insert(RENodeId::Vault(8), inner);
    let value = REComplexValue::Component(
        ComponentInfo { package_address: 1, blueprint_name: b"B".to_vec() },
        ComponentState::new(vec![1]),
    )
    .into_re_value(owned);
    assert!(matches!(value.root, RENode::Component(..)));
    let mut ids = value.all_descendants();
    ids.sort_by_key(|id| format!("{:?}", id));
    assert_eq!(ids, vec![RENodeId::Vault(8), RENodeId::Vault(9)]);

    let primitive = REPrimitiveValue::Bucket(Bucket { resource: resource(), locked: false }).into_re_value();
    assert!(primitive.all_descendants().is_empty());
    assert_eq!(primitive.into_bucket(), Bucket { resource: resource(), locked: false });
}

#[test]
fn test_flatten_values() {
    let mut owned = AssocMap::new();
    owned.insert(RENodeId::Vault(1), vault_value());
    owned.insert(RENodeId::Vault(2), vault_value());
    let flat = flatten_values(owned);
    assert!(flat.contains_key(&RENodeId::Vault(1)));
    assert!(flat.contains_key(&RENodeId::Vault(2)));
    assert!(!flat.contains_key(&RENodeId::Vault(3)));
}

#[test]
fn test_assoc_map_operations() {
    let mut m: AssocMap<RENodeId, u32> = AssocMap::new();
    assert!(m.is_empty());
    m.insert(RENodeId::Bucket(1), 10);
    m.insert(RENodeId::Bucket(2), 20);
    m.insert(RENodeId::Bucket(1), 11);
    assert_eq!(m.get(&RENodeId::Bucket(1)), Some(&11));
    *m.get_mut(&RENodeId::Bucket(2)) += 1;
    assert_eq!(m.get(&RENodeId::Bucket(2)), Some(&21));
    assert_eq!(m.remove(&RENodeId::Bucket(1)), Some(11));
    assert_eq!(m.get(&RENodeId::Bucket(1)), None);
    assert_eq!(m.keys(), vec![RENodeId::Bucket(2)]);
    assert_eq!(m.pop(), Some((RENodeId::Bucket(2), 21)));
    assert_eq!(m.pop(), None);
}

#[test]
fn test_byte_map_operations() {
    let mut m: ByteMap<Vec<u8>> = ByteMap::new();
    m.insert(b"a".to_vec(), vec![1]);
    m.insert(b"b".to_vec(), vec![2]);
    m.insert(b"a".to_vec(), vec![3]);
    assert_eq!(m.len(), 2);
    assert_eq!(m.get(b"a"), Some(&vec![3]));
    assert_eq!(m.get(b"c"), None);
    assert!(m.pop().is_some());
    assert_eq!(m.len(), 1);
}
