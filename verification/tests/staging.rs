use radix_engine::staging::{InMemorySubstateStore, Output, OutputId, StagedExecutionStores};

fn output(byte: u8) -> Output {
    Output {
        substate: vec![byte],
        output_id: OutputId { transaction_hash: [byte; 32], output_index: byte as u32 },
    }
}

#[test]
fn test_complicated_merge() {
    // Arrange
    let store = InMemorySubstateStore::new();
    let mut stores = StagedExecutionStores::new(store);
    let child_node1 = stores.new_child_node(0);
    let child_node2 = stores.new_child_node(child_node1);
    let child_node3 = stores.new_child_node(child_node2);
    let _child_node4 = stores.new_child_node(child_node3);
    let child_node5 = stores.new_child_node(child_node3);
    let child_node6 = stores.new_child_node(child_node5);
    let child_node7 = stores.new_child_node(0);
    let _child_node8 = stores.new_child_node(child_node7);
    let child_node9 = stores.new_child_node(child_node6);
    let child_node10 = stores.new_child_node(child_node9);

    // Act
    stores.merge_to_parent(child_node5);

    // Assert
    assert_eq!(stores.node_count(), 3);
    let parent = stores.node_parent(child_node6).expect("Should exist");
    assert_eq!(parent, 0);
    let parent = stores.node_parent(child_node9).expect("Should exist");
    assert_eq!(parent, child_node6);
    let parent = stores.node_parent(child_node10).expect("Should exist");
    assert_eq!(parent, child_node9);
}

fn put(store: &mut radix_engine::staging::ExecutionStore, address: &[u8], byte: u8) {
    store.put_substate(address, output(byte));
}

#[test]
fn test_read_your_write_in_child() {
    let stores = StagedExecutionStores::new(InMemorySubstateStore::new());
    let mut stores = stores;
    let child = stores.new_child_node(0);
    let mut store = stores.get_output_store(child);
    assert_eq!(store.get_substate(b"a"), None);
    put(&mut store, b"a", 7);
    assert_eq!(store.get_substate(b"a"), Some(output(7)));
    let stores = store.into_stores();
    // The root store does not see the staged write.
    let root = stores.get_output_store(0);
    assert_eq!(root.get_substate(b"a"), None);
}

#[test]
fn test_child_reads_through_parent_chain() {
    let mut root_store = InMemorySubstateStore::new();
    root_store.put_substate(b"x", output(1));
    root_store.put_space(b"x", OutputId { transaction_hash: [9; 32], output_index: 9 });
    let mut stores = StagedExecutionStores::new(root_store);
    let parent = stores.new_child_node(0);
    let mut store = stores.get_output_store(parent);
    put(&mut store, b"y", 2);
    let mut stores = store.into_stores();
    let child = stores.new_child_node(parent);
    assert_eq!(stores.node_locked(parent), Some(true));
    assert_eq!(stores.node_locked(child), Some(false));
    let store = stores.get_output_store(child);
    assert_eq!(store.get_substate(b"x"), Some(output(1)));
    assert_eq!(store.get_substate(b"y"), Some(output(2)));
    assert_eq!(store.get_substate(b"z"), None);
    assert_eq!(
        store.get_space(b"x"),
        OutputId { transaction_hash: [9; 32], output_index: 9 }
    );
}

#[test]
fn test_merge_applies_chain_nearest_wins() {
    let mut stores = StagedExecutionStores::new(InMemorySubstateStore::new());
    let a = stores.new_child_node(0);
    let mut s = stores.get_output_store(a);
    put(&mut s, b"k", 1);
    put(&mut s, b"only_a", 3);
    s.put_space(b"k", OutputId { transaction_hash: [1; 32], output_index: 1 });
    let mut stores = s.into_stores();
    let b = stores.new_child_node(a);
    let mut s = stores.get_output_store(b);
    put(&mut s, b"k", 2);
    s.put_space(b"k", OutputId { transaction_hash: [2; 32], output_index: 2 });
    let mut stores = s.into_stores();
    let sibling = stores.new_child_node(a);
    let grandchild = stores.new_child_node(b);
    stores.merge_to_parent(b);
    // Only the descendants of b remain, re-rooted.
    assert_eq!(stores.node_count(), 1);
    assert_eq!(stores.node_parent(grandchild), Some(0));
    assert_eq!(stores.node_parent(sibling), None);
    assert_eq!(stores.node_parent(a), None);
    let parent = stores.into_parent();
    assert_eq!(parent.get_substate(b"k"), Some(output(2)));
    assert_eq!(parent.get_substate(b"only_a"), Some(output(3)));
    assert_eq!(
        parent.get_space(b"k"),
        OutputId { transaction_hash: [2; 32], output_index: 2 }
    );
}

#[test]
fn test_merge_root_is_no_op() {
    let mut stores = StagedExecutionStores::new(InMemorySubstateStore::new());
    let a = stores.new_child_node(0);
    let _b = stores.new_child_node(a);
    stores.merge_to_parent(0);
    assert_eq!(stores.node_count(), 2);
}

#[test]
fn test_write_to_root_store_directly() {
    let stores = StagedExecutionStores::new(InMemorySubstateStore::new());
    let mut s = stores.get_output_store(0);
    put(&mut s, b"r", 5);
    s.put_space(b"r", OutputId { transaction_hash: [5; 32], output_index: 5 });
    let stores = s.into_stores();
    assert_eq!(stores.parent_store().get_substate(b"r"), Some(output(5)));
    assert_eq!(
        stores.parent_store().get_space(b"r"),
        OutputId { transaction_hash: [5; 32], output_index: 5 }
    );
}

#[test]
fn test_new_child_ids_count_up() {
    let mut stores = StagedExecutionStores::new(InMemorySubstateStore::new());
    assert_eq!(stores.new_child_node(0), 1);
    assert_eq!(stores.new_child_node(1), 2);
    assert_eq!(stores.new_child_node(0), 3);
    assert_eq!(stores.node_parent(2), Some(1));
    assert_eq!(stores.node_parent(4), None);
}
