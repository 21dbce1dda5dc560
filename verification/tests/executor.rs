use radix_engine::executor::{
    assemble_receipt, commit_outcome, processor_input, sort_new_addresses, Address, NewAddresses, Outcome,
};

#[test]
fn new_addresses_sorted_by_kind() {
    let addresses = vec![
        Address::Package(1),
        Address::GlobalComponent(2),
        Address::Other(3),
        Address::Resource(4),
        Address::GlobalComponent(5),
        Address::Package(6),
    ];
    assert_eq!(
        sort_new_addresses(&addresses),
        NewAddresses {
            package_addresses: vec![1, 6],
            component_addresses: vec![2, 5],
            resource_addresses: vec![4],
        }
    );
}

#[test]
fn no_new_addresses() {
    let r = sort_new_addresses(&[Address::Other(9)]);
    assert!(r.package_addresses.is_empty());
    assert!(r.component_addresses.is_empty());
    assert!(r.resource_addresses.is_empty());
}

#[test]
fn outcome_of_success_and_failure() {
    let ok: Outcome<u8> = commit_outcome(Ok(vec![vec![1u8], vec![]]));
    assert_eq!(ok, Outcome { outputs: vec![vec![1u8], vec![]], committed: true, result: Ok(()) });
    let failed: Outcome<u8> = commit_outcome(Err(7));
    assert_eq!(failed, Outcome { outputs: vec![], committed: false, result: Err(7) });
}

#[test]
fn receipt_holds_transaction_and_outcome() {
    let instructions = vec![vec![1u8, 2], vec![3u8]];
    let input = processor_input(&instructions);
    assert_eq!(input.instructions, instructions);
    let addresses = [Address::Resource(4), Address::Package(1), Address::GlobalComponent(2)];
    let ok = assemble_receipt::<u8, String>(7, instructions.clone(), Ok(vec![vec![9u8]]), &addresses);
    assert_eq!(ok.transaction_network, 7);
    assert_eq!(ok.instructions, instructions);
    assert!(ok.committed);
    assert_eq!(ok.result, Ok(()));
    assert_eq!(ok.outputs, vec![vec![9u8]]);
    assert_eq!(ok.new_package_addresses, vec![1]);
    assert_eq!(ok.new_component_addresses, vec![2]);
    assert_eq!(ok.new_resource_addresses, vec![4]);
    let failed = assemble_receipt::<u8, String>(7, instructions.clone(), Err("boom".to_string()), &[]);
    assert!(!failed.committed);
    assert_eq!(failed.result, Err("boom".to_string()));
    assert!(failed.outputs.is_empty());
    assert_eq!(failed.instructions, instructions);
}
