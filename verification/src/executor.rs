use vstd::prelude::*;

use crate::bytes::copy_bytes;

verus! {

/// An address that a transaction allocated.
#[derive(Clone, Copy, Debug, PartialEq, Eq, Structural)]
pub enum Address {
    GlobalComponent(u64),
    Resource(u64),
    Package(u64),
    /// Any other kind of address, which receipts do not list.
    Other(u64),
}

/// The new addresses a receipt lists, by kind, each in allocation order.
#[derive(Debug, PartialEq, Eq)]
pub struct NewAddresses {
    pub package_addresses: Vec<u64>,
    pub component_addresses: Vec<u64>,
    pub resource_addresses: Vec<u64>,
}

/// The component addresses among `s`, in order.
pub open spec fn components_of(s: Seq<Address>) -> Seq<u64>
    decreases s.len(),
{
    if s.len() == 0 {
        Seq::empty()
    } else {
        components_of(s.drop_last()) + match s.last() {
            Address::GlobalComponent(a) => seq![a],
            _ => Seq::empty(),
        }
    }
}

/// The resource addresses among `s`, in order.
pub open spec fn resources_of(s: Seq<Address>) -> Seq<u64>
    decreases s.len(),
{
    if s.len() == 0 {
        Seq::empty()
    } else {
        resources_of(s.drop_last()) + match s.last() {
            Address::Resource(a) => seq![a],
            _ => Seq::empty(),
        }
    }
}

/// The package addresses among `s`, in order.
pub open spec fn packages_of(s: Seq<Address>) -> Seq<u64>
    decreases s.len(),
{
    if s.len() == 0 {
        Seq::empty()
    } else {
        packages_of(s.drop_last()) + match s.last() {
            Address::Package(a) => seq![a],
            _ => Seq::empty(),
        }
    }
}

/// Sorting keeps allocation order: the addresses of each kind allocated
/// over two stretches are those of the first stretch followed by those of
/// the second; a single address is listed under its own kind only.
pub proof fn lemma_new_addresses_in_order(a: Seq<Address>, b: Seq<Address>, x: u64)
    ensures
        packages_of(a + b) == packages_of(a) + packages_of(b),
        components_of(a + b) == components_of(a) + components_of(b),
        resources_of(a + b) == resources_of(a) + resources_of(b),
        resources_of(seq![Address::Resource(x)]) == seq![x],
        packages_of(seq![Address::Resource(x)]) == Seq::<u64>::empty(),
        components_of(seq![Address::Resource(x)]) == Seq::<u64>::empty(),
        packages_of(seq![Address::Package(x)]) == seq![x],
        resources_of(seq![Address::Package(x)]) == Seq::<u64>::empty(),
        components_of(seq![Address::Package(x)]) == Seq::<u64>::empty(),
        components_of(seq![Address::GlobalComponent(x)]) == seq![x],
        packages_of(seq![Address::GlobalComponent(x)]) == Seq::<u64>::empty(),
        resources_of(seq![Address::GlobalComponent(x)]) == Seq::<u64>::empty(),
        packages_of(seq![Address::Other(x)]) == Seq::<u64>::empty(),
        components_of(seq![Address::Other(x)]) == Seq::<u64>::empty(),
        resources_of(seq![Address::Other(x)]) == Seq::<u64>::empty(),
    decreases b.len(),
{
    let e = Seq::<Address>::empty();
    assert(packages_of(e) =~= Seq::<u64>::empty());
    assert(components_of(e) =~= Seq::<u64>::empty());
    assert(resources_of(e) =~= Seq::<u64>::empty());
    assert(seq![Address::Resource(x)].drop_last() =~= e);
    assert(seq![Address::Package(x)].drop_last() =~= e);
    assert(seq![Address::GlobalComponent(x)].drop_last() =~= e);
    assert(seq![Address::Other(x)].drop_last() =~= e);
    assert(packages_of(seq![Address::Resource(x)]) =~= Seq::<u64>::empty());
    assert(components_of(seq![Address::Resource(x)]) =~= Seq::<u64>::empty());
    assert(resources_of(seq![Address::Resource(x)]) =~= seq![x]);
    assert(packages_of(seq![Address::Package(x)]) =~= seq![x]);
    assert(components_of(seq![Address::Package(x)]) =~= Seq::<u64>::empty());
    assert(resources_of(seq![Address::Package(x)]) =~= Seq::<u64>::empty());
    assert(packages_of(seq![Address::GlobalComponent(x)]) =~= Seq::<u64>::empty());
    assert(components_of(seq![Address::GlobalComponent(x)]) =~= seq![x]);
    assert(resources_of(seq![Address::GlobalComponent(x)]) =~= Seq::<u64>::empty());
    assert(packages_of(seq![Address::Other(x)]) =~= Seq::<u64>::empty());
    assert(components_of(seq![Address::Other(x)]) =~= Seq::<u64>::empty());
    assert(resources_of(seq![Address::Other(x)]) =~= Seq::<u64>::empty());
    if b.len() == 0 {
        assert(a + b =~= a);
        assert(packages_of(a) + packages_of(b) =~= packages_of(a));
        assert(components_of(a) + components_of(b) =~= components_of(a));
        assert(resources_of(a) + resources_of(b) =~= resources_of(a));
    } else {
        lemma_new_addresses_in_order(a, b.drop_last(), x);
        assert((a + b).drop_last() =~= a + b.drop_last());
        assert((a + b).last() == b.last());
        assert(packages_of(a + b) =~= packages_of(a) + packages_of(b));
        assert(components_of(a + b) =~= components_of(a) + components_of(b));
        assert(resources_of(a + b) =~= resources_of(a) + resources_of(b));
    }
}

/// Sorts the addresses a transaction allocated into the lists of its
/// receipt: packages, components and resources, each in allocation order;
/// other addresses are left out.
pub fn sort_new_addresses(addresses: &[Address]) -> (r: NewAddresses)
    ensures
        r.package_addresses@ == packages_of(addresses@),
        r.component_addresses@ == components_of(addresses@),
        r.resource_addresses@ == resources_of(addresses@),
{
    let mut r = NewAddresses {
        package_addresses: Vec::new(),
        component_addresses: Vec::new(),
        resource_addresses: Vec::new(),
    };
    let mut i: usize = 0;
    while i < addresses.len()
        invariant
            i <= addresses@.len(),
            r.package_addresses@ == packages_of(addresses@.subrange(0, i as int)),
            r.component_addresses@ == components_of(addresses@.subrange(0, i as int)),
            r.resource_addresses@ == resources_of(addresses@.subrange(0, i as int)),
        decreases addresses@.len() - i,
    {
        let ghost prefix = addresses@.subrange(0, i as int + 1);
        proof {
            assert(prefix.drop_last() =~= addresses@.subrange(0, i as int));
            assert(prefix.last() == addresses@[i as int]);
        }
        match addresses[i] {
            Address::GlobalComponent(a) => r.component_addresses.push(a),
            Address::Resource(a) => r.resource_addresses.push(a),
            Address::Package(a) => r.package_addresses.push(a),
            Address::Other(_) => {},
        }
        proof {
            assert(r.package_addresses@ =~= packages_of(prefix));
            assert(r.component_addresses@ =~= components_of(prefix));
            assert(r.resource_addresses@ =~= resources_of(prefix));
        }
        i = i + 1;
    }
    proof {
        assert(addresses@.subrange(0, i as int) =~= addresses@);
    }
    r
}

/// What a receipt records of how a transaction ended.
#[derive(Debug, PartialEq, Eq)]
pub struct Outcome<E> {
    /// The outputs of the instructions; none when it failed.
    pub outputs: Vec<Vec<u8>>,
    /// Whether its state updates are committed.
    pub committed: bool,
    /// Its result.
    pub result: Result<(), E>,
}

/// How a transaction ended, from what running it gave: on success its
/// outputs are kept and its updates committed; on failure there are no
/// outputs, nothing is committed and the error is its result.
pub fn commit_outcome<E>(run: Result<Vec<Vec<u8>>, E>) -> (r: Outcome<E>)
    ensures
        match run {
            Ok(outputs) => r.outputs@ == outputs@ && r.committed && r.result is Ok,
            Err(e) => r.outputs@ == Seq::<Vec<u8>>::empty() && !r.committed && r.result == Err::<
                (),
                E,
            >(e),
        },
{
    match run {
        Ok(outputs) => Outcome { outputs, committed: true, result: Ok(()) },
        Err(e) => Outcome { outputs: Vec::new(), committed: false, result: Err(e) },
    }
}

/// The contents of a list of byte strings.
pub open spec fn byte_lists_view(s: Seq<Vec<u8>>) -> Seq<Seq<u8>> {
    s.map_values(|v: Vec<u8>| v@)
}

/// What the transaction processor is invoked with: the instructions to run.
#[derive(Debug, PartialEq, Eq)]
pub struct TransactionProcessorRunInput {
    pub instructions: Vec<Vec<u8>>,
}

/// The input that runs exactly the transaction's instructions.
pub fn processor_input(instructions: &[Vec<u8>]) -> (r: TransactionProcessorRunInput)
    ensures
        byte_lists_view(r.instructions@) == byte_lists_view(instructions@),
{
    let mut copy: Vec<Vec<u8>> = Vec::new();
    let mut i: usize = 0;
    while i < instructions.len()
        invariant
            i <= instructions@.len(),
            byte_lists_view(copy@) == byte_lists_view(instructions@.subrange(0, i as int)),
        decreases instructions@.len() - i,
    {
        let ghost before = copy@;
        let c = copy_bytes(instructions[i].as_slice());
        copy.push(c);
        proof {
            assert(byte_lists_view(copy@) =~= byte_lists_view(before).push(instructions@[i as int]@));
            assert(byte_lists_view(instructions@.subrange(0, i + 1)) =~= byte_lists_view(
                instructions@.subrange(0, i as int),
            ).push(instructions@[i as int]@));
        }
        i = i + 1;
    }
    proof {
        assert(instructions@.subrange(0, i as int) =~= instructions@);
    }
    TransactionProcessorRunInput { instructions: copy }
}

/// What a transaction's execution leaves on record.
#[derive(Debug, PartialEq, Eq)]
pub struct Receipt<N, E> {
    /// The network the transaction was made for.
    pub transaction_network: N,
    /// Whether its state updates were committed.
    pub committed: bool,
    /// The instructions it ran.
    pub instructions: Vec<Vec<u8>>,
    /// Its result.
    pub result: Result<(), E>,
    /// The outputs of its instructions; none when it failed.
    pub outputs: Vec<Vec<u8>>,
    pub new_package_addresses: Vec<u64>,
    pub new_component_addresses: Vec<u64>,
    pub new_resource_addresses: Vec<u64>,
}

/// The receipt of a transaction made for `transaction_network` with
/// `instructions`, whose run gave `run` and allocated `new_addresses`: it
/// holds the transaction's network and instructions, the outcome that
/// `commit_outcome` gives, and the new addresses sorted by kind.
pub fn assemble_receipt<N, E>(
    transaction_network: N,
    instructions: Vec<Vec<u8>>,
    run: Result<Vec<Vec<u8>>, E>,
    new_addresses: &[Address],
) -> (r: Receipt<N, E>)
    ensures
        r.transaction_network == transaction_network,
        r.instructions == instructions,
        match run {
            Ok(outputs) => r.outputs@ == outputs@ && r.committed && r.result is Ok,
            Err(e) => r.outputs@ == Seq::<Vec<u8>>::empty() && !r.committed && r.result == Err::<
                (),
                E,
            >(e),
        },
        r.new_package_addresses@ == packages_of(new_addresses@),
        r.new_component_addresses@ == components_of(new_addresses@),
        r.new_resource_addresses@ == resources_of(new_addresses@),
{
    let outcome = commit_outcome(run);
    let sorted = sort_new_addresses(new_addresses);
    Receipt {
        transaction_network,
        committed: outcome.committed,
        instructions,
        result: outcome.result,
        outputs: outcome.outputs,
        new_package_addresses: sorted.package_addresses,
        new_component_addresses: sorted.component_addresses,
        new_resource_addresses: sorted.resource_addresses,
    }
}

} // verus!
