use vstd::prelude::*;

use crate::assoc::MapKey;
use crate::bytes::bytes_eq;
use crate::bytes::copy_bytes;

verus! {

/// The id of a non-fungible unit within its resource.
#[derive(Debug, PartialEq, Eq)]
pub struct NonFungibleId(pub Vec<u8>);

impl View for NonFungibleId {
    type V = Seq<u8>;

    open spec fn view(&self) -> Seq<u8> {
        self.0@
    }
}

/// The big-endian bytes of a `u32`.
pub open spec fn u32_be_bytes(u: u32) -> Seq<u8> {
    seq![(u >> 24u32) as u8, (u >> 16u32) as u8, (u >> 8u32) as u8, u as u8]
}

impl NonFungibleId {
    /// The id made of the big-endian bytes of `u`.
    pub fn from_u32(u: u32) -> (r: NonFungibleId)
        ensures
            r@ == u32_be_bytes(u),
    {
        let mut v: Vec<u8> = Vec::new();
        v.push((u >> 24u32) as u8);
        v.push((u >> 16u32) as u8);
        v.push((u >> 8u32) as u8);
        v.push(u as u8);
        assert(v@ =~= u32_be_bytes(u));
        NonFungibleId(v)
    }

    /// The id's bytes.
    pub fn to_vec(&self) -> (r: Vec<u8>)
        ensures
            r@ == self@,
    {
        copy_bytes(self.0.as_slice())
    }

    /// Copies the id.
    pub fn duplicate(&self) -> (r: NonFungibleId)
        ensures
            r@ == self@,
    {
        NonFungibleId(copy_bytes(self.0.as_slice()))
    }
}

/// Identifies a node of the engine: a value owned on the heap of a call
/// frame, or a node kept in the tracked store.
#[derive(Clone, Copy, Debug, PartialEq, Eq, Hash, Structural)]
pub enum RENodeId {
    Bucket(u32),
    Proof(u32),
    Worktop,
    AuthZone(u32),
    Vault(u64),
    Component(u64),
    KeyValueStore(u64),
    ResourceManager(u64),
    Package(u64),
    System(u64),
}

/// Identifies a substate of the tracked store.
#[derive(Debug, PartialEq, Eq)]
pub enum SubstateId {
    Global(u64),
    ComponentInfo(u64),
    ComponentState(u64),
    NonFungibleSpace(u64),
    NonFungible(u64, NonFungibleId),
    KeyValueStoreSpace(u64),
    KeyValueStoreEntry(u64, Vec<u8>),
    Vault(u64),
    Package(u64),
    ResourceManager(u64),
    System(u64),
    Bucket(u32),
    Proof(u32),
    AuthZone(u32),
    Worktop,
}

/// The mathematical content of a `SubstateId`.
pub enum SubstateKey {
    Global(u64),
    ComponentInfo(u64),
    ComponentState(u64),
    NonFungibleSpace(u64),
    NonFungible(u64, Seq<u8>),
    KeyValueStoreSpace(u64),
    KeyValueStoreEntry(u64, Seq<u8>),
    Vault(u64),
    Package(u64),
    ResourceManager(u64),
    System(u64),
    Bucket(u32),
    Proof(u32),
    AuthZone(u32),
    Worktop,
}

impl View for SubstateId {
    type V = SubstateKey;

    open spec fn view(&self) -> SubstateKey {
        match self {
            SubstateId::Global(a) => SubstateKey::Global(*a),
            SubstateId::ComponentInfo(a) => SubstateKey::ComponentInfo(*a),
            SubstateId::ComponentState(a) => SubstateKey::ComponentState(*a),
            SubstateId::NonFungibleSpace(a) => SubstateKey::NonFungibleSpace(*a),
            SubstateId::NonFungible(a, id) => SubstateKey::NonFungible(*a, id@),
            SubstateId::KeyValueStoreSpace(a) => SubstateKey::KeyValueStoreSpace(*a),
            SubstateId::KeyValueStoreEntry(a, k) => SubstateKey::KeyValueStoreEntry(*a, k@),
            SubstateId::Vault(a) => SubstateKey::Vault(*a),
            SubstateId::Package(a) => SubstateKey::Package(*a),
            SubstateId::ResourceManager(a) => SubstateKey::ResourceManager(*a),
            SubstateId::System(a) => SubstateKey::System(*a),
            SubstateId::Bucket(a) => SubstateKey::Bucket(*a),
            SubstateId::Proof(a) => SubstateKey::Proof(*a),
            SubstateId::AuthZone(a) => SubstateKey::AuthZone(*a),
            SubstateId::Worktop => SubstateKey::Worktop,
        }
    }
}

impl SubstateId {
    /// Copies the id.
    pub fn duplicate(&self) -> (r: SubstateId)
        ensures
            r@ == self@,
    {
        match self {
            SubstateId::Global(a) => SubstateId::Global(*a),
            SubstateId::ComponentInfo(a) => SubstateId::ComponentInfo(*a),
            SubstateId::ComponentState(a) => SubstateId::ComponentState(*a),
            SubstateId::NonFungibleSpace(a) => SubstateId::NonFungibleSpace(*a),
            SubstateId::NonFungible(a, id) => SubstateId::NonFungible(*a, id.duplicate()),
            SubstateId::KeyValueStoreSpace(a) => SubstateId::KeyValueStoreSpace(*a),
            SubstateId::KeyValueStoreEntry(a, k) => SubstateId::KeyValueStoreEntry(
                *a,
                copy_bytes(k.as_slice()),
            ),
            SubstateId::Vault(a) => SubstateId::Vault(*a),
            SubstateId::Package(a) => SubstateId::Package(*a),
            SubstateId::ResourceManager(a) => SubstateId::ResourceManager(*a),
            SubstateId::System(a) => SubstateId::System(*a),
            SubstateId::Bucket(a) => SubstateId::Bucket(*a),
            SubstateId::Proof(a) => SubstateId::Proof(*a),
            SubstateId::AuthZone(a) => SubstateId::AuthZone(*a),
            SubstateId::Worktop => SubstateId::Worktop,
        }
    }

    /// Whether two ids name the same substate.
    pub fn same_as(&self, other: &SubstateId) -> (r: bool)
        ensures
            r == (self@ == other@),
    {
        match (self, other) {
            (SubstateId::Global(a), SubstateId::Global(b)) => *a == *b,
            (SubstateId::ComponentInfo(a), SubstateId::ComponentInfo(b)) => *a == *b,
            (SubstateId::ComponentState(a), SubstateId::ComponentState(b)) => *a == *b,
            (SubstateId::NonFungibleSpace(a), SubstateId::NonFungibleSpace(b)) => *a == *b,
            (SubstateId::NonFungible(a, x), SubstateId::NonFungible(b, y)) => *a == *b && bytes_eq(
                x.0.as_slice(),
                y.0.as_slice(),
            ),
            (SubstateId::KeyValueStoreSpace(a), SubstateId::KeyValueStoreSpace(b)) => *a == *b,
            (SubstateId::KeyValueStoreEntry(a, x), SubstateId::KeyValueStoreEntry(b, y)) => *a
                == *b && bytes_eq(x.as_slice(), y.as_slice()),
            (SubstateId::Vault(a), SubstateId::Vault(b)) => *a == *b,
            (SubstateId::Package(a), SubstateId::Package(b)) => *a == *b,
            (SubstateId::ResourceManager(a), SubstateId::ResourceManager(b)) => *a == *b,
            (SubstateId::System(a), SubstateId::System(b)) => *a == *b,
            (SubstateId::Bucket(a), SubstateId::Bucket(b)) => *a == *b,
            (SubstateId::Proof(a), SubstateId::Proof(b)) => *a == *b,
            (SubstateId::AuthZone(a), SubstateId::AuthZone(b)) => *a == *b,
            (SubstateId::Worktop, SubstateId::Worktop) => true,
            _ => false,
        }
    }
}

impl View for RENodeId {
    type V = RENodeId;

    open spec fn view(&self) -> RENodeId {
        *self
    }
}

impl MapKey for RENodeId {
    fn key_eq(&self, other: &Self) -> (r: bool) {
        *self == *other
    }
}

impl MapKey for SubstateId {
    fn key_eq(&self, other: &Self) -> (r: bool) {
        self.same_as(other)
    }
}

/// What a method call is made on: a node it consumes, or a node it only
/// refers to.
#[derive(Clone, Copy, Debug, PartialEq, Eq, Structural)]
pub enum Receiver {
    Consumed(RENodeId),
    Ref(RENodeId),
}

/// A native method, by the kind of node it belongs to and its number.
#[derive(Clone, Copy, Debug, PartialEq, Eq, Structural)]
pub enum NativeMethodFnIdent {
    Bucket(u8),
    Proof(u8),
    Vault(u8),
    ResourceManager(u8),
    System(u8),
    Component(u8),
    AuthZone(u8),
    Worktop(u8),
    Package(u8),
}

/// A method: native, or of a blueprint, by name.
#[derive(Debug, PartialEq, Eq)]
pub enum MethodFnIdent {
    Native(NativeMethodFnIdent),
    Scrypto(Vec<u8>),
}

/// The mathematical content of a `MethodFnIdent`.
pub enum MethodFnIdentView {
    Native(NativeMethodFnIdent),
    Scrypto(Seq<u8>),
}

impl View for MethodFnIdent {
    type V = MethodFnIdentView;

    open spec fn view(&self) -> MethodFnIdentView {
        match self {
            MethodFnIdent::Native(n) => MethodFnIdentView::Native(*n),
            MethodFnIdent::Scrypto(name) => MethodFnIdentView::Scrypto(name@),
        }
    }
}

/// A method call: what it is made on, and which method.
#[derive(Debug, PartialEq, Eq)]
pub struct MethodIdent {
    pub receiver: Receiver,
    pub method_fn_ident: MethodFnIdent,
}

/// The mathematical content of a `MethodIdent`.
pub struct MethodIdentView {
    pub receiver: Receiver,
    pub method_fn_ident: MethodFnIdentView,
}

impl View for MethodIdent {
    type V = MethodIdentView;

    open spec fn view(&self) -> MethodIdentView {
        MethodIdentView { receiver: self.receiver, method_fn_ident: self.method_fn_ident@ }
    }
}

/// A native function, by the blueprint it belongs to and its number.
#[derive(Clone, Copy, Debug, PartialEq, Eq, Structural)]
pub enum NativeFunctionFnIdent {
    System(u8),
    ResourceManager(u8),
    Package(u8),
    TransactionProcessor(u8),
}

/// A function: native, or of a blueprint of a package, by name.
#[derive(Debug, PartialEq, Eq)]
pub enum FunctionIdent {
    Native(NativeFunctionFnIdent),
    Scrypto { package_address: u64, blueprint_name: Vec<u8>, ident: Vec<u8> },
}

/// A function or a method call.
#[derive(Debug, PartialEq, Eq)]
pub enum FnIdent {
    Method(MethodIdent),
    Function(FunctionIdent),
}

} // verus!
