use vstd::bytes::spec_u64_from_le_bytes;
use vstd::bytes::spec_u64_to_le_bytes;
use vstd::prelude::*;

use crate::bytes::copy_bytes;
use crate::bytes::ByteMap;

verus! {

/// An amount of one resource.
#[derive(Clone, Copy, Debug, PartialEq, Eq, Structural)]
pub struct Resource {
    pub resource_address: u64,
    pub amount: u64,
}

/// A transient container of a resource.
#[derive(Clone, Copy, Debug, PartialEq, Eq, Structural)]
pub struct Bucket {
    pub resource: Resource,
    pub locked: bool,
}

impl Bucket {
    /// The address of the resource held.
    pub fn resource_address(&self) -> (r: u64)
        ensures
            r == self.resource.resource_address,
    {
        self.resource.resource_address
    }

    /// Whether part of the bucket is locked by a proof.
    pub fn is_locked(&self) -> (r: bool)
        ensures
            r == self.locked,
    {
        self.locked
    }
}

/// A proof that some resource is held.
#[derive(Clone, Copy, Debug, PartialEq, Eq, Structural)]
pub struct Proof {
    pub resource_address: u64,
    pub amount: u64,
    pub restricted: bool,
}

impl Proof {
    /// Whether the proof may not be moved.
    pub fn is_restricted(&self) -> (r: bool)
        ensures
            r == self.restricted,
    {
        self.restricted
    }

    /// Drops the proof, releasing what it locks.
    pub fn drop(self) {
    }
}

/// A persistent container of a resource; part of it may be locked.
#[derive(Clone, Copy, Debug, PartialEq, Eq, Structural)]
pub struct Vault {
    pub resource: Resource,
    pub locked_amount: u64,
}

impl Vault {
    /// Creates a vault holding `resource`, nothing locked.
    pub fn new(resource: Resource) -> (r: Vault)
        ensures
            r == (Vault { resource, locked_amount: 0 }),
    {
        Vault { resource, locked_amount: 0 }
    }

    /// The address of the resource held.
    pub fn resource_address(&self) -> (r: u64)
        ensures
            r == self.resource.resource_address,
    {
        self.resource.resource_address
    }

    /// The resource held, unless part of it is locked.
    pub fn resource(&self) -> (r: Result<Resource, ()>)
        ensures
            self.locked_amount == 0 ==> r == Ok::<Resource, ()>(self.resource),
            self.locked_amount != 0 ==> r is Err,
    {
        if self.locked_amount == 0 {
            Ok(self.resource)
        } else {
            Err(())
        }
    }
}

/// The resources returned by instructions of a transaction.
#[derive(Debug)]
pub struct Worktop {
    pub resources: Vec<Resource>,
}

/// The proofs available for authorization in a call frame.
#[derive(Debug)]
pub struct AuthZone {
    pub proofs: Vec<Proof>,
}

/// The blueprint a component instantiates.
#[derive(Debug, PartialEq, Eq)]
pub struct ComponentInfo {
    pub package_address: u64,
    pub blueprint_name: Vec<u8>,
}

/// The mathematical content of a `ComponentInfo`.
pub struct ComponentInfoView {
    pub package_address: u64,
    pub blueprint_name: Seq<u8>,
}

impl View for ComponentInfo {
    type V = ComponentInfoView;

    open spec fn view(&self) -> ComponentInfoView {
        ComponentInfoView {
            package_address: self.package_address,
            blueprint_name: self.blueprint_name@,
        }
    }
}

impl ComponentInfo {
    /// The encoded info.
    pub fn info(&self) -> (r: ScryptoValue)
        ensures
            r@ == encode_component_info(self@),
    {
        let mut raw: Vec<u8> = Vec::new();
        raw.push(COMPONENT_INFO_TAG);
        let mut a = vstd::bytes::u64_to_le_bytes(self.package_address);
        raw.append(&mut a);
        let mut name = copy_bytes(self.blueprint_name.as_slice());
        raw.append(&mut name);
        assert(raw@ =~= encode_component_info(self@));
        ScryptoValue { raw }
    }
}

impl ComponentInfo {
    /// Copies the info.
    pub fn duplicate(&self) -> (r: ComponentInfo)
        ensures
            r@ == self@,
    {
        ComponentInfo {
            package_address: self.package_address,
            blueprint_name: copy_bytes(self.blueprint_name.as_slice()),
        }
    }
}

/// The encoded state of a component.
#[derive(Debug, PartialEq, Eq)]
pub struct ComponentState {
    pub state: Vec<u8>,
}

impl View for ComponentState {
    type V = Seq<u8>;

    open spec fn view(&self) -> Seq<u8> {
        self.state@
    }
}

impl ComponentState {
    /// A component state with the given encoding.
    pub fn new(state: Vec<u8>) -> (r: ComponentState)
        ensures
            r.state == state,
    {
        ComponentState { state }
    }

    /// The encoded state.
    pub fn state(&self) -> (r: &[u8])
        ensures
            r@ == self.state@,
    {
        self.state.as_slice()
    }

    /// Copies the state.
    pub fn duplicate(&self) -> (r: ComponentState)
        ensures
            r@ == self@,
    {
        ComponentState { state: copy_bytes(self.state.as_slice()) }
    }

    /// Replaces the encoded state.
    pub fn set_state(&mut self, state: Vec<u8>)
        ensures
            final(self).state == state,
    {
        self.state = state;
    }
}

/// Published code.
#[derive(Debug, PartialEq, Eq)]
pub struct Package {
    pub code: Vec<u8>,
}

impl View for Package {
    type V = Seq<u8>;

    open spec fn view(&self) -> Seq<u8> {
        self.code@
    }
}

impl Package {
    /// Copies the package.
    pub fn duplicate(&self) -> (r: Package)
        ensures
            r@ == self@,
    {
        Package { code: copy_bytes(self.code.as_slice()) }
    }
}

/// The definition of a resource.
#[derive(Clone, Copy, Debug, PartialEq, Eq, Structural)]
pub struct ResourceManager {
    pub divisibility: u8,
    pub total_supply: u64,
}

/// The system component.
#[derive(Clone, Copy, Debug, PartialEq, Eq, Structural)]
pub struct System {
    pub epoch: u64,
}

/// A globally addressable node.
#[derive(Clone, Copy, Debug, PartialEq, Eq, Structural)]
pub enum GlobalRENode {
    Component(u64),
    Package(u64),
    Resource(u64),
    System(u64),
}

/// One non-fungible unit's data.
#[derive(Debug, PartialEq, Eq)]
pub struct NonFungible {
    pub immutable_data: Vec<u8>,
    pub mutable_data: Vec<u8>,
}

/// The mathematical content of a `NonFungible`.
pub struct NonFungibleView {
    pub immutable_data: Seq<u8>,
    pub mutable_data: Seq<u8>,
}

impl View for NonFungible {
    type V = NonFungibleView;

    open spec fn view(&self) -> NonFungibleView {
        NonFungibleView { immutable_data: self.immutable_data@, mutable_data: self.mutable_data@ }
    }
}

impl NonFungible {
    /// Copies the data.
    pub fn duplicate(&self) -> (r: NonFungible)
        ensures
            r@ == self@,
    {
        NonFungible {
            immutable_data: copy_bytes(self.immutable_data.as_slice()),
            mutable_data: copy_bytes(self.mutable_data.as_slice()),
        }
    }
}

/// The non-fungible slot of one id: the unit, or none.
#[derive(Debug, PartialEq, Eq)]
pub struct NonFungibleSubstate(pub Option<NonFungible>);

/// The view of an optional non-fungible.
pub open spec fn non_fungible_option_view(o: Option<NonFungible>) -> Option<NonFungibleView> {
    match o {
        Some(n) => Some(n@),
        None => None,
    }
}

/// The entry of one key of a key-value store: the encoded value, or none.
#[derive(Debug, PartialEq, Eq)]
pub struct KeyValueStoreEntrySubstate(pub Option<Vec<u8>>);

/// The view of an optional byte string.
pub open spec fn bytes_option_view(o: Option<Vec<u8>>) -> Option<Seq<u8>> {
    match o {
        Some(v) => Some(v@),
        None => None,
    }
}

/// What a vault persists: the resource it holds.
#[derive(Clone, Copy, Debug, PartialEq, Eq, Structural)]
pub struct VaultSubstate(pub Resource);

/// An encoded value.
#[derive(Debug, PartialEq, Eq)]
pub struct ScryptoValue {
    pub raw: Vec<u8>,
}

impl View for ScryptoValue {
    type V = Seq<u8>;

    open spec fn view(&self) -> Seq<u8> {
        self.raw@
    }
}

impl ScryptoValue {
    /// The value with the given encoding.
    pub fn from_slice(slice: &[u8]) -> (r: ScryptoValue)
        ensures
            r@ == slice@,
    {
        ScryptoValue { raw: copy_bytes(slice) }
    }

    /// Copies the value.
    pub fn duplicate(&self) -> (r: ScryptoValue)
        ensures
            r@ == self@,
    {
        ScryptoValue { raw: copy_bytes(self.raw.as_slice()) }
    }
}

/// Leading byte of an encoded component info.
pub const COMPONENT_INFO_TAG: u8 = 0x81;

/// Leading byte of an encoded non-fungible slot.
pub const NON_FUNGIBLE_TAG: u8 = 0x82;

/// Leading byte of an encoded optional value.
pub const OPTION_TAG: u8 = 0x83;

/// Encoding of a component info: tag, package address (8 bytes, little
/// endian), blueprint name.
pub open spec fn encode_component_info(info: ComponentInfoView) -> Seq<u8> {
    seq![COMPONENT_INFO_TAG] + spec_u64_to_le_bytes(info.package_address) + info.blueprint_name
}

/// Encoding of a non-fungible slot: tag, then `0` for none, or `1`, the
/// length of the immutable data (8 bytes, little endian), the immutable
/// data and the mutable data.
pub open spec fn encode_non_fungible_substate(o: Option<NonFungibleView>) -> Seq<u8> {
    match o {
        None => seq![NON_FUNGIBLE_TAG, 0u8],
        Some(n) => seq![NON_FUNGIBLE_TAG, 1u8] + spec_u64_to_le_bytes(
            n.immutable_data.len() as u64,
        ) + n.immutable_data + n.mutable_data,
    }
}

/// Decoding of a non-fungible slot; `None` when the bytes are not one.
pub open spec fn decode_non_fungible_substate(b: Seq<u8>) -> Option<Option<NonFungibleView>> {
    if b.len() == 2 && b[0] == NON_FUNGIBLE_TAG && b[1] == 0 {
        Some(None)
    } else if b.len() >= 10 && b[0] == NON_FUNGIBLE_TAG && b[1] == 1 {
        let l = spec_u64_from_le_bytes(b.subrange(2, 10));
        if 10 + l <= b.len() {
            Some(
                Some(
                    NonFungibleView {
                        immutable_data: b.subrange(10, 10 + l),
                        mutable_data: b.subrange(10 + l, b.len() as int),
                    },
                ),
            )
        } else {
            None
        }
    } else {
        None
    }
}

/// Encoding of an optional value: tag, then `0` for none, or `1` and the
/// value's encoding.
pub open spec fn encode_option(o: Option<Seq<u8>>) -> Seq<u8> {
    match o {
        None => seq![OPTION_TAG, 0u8],
        Some(v) => seq![OPTION_TAG, 1u8] + v,
    }
}

/// Decoding a non-fungible slot gives back what was encoded.
pub proof fn lemma_non_fungible_round_trip(o: Option<NonFungibleView>)
    requires
        o matches Some(n) ==> n.immutable_data.len() <= u64::MAX,
    ensures
        decode_non_fungible_substate(encode_non_fungible_substate(o)) == Some(o),
{
    vstd::bytes::lemma_auto_spec_u64_to_from_le_bytes();
    let b = encode_non_fungible_substate(o);
    match o {
        None => {},
        Some(n) => {
            let l = n.immutable_data.len() as u64;
            assert(b.subrange(2, 10) =~= spec_u64_to_le_bytes(l));
            assert(b.subrange(10, 10 + l) =~= n.immutable_data);
            assert(b.subrange(10 + l, b.len() as int) =~= n.mutable_data);
        },
    }
}

/// Copies `a[start..end]`.
pub fn copy_range(a: &[u8], start: usize, end: usize) -> (r: Vec<u8>)
    requires
        start <= end <= a@.len(),
    ensures
        r@ == a@.subrange(start as int, end as int),
{
    let mut r: Vec<u8> = Vec::new();
    let mut i: usize = start;
    while i < end
        invariant
            start <= i <= end <= a@.len(),
            r@ == a@.subrange(start as int, i as int),
        decreases end - i,
    {
        r.push(a[i]);
        i = i + 1;
        assert(r@ =~= a@.subrange(start as int, i as int));
    }
    r
}

/// Encodes a non-fungible slot.
pub fn encode_non_fungible(s: &NonFungibleSubstate) -> (r: ScryptoValue)
    ensures
        r@ == encode_non_fungible_substate(non_fungible_option_view(s.0)),
{
    let mut raw: Vec<u8> = Vec::new();
    raw.push(NON_FUNGIBLE_TAG);
    match &s.0 {
        None => {
            raw.push(0u8);
        },
        Some(n) => {
            raw.push(1u8);
            let mut l = vstd::bytes::u64_to_le_bytes(n.immutable_data.len() as u64);
            raw.append(&mut l);
            let mut i = copy_bytes(n.immutable_data.as_slice());
            raw.append(&mut i);
            let mut m = copy_bytes(n.mutable_data.as_slice());
            raw.append(&mut m);
        },
    }
    assert(raw@ =~= encode_non_fungible_substate(non_fungible_option_view(s.0)));
    ScryptoValue { raw }
}

/// Decodes a non-fungible slot; `None` when the value is not one.
pub fn decode_non_fungible(v: &ScryptoValue) -> (r: Option<NonFungibleSubstate>)
    ensures
        match r {
            Some(s) => decode_non_fungible_substate(v@) == Some(non_fungible_option_view(s.0)),
            None => decode_non_fungible_substate(v@) is None,
        },
{
    let b = v.raw.as_slice();
    let n = b.len();
    if n == 2 && b[0] == NON_FUNGIBLE_TAG && b[1] == 0 {
        Some(NonFungibleSubstate(None))
    } else if n >= 10 && b[0] == NON_FUNGIBLE_TAG && b[1] == 1 {
        let len_bytes = copy_range(b, 2, 10);
        let l = vstd::bytes::u64_from_le_bytes(len_bytes.as_slice());
        if l <= (n - 10) as u64 {
            let split = 10 + l as usize;
            let immutable_data = copy_range(b, 10, split);
            let mutable_data = copy_range(b, split, n);
            Some(NonFungibleSubstate(Some(NonFungible { immutable_data, mutable_data })))
        } else {
            None
        }
    } else {
        None
    }
}

/// Encodes an optional value.
pub fn encode_optional(o: &KeyValueStoreEntrySubstate) -> (r: ScryptoValue)
    ensures
        r@ == encode_option(bytes_option_view(o.0)),
{
    let mut raw: Vec<u8> = Vec::new();
    raw.push(OPTION_TAG);
    match &o.0 {
        None => {
            raw.push(0u8);
        },
        Some(v) => {
            raw.push(1u8);
            let mut c = copy_bytes(v.as_slice());
            raw.append(&mut c);
        },
    }
    assert(raw@ =~= encode_option(bytes_option_view(o.0)));
    ScryptoValue { raw }
}

/// A key-value store owned on the heap: encoded values by key.
pub struct HeapKeyValueStore {
    pub store: ByteMap<ScryptoValue>,
}

impl HeapKeyValueStore {
    /// An empty store.
    pub fn new() -> (r: HeapKeyValueStore)
        ensures
            r.store@ == Map::<Seq<u8>, Seq<u8>>::empty(),
    {
        HeapKeyValueStore { store: ByteMap::new() }
    }

    /// The value at a key.
    pub fn get(&self, key: &[u8]) -> (r: Option<&ScryptoValue>)
        ensures
            match r {
                Some(v) => self.store@.contains_key(key@) && v@ == self.store@[key@],
                None => !self.store@.contains_key(key@),
            },
    {
        self.store.get(key)
    }

    /// Sets the value at a key.
    pub fn put(&mut self, key: Vec<u8>, value: ScryptoValue)
        ensures
            final(self).store@ == old(self).store@.insert(key@, value@),
    {
        self.store.insert(key, value);
    }
}

} // verus!
