use vstd::prelude::*;

use crate::assoc::AssocMap;
use crate::assoc::MapKey;
use crate::bytes::bytes_eq;
use crate::errors::TrackError;
use crate::model::bytes_option_view;
use crate::model::non_fungible_option_view;
use crate::model::ComponentInfo;
use crate::model::ComponentInfoView;
use crate::model::ComponentState;
use crate::model::GlobalRENode;
use crate::model::KeyValueStoreEntrySubstate;
use crate::model::NonFungible;
use crate::model::NonFungibleSubstate;
use crate::model::NonFungibleView;
use crate::model::Package;
use crate::model::ResourceManager;
use crate::model::System;
use crate::model::Vault;
use crate::model::VaultSubstate;
use crate::types::SubstateId;
use crate::types::SubstateKey;

verus! {

/// A stored substate.
pub enum Substate {
    GlobalRENode(GlobalRENode),
    System(System),
    ResourceManager(ResourceManager),
    ComponentInfo(ComponentInfo),
    ComponentState(ComponentState),
    Package(Package),
    Vault(VaultSubstate),
    NonFungible(NonFungibleSubstate),
    KeyValueStoreEntry(KeyValueStoreEntrySubstate),
}

/// The mathematical content of a `Substate`.
pub enum SubstateView {
    GlobalRENode(GlobalRENode),
    System(System),
    ResourceManager(ResourceManager),
    ComponentInfo(ComponentInfoView),
    ComponentState(Seq<u8>),
    Package(Seq<u8>),
    Vault(VaultSubstate),
    NonFungible(Option<NonFungibleView>),
    KeyValueStoreEntry(Option<Seq<u8>>),
}

impl View for Substate {
    type V = SubstateView;

    open spec fn view(&self) -> SubstateView {
        match self {
            Substate::GlobalRENode(g) => SubstateView::GlobalRENode(*g),
            Substate::System(s) => SubstateView::System(*s),
            Substate::ResourceManager(m) => SubstateView::ResourceManager(*m),
            Substate::ComponentInfo(i) => SubstateView::ComponentInfo(i@),
            Substate::ComponentState(s) => SubstateView::ComponentState(s@),
            Substate::Package(p) => SubstateView::Package(p@),
            Substate::Vault(v) => SubstateView::Vault(*v),
            Substate::NonFungible(n) => SubstateView::NonFungible(non_fungible_option_view(n.0)),
            Substate::KeyValueStoreEntry(e) => SubstateView::KeyValueStoreEntry(
                bytes_option_view(e.0),
            ),
        }
    }
}

fn duplicate_option_non_fungible(o: &Option<NonFungible>) -> (r: Option<NonFungible>)
    ensures
        non_fungible_option_view(r) == non_fungible_option_view(*o),
{
    match o {
        Some(n) => Some(n.duplicate()),
        None => None,
    }
}

fn duplicate_option_bytes(o: &Option<Vec<u8>>) -> (r: Option<Vec<u8>>)
    ensures
        bytes_option_view(r) == bytes_option_view(*o),
{
    match o {
        Some(v) => Some(crate::bytes::copy_bytes(v.as_slice())),
        None => None,
    }
}

impl Substate {
    /// Copies the substate.
    pub fn duplicate(&self) -> (r: Substate)
        ensures
            r@ == self@,
    {
        match self {
            Substate::GlobalRENode(g) => Substate::GlobalRENode(*g),
            Substate::System(s) => Substate::System(*s),
            Substate::ResourceManager(m) => Substate::ResourceManager(*m),
            Substate::ComponentInfo(i) => Substate::ComponentInfo(i.duplicate()),
            Substate::ComponentState(s) => Substate::ComponentState(s.duplicate()),
            Substate::Package(p) => Substate::Package(p.duplicate()),
            Substate::Vault(v) => Substate::Vault(*v),
            Substate::NonFungible(n) => Substate::NonFungible(
                NonFungibleSubstate(duplicate_option_non_fungible(&n.0)),
            ),
            Substate::KeyValueStoreEntry(e) => Substate::KeyValueStoreEntry(
                KeyValueStoreEntrySubstate(duplicate_option_bytes(&e.0)),
            ),
        }
    }

    /// The system of a system substate.
    pub fn system(&self) -> (r: &System)
        requires
            *self is System,
        ensures
            *r == self->System_0,
    {
        match self {
            Substate::System(s) => s,
            _ => vstd::pervasive::unreached(),
        }
    }

    /// The system of a system substate, for update.
    pub fn system_mut(&mut self) -> (r: &mut System)
        requires
            *old(self) is System,
        ensures
            *r == old(self)->System_0,
            *final(self) == Substate::System(*final(r)),
    {
        match self {
            Substate::System(s) => s,
            _ => vstd::pervasive::unreached(),
        }
    }

    /// The resource manager of a resource manager substate.
    pub fn resource_manager(&self) -> (r: &ResourceManager)
        requires
            *self is ResourceManager,
        ensures
            *r == self->ResourceManager_0,
    {
        match self {
            Substate::ResourceManager(m) => m,
            _ => vstd::pervasive::unreached(),
        }
    }

    /// The resource manager of a resource manager substate, for update.
    pub fn resource_manager_mut(&mut self) -> (r: &mut ResourceManager)
        requires
            *old(self) is ResourceManager,
        ensures
            *r == old(self)->ResourceManager_0,
            *final(self) == Substate::ResourceManager(*final(r)),
    {
        match self {
            Substate::ResourceManager(m) => m,
            _ => vstd::pervasive::unreached(),
        }
    }

    /// The info of a component info substate.
    pub fn component_info(&self) -> (r: &ComponentInfo)
        requires
            *self is ComponentInfo,
        ensures
            *r == self->ComponentInfo_0,
    {
        match self {
            Substate::ComponentInfo(i) => i,
            _ => vstd::pervasive::unreached(),
        }
    }

    /// The state of a component state substate.
    pub fn component_state(&self) -> (r: &ComponentState)
        requires
            *self is ComponentState,
        ensures
            *r == self->ComponentState_0,
    {
        match self {
            Substate::ComponentState(s) => s,
            _ => vstd::pervasive::unreached(),
        }
    }

    /// The package of a package substate.
    pub fn package(&self) -> (r: &Package)
        requires
            *self is Package,
        ensures
            *r == self->Package_0,
    {
        match self {
            Substate::Package(p) => p,
            _ => vstd::pervasive::unreached(),
        }
    }

    /// The node of a global substate.
    pub fn global_re_node(&self) -> (r: &GlobalRENode)
        requires
            *self is GlobalRENode,
        ensures
            *r == self->GlobalRENode_0,
    {
        match self {
            Substate::GlobalRENode(g) => g,
            _ => vstd::pervasive::unreached(),
        }
    }

    /// The slot of a non-fungible substate.
    pub fn into_non_fungible(self) -> (r: NonFungibleSubstate)
        requires
            self is NonFungible,
        ensures
            r == self->NonFungible_0,
    {
        match self {
            Substate::NonFungible(n) => n,
            _ => vstd::pervasive::unreached(),
        }
    }

    /// The entry of a key-value entry substate.
    pub fn into_key_value_entry(self) -> (r: KeyValueStoreEntrySubstate)
        requires
            self is KeyValueStoreEntry,
        ensures
            r == self->KeyValueStoreEntry_0,
    {
        match self {
            Substate::KeyValueStoreEntry(e) => e,
            _ => vstd::pervasive::unreached(),
        }
    }
}

/// A loaded substate: as stored, or turned into the node it persists.
pub enum SubstateCache {
    Raw(Substate),
    Converted(Vault),
}

/// The vault that `c` holds once turned into a node.
pub open spec fn converted_vault(c: SubstateCache) -> Vault {
    match c {
        SubstateCache::Raw(Substate::Vault(VaultSubstate(r))) => Vault { resource: r, locked_amount: 0 },
        SubstateCache::Converted(v) => v,
        _ => arbitrary(),
    }
}

/// `c` holds a vault, stored or turned into a node.
pub open spec fn holds_vault(c: SubstateCache) -> bool {
    c matches SubstateCache::Raw(Substate::Vault(_)) || c is Converted
}

impl SubstateCache {
    /// The stored substate.
    pub fn raw(&self) -> (r: &Substate)
        requires
            *self is Raw,
        ensures
            *r == self->Raw_0,
    {
        match self {
            SubstateCache::Raw(s) => s,
            _ => vstd::pervasive::unreached(),
        }
    }

    /// The stored substate, for update.
    pub fn raw_mut(&mut self) -> (r: &mut Substate)
        requires
            *old(self) is Raw,
        ensures
            *r == old(self)->Raw_0,
            *final(self) == SubstateCache::Raw(*final(r)),
    {
        match self {
            SubstateCache::Raw(s) => s,
            _ => vstd::pervasive::unreached(),
        }
    }

    /// Turns a stored vault into the vault node.
    pub fn convert_to_node(&mut self)
        requires
            holds_vault(*old(self)),
        ensures
            *final(self) == SubstateCache::Converted(converted_vault(*old(self))),
    {
        match self {
            SubstateCache::Raw(Substate::Vault(VaultSubstate(resource))) => {
                let v = Vault::new(*resource);
                *self = SubstateCache::Converted(v);
            },
            SubstateCache::Converted(..) => {},
            _ => vstd::pervasive::unreached(),
        }
    }

    /// The vault node.
    pub fn vault(&self) -> (r: &Vault)
        requires
            *self is Converted,
        ensures
            *r == self->Converted_0,
    {
        match self {
            SubstateCache::Converted(v) => v,
            _ => vstd::pervasive::unreached(),
        }
    }

    /// The vault node, for update.
    pub fn vault_mut(&mut self) -> (r: &mut Vault)
        requires
            *old(self) is Converted,
        ensures
            *r == old(self)->Converted_0,
            *final(self) == SubstateCache::Converted(*final(r)),
    {
        match self {
            SubstateCache::Converted(v) => v,
            _ => vstd::pervasive::unreached(),
        }
    }
}

/// A substate taken out of the store while a call works on it.
pub struct BorrowedSubstate {
    pub substate: SubstateCache,
}

/// How a substate is locked: by some readers, or by one writer.
#[derive(Clone, Copy, Debug, PartialEq, Eq, Structural)]
pub enum LockState {
    Read(u32),
    Write,
}

/// The key of an entry of a key-value space.
pub struct KeyValueKey {
    pub parent: SubstateId,
    pub key: Vec<u8>,
}

impl View for KeyValueKey {
    type V = (SubstateKey, Seq<u8>);

    open spec fn view(&self) -> (SubstateKey, Seq<u8>) {
        (self.parent@, self.key@)
    }
}

impl MapKey for KeyValueKey {
    fn key_eq(&self, other: &Self) -> (r: bool) {
        self.parent.same_as(&other.parent) && bytes_eq(self.key.as_slice(), other.key.as_slice())
    }
}

/// The lock that a request for a lock leads to, or `None` when the current
/// lock excludes it.
pub open spec fn granted_lock(current: Option<LockState>, mutable: bool) -> Option<LockState> {
    match current {
        None => Some(
            if mutable {
                LockState::Write
            } else {
                LockState::Read(1)
            },
        ),
        Some(LockState::Read(n)) => if !mutable && n < u32::MAX {
            Some(LockState::Read((n + 1) as u32))
        } else {
            None
        },
        Some(LockState::Write) => None,
    }
}

/// The lock left after releasing one hold of `current`.
pub open spec fn released_lock(current: LockState) -> Option<LockState> {
    match current {
        LockState::Read(n) => if n > 1 {
            Some(LockState::Read((n - 1) as u32))
        } else {
            None
        },
        LockState::Write => None,
    }
}

/// The lock currently held on `key`.
pub open spec fn current_lock(locks: Map<SubstateKey, LockState>, key: SubstateKey) -> Option<
    LockState,
> {
    if locks.contains_key(key) {
        Some(locks[key])
    } else {
        None
    }
}

/// `new` and `r` are what acquiring a lock on `key` in `old` leads to: the
/// substate must be loaded and its lock must admit the request.
pub open spec fn lock_acquired(
    old: Track,
    new: Track,
    key: SubstateKey,
    mutable: bool,
    r: Result<(), TrackError>,
) -> bool {
    &&& new.substates() == old.substates()
    &&& new.key_values() == old.key_values()
    &&& if !old.substates().contains_key(key) {
        new.locks() == old.locks() && (r matches Err(TrackError::NotFound(e)) && e@ == key)
    } else {
        match granted_lock(current_lock(old.locks(), key), mutable) {
            Some(l) => r is Ok && new.locks() == old.locks().insert(key, l),
            None => new.locks() == old.locks() && (r matches Err(TrackError::SubstateLocked(e))
                && e@ == key),
        }
    }
}

/// `new` and `r` are what releasing a lock on `key` in `old` leads to.
pub open spec fn lock_released(old: Track, new: Track, key: SubstateKey, r: Result<(), TrackError>) -> bool {
    &&& new.substates() == old.substates()
    &&& new.key_values() == old.key_values()
    &&& if !old.locks().contains_key(key) {
        new.locks() == old.locks() && (r matches Err(TrackError::NotLocked(e)) && e@ == key)
    } else {
        r is Ok && new.locks() == match released_lock(old.locks()[key]) {
            Some(l) => old.locks().insert(key, l),
            None => old.locks().remove(key),
        }
    }
}

/// The two tracks hold the same substates, locks and entries.
pub open spec fn same_track(a: Track, b: Track) -> bool {
    a.substates() == b.substates() && a.locks() == b.locks() && a.key_values() == b.key_values()
}

/// The default value of a missing entry of a key-value space.
pub open spec fn default_entry(parent: SubstateKey) -> SubstateView {
    match parent {
        SubstateKey::NonFungibleSpace(_) => SubstateView::NonFungible(None),
        _ => SubstateView::KeyValueStoreEntry(None),
    }
}

/// The substates loaded by a transaction, their locks, and the entries of
/// key-value spaces that it wrote.
pub struct Track {
    substates: AssocMap<SubstateId, SubstateCache>,
    locks: AssocMap<SubstateId, LockState>,
    key_values: AssocMap<KeyValueKey, Substate>,
}

impl Track {
    /// The loaded substates.
    pub closed spec fn substates(&self) -> Map<SubstateKey, SubstateCache> {
        self.substates@
    }

    /// The locks held.
    pub closed spec fn locks(&self) -> Map<SubstateKey, LockState> {
        self.locks@
    }

    /// The written entries of key-value spaces.
    pub closed spec fn key_values(&self) -> Map<(SubstateKey, Seq<u8>), Substate> {
        self.key_values@
    }

    /// An empty track.
    pub fn new() -> (r: Track)
        ensures
            r.substates() == Map::<SubstateKey, SubstateCache>::empty(),
            r.locks() == Map::<SubstateKey, LockState>::empty(),
            r.key_values() == Map::<(SubstateKey, Seq<u8>), Substate>::empty(),
    {
        Track { substates: AssocMap::new(), locks: AssocMap::new(), key_values: AssocMap::new() }
    }

    /// Whether a substate is loaded.
    pub fn contains_substate(&self, substate_id: &SubstateId) -> (r: bool)
        ensures
            r == self.substates().contains_key(substate_id@),
    {
        self.substates.contains_key(substate_id)
    }

    /// The lock held on a substate.
    pub fn lock_state(&self, substate_id: &SubstateId) -> (r: Option<LockState>)
        ensures
            r == (if self.locks().contains_key(substate_id@) {
                Some(self.locks()[substate_id@])
            } else {
                None
            }),
    {
        match self.locks.get(substate_id) {
            Some(l) => Some(*l),
            None => None,
        }
    }

    /// Locks a loaded substate for reading or for writing.
    pub fn acquire_lock(&mut self, substate_id: SubstateId, mutable: bool, write_through: bool) -> (r:
        Result<(), TrackError>)
        ensures
            lock_acquired(*old(self), *final(self), substate_id@, mutable, r),
    {
        if !self.substates.contains_key(&substate_id) {
            return Err(TrackError::NotFound(substate_id));
        }
        let granted = match self.locks.get(&substate_id) {
            None => Some(
                if mutable {
                    LockState::Write
                } else {
                    LockState::Read(1)
                },
            ),
            Some(LockState::Read(n)) => {
                if !mutable && *n < u32::MAX {
                    Some(LockState::Read(*n + 1))
                } else {
                    None
                }
            },
            Some(LockState::Write) => None,
        };
        match granted {
            Some(l) => {
                self.locks.insert(substate_id, l);
                Ok(())
            },
            None => Err(TrackError::SubstateLocked(substate_id)),
        }
    }

    /// Releases one hold of a lock.
    pub fn release_lock(&mut self, substate_id: SubstateId, write_through: bool) -> (r: Result<
        (),
        TrackError,
    >)
        ensures
            lock_released(*old(self), *final(self), substate_id@, r),
    {
        let current = match self.locks.get(&substate_id) {
            Some(l) => *l,
            None => {
                return Err(TrackError::NotLocked(substate_id));
            },
        };
        match current {
            LockState::Read(n) => {
                if n > 1 {
                    self.locks.insert(substate_id, LockState::Read(n - 1));
                } else {
                    self.locks.remove(&substate_id);
                }
            },
            LockState::Write => {
                self.locks.remove(&substate_id);
            },
        }
        Ok(())
    }

    /// Takes a loaded substate out of the store.
    pub fn take_substate(&mut self, substate_id: SubstateId) -> (r: BorrowedSubstate)
        requires
            old(self).substates().contains_key(substate_id@),
        ensures
            r.substate == old(self).substates()[substate_id@],
            final(self).substates() == old(self).substates().remove(substate_id@),
            final(self).locks() == old(self).locks(),
            final(self).key_values() == old(self).key_values(),
    {
        match self.substates.remove(&substate_id) {
            Some(substate) => BorrowedSubstate { substate },
            None => vstd::pervasive::unreached(),
        }
    }

    /// Puts a taken substate back.
    pub fn return_substate(&mut self, substate_id: SubstateId, substate: BorrowedSubstate)
        ensures
            final(self).substates() == old(self).substates().insert(
                substate_id@,
                substate.substate,
            ),
            final(self).locks() == old(self).locks(),
            final(self).key_values() == old(self).key_values(),
    {
        self.substates.insert(substate_id, substate.substate);
    }

    /// A loaded substate.
    pub fn borrow_substate(&self, substate_id: SubstateId) -> (r: &SubstateCache)
        requires
            self.substates().contains_key(substate_id@),
        ensures
            *r == self.substates()[substate_id@],
    {
        match self.substates.get(&substate_id) {
            Some(s) => s,
            None => vstd::pervasive::unreached(),
        }
    }

    /// A loaded substate, for update.
    pub fn borrow_substate_mut(&mut self, substate_id: SubstateId) -> (r: &mut SubstateCache)
        requires
            old(self).substates().contains_key(substate_id@),
        ensures
            *r == old(self).substates()[substate_id@],
            final(self).substates() == old(self).substates().insert(substate_id@, *final(r)),
            final(self).locks() == old(self).locks(),
            final(self).key_values() == old(self).key_values(),
    {
        self.substates.get_mut(&substate_id)
    }

    /// Creates a substate for a new node.
    pub fn create_uuid_substate(&mut self, substate_id: SubstateId, substate: Substate)
        ensures
            final(self).substates() == old(self).substates().insert(
                substate_id@,
                SubstateCache::Raw(substate),
            ),
            final(self).locks() == old(self).locks(),
            final(self).key_values() == old(self).key_values(),
    {
        self.substates.insert(substate_id, SubstateCache::Raw(substate));
    }

    /// Writes an entry of a key-value space.
    pub fn set_key_value(&mut self, parent_substate_id: SubstateId, key: Vec<u8>, value: Substate)
        ensures
            final(self).key_values() == old(self).key_values().insert(
                (parent_substate_id@, key@),
                value,
            ),
            final(self).substates() == old(self).substates(),
            final(self).locks() == old(self).locks(),
    {
        self.key_values.insert(KeyValueKey { parent: parent_substate_id, key }, value);
    }

    /// Reads an entry of a key-value space; an entry never written is empty.
    pub fn read_key_value(&self, parent_substate_id: SubstateId, key: Vec<u8>) -> (r: Substate)
        ensures
            self.key_values().contains_key((parent_substate_id@, key@)) ==> r@ == self.key_values()[(
            parent_substate_id@,
            key@,
            )]@,
            !self.key_values().contains_key((parent_substate_id@, key@)) ==> r@ == default_entry(
                parent_substate_id@,
            ),
    {
        let k = KeyValueKey { parent: parent_substate_id, key };
        match self.key_values.get(&k) {
            Some(v) => v.duplicate(),
            None => match &k.parent {
                SubstateId::NonFungibleSpace(_) => Substate::NonFungible(NonFungibleSubstate(None)),
                _ => Substate::KeyValueStoreEntry(KeyValueStoreEntrySubstate(None)),
            },
        }
    }
}

/// Every read lock is held by at least one reader.
pub open spec fn read_counts_positive(locks: Map<SubstateKey, LockState>) -> bool {
    forall|k: SubstateKey| #[trigger] locks.contains_key(k) ==> locks[k] != LockState::Read(0)
}

/// Acquiring and releasing locks keep every read lock held by at least one
/// reader.
pub proof fn lemma_read_counts_stay_positive(
    t0: Track,
    t1: Track,
    key: SubstateKey,
    mutable: bool,
    r: Result<(), TrackError>,
)
    requires
        read_counts_positive(t0.locks()),
    ensures
        lock_acquired(t0, t1, key, mutable, r) ==> read_counts_positive(t1.locks()),
        lock_released(t0, t1, key, r) ==> read_counts_positive(t1.locks()),
{
}

/// Acquiring a lock that is granted and then releasing it leaves the locks
/// as they were.
pub proof fn lemma_acquire_release_restores(
    t0: Track,
    t1: Track,
    t2: Track,
    key: SubstateKey,
    mutable: bool,
    r2: Result<(), TrackError>,
)
    requires
        read_counts_positive(t0.locks()),
        lock_acquired(t0, t1, key, mutable, Ok(())),
        lock_released(t1, t2, key, r2),
    ensures
        r2 is Ok,
        same_track(t0, t2),
{
    assert(t1.locks().contains_key(key));
    match current_lock(t0.locks(), key) {
        None => {
            assert(t2.locks() =~= t0.locks());
        },
        Some(LockState::Read(n)) => {
            assert(!mutable && n < u32::MAX);
            assert(t0.locks().contains_key(key));
            assert(n != 0);
            assert(t1.locks()[key] == LockState::Read((n + 1) as u32));
            assert(released_lock(t1.locks()[key]) == Some(LockState::Read(n)));
            assert(t0.locks()[key] == LockState::Read(n));
            assert(t2.locks() =~= t0.locks());
        },
        Some(LockState::Write) => {},
    }
}

/// A written entry is what is then read back; other entries read as before.
pub proof fn lemma_read_after_set(
    t0: Track,
    t1: Track,
    parent: SubstateKey,
    key: Seq<u8>,
    value: Substate,
    other: (SubstateKey, Seq<u8>),
)
    requires
        t1.key_values() == t0.key_values().insert((parent, key), value),
    ensures
        t1.key_values().contains_key((parent, key)) && t1.key_values()[(parent, key)]@ == value@,
        other != (parent, key) ==> t1.key_values().contains_key(other) == t0.key_values().contains_key(other)
            && (t0.key_values().contains_key(other) ==> t1.key_values()[other] == t0.key_values()[other]),
{
}

/// A stored vault keeps what was done to it: turning a stored vault into a
/// node gives its resource, unlocked; turning it again, or after updating
/// the node, gives back exactly the node as it was left, locks included.
pub proof fn lemma_vault_node_persists(c: SubstateCache, w: Vault)
    requires
        holds_vault(c),
    ensures
        c matches SubstateCache::Raw(Substate::Vault(VaultSubstate(r))) ==> converted_vault(c)
            == (Vault { resource: r, locked_amount: 0 }),
        c is Converted ==> converted_vault(c) == c->Converted_0,
        converted_vault(SubstateCache::Converted(converted_vault(c))) == converted_vault(c),
        converted_vault(SubstateCache::Converted(w)) == w,
        converted_vault(SubstateCache::Converted(w)).locked_amount == w.locked_amount,
{
}

} // verus!
