use vstd::prelude::*;

use crate::assoc::AssocMap;
use crate::assoc::MapKey;
use crate::bytes::bytes_eq;
use crate::bytes::copy_bytes;

verus! {

/// The module holding a node's type info.
pub const TYPE_INFO_BASE_MODULE: u8 = 0;

/// The module holding a node's metadata.
pub const METADATA_BASE_MODULE: u8 = 1;

/// The module holding a node's royalty configuration.
pub const ROYALTY_BASE_MODULE: u8 = 2;

/// The module holding a node's access rules.
pub const ACCESS_RULES_BASE_MODULE: u8 = 3;

/// The module holding an object's own state.
pub const OBJECT_BASE_MODULE: u8 = 4;

/// The blueprints the traversal tells apart.
#[derive(Clone, Copy, Debug, PartialEq, Eq, Structural)]
pub enum BlueprintKind {
    FungibleVault,
    NonFungibleVault,
    Other,
}

/// What kind of node a node is.
#[derive(Clone, Copy, Debug, PartialEq, Eq, Structural)]
pub enum TypeInfoSubstate {
    KeyValueStore,
    Index,
    SortedIndex,
    Object { blueprint: BlueprintKind, outer_object: Option<u64> },
}

/// A stored substate, decoded.
#[derive(Debug, PartialEq, Eq)]
pub enum DbValue {
    /// A node's type info.
    TypeInfo(TypeInfoSubstate),
    /// The amount held by a fungible vault.
    LiquidFungible(u64),
    /// The node that holds the ids held by a non-fungible vault.
    LiquidNonFungible(u64),
    /// The id of a non-fungible unit.
    NonFungibleLocalId(Vec<u8>),
    /// Any other value, by the nodes it owns.
    Value(Vec<u64>),
}

/// The mathematical content of a `DbValue`.
pub enum DbValueView {
    TypeInfo(TypeInfoSubstate),
    LiquidFungible(u64),
    LiquidNonFungible(u64),
    NonFungibleLocalId(Seq<u8>),
    Value(Seq<u64>),
}

impl View for DbValue {
    type V = DbValueView;

    open spec fn view(&self) -> DbValueView {
        match self {
            DbValue::TypeInfo(t) => DbValueView::TypeInfo(*t),
            DbValue::LiquidFungible(a) => DbValueView::LiquidFungible(*a),
            DbValue::LiquidNonFungible(n) => DbValueView::LiquidNonFungible(*n),
            DbValue::NonFungibleLocalId(id) => DbValueView::NonFungibleLocalId(id@),
            DbValue::Value(owned) => DbValueView::Value(owned@),
        }
    }
}

/// The nodes a stored value owns.
pub open spec fn owned_nodes(v: DbValueView) -> Seq<u64> {
    match v {
        DbValueView::Value(owned) => owned,
        _ => Seq::empty(),
    }
}

/// The substates of one module of one node.
#[derive(Clone, Copy, Debug, PartialEq, Eq, Structural)]
pub struct Partition {
    pub node_id: u64,
    pub module: u8,
}

impl View for Partition {
    type V = Partition;

    open spec fn view(&self) -> Partition {
        *self
    }
}

impl MapKey for Partition {
    fn key_eq(&self, other: &Self) -> (r: bool) {
        self.node_id == other.node_id && self.module == other.module
    }
}

/// A sort key and the substate stored under it.
pub type DbEntry = (Vec<u8>, DbValue);

/// The view of a stored entry.
pub open spec fn entry_view(e: DbEntry) -> (Seq<u8>, DbValueView) {
    (e.0@, e.1@)
}

/// The state of the ledger: the substates of each partition, in sort-key
/// order.
pub struct SubstateDatabase {
    partitions: AssocMap<Partition, Vec<DbEntry>>,
}

/// The mathematical content of a database.
pub type DbView = Map<Partition, Seq<(Seq<u8>, DbValueView)>>;

impl SubstateDatabase {
    /// The content, by partition.
    pub closed spec fn view_db(&self) -> DbView {
        self.partitions@.map_values(|v: Vec<DbEntry>| v@.map_values(|e: DbEntry| entry_view(e)))
    }

    /// An empty database.
    pub fn new() -> (r: SubstateDatabase)
        ensures
            r.view_db() == Map::<Partition, Seq<(Seq<u8>, DbValueView)>>::empty(),
    {
        let r = SubstateDatabase { partitions: AssocMap::new() };
        assert(r.view_db() =~= Map::<Partition, Seq<(Seq<u8>, DbValueView)>>::empty());
        r
    }

    /// Sets the substates of a partition.
    pub fn set_partition(&mut self, node_id: u64, module: u8, entries: Vec<DbEntry>)
        ensures
            final(self).view_db() == old(self).view_db().insert(
                Partition { node_id, module },
                entries@.map_values(|e: DbEntry| entry_view(e)),
            ),
    {
        self.partitions.insert(Partition { node_id, module }, entries);
        assert(self.view_db() =~= old(self).view_db().insert(
            Partition { node_id, module },
            entries@.map_values(|e: DbEntry| entry_view(e)),
        ));
    }

    /// The substates of a partition, in sort-key order; none when absent.
    pub fn list_substates(&self, node_id: u64, module: u8) -> (r: &[DbEntry])
        ensures
            r@.map_values(|e: DbEntry| entry_view(e)) == list(self.view_db(), node_id, module),
    {
        match self.partitions.get(&Partition { node_id, module }) {
            Some(v) => v.as_slice(),
            None => {
                let r: &[DbEntry] = &[];
                assert(r@.map_values(|e: DbEntry| entry_view(e)) =~= Seq::<(Seq<u8>, DbValueView)>::empty());
                r
            },
        }
    }

    /// The substate stored under a sort key of a partition.
    pub fn get_substate(&self, node_id: u64, module: u8, key: &[u8]) -> (r: Option<&DbValue>)
        ensures
            match r {
                Some(v) => lookup(list(self.view_db(), node_id, module), key@) == Some(v@),
                None => lookup(list(self.view_db(), node_id, module), key@) is None,
            },
    {
        let entries = self.list_substates(node_id, module);
        let ghost s = entries@.map_values(|e: DbEntry| entry_view(e));
        let mut i: usize = 0;
        assert(s.subrange(0, s.len() as int) =~= s);
        while i < entries.len()
            invariant
                i <= entries@.len(),
                s == entries@.map_values(|e: DbEntry| entry_view(e)),
                s == list(self.view_db(), node_id, module),
                lookup(s, key@) == lookup(s.subrange(i as int, s.len() as int), key@),
            decreases entries@.len() - i,
        {
            proof {
                lemma_lookup_step(s, i as int, key@);
            }
            if bytes_eq(entries[i].0.as_slice(), key) {
                assert(s[i as int] == entry_view(entries@[i as int]));
                return Some(&entries[i].1);
            }
            i = i + 1;
        }
        proof {
            assert(s.subrange(i as int, s.len() as int) =~= Seq::<(Seq<u8>, DbValueView)>::empty());
        }
        None
    }
}

/// The substates of a partition; none when absent.
pub open spec fn list(db: DbView, node_id: u64, module: u8) -> Seq<(Seq<u8>, DbValueView)> {
    if db.contains_key(Partition { node_id, module }) {
        db[Partition { node_id, module }]
    } else {
        Seq::empty()
    }
}

/// The first substate stored under `key`.
pub open spec fn lookup(s: Seq<(Seq<u8>, DbValueView)>, key: Seq<u8>) -> Option<DbValueView>
    decreases s.len(),
{
    if s.len() == 0 {
        None
    } else if s[0].0 == key {
        Some(s[0].1)
    } else {
        lookup(s.drop_first(), key)
    }
}

proof fn lemma_lookup_step(s: Seq<(Seq<u8>, DbValueView)>, i: int, key: Seq<u8>)
    requires
        0 <= i < s.len(),
    ensures
        lookup(s.subrange(i, s.len() as int), key) == if s[i].0 == key {
            Some(s[i].1)
        } else {
            lookup(s.subrange(i + 1, s.len() as int), key)
        },
{
    assert(s.subrange(i, s.len() as int).drop_first() =~= s.subrange(i + 1, s.len() as int));
}

/// The sort key of a node's type info.
pub open spec fn type_info_key() -> Seq<u8> {
    seq![0u8]
}

/// The sort key of the content of a vault.
pub open spec fn liquid_key() -> Seq<u8> {
    seq![0u8]
}

/// Where a node was found: the owning node, the module and the sort key of
/// the substate that owns it.
pub type ParentRef = (u64, u8, Vec<u8>);

/// The view of a parent reference.
pub open spec fn parent_view(p: Option<ParentRef>) -> Option<(u64, u8, Seq<u8>)> {
    match p {
        Some(t) => Some((t.0, t.1, t.2@)),
        None => None,
    }
}

/// One call the traversal makes on its visitor.
#[derive(Debug, PartialEq, Eq)]
pub enum VisitEvent {
    NodeId { parent: Option<ParentRef>, node_id: u64, depth: u32 },
    FungibleVault { vault_id: u64, address: u64, amount: u64 },
    NonFungibleVault { vault_id: u64, address: u64, ids_node: u64 },
    NonFungible { vault_id: u64, address: u64, id: Vec<u8> },
}

/// The mathematical content of a `VisitEvent`.
pub enum VisitEventView {
    NodeId { parent: Option<(u64, u8, Seq<u8>)>, node_id: u64, depth: u32 },
    FungibleVault { vault_id: u64, address: u64, amount: u64 },
    NonFungibleVault { vault_id: u64, address: u64, ids_node: u64 },
    NonFungible { vault_id: u64, address: u64, id: Seq<u8> },
}

impl View for VisitEvent {
    type V = VisitEventView;

    open spec fn view(&self) -> VisitEventView {
        match self {
            VisitEvent::NodeId { parent, node_id, depth } => VisitEventView::NodeId {
                parent: parent_view(*parent),
                node_id: *node_id,
                depth: *depth,
            },
            VisitEvent::FungibleVault { vault_id, address, amount } => VisitEventView::FungibleVault {
                vault_id: *vault_id,
                address: *address,
                amount: *amount,
            },
            VisitEvent::NonFungibleVault { vault_id, address, ids_node } => VisitEventView::NonFungibleVault {
                vault_id: *vault_id,
                address: *address,
                ids_node: *ids_node,
            },
            VisitEvent::NonFungible { vault_id, address, id } => VisitEventView::NonFungible {
                vault_id: *vault_id,
                address: *address,
                id: id@,
            },
        }
    }
}

/// The views of a list of events.
pub open spec fn events_view(s: Seq<VisitEvent>) -> Seq<VisitEventView> {
    s.map_values(|e: VisitEvent| e@)
}

/// The type info of a node, when stored.
pub open spec fn type_info_of(db: DbView, node_id: u64) -> Option<TypeInfoSubstate> {
    match lookup(list(db, node_id, TYPE_INFO_BASE_MODULE), type_info_key()) {
        Some(DbValueView::TypeInfo(t)) => Some(t),
        _ => None,
    }
}

/// The content of a vault, when stored.
pub open spec fn liquid_of(db: DbView, node_id: u64) -> Option<DbValueView> {
    lookup(list(db, node_id, OBJECT_BASE_MODULE), liquid_key())
}

/// The modules the traversal lists for objects that are not vaults, in
/// order.
pub open spec fn listed_module(m: int) -> u8 {
    if m == 0 {
        TYPE_INFO_BASE_MODULE
    } else if m == 1 {
        METADATA_BASE_MODULE
    } else if m == 2 {
        ROYALTY_BASE_MODULE
    } else if m == 3 {
        ACCESS_RULES_BASE_MODULE
    } else {
        OBJECT_BASE_MODULE
    }
}

/// Every node reachable from `node_id` within `max` levels has a type
/// info, every vault its content, every non-fungible vault ids, every
/// vault a resource, and every non-fungible id entry an id.
pub open spec fn traversable(db: DbView, max: u32, node_id: u64, depth: int) -> bool
    decreases max + 1 - depth, 3int, 0int,
{
    if depth > max {
        true
    } else {
        match type_info_of(db, node_id) {
            None => false,
            Some(TypeInfoSubstate::KeyValueStore) => entries_traversable(
                db,
                max,
                list(db, node_id, OBJECT_BASE_MODULE),
                0,
                depth + 1,
            ),
            Some(TypeInfoSubstate::Index) | Some(TypeInfoSubstate::SortedIndex) => true,
            Some(TypeInfoSubstate::Object { blueprint: BlueprintKind::FungibleVault, outer_object }) => {
                outer_object is Some && liquid_of(db, node_id) matches Some(DbValueView::LiquidFungible(_))
            },
            Some(
                TypeInfoSubstate::Object { blueprint: BlueprintKind::NonFungibleVault, outer_object },
            ) => {
                &&& outer_object is Some
                &&& liquid_of(db, node_id) matches Some(DbValueView::LiquidNonFungible(ids))
                &&& forall|i: int|
                    0 <= i < list(db, ids, OBJECT_BASE_MODULE).len() ==> (#[trigger] list(
                        db,
                        ids,
                        OBJECT_BASE_MODULE,
                    )[i]).1 is NonFungibleLocalId
            },
            Some(TypeInfoSubstate::Object { blueprint: BlueprintKind::Other, .. }) => modules_traversable(
                db,
                max,
                node_id,
                0,
                depth + 1,
            ),
        }
    }
}

/// The nodes owned by the listed modules of an object are traversable.
pub open spec fn modules_traversable(db: DbView, max: u32, node_id: u64, m: int, depth: int) -> bool
    decreases max + 2 - depth, 2int, 5 - m,
{
    if depth > max + 1 || m >= 5 {
        true
    } else {
        entries_traversable(db, max, list(db, node_id, listed_module(m)), 0, depth)
            && modules_traversable(db, max, node_id, m + 1, depth)
    }
}

/// The nodes owned by the entries from `i` on are traversable.
pub open spec fn entries_traversable(
    db: DbView,
    max: u32,
    entries: Seq<(Seq<u8>, DbValueView)>,
    i: int,
    depth: int,
) -> bool
    decreases max + 2 - depth, 1int, entries.len() - i,
{
    if depth > max + 1 || i < 0 || i >= entries.len() {
        true
    } else {
        owned_traversable(db, max, owned_nodes(entries[i].1), 0, depth) && entries_traversable(
            db,
            max,
            entries,
            i + 1,
            depth,
        )
    }
}

/// The owned nodes from `j` on are traversable.
pub open spec fn owned_traversable(db: DbView, max: u32, owned: Seq<u64>, j: int, depth: int) -> bool
    decreases max + 2 - depth, 0int, owned.len() - j,
{
    if depth > max + 1 || j < 0 || j >= owned.len() {
        true
    } else {
        traversable(db, max, owned[j], depth) && owned_traversable(db, max, owned, j + 1, depth)
    }
}

/// The calls the traversal makes on its visitor for `node_id`, found at
/// `depth` under `parent`: nothing beyond the maximum depth; else the node
/// itself, then by kind: for a key-value store the nodes its entries own;
/// for a vault the vault (and for a non-fungible vault each id it holds);
/// for another object the nodes owned by the entries of its listed
/// modules.
pub open spec fn visits(
    db: DbView,
    max: u32,
    parent: Option<(u64, u8, Seq<u8>)>,
    node_id: u64,
    depth: int,
) -> Seq<VisitEventView>
    decreases max + 1 - depth, 3int, 0int,
{
    if depth > max {
        Seq::empty()
    } else {
        seq![VisitEventView::NodeId { parent, node_id, depth: depth as u32 }] + match type_info_of(db, node_id) {
            Some(TypeInfoSubstate::KeyValueStore) => entries_visits(
                db,
                max,
                node_id,
                list(db, node_id, OBJECT_BASE_MODULE),
                0,
                depth + 1,
            ),
            Some(TypeInfoSubstate::Object { blueprint: BlueprintKind::FungibleVault, outer_object }) => {
                seq![
                    VisitEventView::FungibleVault {
                        vault_id: node_id,
                        address: outer_object->Some_0,
                        amount: liquid_of(db, node_id)->Some_0->LiquidFungible_0,
                    },
                ]
            },
            Some(
                TypeInfoSubstate::Object { blueprint: BlueprintKind::NonFungibleVault, outer_object },
            ) => {
                let ids = liquid_of(db, node_id)->Some_0->LiquidNonFungible_0;
                seq![
                    VisitEventView::NonFungibleVault {
                        vault_id: node_id,
                        address: outer_object->Some_0,
                        ids_node: ids,
                    },
                ] + list(db, ids, OBJECT_BASE_MODULE).map_values(
                    |e: (Seq<u8>, DbValueView)|
                        VisitEventView::NonFungible {
                            vault_id: node_id,
                            address: outer_object->Some_0,
                            id: e.1->NonFungibleLocalId_0,
                        },
                )
            },
            Some(TypeInfoSubstate::Object { blueprint: BlueprintKind::Other, .. }) => modules_visits(
                db,
                max,
                node_id,
                0,
                depth + 1,
            ),
            _ => Seq::empty(),
        }
    }
}

/// The visits for the nodes owned by the listed modules of an object, from
/// module `m` on.
pub open spec fn modules_visits(db: DbView, max: u32, node_id: u64, m: int, depth: int) -> Seq<
    VisitEventView,
>
    decreases max + 2 - depth, 2int, 5 - m,
{
    if depth > max + 1 || m >= 5 {
        Seq::empty()
    } else {
        entries_visits(db, max, node_id, list(db, node_id, listed_module(m)), 0, depth)
            + modules_visits(db, max, node_id, m + 1, depth)
    }
}

/// The visits for the nodes owned by the entries from `i` on; each is
/// found under the object module and the entry's sort key.
pub open spec fn entries_visits(
    db: DbView,
    max: u32,
    node_id: u64,
    entries: Seq<(Seq<u8>, DbValueView)>,
    i: int,
    depth: int,
) -> Seq<VisitEventView>
    decreases max + 2 - depth, 1int, entries.len() - i,
{
    if depth > max + 1 || i < 0 || i >= entries.len() {
        Seq::empty()
    } else {
        owned_visits(
            db,
            max,
            (node_id, OBJECT_BASE_MODULE, entries[i].0),
            owned_nodes(entries[i].1),
            0,
            depth,
        ) + entries_visits(db, max, node_id, entries, i + 1, depth)
    }
}

/// The visits for the owned nodes from `j` on.
pub open spec fn owned_visits(
    db: DbView,
    max: u32,
    parent: (u64, u8, Seq<u8>),
    owned: Seq<u64>,
    j: int,
    depth: int,
) -> Seq<VisitEventView>
    decreases max + 2 - depth, 0int, owned.len() - j,
{
    if depth > max + 1 || j < 0 || j >= owned.len() {
        Seq::empty()
    } else {
        visits(db, max, Some(parent), owned[j], depth) + owned_visits(
            db,
            max,
            parent,
            owned,
            j + 1,
            depth,
        )
    }
}

proof fn lemma_owned_visits_beyond(
    db: DbView,
    max: u32,
    parent: (u64, u8, Seq<u8>),
    owned: Seq<u64>,
    j: int,
)
    ensures
        owned_visits(db, max, parent, owned, j, max + 1) == Seq::<VisitEventView>::empty(),
    decreases owned.len() - j,
{
    if 0 <= j < owned.len() {
        lemma_owned_visits_beyond(db, max, parent, owned, j + 1);
        assert(visits(db, max, Some(parent), owned[j], max + 1) == Seq::<VisitEventView>::empty());
        assert(owned_visits(db, max, parent, owned, j, max + 1) =~= Seq::<VisitEventView>::empty());
    }
}

proof fn lemma_entries_visits_beyond(
    db: DbView,
    max: u32,
    node_id: u64,
    entries: Seq<(Seq<u8>, DbValueView)>,
    i: int,
)
    ensures
        entries_visits(db, max, node_id, entries, i, max + 1) == Seq::<VisitEventView>::empty(),
    decreases entries.len() - i,
{
    if 0 <= i < entries.len() {
        lemma_entries_visits_beyond(db, max, node_id, entries, i + 1);
        lemma_owned_visits_beyond(db, max, (node_id, OBJECT_BASE_MODULE, entries[i].0), owned_nodes(entries[i].1), 0);
        assert(entries_visits(db, max, node_id, entries, i, max + 1) =~= Seq::<VisitEventView>::empty());
    }
}

proof fn lemma_modules_visits_beyond(db: DbView, max: u32, node_id: u64, m: int)
    ensures
        modules_visits(db, max, node_id, m, max + 1) == Seq::<VisitEventView>::empty(),
    decreases 5 - m,
{
    if m < 5 {
        lemma_modules_visits_beyond(db, max, node_id, m + 1);
        lemma_entries_visits_beyond(db, max, node_id, list(db, node_id, listed_module(m)), 0);
        assert(modules_visits(db, max, node_id, m, max + 1) =~= Seq::<VisitEventView>::empty());
    }
}

/// Event `j` of `s` reports node `node` at depth `d`.
pub open spec fn node_at(s: Seq<VisitEventView>, j: int, node: u64, d: int) -> bool {
    &&& 0 <= j < s.len()
    &&& s[j] is NodeId
    &&& s[j]->NodeId_node_id == node
    &&& s[j]->NodeId_depth == d
}

/// The node under which a reported node was found.
pub open spec fn parent_node(e: VisitEventView) -> u64 {
    e->NodeId_parent->Some_0.0
}

/// Every node that `s` reports after its first event lies deeper than
/// `depth` and at most `max` levels down, and is reported after the node it
/// was found under, one level up.
pub open spec fn walk_order(s: Seq<VisitEventView>, max: u32, depth: int) -> bool {
    forall|i: int|
        1 <= i < s.len() && #[trigger] s[i] is NodeId ==> {
            &&& depth < s[i]->NodeId_depth <= max
            &&& s[i]->NodeId_parent is Some
            &&& exists|j: int| j < i && #[trigger] node_at(s, j, parent_node(s[i]), s[i]->NodeId_depth - 1)
        }
}

/// Every node `s` reports lies `d` to `max` levels down, and was either
/// found directly under `owner` at depth `d`, or is reported after the node
/// it was found under, one level up.
pub open spec fn level_order(s: Seq<VisitEventView>, max: u32, owner: u64, d: int) -> bool {
    forall|i: int|
        0 <= i < s.len() && #[trigger] s[i] is NodeId ==> {
            &&& d <= s[i]->NodeId_depth <= max
            &&& s[i]->NodeId_parent is Some
            &&& (s[i]->NodeId_depth == d && parent_node(s[i]) == owner) || exists|j: int|
                j < i && #[trigger] node_at(s, j, parent_node(s[i]), s[i]->NodeId_depth - 1)
        }
}

proof fn lemma_level_concat(a: Seq<VisitEventView>, b: Seq<VisitEventView>, max: u32, owner: u64, d: int)
    requires
        level_order(a, max, owner, d),
        level_order(b, max, owner, d),
    ensures
        level_order(a + b, max, owner, d),
{
    let s = a + b;
    assert forall|i: int| 0 <= i < s.len() && #[trigger] s[i] is NodeId implies {
        &&& d <= s[i]->NodeId_depth <= max
        &&& s[i]->NodeId_parent is Some
        &&& (s[i]->NodeId_depth == d && parent_node(s[i]) == owner) || exists|j: int|
            j < i && #[trigger] node_at(s, j, parent_node(s[i]), s[i]->NodeId_depth - 1)
    } by {
        if i < a.len() {
            assert(s[i] == a[i]);
            assert(a[i] is NodeId);
            if !(a[i]->NodeId_depth == d && parent_node(a[i]) == owner) {
                let j = choose|j: int| j < i && #[trigger] node_at(a, j, parent_node(a[i]), a[i]->NodeId_depth - 1);
                assert(s[j] == a[j]);
                assert(node_at(s, j, parent_node(s[i]), s[i]->NodeId_depth - 1));
            }
        } else {
            let k = i - a.len();
            assert(s[i] == b[k]);
            assert(b[k] is NodeId);
            if !(b[k]->NodeId_depth == d && parent_node(b[k]) == owner) {
                let j = choose|j: int| j < k && #[trigger] node_at(b, j, parent_node(b[k]), b[k]->NodeId_depth - 1);
                assert(s[j + a.len()] == b[j]);
                assert(node_at(s, j + a.len(), parent_node(s[i]), s[i]->NodeId_depth - 1));
            }
        }
    }
}

proof fn lemma_no_nodes(s: Seq<VisitEventView>, max: u32, owner: u64, d: int)
    requires
        forall|i: int| 0 <= i < s.len() ==> !(#[trigger] s[i] is NodeId),
    ensures
        level_order(s, max, owner, d),
{
}

proof fn lemma_head_then_children(
    parent: Option<(u64, u8, Seq<u8>)>,
    node_id: u64,
    depth: int,
    max: u32,
    tail: Seq<VisitEventView>,
)
    requires
        0 <= depth <= max,
        level_order(tail, max, node_id, depth + 1),
    ensures
        ({
            let s = seq![VisitEventView::NodeId { parent, node_id, depth: depth as u32 }] + tail;
            &&& walk_order(s, max, depth)
            &&& parent is Some ==> level_order(s, max, parent->Some_0.0, depth)
        }),
{
    let head = seq![VisitEventView::NodeId { parent, node_id, depth: depth as u32 }];
    let s = head + tail;
    assert(node_at(s, 0, node_id, depth));
    assert forall|i: int| 1 <= i < s.len() && #[trigger] s[i] is NodeId implies {
        &&& depth < s[i]->NodeId_depth <= max
        &&& s[i]->NodeId_parent is Some
        &&& exists|j: int| j < i && #[trigger] node_at(s, j, parent_node(s[i]), s[i]->NodeId_depth - 1)
    } by {
        let k = i - 1;
        assert(s[i] == tail[k]);
        assert(tail[k] is NodeId);
        if tail[k]->NodeId_depth == depth + 1 && parent_node(tail[k]) == node_id {
            assert(node_at(s, 0, parent_node(s[i]), s[i]->NodeId_depth - 1));
        } else {
            let j = choose|j: int| j < k && #[trigger] node_at(tail, j, parent_node(tail[k]), tail[k]->NodeId_depth - 1);
            assert(s[j + 1] == tail[j]);
            assert(node_at(s, j + 1, parent_node(s[i]), s[i]->NodeId_depth - 1));
        }
    }
    if parent is Some {
        assert forall|i: int| 0 <= i < s.len() && #[trigger] s[i] is NodeId implies {
            &&& depth <= s[i]->NodeId_depth <= max
            &&& s[i]->NodeId_parent is Some
            &&& (s[i]->NodeId_depth == depth && parent_node(s[i]) == parent->Some_0.0) || exists|j: int|
                j < i && #[trigger] node_at(s, j, parent_node(s[i]), s[i]->NodeId_depth - 1)
        } by {
            if i == 0 {
                assert(s[0] == head[0]);
            } else {
                assert(s[i] == tail[i - 1]);
            }
        }
    }
}

/// The shape of a traversal: nothing beyond the maximum depth; otherwise
/// its first call reports the starting node with the given parent at the
/// given depth, and every node reported after it lies deeper, at most
/// `max` levels down, and is reported after the node it was found under,
/// one level up.
pub proof fn lemma_visits_order(
    db: DbView,
    max: u32,
    parent: Option<(u64, u8, Seq<u8>)>,
    node_id: u64,
    depth: int,
)
    requires
        0 <= depth,
    ensures
        depth > max ==> visits(db, max, parent, node_id, depth) == Seq::<VisitEventView>::empty(),
        depth <= max ==> visits(db, max, parent, node_id, depth)[0] == (VisitEventView::NodeId {
            parent,
            node_id,
            depth: depth as u32,
        }),
        depth <= max ==> walk_order(visits(db, max, parent, node_id, depth), max, depth),
        depth <= max && parent is Some ==> level_order(
            visits(db, max, parent, node_id, depth),
            max,
            parent->Some_0.0,
            depth,
        ),
    decreases max + 1 - depth, 3int, 0int,
{
    if depth <= max {
        let head = seq![VisitEventView::NodeId { parent, node_id, depth: depth as u32 }];
        let tail = match type_info_of(db, node_id) {
            Some(TypeInfoSubstate::KeyValueStore) => {
                lemma_entries_order(db, max, node_id, list(db, node_id, OBJECT_BASE_MODULE), 0, depth + 1);
                entries_visits(db, max, node_id, list(db, node_id, OBJECT_BASE_MODULE), 0, depth + 1)
            },
            Some(TypeInfoSubstate::Object { blueprint: BlueprintKind::FungibleVault, outer_object }) => {
                let t = seq![
                    VisitEventView::FungibleVault {
                        vault_id: node_id,
                        address: outer_object->Some_0,
                        amount: liquid_of(db, node_id)->Some_0->LiquidFungible_0,
                    },
                ];
                lemma_no_nodes(t, max, node_id, depth + 1);
                t
            },
            Some(TypeInfoSubstate::Object { blueprint: BlueprintKind::NonFungibleVault, outer_object }) => {
                let ids = liquid_of(db, node_id)->Some_0->LiquidNonFungible_0;
                let t = seq![
                    VisitEventView::NonFungibleVault {
                        vault_id: node_id,
                        address: outer_object->Some_0,
                        ids_node: ids,
                    },
                ] + list(db, ids, OBJECT_BASE_MODULE).map_values(
                    |e: (Seq<u8>, DbValueView)|
                        VisitEventView::NonFungible {
                            vault_id: node_id,
                            address: outer_object->Some_0,
                            id: e.1->NonFungibleLocalId_0,
                        },
                );
                assert forall|i: int| 0 <= i < t.len() implies !(#[trigger] t[i] is NodeId) by {
                    if i > 0 {
                        assert(t[i] == list(db, ids, OBJECT_BASE_MODULE).map_values(
                            |e: (Seq<u8>, DbValueView)|
                                VisitEventView::NonFungible {
                                    vault_id: node_id,
                                    address: outer_object->Some_0,
                                    id: e.1->NonFungibleLocalId_0,
                                },
                        )[i - 1]);
                    }
                }
                lemma_no_nodes(t, max, node_id, depth + 1);
                t
            },
            Some(TypeInfoSubstate::Object { blueprint: BlueprintKind::Other, .. }) => {
                lemma_modules_order(db, max, node_id, 0, depth + 1);
                modules_visits(db, max, node_id, 0, depth + 1)
            },
            _ => {
                lemma_no_nodes(Seq::<VisitEventView>::empty(), max, node_id, depth + 1);
                Seq::<VisitEventView>::empty()
            },
        };
        assert(visits(db, max, parent, node_id, depth) == head + tail);
        lemma_head_then_children(parent, node_id, depth, max, tail);
    }
}

proof fn lemma_modules_order(db: DbView, max: u32, node_id: u64, m: int, depth: int)
    requires
        0 <= depth,
    ensures
        level_order(modules_visits(db, max, node_id, m, depth), max, node_id, depth),
    decreases max + 2 - depth, 2int, 5 - m,
{
    if depth <= max + 1 && m < 5 {
        lemma_entries_order(db, max, node_id, list(db, node_id, listed_module(m)), 0, depth);
        lemma_modules_order(db, max, node_id, m + 1, depth);
        lemma_level_concat(
            entries_visits(db, max, node_id, list(db, node_id, listed_module(m)), 0, depth),
            modules_visits(db, max, node_id, m + 1, depth),
            max,
            node_id,
            depth,
        );
    } else {
        lemma_no_nodes(modules_visits(db, max, node_id, m, depth), max, node_id, depth);
    }
}

proof fn lemma_entries_order(
    db: DbView,
    max: u32,
    node_id: u64,
    entries: Seq<(Seq<u8>, DbValueView)>,
    i: int,
    depth: int,
)
    requires
        0 <= depth,
    ensures
        level_order(entries_visits(db, max, node_id, entries, i, depth), max, node_id, depth),
    decreases max + 2 - depth, 1int, entries.len() - i,
{
    if depth <= max + 1 && 0 <= i < entries.len() {
        let parent = (node_id, OBJECT_BASE_MODULE, entries[i].0);
        lemma_owned_order(db, max, parent, owned_nodes(entries[i].1), 0, depth);
        lemma_entries_order(db, max, node_id, entries, i + 1, depth);
        lemma_level_concat(
            owned_visits(db, max, parent, owned_nodes(entries[i].1), 0, depth),
            entries_visits(db, max, node_id, entries, i + 1, depth),
            max,
            node_id,
            depth,
        );
    } else {
        lemma_no_nodes(entries_visits(db, max, node_id, entries, i, depth), max, node_id, depth);
    }
}

proof fn lemma_owned_order(
    db: DbView,
    max: u32,
    parent: (u64, u8, Seq<u8>),
    owned: Seq<u64>,
    j: int,
    depth: int,
)
    requires
        0 <= depth,
    ensures
        level_order(owned_visits(db, max, parent, owned, j, depth), max, parent.0, depth),
    decreases max + 2 - depth, 0int, owned.len() - j,
{
    if depth <= max + 1 && 0 <= j < owned.len() {
        lemma_visits_order(db, max, Some(parent), owned[j], depth);
        lemma_owned_order(db, max, parent, owned, j + 1, depth);
        if depth > max {
            lemma_no_nodes(visits(db, max, Some(parent), owned[j], depth), max, parent.0, depth);
        }
        lemma_level_concat(
            visits(db, max, Some(parent), owned[j], depth),
            owned_visits(db, max, parent, owned, j + 1, depth),
            max,
            parent.0,
            depth,
        );
    } else {
        lemma_no_nodes(owned_visits(db, max, parent, owned, j, depth), max, parent.0, depth);
    }
}

proof fn lemma_contains_concat(a: Seq<VisitEventView>, b: Seq<VisitEventView>, e: VisitEventView)
    requires
        a.contains(e) || b.contains(e),
    ensures
        (a + b).contains(e),
{
    if a.contains(e) {
        let k = choose|k: int| 0 <= k < a.len() && a[k] == e;
        assert((a + b)[k] == e);
    } else {
        let k = choose|k: int| 0 <= k < b.len() && b[k] == e;
        assert((a + b)[k + a.len()] == e);
    }
}

proof fn lemma_owned_visited(
    db: DbView,
    max: u32,
    parent: (u64, u8, Seq<u8>),
    owned: Seq<u64>,
    j0: int,
    depth: int,
    j: int,
)
    requires
        0 <= j0 <= j < owned.len(),
        0 <= depth <= max,
    ensures
        owned_visits(db, max, parent, owned, j0, depth).contains(
            VisitEventView::NodeId { parent: Some(parent), node_id: owned[j], depth: depth as u32 },
        ),
    decreases j - j0,
{
    let e = VisitEventView::NodeId { parent: Some(parent), node_id: owned[j], depth: depth as u32 };
    let head = visits(db, max, Some(parent), owned[j0], depth);
    let rest = owned_visits(db, max, parent, owned, j0 + 1, depth);
    if j0 == j {
        lemma_visits_order(db, max, Some(parent), owned[j], depth);
        assert(head[0] == e);
        assert(head.contains(e));
    } else {
        lemma_owned_visited(db, max, parent, owned, j0 + 1, depth, j);
    }
    lemma_contains_concat(head, rest, e);
}

proof fn lemma_entries_visited(
    db: DbView,
    max: u32,
    node_id: u64,
    entries: Seq<(Seq<u8>, DbValueView)>,
    i0: int,
    depth: int,
    i: int,
    j: int,
)
    requires
        0 <= i0 <= i < entries.len(),
        0 <= j < owned_nodes(entries[i].1).len(),
        0 <= depth <= max,
    ensures
        entries_visits(db, max, node_id, entries, i0, depth).contains(
            VisitEventView::NodeId {
                parent: Some((node_id, OBJECT_BASE_MODULE, entries[i].0)),
                node_id: owned_nodes(entries[i].1)[j],
                depth: depth as u32,
            },
        ),
    decreases i - i0,
{
    let e = VisitEventView::NodeId {
        parent: Some((node_id, OBJECT_BASE_MODULE, entries[i].0)),
        node_id: owned_nodes(entries[i].1)[j],
        depth: depth as u32,
    };
    let parent = (node_id, OBJECT_BASE_MODULE, entries[i0].0);
    let head = owned_visits(db, max, parent, owned_nodes(entries[i0].1), 0, depth);
    let rest = entries_visits(db, max, node_id, entries, i0 + 1, depth);
    if i0 == i {
        lemma_owned_visited(db, max, parent, owned_nodes(entries[i].1), 0, depth, j);
    } else {
        lemma_entries_visited(db, max, node_id, entries, i0 + 1, depth, i, j);
    }
    lemma_contains_concat(head, rest, e);
}

proof fn lemma_modules_visited(
    db: DbView,
    max: u32,
    node_id: u64,
    m0: int,
    depth: int,
    m: int,
    i: int,
    j: int,
)
    requires
        0 <= m0 <= m < 5,
        0 <= i < list(db, node_id, listed_module(m)).len(),
        0 <= j < owned_nodes(list(db, node_id, listed_module(m))[i].1).len(),
        0 <= depth <= max,
    ensures
        modules_visits(db, max, node_id, m0, depth).contains(
            VisitEventView::NodeId {
                parent: Some((node_id, OBJECT_BASE_MODULE, list(db, node_id, listed_module(m))[i].0)),
                node_id: owned_nodes(list(db, node_id, listed_module(m))[i].1)[j],
                depth: depth as u32,
            },
        ),
    decreases m - m0,
{
    let entries = list(db, node_id, listed_module(m));
    let e = VisitEventView::NodeId {
        parent: Some((node_id, OBJECT_BASE_MODULE, entries[i].0)),
        node_id: owned_nodes(entries[i].1)[j],
        depth: depth as u32,
    };
    let head = entries_visits(db, max, node_id, list(db, node_id, listed_module(m0)), 0, depth);
    let rest = modules_visits(db, max, node_id, m0 + 1, depth);
    if m0 == m {
        lemma_entries_visited(db, max, node_id, entries, 0, depth, i, j);
    } else {
        lemma_modules_visited(db, max, node_id, m0 + 1, depth, m, i, j);
    }
    lemma_contains_concat(head, rest, e);
}

/// Walking an object that is not a vault, within the maximum depth, visits
/// every node owned by an entry of each of its type-info, metadata,
/// royalty, access-rules and object-state modules, one level down, found
/// under the object module and the entry's key.
pub proof fn lemma_object_modules_visited(
    db: DbView,
    max: u32,
    parent: Option<(u64, u8, Seq<u8>)>,
    node_id: u64,
    depth: int,
    module: u8,
    i: int,
    j: int,
)
    requires
        0 <= depth < max,
        type_info_of(db, node_id) matches Some(
            TypeInfoSubstate::Object { blueprint: BlueprintKind::Other, .. },
        ),
        module == TYPE_INFO_BASE_MODULE || module == METADATA_BASE_MODULE || module
            == ROYALTY_BASE_MODULE || module == ACCESS_RULES_BASE_MODULE || module
            == OBJECT_BASE_MODULE,
        0 <= i < list(db, node_id, module).len(),
        0 <= j < owned_nodes(list(db, node_id, module)[i].1).len(),
    ensures
        visits(db, max, parent, node_id, depth).contains(
            VisitEventView::NodeId {
                parent: Some((node_id, OBJECT_BASE_MODULE, list(db, node_id, module)[i].0)),
                node_id: owned_nodes(list(db, node_id, module)[i].1)[j],
                depth: (depth + 1) as u32,
            },
        ),
{
    let m: int = if module == TYPE_INFO_BASE_MODULE {
        0
    } else if module == METADATA_BASE_MODULE {
        1
    } else if module == ROYALTY_BASE_MODULE {
        2
    } else if module == ACCESS_RULES_BASE_MODULE {
        3
    } else {
        4
    };
    assert(listed_module(m) == module);
    lemma_modules_visited(db, max, node_id, 0, depth + 1, m, i, j);
    let head = seq![VisitEventView::NodeId { parent, node_id, depth: depth as u32 }];
    let rest = modules_visits(db, max, node_id, 0, depth + 1);
    assert(visits(db, max, parent, node_id, depth) == head + rest);
    lemma_contains_concat(
        head,
        rest,
        VisitEventView::NodeId {
            parent: Some((node_id, OBJECT_BASE_MODULE, list(db, node_id, module)[i].0)),
            node_id: owned_nodes(list(db, node_id, module)[i].1)[j],
            depth: (depth + 1) as u32,
        },
    );
}

/// The view of a borrowed parent reference.
pub open spec fn parent_ref_view(p: Option<&ParentRef>) -> Option<(u64, u8, Seq<u8>)> {
    match p {
        Some(t) => Some((t.0, t.1, t.2@)),
        None => None,
    }
}

/// Receives what a traversal finds. An implementation keeps, as its
/// `log`, the calls it has received, in order.
pub trait StateTreeVisitor {
    /// The calls received so far, in order.
    spec fn log(&self) -> Seq<VisitEventView>;

    /// A fungible vault, the resource it holds and the amount.
    fn visit_fungible_vault(&mut self, vault_id: u64, address: u64, amount: u64)
        ensures
            final(self).log() == old(self).log().push(
                VisitEventView::FungibleVault { vault_id, address, amount },
            ),
    ;

    /// A non-fungible vault, the resource it holds and the node holding its
    /// ids.
    fn visit_non_fungible_vault(&mut self, vault_id: u64, address: u64, ids_node: u64)
        ensures
            final(self).log() == old(self).log().push(
                VisitEventView::NonFungibleVault { vault_id, address, ids_node },
            ),
    ;

    /// One unit held by a non-fungible vault.
    fn visit_non_fungible(&mut self, vault_id: u64, address: u64, id: &[u8])
        ensures
            final(self).log() == old(self).log().push(
                VisitEventView::NonFungible { vault_id, address, id: id@ },
            ),
    ;

    /// A node, where it was found and at which depth.
    fn visit_node_id(&mut self, parent: Option<&ParentRef>, node_id: u64, depth: u32)
        ensures
            final(self).log() == old(self).log().push(
                VisitEventView::NodeId { parent: parent_ref_view(parent), node_id, depth },
            ),
    ;
}

/// A visitor that keeps the calls it receives.
pub struct VisitRecorder {
    pub events: Vec<VisitEvent>,
}

impl VisitRecorder {
    /// A recorder that has received nothing.
    pub fn new() -> (r: VisitRecorder)
        ensures
            r.log() == Seq::<VisitEventView>::empty(),
    {
        let r = VisitRecorder { events: Vec::new() };
        assert(events_view(r.events@) =~= Seq::<VisitEventView>::empty());
        r
    }
}

impl StateTreeVisitor for VisitRecorder {
    open spec fn log(&self) -> Seq<VisitEventView> {
        events_view(self.events@)
    }

    fn visit_fungible_vault(&mut self, vault_id: u64, address: u64, amount: u64) {
        self.events.push(VisitEvent::FungibleVault { vault_id, address, amount });
        assert(events_view(self.events@) =~= events_view(old(self).events@).push(
            VisitEventView::FungibleVault { vault_id, address, amount },
        ));
    }

    fn visit_non_fungible_vault(&mut self, vault_id: u64, address: u64, ids_node: u64) {
        self.events.push(VisitEvent::NonFungibleVault { vault_id, address, ids_node });
        assert(events_view(self.events@) =~= events_view(old(self).events@).push(
            VisitEventView::NonFungibleVault { vault_id, address, ids_node },
        ));
    }

    fn visit_non_fungible(&mut self, vault_id: u64, address: u64, id: &[u8]) {
        self.events.push(VisitEvent::NonFungible { vault_id, address, id: copy_bytes(id) });
        assert(events_view(self.events@) =~= events_view(old(self).events@).push(
            VisitEventView::NonFungible { vault_id, address, id: id@ },
        ));
    }

    fn visit_node_id(&mut self, parent: Option<&ParentRef>, node_id: u64, depth: u32) {
        let p = match parent {
            Some(p) => Some(copy_parent(p)),
            None => None,
        };
        self.events.push(VisitEvent::NodeId { parent: p, node_id, depth });
        assert(events_view(self.events@) =~= events_view(old(self).events@).push(
            VisitEventView::NodeId { parent: parent_ref_view(parent), node_id, depth },
        ));
    }
}

/// Walks the nodes below a node, down to a maximum depth.
pub struct StateTreeTraverser<'s, 'v, V: StateTreeVisitor> {
    /// The database walked.
    pub substate_db: &'s SubstateDatabase,
    /// The visitor the traversal reports to.
    pub visitor: &'v mut V,
    /// How many levels below the starting node are walked.
    pub max_depth: u32,
}

fn copy_parent(p: &ParentRef) -> (r: ParentRef)
    ensures
        r.0 == p.0 && r.1 == p.1 && r.2@ == p.2@,
{
    (p.0, p.1, copy_bytes(p.2.as_slice()))
}

fn liquid_fungible(db: &SubstateDatabase, node_id: u64) -> (r: u64)
    requires
        liquid_of(db.view_db(), node_id) matches Some(DbValueView::LiquidFungible(_)),
    ensures
        r == liquid_of(db.view_db(), node_id)->Some_0->LiquidFungible_0,
{
    let key: Vec<u8> = vec![0u8];
    assert(key@ =~= liquid_key());
    match db.get_substate(node_id, OBJECT_BASE_MODULE, key.as_slice()) {
        Some(DbValue::LiquidFungible(amount)) => *amount,
        _ => vstd::pervasive::unreached(),
    }
}

fn liquid_non_fungible(db: &SubstateDatabase, node_id: u64) -> (r: u64)
    requires
        liquid_of(db.view_db(), node_id) matches Some(DbValueView::LiquidNonFungible(_)),
    ensures
        r == liquid_of(db.view_db(), node_id)->Some_0->LiquidNonFungible_0,
{
    let key: Vec<u8> = vec![0u8];
    assert(key@ =~= liquid_key());
    match db.get_substate(node_id, OBJECT_BASE_MODULE, key.as_slice()) {
        Some(DbValue::LiquidNonFungible(ids)) => *ids,
        _ => vstd::pervasive::unreached(),
    }
}

fn type_info(db: &SubstateDatabase, node_id: u64) -> (r: TypeInfoSubstate)
    requires
        type_info_of(db.view_db(), node_id) is Some,
    ensures
        type_info_of(db.view_db(), node_id) == Some(r),
{
    let key: Vec<u8> = vec![0u8];
    assert(key@ =~= type_info_key());
    match db.get_substate(node_id, TYPE_INFO_BASE_MODULE, key.as_slice()) {
        Some(DbValue::TypeInfo(t)) => *t,
        _ => vstd::pervasive::unreached(),
    }
}

fn module_at(m: usize) -> (r: u8)
    requires
        m < 5,
    ensures
        r == listed_module(m as int),
{
    if m == 0 {
        TYPE_INFO_BASE_MODULE
    } else if m == 1 {
        METADATA_BASE_MODULE
    } else if m == 2 {
        ROYALTY_BASE_MODULE
    } else if m == 3 {
        ACCESS_RULES_BASE_MODULE
    } else {
        OBJECT_BASE_MODULE
    }
}

/// Appends the visits for `node_id`, found at `depth` under `parent`.
fn collect_visits(
    db: &SubstateDatabase,
    max: u32,
    parent: Option<&ParentRef>,
    node_id: u64,
    depth: u32,
    out: &mut Vec<VisitEvent>,
)
    requires
        traversable(db.view_db(), max, node_id, depth as int),
    ensures
        events_view(final(out)@) == events_view(old(out)@) + visits(
            db.view_db(),
            max,
            match parent {
                Some(p) => Some((p.0, p.1, p.2@)),
                None => None,
            },
            node_id,
            depth as int,
        ),
    decreases max + 1 - depth, 3int, 0int,
{
    let ghost d = db.view_db();
    let ghost pv = match parent {
        Some(p) => Some((p.0, p.1, p.2@)),
        None => None,
    };
    if depth > max {
        assert(events_view(out@) =~= events_view(out@) + Seq::<VisitEventView>::empty());
        return ;
    }
    let p = match parent {
        Some(p) => Some(copy_parent(p)),
        None => None,
    };
    let ghost before = events_view(out@);
    out.push(VisitEvent::NodeId { parent: p, node_id, depth });
    proof {
        assert(events_view(out@) =~= before + seq![VisitEventView::NodeId { parent: pv, node_id, depth }]);
    }
    let ghost after_node = events_view(out@);
    match type_info(db, node_id) {
        TypeInfoSubstate::KeyValueStore => {
            let entries = db.list_substates(node_id, OBJECT_BASE_MODULE);
            if depth < max {
                collect_entries(db, max, node_id, entries, 0, depth + 1, out);
            } else {
                proof {
                    lemma_entries_visits_beyond(d, max, node_id, entries@.map_values(|e: DbEntry| entry_view(e)), 0);
                    assert(events_view(out@) =~= after_node + Seq::<VisitEventView>::empty());
                }
            }
        },
        TypeInfoSubstate::Index | TypeInfoSubstate::SortedIndex => {
            assert(events_view(out@) =~= after_node + Seq::<VisitEventView>::empty());
        },
        TypeInfoSubstate::Object { blueprint, outer_object } => {
            match blueprint {
                BlueprintKind::FungibleVault => {
                    let address = match outer_object {
                        Some(a) => a,
                        None => vstd::pervasive::unreached(),
                    };
                    let amount = liquid_fungible(db, node_id);
                    out.push(VisitEvent::FungibleVault { vault_id: node_id, address, amount });
                    assert(events_view(out@) =~= after_node + seq![
                        VisitEventView::FungibleVault { vault_id: node_id, address, amount },
                    ]);
                },
                BlueprintKind::NonFungibleVault => {
                    let address = match outer_object {
                        Some(a) => a,
                        None => vstd::pervasive::unreached(),
                    };
                    let ids_node = liquid_non_fungible(db, node_id);
                    out.push(VisitEvent::NonFungibleVault { vault_id: node_id, address, ids_node });
                    let ghost with_vault = events_view(out@);
                    let ids = db.list_substates(ids_node, OBJECT_BASE_MODULE);
                    let ghost s = list(d, ids_node, OBJECT_BASE_MODULE);
                    let ghost f = |e: (Seq<u8>, DbValueView)|
                        VisitEventView::NonFungible {
                            vault_id: node_id,
                            address,
                            id: e.1->NonFungibleLocalId_0,
                        };
                    let mut i: usize = 0;
                    while i < ids.len()
                        invariant
                            i <= ids@.len(),
                            ids@.map_values(|e: DbEntry| entry_view(e)) == s,
                            forall|k: int| 0 <= k < s.len() ==> (#[trigger] s[k]).1 is NonFungibleLocalId,
                            forall|e: (Seq<u8>, DbValueView)|
                                #[trigger] f(e) == (VisitEventView::NonFungible {
                                    vault_id: node_id,
                                    address,
                                    id: e.1->NonFungibleLocalId_0,
                                }),
                            events_view(out@) == with_vault + s.subrange(0, i as int).map_values(f),
                        decreases ids@.len() - i,
                    {
                        assert(s[i as int] == entry_view(ids@[i as int]));
                        let id = match &ids[i].1 {
                            DbValue::NonFungibleLocalId(raw) => copy_bytes(raw.as_slice()),
                            _ => {
                                assert(s[i as int].1 is NonFungibleLocalId);
                                vstd::pervasive::unreached()
                            },
                        };
                        assert(id@ == s[i as int].1->NonFungibleLocalId_0);
                        let ghost prev = events_view(out@);
                        out.push(VisitEvent::NonFungible { vault_id: node_id, address, id });
                        proof {
                            assert(s.subrange(0, i + 1).map_values(f) =~= s.subrange(0, i as int).map_values(f).push(f(s[i as int])));
                            assert(events_view(out@) =~= prev.push(f(s[i as int])));
                        }
                        i = i + 1;
                    }
                    proof {
                        assert(s.subrange(0, i as int) =~= s);
                        assert(events_view(out@) =~= after_node + (seq![
                            VisitEventView::NonFungibleVault { vault_id: node_id, address, ids_node },
                        ] + s.map_values(f)));
                    }
                },
                BlueprintKind::Other => {
                    if depth < max {
                        collect_modules(db, max, node_id, 0, depth + 1, out);
                    } else {
                        proof {
                            lemma_modules_visits_beyond(d, max, node_id, 0);
                            assert(events_view(out@) =~= after_node + Seq::<VisitEventView>::empty());
                        }
                    }
                },
            }
        },
    }
}

fn collect_modules(
    db: &SubstateDatabase,
    max: u32,
    node_id: u64,
    m: usize,
    depth: u32,
    out: &mut Vec<VisitEvent>,
)
    requires
        1 <= depth <= max,
        m <= 5,
        modules_traversable(db.view_db(), max, node_id, m as int, depth as int),
    ensures
        events_view(final(out)@) == events_view(old(out)@) + modules_visits(
            db.view_db(),
            max,
            node_id,
            m as int,
            depth as int,
        ),
    decreases max + 2 - depth, 2int, 5 - m,
{
    if m >= 5 {
        assert(events_view(out@) =~= events_view(out@) + Seq::<VisitEventView>::empty());
        return ;
    }
    let ghost before = events_view(out@);
    let entries = db.list_substates(node_id, module_at(m));
    collect_entries(db, max, node_id, entries, 0, depth, out);
    let ghost mid = events_view(out@);
    collect_modules(db, max, node_id, m + 1, depth, out);
    proof {
        assert(events_view(out@) =~= before + modules_visits(db.view_db(), max, node_id, m as int, depth as int));
    }
}

fn collect_entries(
    db: &SubstateDatabase,
    max: u32,
    node_id: u64,
    entries: &[DbEntry],
    i: usize,
    depth: u32,
    out: &mut Vec<VisitEvent>,
)
    requires
        1 <= depth <= max,
        i <= entries@.len(),
        entries_traversable(
            db.view_db(),
            max,
            entries@.map_values(|e: DbEntry| entry_view(e)),
            i as int,
            depth as int,
        ),
    ensures
        events_view(final(out)@) == events_view(old(out)@) + entries_visits(
            db.view_db(),
            max,
            node_id,
            entries@.map_values(|e: DbEntry| entry_view(e)),
            i as int,
            depth as int,
        ),
    decreases max + 2 - depth, 1int, entries@.len() - i,
{
    let ghost s = entries@.map_values(|e: DbEntry| entry_view(e));
    if i >= entries.len() {
        assert(events_view(out@) =~= events_view(out@) + Seq::<VisitEventView>::empty());
        return ;
    }
    let ghost before = events_view(out@);
    let parent: ParentRef = (node_id, OBJECT_BASE_MODULE, copy_bytes(entries[i].0.as_slice()));
    let empty: Vec<u64> = Vec::new();
    let owned: &Vec<u64> = match &entries[i].1 {
        DbValue::Value(owned) => owned,
        _ => &empty,
    };
    proof {
        assert(owned@ == owned_nodes(s[i as int].1));
    }
    collect_owned(db, max, &parent, owned, 0, depth, out);
    collect_entries(db, max, node_id, entries, i + 1, depth, out);
    proof {
        assert(events_view(out@) =~= before + entries_visits(db.view_db(), max, node_id, s, i as int, depth as int));
    }
}

fn collect_owned(
    db: &SubstateDatabase,
    max: u32,
    parent: &ParentRef,
    owned: &Vec<u64>,
    j: usize,
    depth: u32,
    out: &mut Vec<VisitEvent>,
)
    requires
        1 <= depth <= max,
        j <= owned@.len(),
        owned_traversable(db.view_db(), max, owned@, j as int, depth as int),
    ensures
        events_view(final(out)@) == events_view(old(out)@) + owned_visits(
            db.view_db(),
            max,
            (parent.0, parent.1, parent.2@),
            owned@,
            j as int,
            depth as int,
        ),
    decreases max + 2 - depth, 0int, owned@.len() - j,
{
    if j >= owned.len() {
        assert(events_view(out@) =~= events_view(out@) + Seq::<VisitEventView>::empty());
        return ;
    }
    let ghost before = events_view(out@);
    collect_visits(db, max, Some(parent), owned[j], depth, out);
    collect_owned(db, max, parent, owned, j + 1, depth, out);
    proof {
        assert(events_view(out@) =~= before + owned_visits(
            db.view_db(),
            max,
            (parent.0, parent.1, parent.2@),
            owned@,
            j as int,
            depth as int,
        ));
    }
}

/// The calls a traversal that finds `node_id` at `depth` under `parent`
/// makes on its visitor, in order.
fn visits_from(
    substate_db: &SubstateDatabase,
    max_depth: u32,
    parent: Option<&ParentRef>,
    node_id: u64,
    depth: u32,
) -> (r: Vec<VisitEvent>)
    requires
        traversable(substate_db.view_db(), max_depth, node_id, depth as int),
    ensures
        events_view(r@) == visits(
            substate_db.view_db(),
            max_depth,
            parent_ref_view(parent),
            node_id,
            depth as int,
        ),
{
    let mut out: Vec<VisitEvent> = Vec::new();
    assert(events_view(out@) =~= Seq::<VisitEventView>::empty());
    collect_visits(substate_db, max_depth, parent, node_id, depth, &mut out);
    assert(events_view(out@) =~= visits(
        substate_db.view_db(),
        max_depth,
        parent_ref_view(parent),
        node_id,
        depth as int,
    ));
    out
}

/// The calls a traversal from `node_id` makes on its visitor, in order.
pub fn descendant_visits(
    substate_db: &SubstateDatabase,
    max_depth: u32,
    parent_node_id: Option<&ParentRef>,
    node_id: u64,
) -> (r: Vec<VisitEvent>)
    requires
        traversable(substate_db.view_db(), max_depth, node_id, 0),
    ensures
        events_view(r@) == visits(
            substate_db.view_db(),
            max_depth,
            parent_ref_view(parent_node_id),
            node_id,
            0,
        ),
{
    visits_from(substate_db, max_depth, parent_node_id, node_id, 0)
}

impl<'s, 'v, V: StateTreeVisitor> StateTreeTraverser<'s, 'v, V> {
    /// A traverser over `substate_db` reporting to `visitor`.
    pub fn new(substate_db: &'s SubstateDatabase, visitor: &'v mut V, max_depth: u32) -> (r: Self)
        ensures
            r.max_depth() == max_depth,
            r.db() == substate_db,
            *r.visitor == *old(visitor),
            *final(r.visitor) == *final(visitor),
    {
        StateTreeTraverser { substate_db, visitor, max_depth }
    }

    /// The maximum depth.
    pub closed spec fn max_depth(&self) -> u32 {
        self.max_depth
    }

    /// The database walked.
    pub closed spec fn db(&self) -> &'s SubstateDatabase {
        self.substate_db
    }

    /// Walks the nodes below `node_id` and reports them to the visitor: the
    /// visitor receives, in order, the calls that `descendant_visits` lists.
    pub fn traverse_all_descendents(&mut self, parent_node_id: Option<&ParentRef>, node_id: u64)
        requires
            traversable(old(self).db().view_db(), old(self).max_depth(), node_id, 0),
        ensures
            final(self).db() == old(self).db(),
            final(self).max_depth() == old(self).max_depth(),
            *final(final(self).visitor) == *final(old(self).visitor),
            final(self).visitor.log() == old(self).visitor.log() + visits(
                old(self).db().view_db(),
                old(self).max_depth(),
                parent_ref_view(parent_node_id),
                node_id,
                0,
            ),
    {
        self.traverse_recursive(parent_node_id, node_id, 0)
    }

    /// Reports `node_id`, found at `depth` under `parent`, and the nodes
    /// below it down to the maximum depth: the visitor receives, in order,
    /// the calls of `visits`; beyond the maximum depth it receives none and
    /// nothing is read.
    pub fn traverse_recursive(&mut self, parent: Option<&ParentRef>, node_id: u64, depth: u32)
        requires
            traversable(old(self).db().view_db(), old(self).max_depth(), node_id, depth as int),
        ensures
            final(self).db() == old(self).db(),
            final(self).max_depth() == old(self).max_depth(),
            *final(final(self).visitor) == *final(old(self).visitor),
            final(self).visitor.log() == old(self).visitor.log() + visits(
                old(self).db().view_db(),
                old(self).max_depth(),
                parent_ref_view(parent),
                node_id,
                depth as int,
            ),
    {
        if depth > self.max_depth {
            assert(old(self).visitor.log() =~= old(self).visitor.log() + Seq::<VisitEventView>::empty());
            return;
        }
        let events = visits_from(self.substate_db, self.max_depth, parent, node_id, depth);
        let ghost all = events_view(events@);
        let ghost start = self.visitor.log();
        let mut i: usize = 0;
        while i < events.len()
            invariant
                i <= events@.len(),
                all == events_view(events@),
                self.substate_db == old(self).substate_db,
                self.max_depth == old(self).max_depth,
                *final(self.visitor) == *final(old(self).visitor),
                self.visitor.log() == start + all.subrange(0, i as int),
            decreases events@.len() - i,
        {
            match &events[i] {
                VisitEvent::NodeId { parent, node_id, depth } => {
                    self.visitor.visit_node_id(parent.as_ref(), *node_id, *depth)
                },
                VisitEvent::FungibleVault { vault_id, address, amount } => {
                    self.visitor.visit_fungible_vault(*vault_id, *address, *amount)
                },
                VisitEvent::NonFungibleVault { vault_id, address, ids_node } => {
                    self.visitor.visit_non_fungible_vault(*vault_id, *address, *ids_node)
                },
                VisitEvent::NonFungible { vault_id, address, id } => {
                    self.visitor.visit_non_fungible(*vault_id, *address, id.as_slice())
                },
            }
            proof {
                assert(all.subrange(0, i + 1) =~= all.subrange(0, i as int).push(events@[i as int]@));
            }
            i = i + 1;
        }
        proof {
            assert(all.subrange(0, i as int) =~= all);
        }
    }
}

} // verus!
