use vstd::prelude::*;

use crate::assoc::AssocMap;
use crate::assoc::MapKey;
use crate::bytes::bytes_eq;
use crate::bytes::copy_bytes;

verus! {

/// Names an authority of an object: its owner, or a named authority of its
/// main module.
#[derive(Debug)]
pub enum AuthorityKey {
    Owner,
    Main(Vec<u8>),
}

/// The mathematical content of an `AuthorityKey`.
pub enum AuthorityKeyView {
    Owner,
    Main(Seq<u8>),
}

impl View for AuthorityKey {
    type V = AuthorityKeyView;

    open spec fn view(&self) -> AuthorityKeyView {
        match self {
            AuthorityKey::Owner => AuthorityKeyView::Owner,
            AuthorityKey::Main(name) => AuthorityKeyView::Main(name@),
        }
    }
}

impl MapKey for AuthorityKey {
    fn key_eq(&self, other: &Self) -> (r: bool) {
        match (self, other) {
            (AuthorityKey::Owner, AuthorityKey::Owner) => true,
            (AuthorityKey::Main(a), AuthorityKey::Main(b)) => bytes_eq(a.as_slice(), b.as_slice()),
            _ => false,
        }
    }
}

impl AuthorityKey {
    /// The authority of the main module with the given name.
    pub fn main(name: &[u8]) -> (r: AuthorityKey)
        ensures
            r@ == AuthorityKeyView::Main(name@),
    {
        AuthorityKey::Main(copy_bytes(name))
    }
}

/// One non-fungible unit of a resource.
#[derive(Debug)]
pub struct NonFungibleGlobalId {
    pub resource_address: u64,
    pub local_id: Vec<u8>,
}

impl NonFungibleGlobalId {
    /// The unit `local_id` of the resource at `resource_address`.
    pub fn new(resource_address: u64, local_id: Vec<u8>) -> (r: NonFungibleGlobalId)
        ensures
            r.resource_address == resource_address,
            r.local_id@ == local_id@,
    {
        NonFungibleGlobalId { resource_address, local_id }
    }
}

/// Who may act under an authority.
#[derive(Debug)]
pub enum AccessRule {
    AllowAll,
    DenyAll,
    /// Whoever shows a proof of the given unit.
    RequireNonFungible(NonFungibleGlobalId),
    /// Whoever holds the owner authority.
    RequireOwner,
    /// Calls made directly by a blueprint of the given package.
    RequirePackageOfDirectCaller(u64),
}

/// The mathematical content of an `AccessRule`.
pub enum AccessRuleView {
    AllowAll,
    DenyAll,
    RequireNonFungible(u64, Seq<u8>),
    RequireOwner,
    RequirePackageOfDirectCaller(u64),
}

impl View for AccessRule {
    type V = AccessRuleView;

    open spec fn view(&self) -> AccessRuleView {
        match self {
            AccessRule::AllowAll => AccessRuleView::AllowAll,
            AccessRule::DenyAll => AccessRuleView::DenyAll,
            AccessRule::RequireNonFungible(id) => AccessRuleView::RequireNonFungible(
                id.resource_address,
                id.local_id@,
            ),
            AccessRule::RequireOwner => AccessRuleView::RequireOwner,
            AccessRule::RequirePackageOfDirectCaller(p) => AccessRuleView::RequirePackageOfDirectCaller(
                *p,
            ),
        }
    }
}

fn copy_rule(rule: &AccessRule) -> (r: AccessRule)
    ensures
        r@ == rule@,
{
    match rule {
        AccessRule::AllowAll => AccessRule::AllowAll,
        AccessRule::DenyAll => AccessRule::DenyAll,
        AccessRule::RequireNonFungible(id) => AccessRule::RequireNonFungible(
            NonFungibleGlobalId::new(id.resource_address, copy_bytes(id.local_id.as_slice())),
        ),
        AccessRule::RequireOwner => AccessRule::RequireOwner,
        AccessRule::RequirePackageOfDirectCaller(p) => AccessRule::RequirePackageOfDirectCaller(*p),
    }
}

/// A rule and the rule that governs changes to it.
pub type RuleAndMutability = (AccessRule, AccessRule);

/// The view of a rule and its mutability.
pub open spec fn pair_view(p: RuleAndMutability) -> (AccessRuleView, AccessRuleView) {
    (p.0@, p.1@)
}

/// The rules of the authorities of an object.
pub struct AuthorityRules {
    rules: AssocMap<AuthorityKey, RuleAndMutability>,
}

/// The mathematical content of `AuthorityRules`.
pub type AuthorityRulesView = Map<AuthorityKeyView, (AccessRuleView, AccessRuleView)>;

impl View for AuthorityRules {
    type V = AuthorityRulesView;

    closed spec fn view(&self) -> AuthorityRulesView {
        self.rules@.map_values(|p: RuleAndMutability| pair_view(p))
    }
}

impl AuthorityRules {
    /// No rules.
    pub fn new() -> (r: AuthorityRules)
        ensures
            r@ == AuthorityRulesView::empty(),
    {
        let r = AuthorityRules { rules: AssocMap::new() };
        assert(r@ =~= AuthorityRulesView::empty());
        r
    }

    /// Sets the rule of an authority and the rule that governs changes to it.
    pub fn set_rule(&mut self, key: AuthorityKey, rule: AccessRule, mutability: AccessRule)
        ensures
            final(self)@ == old(self)@.insert(key@, (rule@, mutability@)),
    {
        let ghost k = key@;
        let ghost v = (rule@, mutability@);
        self.rules.insert(key, (rule, mutability));
        assert(self@ =~= old(self)@.insert(k, v));
    }

    /// Sets the rule of a named authority of the main module.
    pub fn set_main_authority_rule(&mut self, name: &[u8], rule: AccessRule, mutability: AccessRule)
        ensures
            final(self)@ == old(self)@.insert(
                AuthorityKeyView::Main(name@),
                (rule@, mutability@),
            ),
    {
        self.set_rule(AuthorityKey::main(name), rule, mutability);
    }

    /// The rule of an authority and its mutability, when set.
    pub fn get_rule(&self, key: &AuthorityKey) -> (r: Option<&RuleAndMutability>)
        ensures
            match r {
                Some(p) => self@.contains_key(key@) && self@[key@] == pair_view(*p),
                None => !self@.contains_key(key@),
            },
    {
        self.rules.get(key)
    }

    /// Adds all rules of `other`, which override rules of the same authority.
    pub fn set_rules(&mut self, other: AuthorityRules)
        ensures
            final(self)@ == old(self)@.union_prefer_right(other@),
    {
        let ghost o = other@;
        self.rules.insert_all(other.rules);
        assert(self@ =~= old(self)@.union_prefer_right(o));
    }
}

/// A change of the rule of an authority that an object's access rules are
/// asked to make.
#[derive(Debug)]
pub struct RuleUpdate {
    pub key: AuthorityKey,
    pub rule: AccessRule,
    pub mutability: AccessRule,
}

/// The mathematical content of a `RuleUpdate`.
pub type RuleUpdateView = (AuthorityKeyView, AccessRuleView, AccessRuleView);

impl View for RuleUpdate {
    type V = RuleUpdateView;

    open spec fn view(&self) -> RuleUpdateView {
        (self.key@, self.rule@, self.mutability@)
    }
}

/// The views of a list of updates.
pub open spec fn updates_view(s: Seq<RuleUpdate>) -> Seq<RuleUpdateView> {
    s.map_values(|u: RuleUpdate| u@)
}

/// The rules in effect after `updates` are made on `rules`, in order.
pub open spec fn apply_updates(rules: AuthorityRulesView, updates: Seq<RuleUpdateView>) -> AuthorityRulesView
    decreases updates.len(),
{
    if updates.len() == 0 {
        rules
    } else {
        apply_updates(rules, updates.drop_last()).insert(
            updates.last().0,
            (updates.last().1, updates.last().2),
        )
    }
}

/// The access rules of a securified object, before securing: the blueprint's
/// defaults overridden by `authority_rules`.
pub fn create_config(defaults: AuthorityRules, authority_rules: AuthorityRules) -> (r: AuthorityRules)
    ensures
        r@ == defaults@.union_prefer_right(authority_rules@),
{
    let mut r = defaults;
    r.set_rules(authority_rules);
    r
}

/// The access rules a securified object starts with: the blueprint's
/// defaults.
pub fn init_securified_rules(defaults: AuthorityRules) -> (r: AuthorityRules)
    ensures
        r@ == defaults@,
{
    let r = create_config(defaults, AuthorityRules::new());
    assert(r@ =~= r@.union_prefer_right(AuthorityRulesView::empty()));
    r
}

/// The access rules of an object created with explicit rules: the
/// blueprint's defaults overridden by `authority_rules`, and, where the
/// blueprint names a securify authority, that authority denied to all for
/// good.
pub fn create_advanced(
    defaults: AuthorityRules,
    authority_rules: AuthorityRules,
    securify_authority: Option<&[u8]>,
) -> (r: AuthorityRules)
    ensures
        r@ == match securify_authority {
            Some(name) => defaults@.union_prefer_right(authority_rules@).insert(
                AuthorityKeyView::Main(name@),
                (AccessRuleView::DenyAll, AccessRuleView::DenyAll),
            ),
            None => defaults@.union_prefer_right(authority_rules@),
        },
{
    let mut r = create_config(defaults, authority_rules);
    match securify_authority {
        Some(name) => r.set_main_authority_rule(name, AccessRule::DenyAll, AccessRule::DenyAll),
        None => {},
    }
    r
}

/// The rule changes that secure an object once the owner badge
/// `owner_local_id` of `owner_badge` has been minted: the securify authority
/// (if any) is denied to all for good, then the owner authority requires the
/// badge and only the owner may change that.
pub fn securify_access_rules(
    owner_badge: u64,
    securify_authority: Option<&[u8]>,
    owner_local_id: Vec<u8>,
) -> (r: Vec<RuleUpdate>)
    ensures
        updates_view(r@) == match securify_authority {
            Some(name) => seq![
                (AuthorityKeyView::Main(name@), AccessRuleView::DenyAll, AccessRuleView::DenyAll),
            ],
            None => Seq::<RuleUpdateView>::empty(),
        } + seq![
            (
                AuthorityKeyView::Owner,
                AccessRuleView::RequireNonFungible(owner_badge, owner_local_id@),
                AccessRuleView::RequireOwner,
            ),
        ],
{
    let mut r: Vec<RuleUpdate> = Vec::new();
    match securify_authority {
        Some(name) => {
            r.push(
                RuleUpdate {
                    key: AuthorityKey::main(name),
                    rule: AccessRule::DenyAll,
                    mutability: AccessRule::DenyAll,
                },
            );
        },
        None => {},
    }
    let ghost before = updates_view(r@);
    let global_id = NonFungibleGlobalId::new(owner_badge, owner_local_id);
    r.push(
        RuleUpdate {
            key: AuthorityKey::Owner,
            rule: AccessRule::RequireNonFungible(global_id),
            mutability: AccessRule::RequireOwner,
        },
    );
    proof {
        assert(updates_view(r@) =~= before.push(
            (
                AuthorityKeyView::Owner,
                AccessRuleView::RequireNonFungible(owner_badge, owner_local_id@),
                AccessRuleView::RequireOwner,
            ),
        ));
    }
    r
}

/// The rules of a new securified object, and the changes that secure it
/// once its owner badge `owner_local_id` has been minted.
pub fn create_securified(
    defaults: AuthorityRules,
    owner_badge: u64,
    securify_authority: Option<&[u8]>,
    owner_local_id: Vec<u8>,
) -> (r: (AuthorityRules, Vec<RuleUpdate>))
    ensures
        r.0@ == defaults@,
        updates_view(r.1@) == match securify_authority {
            Some(name) => seq![
                (AuthorityKeyView::Main(name@), AccessRuleView::DenyAll, AccessRuleView::DenyAll),
            ],
            None => Seq::<RuleUpdateView>::empty(),
        } + seq![
            (
                AuthorityKeyView::Owner,
                AccessRuleView::RequireNonFungible(owner_badge, owner_local_id@),
                AccessRuleView::RequireOwner,
            ),
        ],
{
    let rules = init_securified_rules(defaults);
    let updates = securify_access_rules(owner_badge, securify_authority, owner_local_id);
    (rules, updates)
}

/// The rules of a new object owned by `owner_id` before it is secured, and
/// the changes that give it its owner: the securify authority (if any) and
/// the owner authority require `owner_id`, and only blueprints of `package`
/// may change them.
pub fn create_presecurified(
    defaults: AuthorityRules,
    package: u64,
    securify_authority: Option<&[u8]>,
    owner_id: NonFungibleGlobalId,
) -> (r: (AuthorityRules, Vec<RuleUpdate>))
    ensures
        r.0@ == defaults@,
        updates_view(r.1@) == match securify_authority {
            Some(name) => seq![
                (
                    AuthorityKeyView::Main(name@),
                    AccessRuleView::RequireNonFungible(owner_id.resource_address, owner_id.local_id@),
                    AccessRuleView::RequirePackageOfDirectCaller(package),
                ),
            ],
            None => Seq::<RuleUpdateView>::empty(),
        } + seq![
            (
                AuthorityKeyView::Owner,
                AccessRuleView::RequireNonFungible(owner_id.resource_address, owner_id.local_id@),
                AccessRuleView::RequirePackageOfDirectCaller(package),
            ),
        ],
{
    let rules = init_securified_rules(defaults);
    let this_package_rule = AccessRule::RequirePackageOfDirectCaller(package);
    let access_rule = AccessRule::RequireNonFungible(owner_id);
    let mut r: Vec<RuleUpdate> = Vec::new();
    match securify_authority {
        Some(name) => {
            r.push(
                RuleUpdate {
                    key: AuthorityKey::main(name),
                    rule: copy_rule(&access_rule),
                    mutability: copy_rule(&this_package_rule),
                },
            );
        },
        None => {},
    }
    let ghost before = updates_view(r@);
    let ghost a = access_rule@;
    let ghost p = this_package_rule@;
    r.push(RuleUpdate { key: AuthorityKey::Owner, rule: access_rule, mutability: this_package_rule });
    proof {
        assert(updates_view(r@) =~= before.push((AuthorityKeyView::Owner, a, p)));
    }
    (rules, r)
}

/// Once secured, an object's owner authority requires the owner badge and
/// only the owner may change that; its securify authority, if any, is
/// denied to all for good; every other authority keeps its rule.
pub proof fn lemma_securified_owner(
    rules: AuthorityRulesView,
    owner_badge: u64,
    securify_authority: Option<Seq<u8>>,
    owner_local_id: Seq<u8>,
)
    ensures
        ({
            let updates = match securify_authority {
                Some(name) => seq![
                    (AuthorityKeyView::Main(name), AccessRuleView::DenyAll, AccessRuleView::DenyAll),
                ],
                None => Seq::<RuleUpdateView>::empty(),
            } + seq![
                (
                    AuthorityKeyView::Owner,
                    AccessRuleView::RequireNonFungible(owner_badge, owner_local_id),
                    AccessRuleView::RequireOwner,
                ),
            ];
            let after = apply_updates(rules, updates);
            &&& after[AuthorityKeyView::Owner] == (
                AccessRuleView::RequireNonFungible(owner_badge, owner_local_id),
                AccessRuleView::RequireOwner,
            )
            &&& securify_authority matches Some(name) ==> after[AuthorityKeyView::Main(name)] == (
                AccessRuleView::DenyAll,
                AccessRuleView::DenyAll,
            )
            &&& forall|k: AuthorityKeyView|
                k != AuthorityKeyView::Owner && !(securify_authority matches Some(name) && k
                    == AuthorityKeyView::Main(name)) ==> (#[trigger] after.contains_key(k)
                    == rules.contains_key(k) && (rules.contains_key(k) ==> after[k] == rules[k]))
        }),
{
    let owner = (
        AuthorityKeyView::Owner,
        AccessRuleView::RequireNonFungible(owner_badge, owner_local_id),
        AccessRuleView::RequireOwner,
    );
    match securify_authority {
        Some(name) => {
            let first = (AuthorityKeyView::Main(name), AccessRuleView::DenyAll, AccessRuleView::DenyAll);
            let updates = seq![first] + seq![owner];
            assert(updates.drop_last() =~= seq![first]);
            assert(seq![first].drop_last() =~= Seq::<RuleUpdateView>::empty());
            reveal_with_fuel(apply_updates, 3);
        },
        None => {
            let updates = Seq::<RuleUpdateView>::empty() + seq![owner];
            assert(updates.drop_last() =~= Seq::<RuleUpdateView>::empty());
            reveal_with_fuel(apply_updates, 2);
        },
    }
}

} // verus!
