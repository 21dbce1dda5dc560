use radix_engine::securify::{
    create_advanced, create_config, create_presecurified, create_securified, init_securified_rules,
    securify_access_rules, AccessRule, AuthorityKey, AuthorityRules, NonFungibleGlobalId,
};

fn defaults() -> AuthorityRules {
    let mut rules = AuthorityRules::new();
    rules.set_rule(AuthorityKey::Owner, AccessRule::DenyAll, AccessRule::DenyAll);
    rules.set_main_authority_rule(b"withdraw", AccessRule::RequireOwner, AccessRule::DenyAll);
    rules
}

fn is_deny(r: &AccessRule) -> bool {
    matches!(r, AccessRule::DenyAll)
}

#[test]
fn config_overrides_defaults() {
    let mut overrides = AuthorityRules::new();
    overrides.set_main_authority_rule(b"withdraw", AccessRule::AllowAll, AccessRule::RequireOwner);
    overrides.set_main_authority_rule(b"deposit", AccessRule::AllowAll, AccessRule::DenyAll);
    let config = create_config(defaults(), overrides);
    let withdraw = config.get_rule(&AuthorityKey::Main(b"withdraw".to_vec())).unwrap();
    assert!(matches!(withdraw.0, AccessRule::AllowAll));
    assert!(matches!(withdraw.1, AccessRule::RequireOwner));
    let deposit = config.get_rule(&AuthorityKey::Main(b"deposit".to_vec())).unwrap();
    assert!(matches!(deposit.0, AccessRule::AllowAll));
    let owner = config.get_rule(&AuthorityKey::Owner).unwrap();
    assert!(is_deny(&owner.0));
    assert!(config.get_rule(&AuthorityKey::Main(b"other".to_vec())).is_none());
}

#[test]
fn securified_rules_start_from_defaults() {
    let rules = init_securified_rules(defaults());
    let withdraw = rules.get_rule(&AuthorityKey::Main(b"withdraw".to_vec())).unwrap();
    assert!(matches!(withdraw.0, AccessRule::RequireOwner));
    assert!(rules.get_rule(&AuthorityKey::Main(b"deposit".to_vec())).is_none());
}

#[test]
fn advanced_config_denies_securify_authority() {
    let mut overrides = AuthorityRules::new();
    overrides.set_main_authority_rule(b"securify", AccessRule::AllowAll, AccessRule::AllowAll);
    let config = create_advanced(defaults(), overrides, Some(b"securify"));
    let securify = config.get_rule(&AuthorityKey::Main(b"securify".to_vec())).unwrap();
    assert!(is_deny(&securify.0));
    assert!(is_deny(&securify.1));
    let plain = create_advanced(defaults(), AuthorityRules::new(), None);
    assert!(plain.get_rule(&AuthorityKey::Main(b"securify".to_vec())).is_none());
}

#[test]
fn securing_requires_the_owner_badge() {
    let updates = securify_access_rules(77, Some(b"securify"), vec![1, 2]);
    assert_eq!(updates.len(), 2);
    assert!(matches!(&updates[0].key, AuthorityKey::Main(name) if name == b"securify"));
    assert!(is_deny(&updates[0].rule) && is_deny(&updates[0].mutability));
    assert!(matches!(updates[1].key, AuthorityKey::Owner));
    match &updates[1].rule {
        AccessRule::RequireNonFungible(id) => {
            assert_eq!(id.resource_address, 77);
            assert_eq!(id.local_id, vec![1, 2]);
        }
        other => panic!("unexpected rule {:?}", other),
    }
    assert!(matches!(updates[1].mutability, AccessRule::RequireOwner));
    let without = securify_access_rules(77, None, vec![3]);
    assert_eq!(without.len(), 1);
    assert!(matches!(without[0].key, AuthorityKey::Owner));
}

#[test]
fn securified_object_rules_and_updates() {
    let (rules, updates) = create_securified(defaults(), 5, None, vec![9]);
    assert!(rules.get_rule(&AuthorityKey::Owner).is_some());
    assert_eq!(updates.len(), 1);
}

#[test]
fn presecurified_owner_rules() {
    let owner = NonFungibleGlobalId::new(12, vec![4]);
    let (_, updates) = create_presecurified(defaults(), 33, Some(b"securify"), owner);
    assert_eq!(updates.len(), 2);
    for u in &updates {
        match &u.rule {
            AccessRule::RequireNonFungible(id) => {
                assert_eq!(id.resource_address, 12);
                assert_eq!(id.local_id, vec![4]);
            }
            other => panic!("unexpected rule {:?}", other),
        }
        assert!(matches!(u.mutability, AccessRule::RequirePackageOfDirectCaller(33)));
    }
    assert!(matches!(updates[1].key, AuthorityKey::Owner));
}
