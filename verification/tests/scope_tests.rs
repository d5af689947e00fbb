use reactive_state::scope::ScopeTree;

#[test]
fn test_dispose_kills_whole_region() {
    let mut scopes = ScopeTree::new();
    let a = scopes.create_child(0);
    let b = scopes.create_child(a);
    let c = scopes.create_child(b);
    let outside = scopes.create_child(0);

    assert!(scopes.live(a) && scopes.live(b) && scopes.live(c) && scopes.live(outside));

    scopes.dispose(a);
    assert!(!scopes.live(a));
    assert!(!scopes.live(b));
    assert!(!scopes.live(c));
    assert!(scopes.live(0));
    assert!(scopes.live(outside));
}

#[test]
fn test_dispose_leaf_spares_parent() {
    let mut scopes = ScopeTree::new();
    let a = scopes.create_child(0);
    let b = scopes.create_child(a);

    scopes.dispose(b);
    assert!(!scopes.live(b));
    assert!(scopes.live(a));
    assert!(scopes.live(0));
}

#[test]
fn test_within_follows_nesting() {
    let mut scopes = ScopeTree::new();
    let a = scopes.create_child(0);
    let b = scopes.create_child(a);
    let sibling = scopes.create_child(0);

    assert!(scopes.within(b, a));
    assert!(scopes.within(b, 0));
    assert!(scopes.within(a, a));
    assert!(!scopes.within(a, b));
    assert!(!scopes.within(sibling, a));
}

#[test]
fn test_dispose_root_ends_everything() {
    let mut scopes = ScopeTree::new();
    let a = scopes.create_child(0);
    let b = scopes.create_child(a);

    scopes.dispose(0);
    assert!(!scopes.live(0));
    assert!(!scopes.live(a));
    assert!(!scopes.live(b));
}
