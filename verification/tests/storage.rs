use alescript::storage::{barrel_get, Scopes};

#[test]
fn lookup_after_set_gives_the_value() {
    let mut scopes: Scopes<i32> = Scopes::new();
    assert_eq!(scopes.get("x"), None);
    scopes.set("x".to_string(), 5);
    assert_eq!(scopes.get("x"), Some(&5));
    assert_eq!(scopes.get("y"), None);
}

#[test]
fn set_again_replaces_the_binding() {
    let mut scopes: Scopes<i32> = Scopes::new();
    scopes.set("x".to_string(), 5);
    scopes.set("y".to_string(), 6);
    scopes.set("x".to_string(), 7);
    assert_eq!(scopes.get("x"), Some(&7));
    assert_eq!(scopes.get("y"), Some(&6));
}

#[test]
fn inner_scope_shadows_and_sees_outer() {
    let mut scopes: Scopes<i32> = Scopes::new();
    scopes.set("x".to_string(), 1);
    scopes.set("y".to_string(), 2);
    scopes.push_scope();
    assert_eq!(scopes.get("x"), Some(&1));
    scopes.set("x".to_string(), 10);
    assert_eq!(scopes.get("x"), Some(&10));
    assert_eq!(scopes.get("y"), Some(&2));
    scopes.pop_scope();
    assert_eq!(scopes.get("x"), Some(&1));
}

#[test]
fn bindings_of_a_closed_scope_are_gone() {
    let mut scopes: Scopes<i32> = Scopes::new();
    scopes.push_scope();
    scopes.set("local".to_string(), 3);
    assert_eq!(scopes.get("local"), Some(&3));
    scopes.pop_scope();
    assert_eq!(scopes.get("local"), None);
}

#[test]
fn set_without_any_scope_does_nothing() {
    let mut scopes: Scopes<i32> = Scopes::new();
    scopes.pop_scope();
    scopes.set("x".to_string(), 1);
    assert_eq!(scopes.get("x"), None);
    scopes.pop_scope();
    assert_eq!(scopes.get("x"), None);
}

#[test]
fn barrel_positions_start_at_one() {
    let barrel = vec![10, 20, 30];
    assert_eq!(barrel_get(&barrel, 1), Some(&10));
    assert_eq!(barrel_get(&barrel, 2), Some(&20));
    assert_eq!(barrel_get(&barrel, 3), Some(&30));
}

#[test]
fn barrel_positions_outside_are_refused() {
    let barrel = vec![10, 20, 30];
    assert_eq!(barrel_get(&barrel, 0), None);
    assert_eq!(barrel_get(&barrel, 4), None);
    let empty: Vec<i32> = Vec::new();
    assert_eq!(barrel_get(&empty, 1), None);
}
