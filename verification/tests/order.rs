use note_stack::order::SessionOrder;

fn order_of(ids: &[&str]) -> SessionOrder {
    SessionOrder::from_ids(ids.iter().map(|s| s.to_string()).collect())
}

fn ids(order: &SessionOrder) -> Vec<&str> {
    order.ids.iter().map(|s| s.as_str()).collect()
}

#[test]
fn new_order_is_empty() {
    let order = SessionOrder::new();
    assert!(order.is_empty());
    assert_eq!(order.len(), 0);
}

#[test]
fn touching_moves_an_id_to_the_back() {
    let mut order = SessionOrder::new();
    order.update_order("a".to_string(), false);
    order.update_order("b".to_string(), false);
    order.update_order("c".to_string(), false);
    order.update_order("a".to_string(), false);
    assert_eq!(ids(&order), vec!["b", "c", "a"]);
}

#[test]
fn touched_id_is_last_and_single_from_any_position() {
    for start in [vec!["x", "a", "b"], vec!["a", "x", "b"], vec!["a", "b", "x"], vec!["a", "b"]] {
        let mut order = order_of(&start);
        order.update_order("x".to_string(), false);
        assert_eq!(ids(&order), vec!["a", "b", "x"]);
        assert_eq!(order.ids.iter().filter(|id| id.as_str() == "x").count(), 1);
    }
}

#[test]
fn touching_the_last_id_changes_nothing() {
    let mut order = order_of(&["a", "b"]);
    order.update_order("b".to_string(), false);
    assert_eq!(ids(&order), vec!["a", "b"]);
}

#[test]
fn removal_is_idempotent() {
    let mut order = order_of(&["a", "b", "c"]);
    order.update_order("b".to_string(), true);
    assert_eq!(ids(&order), vec!["a", "c"]);
    order.update_order("b".to_string(), true);
    assert_eq!(ids(&order), vec!["a", "c"]);
}

#[test]
fn removing_an_absent_id_changes_nothing() {
    let mut order = order_of(&["a", "b"]);
    order.update_order("z".to_string(), true);
    assert_eq!(ids(&order), vec!["a", "b"]);
}

#[test]
fn removing_from_the_empty_order() {
    let mut order = SessionOrder::new();
    order.update_order("a".to_string(), true);
    assert!(order.is_empty());
}

#[test]
fn update_takes_out_every_repeat() {
    let mut order = order_of(&["a", "b", "a", "c", "a"]);
    order.update_order("a".to_string(), false);
    assert_eq!(ids(&order), vec!["b", "c", "a"]);
    let mut order = order_of(&["a", "b", "a", "c", "a"]);
    order.update_order("a".to_string(), true);
    assert_eq!(ids(&order), vec!["b", "c"]);
}

#[test]
fn rank_is_the_position() {
    let order = order_of(&["a", "b", "c"]);
    assert_eq!(order.rank_of("a"), 0);
    assert_eq!(order.rank_of("b"), 1);
    assert_eq!(order.rank_of("c"), 2);
}

#[test]
fn rank_of_an_unseen_id_is_the_maximum() {
    let order = order_of(&["a", "b"]);
    assert_eq!(order.rank_of("z"), usize::MAX);
    assert_eq!(SessionOrder::new().rank_of("a"), usize::MAX);
}

#[test]
fn rank_of_a_repeated_id_is_its_last_position() {
    let order = order_of(&["a", "b", "a"]);
    assert_eq!(order.rank_of("a"), 2);
}

#[test]
fn length_follows_the_updates() {
    let mut order = SessionOrder::new();
    order.update_order("a".to_string(), false);
    order.update_order("b".to_string(), false);
    assert_eq!(order.len(), 2);
    assert!(!order.is_empty());
    order.update_order("a".to_string(), true);
    assert_eq!(order.len(), 1);
}
