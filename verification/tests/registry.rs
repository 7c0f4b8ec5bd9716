use note_stack::registry::NoteRegistry;

fn sorted(mut labels: Vec<String>) -> Vec<String> {
    labels.sort();
    labels
}

#[test]
fn new_registry_is_empty() {
    let registry = NoteRegistry::new();
    assert_eq!(registry.len(), 0);
    assert!(registry.snapshot().is_empty());
    assert!(!registry.contains("note-a"));
}

#[test]
fn register_is_idempotent() {
    let mut registry = NoteRegistry::new();
    registry.register("note-a".to_string());
    registry.register("note-a".to_string());
    assert_eq!(registry.len(), 1);
    assert_eq!(registry.snapshot(), vec!["note-a".to_string()]);
}

#[test]
fn deregister_is_idempotent() {
    let mut registry = NoteRegistry::new();
    registry.register("note-a".to_string());
    registry.register("note-b".to_string());
    registry.deregister("note-a");
    registry.deregister("note-a");
    assert_eq!(registry.snapshot(), vec!["note-b".to_string()]);
    assert!(!registry.contains("note-a"));
    assert!(registry.contains("note-b"));
}

#[test]
fn deregistering_an_unknown_label_changes_nothing() {
    let mut registry = NoteRegistry::new();
    registry.register("note-a".to_string());
    registry.deregister("note-z");
    assert_eq!(registry.snapshot(), vec!["note-a".to_string()]);
}

#[test]
fn snapshot_holds_what_was_registered_and_not_deregistered() {
    let mut registry = NoteRegistry::new();
    for label in ["note-a", "note-b", "note-c", "note-b", "note-d"] {
        registry.register(label.to_string());
    }
    registry.deregister("note-c");
    registry.deregister("note-a");
    registry.register("note-a".to_string());
    let snapshot = registry.snapshot();
    assert_eq!(
        sorted(snapshot.clone()),
        vec!["note-a".to_string(), "note-b".to_string(), "note-d".to_string()]
    );
    assert!(!snapshot.contains(&"note-c".to_string()));
    assert!(!snapshot.contains(&"main".to_string()));
    assert_eq!(registry.len(), 3);
}

#[test]
fn snapshot_comes_in_registration_order() {
    let mut registry = NoteRegistry::new();
    registry.register("note-b".to_string());
    registry.register("note-a".to_string());
    registry.register("note-c".to_string());
    assert_eq!(
        registry.snapshot(),
        vec!["note-b".to_string(), "note-a".to_string(), "note-c".to_string()]
    );
}

#[test]
fn snapshot_is_a_copy() {
    let mut registry = NoteRegistry::new();
    registry.register("note-a".to_string());
    let before = registry.snapshot();
    registry.register("note-b".to_string());
    registry.deregister("note-a");
    assert_eq!(before, vec!["note-a".to_string()]);
    assert_eq!(registry.snapshot(), vec!["note-b".to_string()]);
}
