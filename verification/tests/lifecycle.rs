use note_stack::desktop::WindowAction;
use note_stack::lifecycle::{
    finish_open, note_deleted, note_id_or_fresh, note_window_config, plan_open, plan_restore,
    reveal_actions, window_destroyed, OpenError, OpenPlan, OpenRequest, Opened, RestorePlan,
};
use note_stack::order::SessionOrder;
use note_stack::registry::NoteRegistry;
use note_stack::store::load_order;

fn order_of(ids: &[&str]) -> SessionOrder {
    SessionOrder::from_ids(ids.iter().map(|s| s.to_string()).collect())
}

fn is_fresh_shape(id: &str) -> bool {
    let chars: Vec<char> = id.chars().collect();
    chars.len() == 36
        && chars.iter().enumerate().all(|(i, c)| match i {
            8 | 13 | 18 | 23 => *c == '-',
            _ => c.is_ascii_digit() || ('a'..='f').contains(c),
        })
}

#[test]
fn a_given_id_is_kept() {
    assert_eq!(note_id_or_fresh(Some("abc".to_string())), "abc");
    assert_eq!(note_id_or_fresh(Some(String::new())), "");
}

#[test]
fn a_fresh_id_has_the_hyphenated_shape() {
    for _ in 0..20 {
        let id = note_id_or_fresh(None);
        assert!(is_fresh_shape(&id), "{id}");
    }
}

#[test]
fn fresh_ids_differ() {
    let a = note_id_or_fresh(None);
    let b = note_id_or_fresh(None);
    assert_ne!(a, b);
}

#[test]
fn note_windows_start_hidden_and_bare() {
    let config = note_window_config();
    assert_eq!(config.title, "Sticky Note");
    assert_eq!(config.page, "index.html");
    assert_eq!((config.width, config.height), (300, 300));
    assert!(config.resizable);
    assert!(!config.decorations);
    assert!(config.transparent);
    assert!(!config.always_on_top);
    assert!(config.skip_taskbar);
    assert!(!config.visible);
}

#[test]
fn an_existing_window_is_brought_forward() {
    let plan = plan_open("abc".to_string(), true);
    assert_eq!(
        plan,
        OpenPlan::FocusExisting {
            label: "note-abc".to_string(),
            actions: vec![
                WindowAction::Show("note-abc".to_string()),
                WindowAction::Unminimize("note-abc".to_string()),
                WindowAction::Focus("note-abc".to_string()),
            ],
        }
    );
}

#[test]
fn a_missing_window_is_built_hidden() {
    let plan = plan_open("abc".to_string(), false);
    assert_eq!(
        plan,
        OpenPlan::Build {
            id: "abc".to_string(),
            label: "note-abc".to_string(),
            config: note_window_config(),
        }
    );
}

#[test]
fn a_built_window_is_registered_remembered_and_shown() {
    let mut registry = NoteRegistry::new();
    let mut order = order_of(&["a", "b"]);
    let outcome = finish_open(&mut registry, &mut order, "a".to_string(), true, true, true);
    assert_eq!(
        outcome,
        Ok(Opened {
            label: "note-a".to_string(),
            store_order: true,
            actions: vec![WindowAction::Show("note-a".to_string())],
        })
    );
    assert!(registry.contains("note-a"));
    assert_eq!(order.ids, vec!["b", "a"]);
}

#[test]
fn a_window_built_for_restoring_stays_hidden_and_leaves_the_order() {
    let mut registry = NoteRegistry::new();
    let mut order = order_of(&["a", "b"]);
    let outcome = finish_open(&mut registry, &mut order, "a".to_string(), false, false, true);
    assert_eq!(
        outcome,
        Ok(Opened { label: "note-a".to_string(), store_order: false, actions: vec![] })
    );
    assert!(registry.contains("note-a"));
    assert_eq!(order.ids, vec!["a", "b"]);
}

#[test]
fn a_failed_build_changes_nothing_and_is_reported() {
    let mut registry = NoteRegistry::new();
    registry.register("note-b".to_string());
    let mut order = order_of(&["b"]);
    let outcome = finish_open(&mut registry, &mut order, "a".to_string(), true, true, false);
    assert_eq!(outcome, Err(OpenError::ConstructionFailed));
    assert_eq!(registry.snapshot(), vec!["note-b".to_string()]);
    assert_eq!(order.ids, vec!["b"]);
    assert_eq!(OpenError::ConstructionFailed.message(), "Failed to create note window");
}

#[test]
fn a_destroyed_window_leaves_registry_and_order() {
    let mut registry = NoteRegistry::new();
    registry.register("note-a".to_string());
    registry.register("note-b".to_string());
    let mut order = order_of(&["a", "b"]);
    window_destroyed(&mut registry, &mut order, "a".to_string());
    assert_eq!(registry.snapshot(), vec!["note-b".to_string()]);
    assert_eq!(order.ids, vec!["b"]);
    window_destroyed(&mut registry, &mut order, "a".to_string());
    assert_eq!(registry.snapshot(), vec!["note-b".to_string()]);
    assert_eq!(order.ids, vec!["b"]);
}

#[test]
fn a_deleted_note_leaves_the_order_and_names_its_window() {
    let mut order = order_of(&["a", "b", "c"]);
    assert_eq!(note_deleted(&mut order, "b".to_string()), "note-b");
    assert_eq!(order.ids, vec!["a", "c"]);
}

#[test]
fn restore_with_empty_order_opens_one_new_note_shown() {
    let order = load_order(Some("[]"));
    let plan = plan_restore(&order);
    assert_eq!(plan, RestorePlan::FirstNote(OpenRequest { id: None, persist: true, show: true }));

    let mut registry = NoteRegistry::new();
    let mut order = order;
    let id = note_id_or_fresh(None);
    assert!(matches!(plan_open(id.clone(), false), OpenPlan::Build { .. }));
    let opened = finish_open(&mut registry, &mut order, id.clone(), true, true, true).unwrap();
    assert_eq!(opened.actions, vec![WindowAction::Show(format!("note-{id}"))]);
    assert_eq!(registry.len(), 1);
    assert_eq!(order.ids, vec![id]);
}

#[test]
fn restore_with_two_ids_builds_both_hidden_then_shows_both() {
    let order = load_order(Some(r#"["x","y"]"#));
    let plan = plan_restore(&order);
    let requests = match plan {
        RestorePlan::Reopen(requests) => requests,
        other => panic!("{other:?}"),
    };
    assert_eq!(
        requests,
        vec![
            OpenRequest { id: Some("x".to_string()), persist: false, show: false },
            OpenRequest { id: Some("y".to_string()), persist: false, show: false },
        ]
    );

    let mut registry = NoteRegistry::new();
    let mut order = order;
    let mut visible: Vec<String> = Vec::new();
    let mut built: Vec<String> = Vec::new();
    for request in requests {
        let id = note_id_or_fresh(request.id);
        match plan_open(id.clone(), false) {
            OpenPlan::Build { config, .. } => assert!(!config.visible),
            other => panic!("{other:?}"),
        }
        let opened =
            finish_open(&mut registry, &mut order, id, request.persist, request.show, true).unwrap();
        for action in &opened.actions {
            if let WindowAction::Show(label) = action {
                visible.push(label.clone());
            }
        }
        assert!(visible.is_empty());
        built.push(opened.label);
    }
    assert_eq!(built, vec!["note-x".to_string(), "note-y".to_string()]);
    assert_eq!(order.ids, vec!["x", "y"]);
    assert_eq!(
        reveal_actions(&built),
        vec![WindowAction::Show("note-x".to_string()), WindowAction::Show("note-y".to_string())]
    );
}

#[test]
fn restore_skips_a_window_that_could_not_be_built() {
    let order = order_of(&["x", "y", "z"]);
    let requests = match plan_restore(&order) {
        RestorePlan::Reopen(requests) => requests,
        other => panic!("{other:?}"),
    };
    let mut registry = NoteRegistry::new();
    let mut order = order;
    let mut built = Vec::new();
    for request in requests {
        let id = request.id.unwrap();
        let success = id != "y";
        if let Ok(opened) = finish_open(&mut registry, &mut order, id, false, false, success) {
            built.push(opened.label);
        }
    }
    assert_eq!(
        reveal_actions(&built),
        vec![WindowAction::Show("note-x".to_string()), WindowAction::Show("note-z".to_string())]
    );
    assert!(!registry.contains("note-y"));
}

#[test]
fn nothing_built_reveals_nothing() {
    assert!(reveal_actions(&vec![]).is_empty());
}
