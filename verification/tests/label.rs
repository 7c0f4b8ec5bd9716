use note_stack::label::{dashboard_window_label, note_id_of_label, window_label};

#[test]
fn label_is_prefix_and_id() {
    assert_eq!(window_label("abc"), "note-abc");
    assert_eq!(window_label(""), "note-");
    assert_eq!(window_label("note-x"), "note-note-x");
}

#[test]
fn id_is_read_back_from_a_label() {
    assert_eq!(note_id_of_label("note-abc"), Some("abc".to_string()));
    assert_eq!(note_id_of_label("note-"), Some(String::new()));
    assert_eq!(note_id_of_label("note-note-x"), Some("note-x".to_string()));
    assert_eq!(note_id_of_label("note-\u{e9}t\u{e9}"), Some("\u{e9}t\u{e9}".to_string()));
}

#[test]
fn other_labels_name_no_note() {
    for label in ["", "main", "note", "notes-a", "Note-a", "xnote-a", "not"] {
        assert_eq!(note_id_of_label(label), None, "{label}");
    }
}

#[test]
fn dashboard_is_outside_the_note_namespace() {
    assert_eq!(dashboard_window_label(), "main");
    assert_eq!(note_id_of_label(&dashboard_window_label()), None);
}

#[test]
fn label_round_trip() {
    for id in ["a", "3f2c-11", "with space", "note-", ""] {
        assert_eq!(note_id_of_label(&window_label(id)), Some(id.to_string()));
    }
}
