use note_stack::notes::{note_file_name, note_id_of_file_name, note_info, preview, NoteInfo};

#[test]
fn file_name_is_id_and_suffix() {
    assert_eq!(note_file_name("abc"), "abc.md");
    assert_eq!(note_file_name("a.b"), "a.b.md");
}

#[test]
fn note_files_give_their_id() {
    assert_eq!(note_id_of_file_name("abc.md"), Some("abc".to_string()));
    assert_eq!(note_id_of_file_name("a.b.md"), Some("a.b".to_string()));
    assert_eq!(note_id_of_file_name("..md"), Some(".".to_string()));
    assert_eq!(note_id_of_file_name("x.md"), Some("x".to_string()));
}

#[test]
fn other_files_give_none() {
    for name in ["", ".md", "md", "abc", "abc.txt", "abc.MD", "abc.md.bak", "abc.mdx", "abcmd"] {
        assert_eq!(note_id_of_file_name(name), None, "{name}");
    }
}

#[test]
fn short_content_is_its_own_preview() {
    assert_eq!(preview(""), "");
    assert_eq!(preview("hello"), "hello");
    let exactly: String = "x".repeat(100);
    assert_eq!(preview(&exactly), exactly);
}

#[test]
fn long_content_is_cut_at_a_hundred_characters() {
    let long: String = "ab".repeat(80);
    assert_eq!(preview(&long), "ab".repeat(50));
    let accented: String = "\u{e9}".repeat(150);
    assert_eq!(preview(&accented), "\u{e9}".repeat(100));
    assert_eq!(preview(&accented).chars().count(), 100);
}

#[test]
fn listing_line_of_a_note_file() {
    assert_eq!(
        note_info("n1.md", "first line"),
        Some(NoteInfo { id: "n1".to_string(), preview: "first line".to_string() })
    );
    assert_eq!(note_info("n1.txt", "first line"), None);
}
