//! The naming rules of the note-content store: one file per note, named by
//! the note's id, and the short preview that a listing shows of each.

use vstd::prelude::*;
use vstd::string::*;

verus! {

/// The ending of a note's file name.
pub open spec fn note_suffix() -> Seq<char> {
    seq!['.', 'm', 'd']
}

/// The name of the file that holds the note `id`.
pub open spec fn file_name_of(id: Seq<char>) -> Seq<char> {
    id + note_suffix()
}

/// Whether a file name is that of a note: it ends in the note suffix and has
/// something in front of it.
pub open spec fn is_note_file(name: Seq<char>) -> bool {
    name.len() > 3 && name.skip(name.len() - 3) == note_suffix()
}

/// The id of the note that a file holds, if the file is a note's.
pub open spec fn id_of_file_name(name: Seq<char>) -> Option<Seq<char>> {
    if is_note_file(name) {
        Some(name.take(name.len() - 3))
    } else {
        None
    }
}

/// How many characters of a note a listing shows.
pub open spec fn preview_len() -> nat {
    100
}

/// The preview of a note: its first hundred characters, or all of it if it
/// has fewer.
pub open spec fn preview_of(content: Seq<char>) -> Seq<char> {
    if content.len() <= preview_len() {
        content
    } else {
        content.take(preview_len() as int)
    }
}

/// Builds the file name of a note.
pub fn note_file_name(id: &str) -> (name: String)
    ensures
        name@ == file_name_of(id@),
{
    proof {
        reveal_strlit(".md");
    }
    let mut name = String::from_str(id);
    name.append(".md");
    name
}

/// Reads the note id off a file name; `None` for a file that is no note.
pub fn note_id_of_file_name(name: &str) -> (id: Option<String>)
    ensures
        match id {
            Some(found) => Some(found@) == id_of_file_name(name@),
            None => id_of_file_name(name@) is None,
        },
{
    proof {
        reveal_strlit(".md");
    }
    let suffix = ".md";
    let n = name.unicode_len();
    if n <= 3 {
        return None;
    }
    let start = n - 3;
    let mut i: usize = 0;
    while i < 3
        invariant
            i <= 3,
            3 < n,
            start == n - 3,
            n == name@.len(),
            suffix@ == note_suffix(),
            forall|k: int| 0 <= k < i ==> name@[start + k] == note_suffix()[k],
        decreases 3 - i,
    {
        if name.get_char(start + i) != suffix.get_char(i) {
            return None;
        }
        i += 1;
    }
    assert(name@.skip(n - 3) =~= note_suffix());
    Some(String::from_str(name.substring_char(0, start)))
}

/// Cuts the preview out of a note's content.
pub fn preview(content: &str) -> (shown: String)
    ensures
        shown@ == preview_of(content@),
{
    let n = content.unicode_len();
    if n <= 100 {
        String::from_str(content)
    } else {
        String::from_str(content.substring_char(0, 100))
    }
}

/// One line of the listing of all notes.
#[derive(Debug, PartialEq, Eq)]
pub struct NoteInfo {
    pub id: String,
    pub preview: String,
}

/// The listing line for a file of the notes directory, or `None` if the file
/// is no note.
pub fn note_info(file_name: &str, content: &str) -> (info: Option<NoteInfo>)
    ensures
        match info {
            Some(line) => Some(line.id@) == id_of_file_name(file_name@) && line.preview@
                == preview_of(content@),
            None => id_of_file_name(file_name@) is None,
        },
{
    match note_id_of_file_name(file_name) {
        Some(id) => Some(NoteInfo { id, preview: preview(content) }),
        None => None,
    }
}

/// The file name of a note names that note.
pub proof fn lemma_file_name_round_trip(id: Seq<char>)
    requires
        id.len() > 0,
    ensures
        id_of_file_name(file_name_of(id)) == Some(id),
{
    let name = file_name_of(id);
    assert(name.skip(name.len() - 3) =~= note_suffix());
}

} // verus!
