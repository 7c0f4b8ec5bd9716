//! Window labels: the key under which the windowing system knows a note.

use vstd::prelude::*;
use vstd::string::*;

verus! {

/// The characters every note window label starts with.
pub open spec fn note_prefix() -> Seq<char> {
    seq!['n', 'o', 't', 'e', '-']
}

/// The label of the window that shows the note `id`.
pub open spec fn label_of(id: Seq<char>) -> Seq<char> {
    note_prefix() + id
}

/// Whether `label` lies in the namespace of note windows.
pub open spec fn is_note_label(label: Seq<char>) -> bool {
    note_prefix().is_prefix_of(label)
}

/// The note a label stands for, if it is a note label at all.
pub open spec fn id_of_label(label: Seq<char>) -> Option<Seq<char>> {
    if is_note_label(label) {
        Some(label.skip(5))
    } else {
        None
    }
}

/// The reserved label of the dashboard window.
pub open spec fn dashboard_label() -> Seq<char> {
    seq!['m', 'a', 'i', 'n']
}

/// Builds the window label of a note.
pub fn window_label(id: &str) -> (label: String)
    ensures
        label@ == label_of(id@),
{
    proof {
        reveal_strlit("note-");
    }
    let mut label = String::from_str("note-");
    label.append(id);
    label
}

/// The label of the dashboard, which is never a note label.
pub fn dashboard_window_label() -> (label: String)
    ensures
        label@ == dashboard_label(),
        !is_note_label(label@),
{
    proof {
        reveal_strlit("main");
    }
    String::from_str("main")
}

/// Recovers the note id from a window label; `None` for a label outside the
/// note namespace.
pub fn note_id_of_label(label: &str) -> (id: Option<String>)
    ensures
        id is Some <==> is_note_label(label@),
        id is Some ==> Some(id->0@) == id_of_label(label@),
{
    proof {
        reveal_strlit("note-");
    }
    let prefix = "note-";
    let n = label.unicode_len();
    if n < 5 {
        return None;
    }
    let mut i: usize = 0;
    while i < 5
        invariant
            i <= 5,
            5 <= n,
            n == label@.len(),
            prefix@ == note_prefix(),
            forall|k: int| 0 <= k < i ==> label@[k] == note_prefix()[k],
        decreases 5 - i,
    {
        if label.get_char(i) != prefix.get_char(i) {
            return None;
        }
        i += 1;
    }
    let id = label.substring_char(5, n);
    Some(String::from_str(id))
}

/// A label built from an id gives that id back, and is never the dashboard's.
pub proof fn lemma_label_round_trip(id: Seq<char>)
    ensures
        is_note_label(label_of(id)),
        id_of_label(label_of(id)) == Some(id),
        label_of(id) != dashboard_label(),
{
}

/// Distinct notes have distinct labels.
pub proof fn lemma_label_injective(a: Seq<char>, b: Seq<char>)
    requires
        label_of(a) == label_of(b),
    ensures
        a == b,
{
    assert(label_of(a).skip(5) =~= a);
}

} // verus!
