//! The life of a note window: opened or focused on request, registered once
//! it is built, forgotten once it is destroyed, and brought back at startup.
//!
//! Building, showing and destroying windows is the caller's work. The
//! functions here decide what is to be done before a window is built and what
//! follows once the windowing system has answered.

use vstd::prelude::*;
use vstd::string::*;
use crate::desktop::{actions_of, ActionView, WindowAction};
use crate::label::{label_of, window_label};
use crate::order::{strings_of, updated, SessionOrder};
use crate::registry::NoteRegistry;

verus! {

/// A digit of a number written in base sixteen with small letters.
pub open spec fn is_hex_digit(c: char) -> bool {
    ('0' <= c && c <= '9') || ('a' <= c && c <= 'f')
}

/// The shape of a freshly made note id: thirty-six characters, hyphens after
/// the eighth, twelfth, sixteenth and twentieth digit, digits everywhere else.
pub open spec fn is_fresh_id(id: Seq<char>) -> bool {
    &&& id.len() == 36
    &&& forall|i: int|
        0 <= i < 36 ==> if i == 8 || i == 13 || i == 18 || i == 23 {
            #[trigger] id[i] == '-'
        } else {
            is_hex_digit(id[i])
        }
}

/// Calls `uuid::Uuid::new_v4` and writes the result out with `to_string`.
/// Trusted: the text has the hyphenated lower-case form that the crate's
/// `Display` gives every uuid. Which id comes back is left open; two calls
/// give two ids. The call panics if the system has no random numbers to give.
#[verifier::external_body]
fn random_note_id() -> (id: String)
    ensures
        is_fresh_id(id@),
{
    uuid::Uuid::new_v4().to_string()
}

/// The id to open: the one asked for, or a fresh one where none was.
pub fn note_id_or_fresh(id: Option<String>) -> (chosen: String)
    ensures
        match id {
            Some(given) => chosen@ == given@,
            None => is_fresh_id(chosen@),
        },
{
    match id {
        Some(given) => given,
        None => random_note_id(),
    }
}

/// How a note window is built.
#[derive(Debug, PartialEq, Eq)]
pub struct WindowConfig {
    pub title: &'static str,
    pub page: &'static str,
    pub width: u32,
    pub height: u32,
    pub resizable: bool,
    pub decorations: bool,
    pub transparent: bool,
    pub always_on_top: bool,
    pub skip_taskbar: bool,
    pub visible: bool,
}

/// The configuration of every note window: a bare, resizable, transparent
/// square that stays out of the task bar, is not pinned, and starts hidden so
/// that it does not flash before it is placed.
pub open spec fn is_note_window_config(config: WindowConfig) -> bool {
    &&& config.title@ == "Sticky Note"@
    &&& config.page@ == "index.html"@
    &&& config.width == 300
    &&& config.height == 300
    &&& config.resizable
    &&& !config.decorations
    &&& config.transparent
    &&& !config.always_on_top
    &&& config.skip_taskbar
    &&& !config.visible
}

/// Writes out the configuration of a note window.
pub fn note_window_config() -> (config: WindowConfig)
    ensures
        is_note_window_config(config),
{
    WindowConfig {
        title: "Sticky Note",
        page: "index.html",
        width: 300,
        height: 300,
        resizable: true,
        decorations: false,
        transparent: true,
        always_on_top: false,
        skip_taskbar: true,
        visible: false,
    }
}

/// What to do about a request to open a note.
#[derive(Debug, PartialEq, Eq)]
pub enum OpenPlan {
    /// The note has a window already: bring it forward.
    FocusExisting { label: String, actions: Vec<WindowAction> },
    /// The note has no window: make sure its content exists, then build one.
    Build { id: String, label: String, config: WindowConfig },
}

/// The actions that bring an existing window forward.
pub open spec fn bring_forward(label: Seq<char>) -> Seq<ActionView> {
    seq![ActionView::Show(label), ActionView::Unminimize(label), ActionView::Focus(label)]
}

/// Decides between focusing and building. `exists` says whether the windowing
/// system has a window under the label of `id`.
pub fn plan_open(id: String, exists: bool) -> (plan: OpenPlan)
    ensures
        match plan {
            OpenPlan::FocusExisting { label, actions } => {
                &&& exists
                &&& label@ == label_of(id@)
                &&& actions_of(actions@) == bring_forward(label_of(id@))
            },
            OpenPlan::Build { id: chosen, label, config } => {
                &&& !exists
                &&& chosen@ == id@
                &&& label@ == label_of(id@)
                &&& is_note_window_config(config)
            },
        },
{
    let label = window_label(id.as_str());
    if exists {
        let mut actions: Vec<WindowAction> = Vec::new();
        actions.push(WindowAction::Show(label.clone()));
        actions.push(WindowAction::Unminimize(label.clone()));
        actions.push(WindowAction::Focus(label.clone()));
        OpenPlan::FocusExisting { label, actions }
    } else {
        OpenPlan::Build { id, label, config: note_window_config() }
    }
}

/// Why a note could not be opened.
#[derive(Debug, PartialEq, Eq)]
pub enum OpenError {
    /// The windowing system did not build the window.
    ConstructionFailed,
}

impl Clone for OpenError {
    fn clone(&self) -> (copy: Self)
        ensures
            copy == *self,
    {
        OpenError::ConstructionFailed
    }
}

impl OpenError {
    /// The message shown to whoever asked for the note.
    pub fn message(&self) -> (text: String)
        ensures
            text@ == "Failed to create note window"@,
    {
        String::from_str("Failed to create note window")
    }
}

/// What follows the building of a window.
#[derive(Debug, PartialEq, Eq)]
pub struct Opened {
    /// The label under which the window was registered.
    pub label: String,
    /// Whether the session order changed and is to be stored again.
    pub store_order: bool,
    /// What remains to be done to the window.
    pub actions: Vec<WindowAction>,
}

/// The windowing system has answered a request to build the window of `id`.
///
/// If the window was built, its label is registered; if `persist` is set the
/// note becomes the most recently used one; if `show` is set the window is to
/// be shown. If it was not built, nothing changes and the failure is handed
/// on.
pub fn finish_open(
    registry: &mut NoteRegistry,
    order: &mut SessionOrder,
    id: String,
    persist: bool,
    show: bool,
    built: bool,
) -> (outcome: Result<Opened, OpenError>)
    ensures
        built <==> outcome is Ok,
        !built ==> final(registry)@ == old(registry)@ && final(order)@ == old(order)@,
        built ==> final(registry)@ == old(registry)@.insert(label_of(id@)),
        built && persist ==> final(order)@ == updated(old(order)@, id@, false),
        built && !persist ==> final(order)@ == old(order)@,
        old(order).is_unique() ==> final(order).is_unique(),
        match outcome {
            Ok(opened) => {
                &&& opened.label@ == label_of(id@)
                &&& opened.store_order == persist
                &&& actions_of(opened.actions@) == if show {
                    seq![ActionView::Show(label_of(id@))]
                } else {
                    Seq::<ActionView>::empty()
                }
            },
            Err(e) => e == OpenError::ConstructionFailed,
        },
{
    if !built {
        return Err(OpenError::ConstructionFailed);
    }
    let label = window_label(id.as_str());
    registry.register(label.clone());
    if persist {
        order.update_order(id, false);
    }
    let mut actions: Vec<WindowAction> = Vec::new();
    if show {
        actions.push(WindowAction::Show(label.clone()));
    }
    Ok(Opened { label, store_order: persist, actions })
}

/// The window of the note `id` was destroyed: its label leaves the registry
/// and the note leaves the session order, at once.
pub fn window_destroyed(registry: &mut NoteRegistry, order: &mut SessionOrder, id: String)
    ensures
        final(registry)@ == old(registry)@.remove(label_of(id@)),
        final(order)@ == updated(old(order)@, id@, true),
        !final(order)@.contains(id@),
        old(order).is_unique() ==> final(order).is_unique(),
{
    let label = window_label(id.as_str());
    registry.deregister(label.as_str());
    order.update_order(id, true);
}

/// The note `id` was deleted: it leaves the session order. The result is the
/// label of the window to close, should the note have one; the registry
/// follows when that window reports its destruction.
pub fn note_deleted(order: &mut SessionOrder, id: String) -> (label: String)
    ensures
        label@ == label_of(id@),
        final(order)@ == updated(old(order)@, id@, true),
        !final(order)@.contains(id@),
        old(order).is_unique() ==> final(order).is_unique(),
{
    let label = window_label(id.as_str());
    order.update_order(id, true);
    label
}

/// A request to open a note: which one (`None` for a new note), whether the
/// note is to become the most recently used one, and whether its window is to
/// be shown as soon as it is built.
#[derive(Debug, PartialEq, Eq)]
pub struct OpenRequest {
    pub id: Option<String>,
    pub persist: bool,
    pub show: bool,
}

/// An `OpenRequest` with its id as a plain character sequence.
pub struct RequestView {
    pub id: Option<Seq<char>>,
    pub persist: bool,
    pub show: bool,
}

impl View for OpenRequest {
    type V = RequestView;

    open spec fn view(&self) -> RequestView {
        RequestView {
            id: match self.id {
                Some(id) => Some(id@),
                None => None,
            },
            persist: self.persist,
            show: self.show,
        }
    }
}

/// The requests held by a vector, each by its view.
pub open spec fn requests_of(v: Seq<OpenRequest>) -> Seq<RequestView> {
    Seq::new(v.len(), |i: int| v[i]@)
}

/// How the session is brought back at startup.
#[derive(Debug, PartialEq, Eq)]
pub enum RestorePlan {
    /// Nothing was stored: open one new note, remember it and show it.
    FirstNote(OpenRequest),
    /// Open every stored note hidden, in the stored order and without
    /// touching that order; reveal them only when all have been built.
    Reopen(Vec<OpenRequest>),
}

/// The request for the one note that an empty session starts with.
pub open spec fn first_note_request() -> RequestView {
    RequestView { id: None, persist: true, show: true }
}

/// The requests that reopen a stored session.
pub open spec fn reopen_requests(order: Seq<Seq<char>>) -> Seq<RequestView> {
    Seq::new(order.len(), |i: int| RequestView { id: Some(order[i]), persist: false, show: false })
}

/// Plans the startup from the stored order.
pub fn plan_restore(order: &SessionOrder) -> (plan: RestorePlan)
    ensures
        match plan {
            RestorePlan::FirstNote(request) => order@.len() == 0 && request@
                == first_note_request(),
            RestorePlan::Reopen(requests) => order@.len() > 0 && requests_of(requests@)
                == reopen_requests(order@),
        },
{
    let n = order.ids.len();
    if n == 0 {
        return RestorePlan::FirstNote(OpenRequest { id: None, persist: true, show: true });
    }
    let mut requests: Vec<OpenRequest> = Vec::new();
    let mut i: usize = 0;
    while i < n
        invariant
            i <= n,
            n == order.ids.len(),
            requests_of(requests@) == reopen_requests(order@.take(i as int)),
        decreases n - i,
    {
        let ghost before = requests_of(requests@);
        let request = OpenRequest { id: Some(order.ids[i].clone()), persist: false, show: false };
        requests.push(request);
        assert(requests_of(requests@) =~= before.push(
            RequestView { id: Some(order@[i as int]), persist: false, show: false },
        ));
        i += 1;
    }
    RestorePlan::Reopen(requests)
}

/// The second half of reopening a session.
pub open spec fn reveal_script(built: Seq<Seq<char>>) -> Seq<ActionView> {
    Seq::new(built.len(), |i: int| ActionView::Show(built[i]))
}

/// Shows the windows that were built while reopening a session, in the order
/// in which they were built. Windows that could not be built are not among
/// `built`: one failure does not keep the others from coming back.
pub fn reveal_actions(built: &Vec<String>) -> (actions: Vec<WindowAction>)
    ensures
        actions_of(actions@) == reveal_script(strings_of(built@)),
{
    let mut actions: Vec<WindowAction> = Vec::new();
    let mut i: usize = 0;
    while i < built.len()
        invariant
            i <= built.len(),
            actions_of(actions@) == reveal_script(strings_of(built@).take(i as int)),
        decreases built.len() - i,
    {
        let ghost before = actions_of(actions@);
        actions.push(WindowAction::Show(built[i].clone()));
        assert(actions_of(actions@) =~= before.push(ActionView::Show(built@[i as int]@)));
        i += 1;
    }
    actions
}

} // verus!
