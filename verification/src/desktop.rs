//! What the library asks of the windowing system, and a model of what those
//! requests do.
//!
//! The library never touches a window. It hands its caller a list of
//! `WindowAction`s to carry out in order. `DesktopModel` says what each action
//! means, so that a plan can be judged by the state it leaves behind.

use vstd::prelude::*;

verus! {

/// One request to the windowing system, addressed to a window by its label.
#[derive(Debug, PartialEq, Eq)]
pub enum WindowAction {
    /// Make the window visible.
    Show(String),
    /// Bring the window back from its minimized state.
    Unminimize(String),
    /// Set or clear the window's always-on-top attribute.
    SetPinned(String, bool),
    /// Give the window the input focus.
    Focus(String),
}

/// A `WindowAction` with its label as a plain character sequence.
pub enum ActionView {
    Show(Seq<char>),
    Unminimize(Seq<char>),
    SetPinned(Seq<char>, bool),
    Focus(Seq<char>),
}

impl View for WindowAction {
    type V = ActionView;

    open spec fn view(&self) -> ActionView {
        match *self {
            WindowAction::Show(label) => ActionView::Show(label@),
            WindowAction::Unminimize(label) => ActionView::Unminimize(label@),
            WindowAction::SetPinned(label, pinned) => ActionView::SetPinned(label@, pinned),
            WindowAction::Focus(label) => ActionView::Focus(label@),
        }
    }
}

impl Clone for WindowAction {
    fn clone(&self) -> (copy: Self)
        ensures
            copy@ == self@,
    {
        match self {
            WindowAction::Show(label) => WindowAction::Show(label.clone()),
            WindowAction::Unminimize(label) => WindowAction::Unminimize(label.clone()),
            WindowAction::SetPinned(label, pinned) => WindowAction::SetPinned(
                label.clone(),
                *pinned,
            ),
            WindowAction::Focus(label) => WindowAction::Focus(label.clone()),
        }
    }
}

/// The actions held by a vector, each by its view.
pub open spec fn actions_of(v: Seq<WindowAction>) -> Seq<ActionView> {
    Seq::new(v.len(), |i: int| v[i]@)
}

impl ActionView {
    /// The label of the window the action is addressed to.
    pub open spec fn label(self) -> Seq<char> {
        match self {
            ActionView::Show(label) => label,
            ActionView::Unminimize(label) => label,
            ActionView::SetPinned(label, _) => label,
            ActionView::Focus(label) => label,
        }
    }
}

/// The attributes of one window that the raise reads or writes.
pub struct WindowModel {
    pub visible: bool,
    pub minimized: bool,
    pub pinned: bool,
}

/// The windows that exist, by label, and the one that holds the focus.
pub struct DesktopModel {
    pub windows: Map<Seq<char>, WindowModel>,
    pub focused: Option<Seq<char>>,
}

impl DesktopModel {
    /// The desktop after one action. An action addressed to a window that does
    /// not exist changes nothing.
    pub open spec fn step(self, action: ActionView) -> DesktopModel {
        let label = action.label();
        if !self.windows.contains_key(label) {
            self
        } else {
            let w = self.windows[label];
            match action {
                ActionView::Show(_) => DesktopModel {
                    windows: self.windows.insert(label, WindowModel { visible: true, ..w }),
                    ..self
                },
                ActionView::Unminimize(_) => DesktopModel {
                    windows: self.windows.insert(label, WindowModel { minimized: false, ..w }),
                    ..self
                },
                ActionView::SetPinned(_, pinned) => DesktopModel {
                    windows: self.windows.insert(label, WindowModel { pinned, ..w }),
                    ..self
                },
                ActionView::Focus(_) => DesktopModel { focused: Some(label), ..self },
            }
        }
    }

    /// The desktop after a list of actions, carried out front to back.
    pub open spec fn run(self, actions: Seq<ActionView>) -> DesktopModel
        decreases actions.len(),
    {
        if actions.len() == 0 {
            self
        } else {
            self.run(actions.drop_last()).step(actions.last())
        }
    }
}

/// One more action at the end is one more step.
pub proof fn lemma_run_push(d: DesktopModel, actions: Seq<ActionView>, a: ActionView)
    ensures
        d.run(actions.push(a)) == d.run(actions).step(a),
{
    assert(actions.push(a).drop_last() =~= actions);
}

/// Three actions are three steps.
pub proof fn lemma_run_three(d: DesktopModel, a: ActionView, b: ActionView, c: ActionView)
    ensures
        d.run(seq![a, b, c]) == d.step(a).step(b).step(c),
{
    let none = Seq::<ActionView>::empty();
    lemma_run_push(d, none, a);
    lemma_run_push(d, none.push(a), b);
    lemma_run_push(d, none.push(a).push(b), c);
    assert(none.push(a).push(b).push(c) =~= seq![a, b, c]);
}

/// Running two lists one after the other is running their concatenation.
pub proof fn lemma_run_concat(d: DesktopModel, first: Seq<ActionView>, second: Seq<ActionView>)
    ensures
        d.run(first + second) == d.run(first).run(second),
    decreases second.len(),
{
    if second.len() > 0 {
        lemma_run_concat(d, first, second.drop_last());
        assert((first + second).drop_last() =~= first + second.drop_last());
    }
}

/// No action creates or destroys a window.
pub proof fn lemma_run_keeps_windows(d: DesktopModel, actions: Seq<ActionView>)
    ensures
        d.run(actions).windows.dom() == d.windows.dom(),
    decreases actions.len(),
{
    if actions.len() > 0 {
        lemma_run_keeps_windows(d, actions.drop_last());
    }
}

} // verus!
