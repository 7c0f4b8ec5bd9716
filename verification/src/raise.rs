//! The batch raise: every visible note is brought to the front in session
//! order, and each keeps the pin state it had.

use vstd::prelude::*;
use vstd::string::*;
use crate::desktop::{
    actions_of, lemma_run_concat, lemma_run_push, lemma_run_three, ActionView, DesktopModel,
    WindowAction, WindowModel,
};
use crate::gate::{reset_delay_ms, BatchFocusGate};
use crate::label::{id_of_label, note_id_of_label};
use crate::order::{rank, strings_of, unranked, SessionOrder};
use crate::registry::NoteRegistry;

verus! {

/// What the windowing system reported of one registered label.
#[derive(Debug, PartialEq, Eq)]
pub struct WindowProbe {
    /// The label that was looked up.
    pub label: String,
    /// Whether the label still resolves to a window.
    pub live: bool,
    /// Whether the window is visible; `None` when that could not be read.
    pub visible: Option<bool>,
    /// Whether the window is always on top; `None` when that could not be read.
    pub pinned: Option<bool>,
}

/// A `WindowProbe` with its label as a plain character sequence.
pub struct ProbeView {
    pub label: Seq<char>,
    pub live: bool,
    pub visible: Option<bool>,
    pub pinned: Option<bool>,
}

impl View for WindowProbe {
    type V = ProbeView;

    open spec fn view(&self) -> ProbeView {
        ProbeView { label: self.label@, live: self.live, visible: self.visible, pinned: self.pinned }
    }
}

/// A window that takes part in the raise.
#[derive(Debug, PartialEq, Eq)]
pub struct RaiseTarget {
    /// The window's label.
    pub label: String,
    /// Where the window's note stands in the session order.
    pub rank: usize,
    /// The pin state captured before anything was changed.
    pub pinned: bool,
}

/// A `RaiseTarget` with its label as a plain character sequence.
pub struct TargetView {
    pub label: Seq<char>,
    pub rank: int,
    pub pinned: bool,
}

impl View for RaiseTarget {
    type V = TargetView;

    open spec fn view(&self) -> TargetView {
        TargetView { label: self.label@, rank: self.rank as int, pinned: self.pinned }
    }
}

/// The probes held by a vector, each by its view.
pub open spec fn probes_of(v: Seq<WindowProbe>) -> Seq<ProbeView> {
    Seq::new(v.len(), |i: int| v[i]@)
}

/// The targets held by a vector, each by its view.
pub open spec fn targets_of(v: Seq<RaiseTarget>) -> Seq<TargetView> {
    Seq::new(v.len(), |i: int| v[i]@)
}

/// The rank of a window: that of the note its label names. A label outside the
/// note namespace names no note and sorts last.
pub open spec fn label_rank(order: Seq<Seq<char>>, label: Seq<char>) -> int {
    match id_of_label(label) {
        Some(id) => rank(order, id),
        None => unranked(),
    }
}

/// A window is raised only if it still exists and is known to be visible.
pub open spec fn is_candidate(p: ProbeView) -> bool {
    p.live && p.visible == Some(true)
}

/// The target that a probe becomes. A pin state that could not be read counts
/// as not pinned.
pub open spec fn target_of(p: ProbeView, order: Seq<Seq<char>>) -> TargetView {
    TargetView { label: p.label, rank: label_rank(order, p.label), pinned: p.pinned == Some(true) }
}

/// The windows to raise, in the order in which they were probed.
pub open spec fn candidates(probes: Seq<ProbeView>, order: Seq<Seq<char>>) -> Seq<TargetView>
    decreases probes.len(),
{
    if probes.len() == 0 {
        Seq::empty()
    } else if is_candidate(probes.last()) {
        candidates(probes.drop_last(), order).push(target_of(probes.last(), order))
    } else {
        candidates(probes.drop_last(), order)
    }
}

/// Whether `t` is the target of some probe that passed the test.
pub open spec fn comes_from(t: TargetView, probes: Seq<ProbeView>, order: Seq<Seq<char>>) -> bool {
    exists|i: int|
        0 <= i < probes.len() && is_candidate(#[trigger] probes[i]) && t == target_of(
            probes[i],
            order,
        )
}

/// Every candidate comes from a probe that passed the test, and every such
/// probe is among the candidates.
pub proof fn lemma_candidates_members(probes: Seq<ProbeView>, order: Seq<Seq<char>>)
    ensures
        candidates(probes, order).len() <= probes.len(),
        forall|k: int|
            0 <= k < candidates(probes, order).len() ==> comes_from(
                #[trigger] candidates(probes, order)[k],
                probes,
                order,
            ),
        forall|i: int|
            0 <= i < probes.len() && is_candidate(#[trigger] probes[i]) ==> candidates(
                probes,
                order,
            ).contains(target_of(probes[i], order)),
    decreases probes.len(),
{
    if probes.len() > 0 {
        let front = probes.drop_last();
        lemma_candidates_members(front, order);
        let c = candidates(probes, order);
        let cf = candidates(front, order);
        assert forall|i: int| 0 <= i < probes.len() && is_candidate(#[trigger] probes[i])
            implies c.contains(target_of(probes[i], order)) by {
            if i < front.len() {
                let k = choose|k: int| 0 <= k < cf.len() && cf[k] == target_of(front[i], order);
                assert(c[k] == cf[k]);
            } else {
                assert(c[c.len() - 1] == target_of(probes[i], order));
            }
        }
    }
}

/// Picks the windows to raise out of the probes of the registered labels:
/// labels whose window is gone and windows that are hidden are left out, and
/// each window that stays gets its rank in `order` and its captured pin state.
pub fn select_targets(probes: &Vec<WindowProbe>, order: &SessionOrder) -> (targets: Vec<
    RaiseTarget,
>)
    ensures
        targets_of(targets@) == candidates(probes_of(probes@), order@),
{
    let mut targets: Vec<RaiseTarget> = Vec::new();
    let n = probes.len();
    let mut i: usize = 0;
    while i < n
        invariant
            i <= n,
            n == probes.len(),
            targets_of(targets@) == candidates(probes_of(probes@).take(i as int), order@),
        decreases n - i,
    {
        let probe = &probes[i];
        assert(probes_of(probes@).take(i + 1).drop_last() =~= probes_of(probes@).take(i as int));
        let visible = match probe.visible {
            Some(v) => v,
            None => false,
        };
        if probe.live && visible {
            let rank = match note_id_of_label(probe.label.as_str()) {
                Some(id) => order.rank_of(id.as_str()),
                None => usize::MAX,
            };
            let pinned = match probe.pinned {
                Some(p) => p,
                None => false,
            };
            targets.push(RaiseTarget { label: probe.label.clone(), rank, pinned });
        }
        i += 1;
    }
    assert(probes_of(probes@).take(n as int) =~= probes_of(probes@));
    targets
}

/// The test for a target of rank `r`.
pub open spec fn has_rank(r: int) -> spec_fn(TargetView) -> bool {
    |t: TargetView| t.rank == r
}

/// The targets of rank `r`, in the order in which `s` holds them.
pub open spec fn of_rank(s: Seq<TargetView>, r: int) -> Seq<TargetView> {
    s.filter(has_rank(r))
}

/// Ranks never fall from front to back.
pub open spec fn sorted_by_rank(s: Seq<TargetView>) -> bool {
    forall|i: int, j: int| 0 <= i <= j < s.len() ==> s[i].rank <= s[j].rank
}

/// `out` is `inp` sorted by rank, and targets of equal rank stand in `out` as
/// they stood in `inp`.
pub open spec fn is_stable_sort_of(out: Seq<TargetView>, inp: Seq<TargetView>) -> bool {
    &&& sorted_by_rank(out)
    &&& out.len() == inp.len()
    &&& out.to_multiset() == inp.to_multiset()
    &&& forall|r: int| #[trigger] of_rank(out, r) == of_rank(inp, r)
}

/// Where no target has rank `r`, none is found.
pub proof fn lemma_of_rank_none(s: Seq<TargetView>, r: int)
    requires
        forall|i: int| 0 <= i < s.len() ==> s[i].rank != r,
    ensures
        of_rank(s, r) == Seq::<TargetView>::empty(),
    decreases s.len(),
{
    if s.len() > 0 {
        let front = s.drop_last();
        lemma_of_rank_none(front, r);
        front.lemma_filter_push(s.last(), has_rank(r));
        assert(front.push(s.last()) =~= s);
    }
}

/// Putting a target in front of everything of its rank or above, into a
/// sequence that sorts what came after it, sorts the whole.
proof fn lemma_insert_keeps_stable(
    sorted: Seq<TargetView>,
    suffix: Seq<TargetView>,
    x: TargetView,
    j: int,
)
    requires
        is_stable_sort_of(sorted, suffix),
        0 <= j <= sorted.len(),
        forall|k: int| 0 <= k < j ==> sorted[k].rank < x.rank,
        j < sorted.len() ==> x.rank <= sorted[j].rank,
    ensures
        is_stable_sort_of(sorted.insert(j, x), seq![x] + suffix),
{
    let out = sorted.insert(j, x);
    let inp = seq![x] + suffix;
    let head = sorted.subrange(0, j);
    let tail = sorted.subrange(j, sorted.len() as int);
    assert(sorted =~= head + tail);
    assert(out =~= head + (seq![x] + tail));
    assert forall|a: int, b: int| 0 <= a <= b < out.len() implies out[a].rank <= out[b].rank by {}
    assert(out.to_multiset() == inp.to_multiset()) by {
        broadcast use vstd::seq_lib::group_to_multiset_ensures;
        assert(inp =~= suffix.insert(0, x));
    }
    assert forall|r: int| #[trigger] of_rank(out, r) == of_rank(inp, r) by {
        let p = has_rank(r);
        tail.lemma_filter_prepend(x, p);
        assert(of_rank(sorted, r) == of_rank(suffix, r));
        if x.rank == r {
            lemma_of_rank_none(head, r);
        }
    }
}

/// Sorts the targets by rank, lowest first. The sort is stable: windows of
/// equal rank, such as those whose note the session order does not hold, keep
/// the order in which they came.
pub fn sort_by_rank(targets: Vec<RaiseTarget>) -> (sorted: Vec<RaiseTarget>)
    ensures
        is_stable_sort_of(targets_of(sorted@), targets_of(targets@)),
{
    let ghost all = targets_of(targets@);
    let mut rest = targets;
    let mut sorted: Vec<RaiseTarget> = Vec::new();
    proof {
        assert(all.skip(all.len() as int) =~= Seq::<TargetView>::empty());
        assert(targets_of(sorted@) =~= Seq::<TargetView>::empty());
        assert forall|r: int| #[trigger]
            of_rank(targets_of(sorted@), r) == of_rank(all.skip(all.len() as int), r) by {}
    }
    while rest.len() > 0
        invariant
            rest.len() <= all.len(),
            targets_of(rest@) == all.take(rest.len() as int),
            is_stable_sort_of(targets_of(sorted@), all.skip(rest.len() as int)),
        decreases rest.len(),
    {
        let ghost before_rest = targets_of(rest@);
        let ghost m = rest.len() as int;
        let x = rest.pop().unwrap();
        proof {
            assert(x@ == before_rest[m - 1]);
            assert(all.skip(m - 1) =~= seq![x@] + all.skip(m));
        }
        let mut j: usize = 0;
        while j < sorted.len() && sorted[j].rank < x.rank
            invariant
                j <= sorted.len(),
                forall|k: int| 0 <= k < j ==> (#[trigger] targets_of(sorted@)[k]).rank < x@.rank,
            decreases sorted.len() - j,
        {
            j += 1;
        }
        proof {
            lemma_insert_keeps_stable(targets_of(sorted@), all.skip(m), x@, j as int);
        }
        let ghost before_sorted = targets_of(sorted@);
        sorted.insert(j, x);
        assert(targets_of(sorted@) =~= before_sorted.insert(j as int, x@));
    }
    assert(all.skip(0) =~= all);
    sorted
}

/// The first pass: each target in turn is shown, brought back from its
/// minimized state and forced on top, so that a later target lands above an
/// earlier one.
pub open spec fn raise_pass(targets: Seq<TargetView>) -> Seq<ActionView> {
    Seq::new(
        3 * targets.len(),
        |i: int|
            {
                let label = targets[i / 3].label;
                if i % 3 == 0 {
                    ActionView::Show(label)
                } else if i % 3 == 1 {
                    ActionView::Unminimize(label)
                } else {
                    ActionView::SetPinned(label, true)
                }
            },
    )
}

/// The second pass: each target gets back the pin state captured before the
/// first pass.
pub open spec fn release_pass(targets: Seq<TargetView>) -> Seq<ActionView> {
    Seq::new(targets.len(), |i: int| ActionView::SetPinned(targets[i].label, targets[i].pinned))
}

/// The closing step: the last target, if there is one, gets the focus.
pub open spec fn focus_pass(targets: Seq<TargetView>) -> Seq<ActionView> {
    if targets.len() == 0 {
        Seq::empty()
    } else {
        seq![ActionView::Focus(targets.last().label)]
    }
}

/// Everything the batch raise asks of the windowing system, in order.
pub open spec fn raise_script(targets: Seq<TargetView>) -> Seq<ActionView> {
    raise_pass(targets) + release_pass(targets) + focus_pass(targets)
}

/// Writes out the actions of a batch raise over `targets`, which are taken in
/// the order given: pass one over all of them, then pass two over all of them,
/// then the focus on the last.
pub fn raise_actions(targets: &Vec<RaiseTarget>) -> (actions: Vec<WindowAction>)
    ensures
        actions_of(actions@) == raise_script(targets_of(targets@)),
{
    let ghost all = targets_of(targets@);
    let n = targets.len();
    let mut actions: Vec<WindowAction> = Vec::new();
    let mut i: usize = 0;
    while i < n
        invariant
            i <= n,
            n == targets.len(),
            all == targets_of(targets@),
            actions_of(actions@) == raise_pass(all.take(i as int)),
        decreases n - i,
    {
        let ghost before = actions_of(actions@);
        let target = &targets[i];
        actions.push(WindowAction::Show(target.label.clone()));
        actions.push(WindowAction::Unminimize(target.label.clone()));
        actions.push(WindowAction::SetPinned(target.label.clone(), true));
        proof {
            let label = all[i as int].label;
            let step = seq![
                ActionView::Show(label),
                ActionView::Unminimize(label),
                ActionView::SetPinned(label, true),
            ];
            assert(actions_of(actions@) =~= before + step);
        }
        i += 1;
    }
    assert(all.take(n as int) =~= all);
    let mut k: usize = 0;
    while k < n
        invariant
            k <= n,
            n == targets.len(),
            all == targets_of(targets@),
            actions_of(actions@) == raise_pass(all) + release_pass(all.take(k as int)),
        decreases n - k,
    {
        let ghost before = actions_of(actions@);
        let target = &targets[k];
        actions.push(WindowAction::SetPinned(target.label.clone(), target.pinned));
        proof {
            assert(actions_of(actions@) =~= before.push(
                ActionView::SetPinned(all[k as int].label, all[k as int].pinned),
            ));
            assert(release_pass(all.take(k + 1)) =~= release_pass(all.take(k as int)).push(
                ActionView::SetPinned(all[k as int].label, all[k as int].pinned),
            ));
        }
        k += 1;
    }
    if n > 0 {
        let top = &targets[n - 1];
        actions.push(WindowAction::Focus(top.label.clone()));
    }
    actions
}

/// One more target adds its three steps at the end of the first pass.
pub proof fn lemma_raise_pass_push(front: Seq<TargetView>, last: TargetView)
    ensures
        raise_pass(front.push(last)) == raise_pass(front) + seq![
            ActionView::Show(last.label),
            ActionView::Unminimize(last.label),
            ActionView::SetPinned(last.label, true),
        ],
{
}

/// Whether some target carries the label `l`.
pub open spec fn is_target(targets: Seq<TargetView>, l: Seq<char>) -> bool {
    exists|i: int| 0 <= i < targets.len() && (#[trigger] targets[i]).label == l
}

/// Each captured pin state is the one the window really has on `d`.
pub open spec fn pins_captured_from(targets: Seq<TargetView>, d: DesktopModel) -> bool {
    forall|i: int|
        0 <= i < targets.len() && d.windows.contains_key((#[trigger] targets[i]).label)
            ==> targets[i].pinned == d.windows[targets[i].label].pinned
}

/// The desktop between the two passes: every target that exists is visible,
/// not minimized and on top; nothing else has changed.
pub open spec fn all_raised(d: DesktopModel, targets: Seq<TargetView>, mid: DesktopModel) -> bool {
    &&& mid.focused == d.focused
    &&& mid.windows.dom() == d.windows.dom()
    &&& forall|l: Seq<char>| #[trigger]
        d.windows.contains_key(l) ==> mid.windows[l] == if is_target(targets, l) {
            WindowModel { visible: true, minimized: false, pinned: true }
        } else {
            d.windows[l]
        }
}

/// The desktop after the second pass: every target that exists is visible and
/// not minimized and has the pin state it had on `d`; nothing else has changed.
pub open spec fn all_released(d: DesktopModel, targets: Seq<TargetView>, end: DesktopModel) -> bool {
    &&& end.focused == d.focused
    &&& end.windows.dom() == d.windows.dom()
    &&& forall|l: Seq<char>| #[trigger]
        d.windows.contains_key(l) ==> end.windows[l] == if is_target(targets, l) {
            WindowModel { visible: true, minimized: false, pinned: d.windows[l].pinned }
        } else {
            d.windows[l]
        }
}

/// What the first pass leaves behind.
pub proof fn lemma_raise_pass_effect(d: DesktopModel, targets: Seq<TargetView>)
    ensures
        all_raised(d, targets, d.run(raise_pass(targets))),
    decreases targets.len(),
{
    if targets.len() == 0 {
        assert forall|l: Seq<char>| !is_target(targets, l) by {}
    } else {
        let front = targets.drop_last();
        let last = targets.last();
        let label = last.label;
        lemma_raise_pass_effect(d, front);
        assert(front.push(last) =~= targets);
        lemma_raise_pass_push(front, last);
        let step = seq![
            ActionView::Show(label),
            ActionView::Unminimize(label),
            ActionView::SetPinned(label, true),
        ];
        let mid = d.run(raise_pass(front));
        lemma_run_concat(d, raise_pass(front), step);
        lemma_run_three(
            mid,
            ActionView::Show(label),
            ActionView::Unminimize(label),
            ActionView::SetPinned(label, true),
        );
        let end = d.run(raise_pass(targets));
        assert(end == mid.step(ActionView::Show(label)).step(ActionView::Unminimize(label)).step(
            ActionView::SetPinned(label, true),
        ));
        assert(end.windows.dom() =~= d.windows.dom());
    }
}

/// What the second pass leaves behind, when it starts from the state that the
/// first pass left and the pin states were captured from `d`.
pub proof fn lemma_release_pass_effect(
    d: DesktopModel,
    targets: Seq<TargetView>,
    mid: DesktopModel,
    done: Seq<TargetView>,
)
    requires
        all_raised(d, targets, mid),
        pins_captured_from(targets, d),
        done.len() <= targets.len(),
        done == targets.take(done.len() as int),
    ensures
        ({
            let end = mid.run(release_pass(done));
            &&& end.focused == d.focused
            &&& end.windows.dom() == d.windows.dom()
            &&& forall|l: Seq<char>| #[trigger]
                d.windows.contains_key(l) ==> end.windows[l] == if is_target(done, l) {
                    WindowModel { visible: true, minimized: false, pinned: d.windows[l].pinned }
                } else {
                    mid.windows[l]
                }
        }),
    decreases done.len(),
{
    if done.len() == 0 {
        assert forall|l: Seq<char>| !is_target(done, l) by {}
    } else {
        let front = done.drop_last();
        let last = done.last();
        assert(front =~= targets.take(front.len() as int));
        lemma_release_pass_effect(d, targets, mid, front);
        let a = ActionView::SetPinned(last.label, last.pinned);
        assert(release_pass(done) =~= release_pass(front).push(a));
        lemma_run_push(mid, release_pass(front), a);
    }
}

/// The batch raise, judged by what it leaves behind. If the pin states were
/// captured from the desktop as it stood, then after the whole script
///
/// * no window has appeared or gone,
/// * every window, target or not, has the pin state it had before,
/// * every target that exists is visible and not minimized,
/// * every window that is no target is exactly as it was, and
/// * the focus is on the last target, if there is one and it exists, and
///   otherwise where it was.
pub proof fn lemma_batch_raise_effect(d: DesktopModel, targets: Seq<TargetView>)
    requires
        pins_captured_from(targets, d),
    ensures
        all_released(
            d,
            targets,
            DesktopModel { focused: d.focused, ..d.run(raise_script(targets)) },
        ),
        forall|l: Seq<char>| #[trigger]
            d.windows.contains_key(l) ==> d.run(raise_script(targets)).windows[l].pinned
                == d.windows[l].pinned,
        d.run(raise_script(targets)).focused == if targets.len() > 0 && d.windows.contains_key(
            targets.last().label,
        ) {
            Some(targets.last().label)
        } else {
            d.focused
        },
{
    let mid = d.run(raise_pass(targets));
    lemma_raise_pass_effect(d, targets);
    assert(targets.take(targets.len() as int) =~= targets);
    lemma_release_pass_effect(d, targets, mid, targets);
    let released = mid.run(release_pass(targets));
    lemma_run_concat(d, raise_pass(targets), release_pass(targets));
    lemma_run_concat(d, raise_pass(targets) + release_pass(targets), focus_pass(targets));
    if targets.len() > 0 {
        lemma_run_push(
            released,
            Seq::<ActionView>::empty(),
            ActionView::Focus(targets.last().label),
        );
    }
}

/// A stable sort loses and invents nothing.
pub proof fn lemma_stable_sort_members(out: Seq<TargetView>, inp: Seq<TargetView>)
    requires
        is_stable_sort_of(out, inp),
    ensures
        forall|t: TargetView| out.contains(t) <==> inp.contains(t),
        forall|l: Seq<char>| is_target(out, l) <==> is_target(inp, l),
{
    broadcast use vstd::seq_lib::group_to_multiset_ensures;

    assert forall|t: TargetView| out.contains(t) <==> inp.contains(t) by {
        assert(out.contains(t) <==> out.to_multiset().count(t) > 0);
    }
    assert forall|l: Seq<char>| is_target(out, l) <==> is_target(inp, l) by {
        if is_target(out, l) {
            let i = choose|i: int| 0 <= i < out.len() && (#[trigger] out[i]).label == l;
            assert(out.contains(out[i]));
        }
        if is_target(inp, l) {
            let i = choose|i: int| 0 <= i < inp.len() && (#[trigger] inp[i]).label == l;
            assert(inp.contains(inp[i]));
        }
    }
}

/// Two sorted sequences that agree rank by rank are one and the same.
pub proof fn lemma_sorted_agreeing_are_equal(a: Seq<TargetView>, b: Seq<TargetView>)
    requires
        sorted_by_rank(a),
        sorted_by_rank(b),
        a.len() == b.len(),
        forall|r: int| #[trigger] of_rank(a, r) == of_rank(b, r),
    ensures
        a == b,
    decreases a.len(),
{
    if a.len() > 0 {
        let fa = a.drop_last();
        let fb = b.drop_last();
        let la = a.last();
        let lb = b.last();
        assert(fa.push(la) =~= a);
        assert(fb.push(lb) =~= b);
        fa.lemma_filter_push(la, has_rank(la.rank));
        fb.lemma_filter_push(lb, has_rank(lb.rank));
        assert(la.rank <= lb.rank) by {
            assert(of_rank(a, la.rank) == of_rank(b, la.rank));
            b.lemma_filter_contains_rev(has_rank(la.rank), la);
        }
        assert(lb.rank <= la.rank) by {
            assert(of_rank(b, lb.rank) == of_rank(a, lb.rank));
            a.lemma_filter_contains_rev(has_rank(lb.rank), lb);
        }
        let top = la.rank;
        assert(of_rank(a, top) == of_rank(b, top));
        assert(la == lb) by {
            assert(of_rank(fa, top).push(la).last() == la);
        }
        assert forall|r: int| #[trigger] of_rank(fa, r) == of_rank(fb, r) by {
            fa.lemma_filter_push(la, has_rank(r));
            fb.lemma_filter_push(lb, has_rank(r));
            assert(of_rank(a, r) == of_rank(b, r));
            if r == top {
                assert(of_rank(fa, r).push(la).drop_last() =~= of_rank(fa, r));
            }
        }
        lemma_sorted_agreeing_are_equal(fa, fb);
    }
}

/// There is one stable sort of a sequence and no other.
pub proof fn lemma_stable_sort_unique(a: Seq<TargetView>, b: Seq<TargetView>, inp: Seq<TargetView>)
    requires
        is_stable_sort_of(a, inp),
        is_stable_sort_of(b, inp),
    ensures
        a == b,
{
    lemma_sorted_agreeing_are_equal(a, b);
}

/// What a batch raise asks for.
#[derive(Debug, PartialEq, Eq)]
pub struct RaisePlan {
    /// The windows that are raised, lowest rank first. The last one is the
    /// most recently used note; it ends up topmost and focused.
    pub targets: Vec<RaiseTarget>,
    /// The requests to the windowing system, to be carried out in order.
    pub actions: Vec<WindowAction>,
    /// How long after the last request the focus gate is to be closed, in
    /// milliseconds.
    pub reset_after_ms: u64,
}

/// Opens a batch raise: the focus gate is opened before any window is looked
/// at, and the labels to probe are copied out of the registry.
pub fn begin_batch_raise(gate: &mut BatchFocusGate, registry: &NoteRegistry) -> (labels: Vec<
    String,
>)
    ensures
        final(gate)@,
        strings_of(labels@) == registry.in_order(),
        strings_of(labels@).to_set() == registry@,
        strings_of(labels@).no_duplicates(),
{
    gate.begin_batch();
    registry.snapshot()
}

/// Plans the batch raise from the probes of the registered labels and the
/// session order: the visible windows are sorted by the rank of their notes,
/// stably, and the two passes and the final focus are written out over them.
pub fn plan_batch_raise(probes: &Vec<WindowProbe>, order: &SessionOrder) -> (plan: RaisePlan)
    ensures
        is_stable_sort_of(
            targets_of(plan.targets@),
            candidates(probes_of(probes@), order@),
        ),
        actions_of(plan.actions@) == raise_script(targets_of(plan.targets@)),
        plan.reset_after_ms == 500,
{
    let targets = sort_by_rank(select_targets(probes, order));
    let actions = raise_actions(&targets);
    RaisePlan { targets, actions, reset_after_ms: reset_delay_ms() }
}

/// The probes agree with the desktop on the pin state of every window that is
/// to be raised.
pub open spec fn probes_taken_from(probes: Seq<ProbeView>, d: DesktopModel) -> bool {
    forall|i: int|
        0 <= i < probes.len() && is_candidate(#[trigger] probes[i]) && d.windows.contains_key(
            probes[i].label,
        ) ==> probes[i].pinned == Some(d.windows[probes[i].label].pinned)
}

/// Whether a probe that passed the test carries the label `l`.
pub open spec fn is_raised(probes: Seq<ProbeView>, l: Seq<char>) -> bool {
    exists|i: int| 0 <= i < probes.len() && is_candidate(#[trigger] probes[i]) && probes[i].label == l
}

/// The batch raise as a whole. Let a plan be made from probes that report the
/// pin states as they are on the desktop. After the plan's requests
///
/// * every window has the pin state it had before,
/// * every registered, visible window is visible and not minimized,
/// * every other window, the dashboard and the hidden notes among them, is
///   exactly as it was,
/// * the focus is on the last target, which no target outranks.
pub proof fn lemma_batch_raise_preserves_pins(
    d: DesktopModel,
    probes: Seq<ProbeView>,
    order: Seq<Seq<char>>,
    targets: Seq<TargetView>,
)
    requires
        probes_taken_from(probes, d),
        is_stable_sort_of(targets, candidates(probes, order)),
    ensures
        d.run(raise_script(targets)).windows.dom() == d.windows.dom(),
        forall|l: Seq<char>| #[trigger]
            d.windows.contains_key(l) ==> d.run(raise_script(targets)).windows[l].pinned
                == d.windows[l].pinned,
        forall|l: Seq<char>| #[trigger]
            d.windows.contains_key(l) && is_raised(probes, l) ==> d.run(
                raise_script(targets),
            ).windows[l].visible && !d.run(raise_script(targets)).windows[l].minimized,
        forall|l: Seq<char>| #[trigger]
            d.windows.contains_key(l) && !is_raised(probes, l) ==> d.run(
                raise_script(targets),
            ).windows[l] == d.windows[l],
        targets.len() > 0 && d.windows.contains_key(targets.last().label) ==> d.run(
            raise_script(targets),
        ).focused == Some(targets.last().label),
        targets.len() == 0 ==> d.run(raise_script(targets)).focused == d.focused,
        forall|i: int| 0 <= i < targets.len() ==> (#[trigger] targets[i]).rank <= targets.last().rank,
{
    let c = candidates(probes, order);
    lemma_candidates_members(probes, order);
    lemma_stable_sort_members(targets, c);
    assert forall|i: int|
        0 <= i < targets.len() && d.windows.contains_key(
            (#[trigger] targets[i]).label,
        ) implies targets[i].pinned == d.windows[targets[i].label].pinned by {
        assert(targets.contains(targets[i]));
    }
    lemma_batch_raise_effect(d, targets);
    assert(all_released(
        d,
        targets,
        DesktopModel { focused: d.focused, ..d.run(raise_script(targets)) },
    ));
}

} // verus!
