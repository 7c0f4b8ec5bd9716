//! The session order: note ids from least to most recently used.

use vstd::prelude::*;
use vstd::string::*;

verus! {

/// The strings held by a vector, each as its plain character sequence.
pub open spec fn strings_of(v: Seq<String>) -> Seq<Seq<char>> {
    Seq::new(v.len(), |i: int| v[i]@)
}

/// `order` with every occurrence of `id` taken out; the others keep their
/// places relative to each other.
pub open spec fn without(order: Seq<Seq<char>>, id: Seq<char>) -> Seq<Seq<char>> {
    order.filter(is_other(id))
}

/// The test that `without` keeps an entry by.
pub open spec fn is_other(id: Seq<char>) -> spec_fn(Seq<char>) -> bool {
    |x: Seq<char>| x != id
}

/// The order after `id` was touched (`remove == false`) or dropped
/// (`remove == true`).
pub open spec fn updated(order: Seq<Seq<char>>, id: Seq<char>, remove: bool) -> Seq<Seq<char>> {
    if remove {
        without(order, id)
    } else {
        without(order, id).push(id)
    }
}

/// The rank given to ids that the order does not hold: they sort last.
pub open spec fn unranked() -> int {
    usize::MAX as int
}

/// The rank of `id`: its position in the order (the last one, should the id
/// occur more than once), or `unranked()` when the order does not hold it.
pub open spec fn rank(order: Seq<Seq<char>>, id: Seq<char>) -> int
    decreases order.len(),
{
    if order.len() == 0 {
        unranked()
    } else if order.last() == id {
        order.len() - 1
    } else {
        rank(order.drop_last(), id)
    }
}

/// What `rank` means, without the recursion.
pub proof fn lemma_rank(order: Seq<Seq<char>>, id: Seq<char>)
    ensures
        !order.contains(id) ==> rank(order, id) == unranked(),
        order.contains(id) ==> {
            &&& 0 <= rank(order, id) < order.len()
            &&& order[rank(order, id)] == id
            &&& forall|j: int| rank(order, id) < j < order.len() ==> order[j] != id
        },
    decreases order.len(),
{
    if order.len() > 0 && order.last() != id {
        let front = order.drop_last();
        lemma_rank(front, id);
        if order.contains(id) {
            let k = choose|k: int| 0 <= k < order.len() && order[k] == id;
            assert(front[k] == id);
            let r = rank(front, id);
            assert forall|j: int| r < j < order.len() implies order[j] != id by {
                if j < front.len() {
                    assert(front[j] == order[j]);
                }
            }
        }
    }
}

/// `without` keeps exactly the entries other than `id`, in their old order:
/// taking one more entry of the order into account appends it unless it is `id`.
pub proof fn lemma_without_push(order: Seq<Seq<char>>, x: Seq<char>, id: Seq<char>)
    ensures
        without(order.push(x), id) == if x == id {
            without(order, id)
        } else {
            without(order, id).push(x)
        },
{
    order.lemma_filter_push(x, is_other(id));
}

/// Nothing but `id` is lost, nothing is gained, and `id` is gone.
pub proof fn lemma_without_members(order: Seq<Seq<char>>, id: Seq<char>)
    ensures
        !without(order, id).contains(id),
        forall|x: Seq<char>| x != id ==> (without(order, id).contains(x) <==> order.contains(x)),
        without(order, id).len() <= order.len(),
    decreases order.len(),
{
    reveal(Seq::filter);
    if order.len() > 0 {
        let front = order.drop_last();
        let last = order.last();
        lemma_without_members(front, id);
        let w = without(order, id);
        let wf = without(front, id);
        assert forall|x: Seq<char>| x != id implies (w.contains(x) <==> order.contains(x)) by {
            if w.contains(x) {
                let k = choose|k: int| 0 <= k < w.len() && w[k] == x;
                if last == id || k < w.len() - 1 {
                    assert(front.contains(x));
                }
            }
        }
    }
}

/// An order that does not hold `id` is left as it is.
pub proof fn lemma_without_absent(order: Seq<Seq<char>>, id: Seq<char>)
    requires
        !order.contains(id),
    ensures
        without(order, id) == order,
    decreases order.len(),
{
    reveal(Seq::filter);
    if order.len() > 0 {
        lemma_without_absent(order.drop_last(), id);
    }
}

/// Taking an id out never makes another id occur twice.
pub proof fn lemma_without_unique(order: Seq<Seq<char>>, id: Seq<char>)
    requires
        order.no_duplicates(),
    ensures
        without(order, id).no_duplicates(),
    decreases order.len(),
{
    reveal(Seq::filter);
    if order.len() > 0 {
        let front = order.drop_last();
        let last = order.last();
        lemma_without_unique(front, id);
        lemma_without_members(front, id);
        if last != id {
            let wf = without(front, id);
            if wf.contains(last) {
                assert(front.contains(last));
            }
            assert forall|i: int, j: int|
                0 <= i < wf.len() + 1 && 0 <= j < wf.len() + 1 && i != j
                implies wf.push(last)[i] != wf.push(last)[j] by {}
        }
    }
}

/// Dropping an id twice changes nothing after the first time.
pub proof fn lemma_removal_idempotent(order: Seq<Seq<char>>, id: Seq<char>)
    ensures
        updated(updated(order, id, true), id, true) == updated(order, id, true),
{
    lemma_without_absent(without(order, id), id);
}

/// After an id was touched it is the last entry and occurs nowhere else,
/// wherever it stood before, or whether it stood anywhere at all.
pub proof fn lemma_touched_is_last_and_single(order: Seq<Seq<char>>, id: Seq<char>)
    ensures
        updated(order, id, false).len() >= 1,
        updated(order, id, false).last() == id,
        forall|i: int|
            0 <= i < updated(order, id, false).len() - 1 ==> updated(order, id, false)[i] != id,
        updated(order, id, false).to_multiset().count(id) == 1,
{
    broadcast use vstd::seq_lib::group_to_multiset_ensures;

}

/// An order without repeats stays without repeats under every update.
pub proof fn lemma_update_keeps_unique(order: Seq<Seq<char>>, id: Seq<char>, remove: bool)
    requires
        order.no_duplicates(),
    ensures
        updated(order, id, remove).no_duplicates(),
{
    lemma_without_unique(order, id);
    if !remove {
        let w = without(order, id);
        assert forall|i: int, j: int| 0 <= i < w.len() + 1 && 0 <= j < w.len() + 1 && i != j
            implies w.push(id)[i] != w.push(id)[j] by {}
    }
}

/// An update moves nobody but `id`: the other ids keep their relative order.
pub proof fn lemma_update_keeps_others(order: Seq<Seq<char>>, id: Seq<char>, remove: bool)
    ensures
        without(updated(order, id, remove), id) == without(order, id),
{
    lemma_without_absent(without(order, id), id);
    if !remove {
        lemma_without_push(without(order, id), id, id);
    }
}

/// The most-recently-used order of the notes. The front is the note touched
/// longest ago, the back the one touched last.
#[derive(Debug, PartialEq, Eq)]
pub struct SessionOrder {
    pub ids: Vec<String>,
}

impl View for SessionOrder {
    type V = Seq<Seq<char>>;

    open spec fn view(&self) -> Seq<Seq<char>> {
        strings_of(self.ids@)
    }
}

impl SessionOrder {
    /// No id occurs twice.
    pub open spec fn is_unique(&self) -> bool {
        self@.no_duplicates()
    }

    /// The empty order.
    pub fn new() -> (order: Self)
        ensures
            order@ == Seq::<Seq<char>>::empty(),
            order.is_unique(),
    {
        SessionOrder { ids: Vec::new() }
    }

    /// The order that holds `ids`, front to back.
    pub fn from_ids(ids: Vec<String>) -> (order: Self)
        ensures
            order@ == strings_of(ids@),
    {
        SessionOrder { ids }
    }

    /// How many ids the order holds.
    pub fn len(&self) -> (n: usize)
        ensures
            n == self@.len(),
    {
        self.ids.len()
    }

    /// Whether the order holds no id.
    pub fn is_empty(&self) -> (b: bool)
        ensures
            b == (self@.len() == 0),
    {
        self.ids.len() == 0
    }

    /// The rank of `id` for the batch raise: its position, or `usize::MAX`
    /// when the order does not hold it.
    pub fn rank_of(&self, id: &str) -> (r: usize)
        ensures
            r == rank(self@, id@),
    {
        let needle = id.to_owned();
        let mut i: usize = self.ids.len();
        assert(self@.take(i as int) =~= self@);
        while i > 0
            invariant
                i <= self.ids.len(),
                needle@ == id@,
                rank(self@, id@) == rank(self@.take(i as int), id@),
            decreases i,
        {
            i -= 1;
            assert(self@.take(i + 1).drop_last() =~= self@.take(i as int));
            if self.ids[i] == needle {
                return i;
            }
        }
        usize::MAX
    }

    /// Takes `id` out of the order wherever it stands and, unless `remove` is
    /// set, appends it at the back as the most recently used note.
    pub fn update_order(&mut self, id: String, remove: bool)
        ensures
            final(self)@ == updated(old(self)@, id@, remove),
            remove ==> !final(self)@.contains(id@),
            !remove ==> final(self)@.len() >= 1 && final(self)@.last() == id@
                && !final(self)@.drop_last().contains(id@),
            old(self).is_unique() ==> final(self).is_unique(),
    {
        let mut kept = all_but(&self.ids, &id);
        proof {
            if self.is_unique() {
                lemma_update_keeps_unique(self@, id@, remove);
            }
        }
        if !remove {
            let ghost before = strings_of(kept@);
            kept.push(id);
            assert(strings_of(kept@) =~= before.push(id@));
        }
        self.ids = kept;
    }
}

/// Copies `ids` without the entries equal to `id`.
pub fn all_but(ids: &Vec<String>, id: &String) -> (kept: Vec<String>)
    ensures
        strings_of(kept@) == without(strings_of(ids@), id@),
{
    let ghost all = strings_of(ids@);
    let mut kept: Vec<String> = Vec::new();
    let n = ids.len();
    let mut i: usize = 0;
    while i < n
        invariant
            i <= n,
            n == ids.len(),
            all == strings_of(ids@),
            strings_of(kept@) == without(all.take(i as int), id@),
        decreases n - i,
    {
        proof {
            assert(all.take(i as int).push(all[i as int]) =~= all.take(i + 1));
            lemma_without_push(all.take(i as int), all[i as int], id@);
        }
        if !(ids[i] == *id) {
            kept.push(ids[i].clone());
        }
        i += 1;
    }
    assert(all.take(n as int) =~= all);
    kept
}

} // verus!
