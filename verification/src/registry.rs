//! The registry of live note windows.

use vstd::prelude::*;
use vstd::string::*;
use crate::order::{all_but, strings_of, lemma_without_members, lemma_without_unique, without};

verus! {

/// The labels of the windows that are sticky notes and have not been
/// destroyed. The dashboard and foreign windows are never in it.
pub struct NoteRegistry {
    labels: Vec<String>,
}

impl View for NoteRegistry {
    type V = Set<Seq<char>>;

    closed spec fn view(&self) -> Set<Seq<char>> {
        strings_of(self.labels@).to_set()
    }
}

/// A list of labels with `label` added at the end, unless the list holds it.
pub open spec fn with_label(labels: Seq<Seq<char>>, label: Seq<char>) -> Seq<Seq<char>> {
    if labels.contains(label) {
        labels
    } else {
        labels.push(label)
    }
}

/// One change to the registry.
pub enum RegistryOp {
    Register(Seq<char>),
    Deregister(Seq<char>),
}

/// The set of labels after one change.
pub open spec fn registry_after(labels: Set<Seq<char>>, op: RegistryOp) -> Set<Seq<char>> {
    match op {
        RegistryOp::Register(label) => labels.insert(label),
        RegistryOp::Deregister(label) => labels.remove(label),
    }
}

/// The set of labels after a run of changes.
pub open spec fn registry_after_all(labels: Set<Seq<char>>, ops: Seq<RegistryOp>) -> Set<
    Seq<char>,
>
    decreases ops.len(),
{
    if ops.len() == 0 {
        labels
    } else {
        registry_after(registry_after_all(labels, ops.drop_last()), ops.last())
    }
}

/// Whatever changes are made in whatever order, the registry holds a label
/// only if it held it at the start or some change registered it, and it still
/// holds every label that it held or that was registered and that no later
/// change deregistered.
pub proof fn lemma_registry_consistent(start: Set<Seq<char>>, ops: Seq<RegistryOp>, label: Seq<char>)
    ensures
        registry_after_all(start, ops).contains(label) ==> start.contains(label) || exists|i: int|
            0 <= i < ops.len() && #[trigger] ops[i] == RegistryOp::Register(label),
        start.contains(label) && (forall|j: int|
            0 <= j < ops.len() ==> #[trigger] ops[j] != RegistryOp::Deregister(label))
            ==> registry_after_all(start, ops).contains(label),
        forall|i: int|
            0 <= i < ops.len() && #[trigger] ops[i] == RegistryOp::Register(label) && (forall|
                j: int,
            |
                i < j < ops.len() ==> #[trigger] ops[j] != RegistryOp::Deregister(label))
                ==> registry_after_all(start, ops).contains(label),
    decreases ops.len(),
{
    if ops.len() > 0 {
        let front = ops.drop_last();
        lemma_registry_consistent(start, front, label);
        let after = registry_after_all(start, ops);
        assert forall|i: int|
            0 <= i < ops.len() && #[trigger] ops[i] == RegistryOp::Register(label) && (forall|
                j: int,
            |
                i < j < ops.len() ==> #[trigger] ops[j] != RegistryOp::Deregister(
                    label,
                )) implies after.contains(label) by {
            if i < front.len() {
                assert(front[i] == ops[i]);
            }
        }
    }
}

impl NoteRegistry {
    #[verifier::type_invariant]
    spec fn no_label_twice(self) -> bool {
        strings_of(self.labels@).no_duplicates()
    }

    /// The registered labels in the order in which they were registered.
    pub closed spec fn in_order(&self) -> Seq<Seq<char>> {
        strings_of(self.labels@)
    }

    /// The empty registry.
    pub fn new() -> (registry: Self)
        ensures
            registry@ == Set::<Seq<char>>::empty(),
            registry.in_order() == Seq::<Seq<char>>::empty(),
    {
        NoteRegistry { labels: Vec::new() }
    }

    fn position(&self, label: &String) -> (found: Option<usize>)
        ensures
            match found {
                Some(i) => i < self.labels.len() && self.in_order()[i as int] == label@,
                None => !self.in_order().contains(label@),
            },
    {
        let mut i: usize = 0;
        while i < self.labels.len()
            invariant
                i <= self.labels.len(),
                forall|k: int| 0 <= k < i ==> self.labels@[k]@ != label@,
            decreases self.labels.len() - i,
        {
            if self.labels[i] == *label {
                return Some(i);
            }
            i += 1;
        }
        None
    }

    /// Whether `label` is registered.
    pub fn contains(&self, label: &str) -> (found: bool)
        ensures
            found == self@.contains(label@),
    {
        let owned = label.to_owned();
        self.position(&owned).is_some()
    }

    /// How many labels are registered.
    pub fn len(&self) -> (n: usize)
        ensures
            n == self@.len(),
            n == self.in_order().len(),
            self@.finite(),
    {
        proof {
            use_type_invariant(self);
            self.in_order().unique_seq_to_set();
        }
        self.labels.len()
    }

    /// Registers `label`. Registering a label twice is registering it once.
    pub fn register(&mut self, label: String)
        ensures
            final(self)@ == old(self)@.insert(label@),
            final(self)@ == registry_after(old(self)@, RegistryOp::Register(label@)),
            final(self).in_order() == with_label(old(self).in_order(), label@),
    {
        proof {
            use_type_invariant(&*self);
        }
        let ghost before = self.in_order();
        let found = self.position(&label);
        if found.is_none() {
            let mut labels: Vec<String> = Vec::new();
            std::mem::swap(&mut labels, &mut self.labels);
            labels.push(label);
            proof {
                let after = before.push(label@);
                assert(strings_of(labels@) =~= after);
                assert forall|i: int, j: int|
                    0 <= i < after.len() && 0 <= j < after.len() && i != j implies after[i]
                    != after[j] by {}
                assert forall|x: Seq<char>| after.to_set().contains(x) <==> before.to_set().insert(
                    label@,
                ).contains(x) by {
                    if before.contains(x) {
                        let k = choose|k: int| 0 <= k < before.len() && before[k] == x;
                        assert(after[k] == x);
                    }
                    if x == label@ {
                        assert(after[before.len() as int] == x);
                    }
                }
            }
            self.labels = labels;
        }
    }

    /// Takes `label` out of the registry. A label that is not registered
    /// leaves the registry as it is.
    pub fn deregister(&mut self, label: &str)
        ensures
            final(self)@ == old(self)@.remove(label@),
            final(self)@ == registry_after(old(self)@, RegistryOp::Deregister(label@)),
            final(self).in_order() == without(old(self).in_order(), label@),
    {
        proof {
            use_type_invariant(&*self);
        }
        let ghost before = self.in_order();
        let owned = label.to_owned();
        let labels = all_but(&self.labels, &owned);
        proof {
            let after = without(before, label@);
            lemma_without_unique(before, label@);
            lemma_without_members(before, label@);
            assert forall|x: Seq<char>| after.to_set().contains(x) <==> before.to_set().remove(
                label@,
            ).contains(x) by {}
        }
        self.labels = labels;
    }

    /// A copy of the registered labels, taken at one moment, for the caller to
    /// walk while the registry itself is free to change. The labels come in
    /// the order in which they were registered, none of them twice.
    pub fn snapshot(&self) -> (labels: Vec<String>)
        ensures
            strings_of(labels@) == self.in_order(),
            strings_of(labels@).to_set() == self@,
            strings_of(labels@).no_duplicates(),
    {
        proof {
            use_type_invariant(self);
        }
        let mut labels: Vec<String> = Vec::new();
        let mut i: usize = 0;
        while i < self.labels.len()
            invariant
                i <= self.labels.len(),
                strings_of(labels@) == self.in_order().take(i as int),
            decreases self.labels.len() - i,
        {
            let ghost before = strings_of(labels@);
            labels.push(self.labels[i].clone());
            assert(strings_of(labels@) =~= before.push(self.labels@[i as int]@));
            i += 1;
        }
        assert(self.in_order().take(i as int) =~= self.in_order());
        labels
    }
}

} // verus!
