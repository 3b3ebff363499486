//! The values a matched branch binds, addressed by binder name.

use vstd::prelude::*;

verus! {

/// What a binder holds: one value for a fixed item, an ordered run of values
/// for a variadic item.
#[derive(Debug, PartialEq, Eq)]
pub enum Bound<V> {
    Single(V),
    Sequence(Vec<V>),
}

/// The mathematical content of a [`Bound`].
pub enum BoundView<V> {
    Single(V),
    Sequence(Seq<V>),
}

impl<V> View for Bound<V> {
    type V = BoundView<V>;

    open spec fn view(&self) -> BoundView<V> {
        match self {
            Bound::Single(v) => BoundView::Single(*v),
            Bound::Sequence(vs) => BoundView::Sequence(vs@),
        }
    }
}

/// A binder name with what it holds.
#[derive(Debug, PartialEq, Eq)]
pub struct Entry<V> {
    pub name: String,
    pub value: Bound<V>,
}

/// The mathematical content of an [`Entry`].
pub struct EntryView<V> {
    pub name: Seq<char>,
    pub value: BoundView<V>,
}

impl<V> View for Entry<V> {
    type V = EntryView<V>;

    open spec fn view(&self) -> EntryView<V> {
        EntryView { name: self.name@, value: self.value@ }
    }
}

/// The bindings of one matched branch, one entry per declared item, in the
/// order in which the items were declared.
#[derive(Debug, PartialEq, Eq)]
pub struct Binding<V> {
    pub entries: Vec<Entry<V>>,
}

impl<V> View for Binding<V> {
    type V = Seq<EntryView<V>>;

    open spec fn view(&self) -> Seq<EntryView<V>> {
        self.entries@.map_values(|e: Entry<V>| e@)
    }
}

/// What `name` holds: the value of the last entry declared under that name,
/// as if the entries were assigned one after another.
pub open spec fn lookup<V>(entries: Seq<EntryView<V>>, name: Seq<char>) -> Option<BoundView<V>>
    decreases entries.len(),
{
    if entries.len() == 0 {
        None
    } else if entries.last().name == name {
        Some(entries.last().value)
    } else {
        lookup(entries.drop_last(), name)
    }
}

/// A name that no entry carries holds nothing.
pub proof fn lemma_lookup_absent<V>(entries: Seq<EntryView<V>>, name: Seq<char>)
    requires
        forall|i: int| 0 <= i < entries.len() ==> (#[trigger] entries[i]).name != name,
    ensures
        lookup(entries, name) is None,
    decreases entries.len(),
{
    if entries.len() > 0 {
        let init = entries.drop_last();
        assert forall|i: int| 0 <= i < init.len() implies (#[trigger] init[i]).name != name by {
            assert(init[i] == entries[i]);
        }
        lemma_lookup_absent(init, name);
    }
}

/// A name that exactly one entry carries holds that entry's value.
pub proof fn lemma_lookup_unique<V>(entries: Seq<EntryView<V>>, d: int)
    requires
        0 <= d < entries.len(),
        forall|i: int| 0 <= i < entries.len() && i != d ==> (#[trigger] entries[i]).name != entries[d].name,
    ensures
        lookup(entries, entries[d].name) == Some(entries[d].value),
    decreases entries.len(),
{
    if d < entries.len() - 1 {
        let init = entries.drop_last();
        assert(init[d] == entries[d]);
        assert forall|i: int| 0 <= i < init.len() && i != d implies (#[trigger] init[i]).name
            != init[d].name by {
            assert(init[i] == entries[i]);
        }
        assert(entries.last() == entries[entries.len() - 1]);
        lemma_lookup_unique(init, d);
    }
}

impl<V> Binding<V> {
    /// Number of entries.
    pub fn len(&self) -> (n: usize)
        ensures
            n == self@.len(),
    {
        self.entries.len()
    }

    /// What `name` holds, if any entry carries that name.
    pub fn get(&self, name: &str) -> (r: Option<&Bound<V>>)
        ensures
            match r {
                Some(b) => lookup(self@, name@) == Some(b@),
                None => lookup(self@, name@) is None,
            },
    {
        let key: String = name.to_owned();
        let mut i: usize = self.entries.len();
        proof {
            assert(self@.take(i as int) == self@);
        }
        while i > 0
            invariant
                i <= self.entries.len(),
                key@ == name@,
                lookup(self@, name@) == lookup(self@.take(i as int), name@),
            decreases i,
        {
            i -= 1;
            proof {
                let upto = self@.take(i + 1);
                assert(upto.last() == self.entries@[i as int]@);
                assert(upto.drop_last() == self@.take(i as int));
            }
            if self.entries[i].name == key {
                return Some(&self.entries[i].value);
            }
        }
        None
    }
}

} // verus!
