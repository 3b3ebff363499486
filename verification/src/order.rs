//! The order in which the children of a matched node are converted, and
//! the order in which the results are bound.
//!
//! Children are converted in a fixed order: those under the prefix items
//! front to back, then those under the suffix items back to front, then the
//! ones left in the middle front to back. The results are bound in the order
//! in which the items were declared, so that the order of conversion leaves
//! no trace in the bindings.

use vstd::prelude::*;
use crate::binding::{lemma_lookup_absent, lemma_lookup_unique, lookup, BoundView, EntryView};
use crate::pattern::PatternShape;
use crate::tag::RuleTag;

verus! {

impl PatternShape {
    /// The shape can take `n` children: there are enough for the fixed
    /// items, and without a variadic item there are no others.
    pub open spec fn fits(self, n: nat) -> bool {
        &&& self.prefix.len() + self.suffix.len() <= n
        &&& self.variadic is None ==> self.prefix.len() + self.suffix.len() == n
    }

    /// The rule of the `k`-th conversion.
    pub open spec fn call_rule(self, k: int) -> RuleTag {
        let p = self.prefix.len() as int;
        let s = self.suffix.len() as int;
        if k < p {
            self.prefix[k].rule
        } else if k < p + s {
            self.suffix[s - 1 - (k - p)].rule
        } else {
            self.variadic->0.rule
        }
    }

    /// The position of the child that the `k`-th conversion takes.
    pub open spec fn call_child(self, n: nat, k: int) -> int {
        let p = self.prefix.len() as int;
        let s = self.suffix.len() as int;
        if k < p {
            k
        } else if k < p + s {
            n - 1 - (k - p)
        } else {
            k - s
        }
    }

    /// The rule under which the child at position `c` is converted.
    pub open spec fn rule_at(self, n: nat, c: int) -> RuleTag {
        let p = self.prefix.len() as int;
        let s = self.suffix.len() as int;
        if c < p {
            self.prefix[c].rule
        } else if c < n - s {
            self.variadic->0.rule
        } else {
            self.suffix[c - (n - s)].rule
        }
    }

    /// Which conversion, counted in the order they are made, takes the child
    /// at position `c`.
    pub open spec fn call_of_child(self, n: nat, c: int) -> int {
        let p = self.prefix.len() as int;
        let s = self.suffix.len() as int;
        if c < p {
            c
        } else if c < n - s {
            c + s
        } else {
            p + (n - 1 - c)
        }
    }

    /// The binder name of the `d`-th declared item.
    pub open spec fn declared_name(self, d: int) -> Seq<char> {
        let p = self.prefix.len() as int;
        if d < p {
            self.prefix[d].binder@
        } else if self.variadic is Some && d == p {
            self.variadic->0.binder@
        } else if self.variadic is Some {
            self.suffix[d - p - 1].binder@
        } else {
            self.suffix[d - p].binder@
        }
    }

    /// The entries bound from `values`, which hold the results of all
    /// conversions in the order they were made.
    pub open spec fn bind<V>(self, values: Seq<V>) -> Seq<EntryView<V>> {
        let p = self.prefix.len() as int;
        let s = self.suffix.len() as int;
        let n = values.len() as int;
        Seq::new(
            self.declared_len(),
            |d: int|
                EntryView {
                    name: self.declared_name(d),
                    value: if d < p {
                        BoundView::Single(values[d])
                    } else if self.variadic is Some && d == p {
                        BoundView::Sequence(values.subrange(p + s, n))
                    } else if self.variadic is Some {
                        BoundView::Single(values[p + s - 1 - (d - p - 1)])
                    } else {
                        BoundView::Single(values[p + s - 1 - (d - p)])
                    },
                },
        )
    }

    /// The results of the conversions, rearranged by the position of the
    /// child each one took.
    pub open spec fn by_child<V>(self, values: Seq<V>) -> Seq<V> {
        Seq::new(values.len(), |c: int| values[self.call_of_child(values.len(), c)])
    }

    /// The entries obtained by cutting `results`, one per child from left to
    /// right, at the boundaries the pattern declares: one result for each
    /// prefix item, the stretch in the middle for the variadic item, one
    /// result for each suffix item.
    pub open spec fn cut<V>(self, results: Seq<V>) -> Seq<EntryView<V>> {
        let p = self.prefix.len() as int;
        let s = self.suffix.len() as int;
        let n = results.len() as int;
        Seq::new(
            self.declared_len(),
            |d: int|
                EntryView {
                    name: self.declared_name(d),
                    value: if d < p {
                        BoundView::Single(results[d])
                    } else if self.variadic is Some && d == p {
                        BoundView::Sequence(results.subrange(p, n - s))
                    } else if self.variadic is Some {
                        BoundView::Single(results[n - s + (d - p - 1)])
                    } else {
                        BoundView::Single(results[n - s + (d - p)])
                    },
                },
        )
    }
}

/// Every conversion takes a child of its own, under the rule of the item
/// that the child falls under.
pub proof fn lemma_calls_cover_children(shape: PatternShape, n: nat, k: int)
    requires
        shape.fits(n),
        0 <= k < n,
    ensures
        0 <= shape.call_child(n, k) < n,
        shape.call_of_child(n, shape.call_child(n, k)) == k,
        shape.rule_at(n, shape.call_child(n, k)) == shape.call_rule(k),
{
}

/// Every child is taken by one conversion.
pub proof fn lemma_children_covered_by_calls(shape: PatternShape, n: nat, c: int)
    requires
        shape.fits(n),
        0 <= c < n,
    ensures
        0 <= shape.call_of_child(n, c) < n,
        shape.call_child(n, shape.call_of_child(n, c)) == c,
        shape.call_rule(shape.call_of_child(n, c)) == shape.rule_at(n, c),
{
}

/// The bindings do not depend on the order in which the children were
/// converted: they are what one gets by laying the results out by child
/// position and cutting them at the boundaries the pattern declares.
pub proof fn law_declared_order<V>(shape: PatternShape, values: Seq<V>)
    requires
        shape.fits(values.len()),
    ensures
        shape.bind(values) == shape.cut(shape.by_child(values)),
{
    let p = shape.prefix.len() as int;
    let s = shape.suffix.len() as int;
    let n = values.len() as int;
    let results = shape.by_child(values);
    let bound = shape.bind(values);
    let cut = shape.cut(results);
    assert forall|d: int| 0 <= d < shape.declared_len() implies bound[d] == cut[d] by {
        if shape.variadic is Some && d == p {
            assert(values.subrange(p + s, n) == results.subrange(p, n - s));
        }
    }
}

/// A binder name that the pattern declares once holds the value of the item
/// declared under it: the result for the child at that item's place, or for a
/// variadic item the results for the children in the middle, left to right.
/// The order in which the children were converted plays no part.
pub proof fn law_bindings_by_declared_name<V>(shape: PatternShape, values: Seq<V>, d: int)
    requires
        shape.fits(values.len()),
        0 <= d < shape.declared_len(),
        forall|other: int|
            0 <= other < shape.declared_len() && other != d ==> shape.declared_name(other)
                != shape.declared_name(d),
    ensures
        lookup(shape.bind(values), shape.declared_name(d)) == Some(
            shape.cut(shape.by_child(values))[d].value,
        ),
{
    let bound = shape.bind(values);
    law_declared_order(shape, values);
    assert(bound[d].name == shape.declared_name(d));
    assert forall|i: int| 0 <= i < bound.len() && i != d implies (#[trigger] bound[i]).name
        != bound[d].name by {
        assert(bound[i].name == shape.declared_name(i));
    }
    lemma_lookup_unique(bound, d);
}

/// A name that the pattern does not declare holds nothing.
pub proof fn law_undeclared_name_unbound<V>(shape: PatternShape, values: Seq<V>, name: Seq<char>)
    requires
        forall|d: int| 0 <= d < shape.declared_len() ==> shape.declared_name(d) != name,
    ensures
        lookup(shape.bind(values), name) is None,
{
    let bound = shape.bind(values);
    assert forall|i: int| 0 <= i < bound.len() implies (#[trigger] bound[i]).name != name by {
        assert(bound[i].name == shape.declared_name(i));
    }
    lemma_lookup_absent(bound, name);
}

} // verus!
