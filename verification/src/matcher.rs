//! Deciding whether a compiled pattern fits a sequence of rule tags.

use vstd::prelude::*;
use crate::pattern::{
    is_split_point, lemma_split_point_unique, shape_of, CompiledPattern, PatternItem, PatternShape,
};
use crate::tag::RuleTag;

verus! {

/// The shape fits the tags.
///
/// Prefix items are compared with the tags counted from the front. Suffix
/// items are compared with the tags counted from the back: the first item
/// after the variadic one with the last tag, the next with the tag before it,
/// and so on. With a variadic item every tag between the two regions carries
/// its rule; without one the regions cover the tags exactly.
pub open spec fn shape_matches(shape: PatternShape, tags: Seq<RuleTag>) -> bool {
    let p = shape.prefix.len() as int;
    let s = shape.suffix.len() as int;
    let n = tags.len() as int;
    &&& p + s <= n
    &&& forall|i: int| 0 <= i < p ==> tags[i] == (#[trigger] shape.prefix[i]).rule
    &&& forall|j: int| 0 <= j < s ==> tags[n - 1 - j] == (#[trigger] shape.suffix[j]).rule
    &&& match shape.variadic {
        Some(v) => forall|k: int| p <= k < n - s ==> #[trigger] tags[k] == v.rule,
        None => p + s == n,
    }
}

/// Decides whether `pattern` fits `tags`.
pub fn matches(pattern: &CompiledPattern, tags: &Vec<RuleTag>) -> (r: bool)
    ensures
        r == shape_matches(pattern@, tags@),
{
    let p: usize = pattern.prefix.len();
    let s: usize = pattern.suffix.len();
    let n: usize = tags.len();
    if p > n || s > n - p {
        return false;
    }
    let mut i: usize = 0;
    while i < p
        invariant
            i <= p,
            p == pattern.prefix.len(),
            p <= tags.len(),
            forall|k: int| 0 <= k < i ==> tags@[k] == (#[trigger] pattern.prefix@[k]).rule,
        decreases p - i,
    {
        if tags[i] != pattern.prefix[i].rule {
            return false;
        }
        i += 1;
    }
    let mut j: usize = 0;
    while j < s
        invariant
            j <= s,
            s == pattern.suffix.len(),
            n == tags.len(),
            s <= n,
            forall|k: int| 0 <= k < j ==> tags@[n - 1 - k] == (#[trigger] pattern.suffix@[k]).rule,
        decreases s - j,
    {
        if tags[n - 1 - j] != pattern.suffix[j].rule {
            return false;
        }
        j += 1;
    }
    match &pattern.variadic {
        Some(v) => {
            let end: usize = n - s;
            let mut k: usize = p;
            while k < end
                invariant
                    p <= k <= end,
                    p == pattern.prefix.len(),
                    end == tags.len() - pattern.suffix.len(),
                    pattern.variadic == Some(*v),
                    forall|m: int| p <= m < k ==> #[trigger] tags@[m] == v.rule,
                decreases end - k,
            {
                if tags[k] != v.rule {
                    return false;
                }
                k += 1;
            }
            true
        },
        None => p + s == n,
    }
}

/// A pattern without a variadic item fits exactly the tag sequences of its
/// own length whose tags are, position by position, the rules it declares.
pub proof fn law_match_without_variadic(items: Seq<PatternItem>, tags: Seq<RuleTag>)
    requires
        forall|i: int| 0 <= i < items.len() ==> !(#[trigger] items[i].is_variadic()),
    ensures
        shape_matches(shape_of(items), tags) <==> {
            &&& tags.len() == items.len()
            &&& forall|i: int| 0 <= i < items.len() ==> tags[i] == (#[trigger] items[i]).rule()
        },
{
    assert(is_split_point(items, items.len() as int));
    lemma_split_point_unique(items, items.len() as int);
    let shape = shape_of(items);
    assert(shape.prefix.len() == items.len());
    assert(shape.suffix.len() == 0);
    assert(shape.variadic is None);
    assert forall|i: int| 0 <= i < items.len() implies (#[trigger] shape.prefix[i]).rule
        == items[i].rule() by {
        assert(items.take(items.len() as int)[i] == items[i]);
    }
    if shape_matches(shape, tags) {
        assert forall|i: int| 0 <= i < items.len() implies tags[i] == (#[trigger] items[i]).rule() by {
            assert(tags[i] == shape.prefix[i].rule);
        }
    }
}

/// A pattern whose only variadic item stands at position `v` fits exactly
/// the tag sequences that are long enough for its fixed items, start with the
/// rules declared before `v`, end with the rules declared after `v` taken
/// from the back (the item right after `v` against the last tag), and carry the
/// variadic rule everywhere in between. The stretch in between may be empty.
pub proof fn law_match_with_variadic(items: Seq<PatternItem>, v: int, tags: Seq<RuleTag>)
    requires
        0 <= v < items.len(),
        items[v].is_variadic(),
        forall|i: int| 0 <= i < items.len() && i != v ==> !(#[trigger] items[i].is_variadic()),
    ensures
        shape_matches(shape_of(items), tags) <==> {
            let n = tags.len() as int;
            let s = items.len() - 1 - v;
            &&& n >= items.len() - 1
            &&& forall|i: int| 0 <= i < v ==> tags[i] == (#[trigger] items[i]).rule()
            &&& forall|j: int| 0 <= j < s ==> tags[n - 1 - j] == (#[trigger] items[v + 1 + j]).rule()
            &&& forall|k: int| v <= k < n - s ==> #[trigger] tags[k] == items[v].rule()
        },
{
    assert(is_split_point(items, v));
    lemma_split_point_unique(items, v);
    let shape = shape_of(items);
    let n = tags.len() as int;
    let s = items.len() - 1 - v;
    assert(shape.prefix.len() == v);
    assert(shape.suffix.len() == s);
    assert(shape.variadic == Some(items[v].slot()));
    assert forall|i: int| 0 <= i < v implies (#[trigger] shape.prefix[i]).rule == items[i].rule() by {
        assert(items.take(v)[i] == items[i]);
    }
    assert forall|j: int| 0 <= j < s implies (#[trigger] shape.suffix[j]).rule == items[v + 1
        + j].rule() by {
        assert(items.skip(v + 1)[j] == items[v + 1 + j]);
    }
    if shape_matches(shape, tags) {
        assert forall|i: int| 0 <= i < v implies tags[i] == (#[trigger] items[i]).rule() by {
            assert(tags[i] == shape.prefix[i].rule);
        }
        assert forall|j: int| 0 <= j < s implies tags[n - 1 - j] == (#[trigger] items[v + 1
            + j]).rule() by {
            assert(tags[n - 1 - j] == shape.suffix[j].rule);
        }
    }
}

} // verus!
