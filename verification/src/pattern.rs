//! Branch patterns and their compiled shape.
//!
//! A branch pattern is written as an ordered list of items. Each item names a
//! rule and a binder; at most one item may be variadic. Compiling a pattern
//! splits the list at its variadic item into a fixed prefix, the variadic item
//! itself and a fixed suffix.

use vstd::prelude::*;
use crate::tag::RuleTag;

verus! {

/// A rule together with the name under which the matched value is exposed.
#[derive(Debug, PartialEq, Eq)]
pub struct Slot {
    pub rule: RuleTag,
    pub binder: String,
}

/// One declared position of a branch pattern.
#[derive(Debug, PartialEq, Eq)]
pub enum PatternItem {
    /// Matches exactly one child with the given rule.
    Fixed { rule: RuleTag, binder: String },
    /// Matches a possibly empty run of consecutive children, all with the given rule.
    Variadic { rule: RuleTag, binder: String },
}

impl PatternItem {
    /// The item stands for a run of children rather than for one child.
    pub open spec fn is_variadic(self) -> bool {
        self is Variadic
    }

    /// The rule this item asks for.
    pub open spec fn rule(self) -> RuleTag {
        match self {
            PatternItem::Fixed { rule, .. } => rule,
            PatternItem::Variadic { rule, .. } => rule,
        }
    }

    /// The name this item binds.
    pub open spec fn binder(self) -> String {
        match self {
            PatternItem::Fixed { binder, .. } => binder,
            PatternItem::Variadic { binder, .. } => binder,
        }
    }

    /// The rule and binder of this item, whatever its kind.
    pub open spec fn slot(self) -> Slot {
        Slot { rule: self.rule(), binder: self.binder() }
    }
}

/// Why a pattern cannot be compiled.
#[derive(Clone, Copy, Debug, PartialEq, Eq, Structural)]
pub enum SpecError {
    /// The pattern declares more than one variadic item.
    MultipleVariadic,
}

/// The mathematical content of a compiled pattern.
pub struct PatternShape {
    pub prefix: Seq<Slot>,
    pub variadic: Option<Slot>,
    pub suffix: Seq<Slot>,
}

impl PatternShape {
    /// Number of items the pattern was declared with.
    pub open spec fn declared_len(self) -> nat {
        self.prefix.len() + self.suffix.len() + if self.variadic is Some {
            1nat
        } else {
            0nat
        }
    }

    /// Without a variadic item every fixed item belongs to the prefix.
    pub open spec fn canonical(self) -> bool {
        self.variadic is None ==> self.suffix.len() == 0
    }

    /// The item list this shape was split from.
    pub open spec fn declared(self) -> Seq<PatternItem> {
        let head = self.prefix.map_values(|s: Slot| PatternItem::Fixed { rule: s.rule, binder: s.binder });
        let tail = self.suffix.map_values(|s: Slot| PatternItem::Fixed { rule: s.rule, binder: s.binder });
        match self.variadic {
            Some(v) => head.push(PatternItem::Variadic { rule: v.rule, binder: v.binder }) + tail,
            None => head + tail,
        }
    }
}

/// A pattern split into fixed prefix, optional variadic item and fixed suffix.
#[derive(Debug, PartialEq, Eq)]
pub struct CompiledPattern {
    pub prefix: Vec<Slot>,
    pub variadic: Option<Slot>,
    pub suffix: Vec<Slot>,
}

impl View for CompiledPattern {
    type V = PatternShape;

    open spec fn view(&self) -> PatternShape {
        PatternShape { prefix: self.prefix@, variadic: self.variadic, suffix: self.suffix@ }
    }
}

/// Two different positions of the list hold variadic items.
pub open spec fn has_multiple_variadic(items: Seq<PatternItem>) -> bool {
    exists|i: int, j: int|
        0 <= i < j < items.len() && #[trigger] items[i].is_variadic() && #[trigger] items[j].is_variadic()
}

/// `v` is where the fixed prefix of `items` ends: everything before it is
/// fixed, and it is either a variadic item or the end of the list.
pub open spec fn is_split_point(items: Seq<PatternItem>, v: int) -> bool {
    &&& 0 <= v <= items.len()
    &&& forall|i: int| 0 <= i < v ==> !(#[trigger] items[i].is_variadic())
    &&& v < items.len() ==> items[v].is_variadic()
}

/// Index of the first variadic item, or the length of the list if there is none.
pub open spec fn split_point(items: Seq<PatternItem>) -> int {
    choose|v: int| is_split_point(items, v)
}

/// The shape obtained by splitting `items` at its first variadic item.
pub open spec fn shape_of(items: Seq<PatternItem>) -> PatternShape {
    let v = split_point(items);
    PatternShape {
        prefix: items.take(v).map_values(|it: PatternItem| it.slot()),
        variadic: if v < items.len() {
            Some(items[v].slot())
        } else {
            None
        },
        suffix: if v < items.len() {
            items.skip(v + 1).map_values(|it: PatternItem| it.slot())
        } else {
            Seq::empty()
        },
    }
}

/// A split point determines `split_point`: there is only one.
pub proof fn lemma_split_point_unique(items: Seq<PatternItem>, v: int)
    requires
        is_split_point(items, v),
    ensures
        split_point(items) == v,
{
    let w = split_point(items);
    assert(is_split_point(items, w));
    if w < v {
        assert(!items[w].is_variadic());
    }
    if v < w {
        assert(!items[v].is_variadic());
    }
}

/// Every list has a split point.
pub proof fn lemma_split_point_exists(items: Seq<PatternItem>)
    ensures
        is_split_point(items, split_point(items)),
    decreases items.len(),
{
    if items.len() == 0 {
        assert(is_split_point(items, 0));
    } else {
        let init = items.drop_last();
        lemma_split_point_exists(init);
        let v = split_point(init);
        if v < init.len() {
            assert(items[v] == init[v]);
            assert forall|i: int| 0 <= i < v implies !(#[trigger] items[i].is_variadic()) by {
                assert(items[i] == init[i]);
            }
            assert(is_split_point(items, v));
        } else {
            assert forall|i: int| 0 <= i < v implies !(#[trigger] items[i].is_variadic()) by {
                assert(items[i] == init[i]);
            }
            if items.last().is_variadic() {
                assert(is_split_point(items, v));
            } else {
                assert forall|i: int| 0 <= i < v + 1 implies !(#[trigger] items[i].is_variadic()) by {
                    if i < v {
                        assert(items[i] == init[i]);
                    }
                }
                assert(is_split_point(items, v + 1));
            }
        }
    }
}

/// Splitting a pattern that holds at most one variadic item loses nothing:
/// prefix, variadic item and suffix, put back together, are the items as they
/// were declared.
pub proof fn law_shape_keeps_declaration(items: Seq<PatternItem>)
    requires
        !has_multiple_variadic(items),
    ensures
        shape_of(items).declared() == items,
        shape_of(items).declared_len() == items.len(),
        shape_of(items).canonical(),
{
    lemma_split_point_exists(items);
    let v = split_point(items);
    let shape = shape_of(items);
    let declared = shape.declared();
    assert forall|i: int| v < i < items.len() implies !(#[trigger] items[i].is_variadic()) by {
        if items[i].is_variadic() {
            assert(items[v].is_variadic() && items[i].is_variadic());
        }
    }
    assert(declared.len() == items.len());
    assert forall|i: int| 0 <= i < items.len() implies declared[i] == items[i] by {
        if i < v {
            assert(items.take(v)[i] == items[i]);
            assert(!items[i].is_variadic());
        } else if i > v {
            assert(items.skip(v + 1)[i - v - 1] == items[i]);
            assert(!items[i].is_variadic());
        }
    }
    assert(declared =~= items);
}

fn slot_of(item: &PatternItem) -> (s: Slot)
    ensures
        s == item.slot(),
{
    match item {
        PatternItem::Fixed { rule, binder } => Slot { rule: *rule, binder: binder.clone() },
        PatternItem::Variadic { rule, binder } => Slot { rule: *rule, binder: binder.clone() },
    }
}

/// Splits a pattern into prefix, variadic item and suffix.
///
/// Fails exactly when the pattern declares two or more variadic items;
/// otherwise the result is the shape of the item list.
pub fn compile(items: &Vec<PatternItem>) -> (r: Result<CompiledPattern, SpecError>)
    ensures
        r is Err <==> has_multiple_variadic(items@),
        r matches Err(e) ==> e == SpecError::MultipleVariadic,
        r matches Ok(p) ==> p@ == shape_of(items@) && p@.canonical(),
{
    let mut prefix: Vec<Slot> = Vec::new();
    let mut variadic: Option<Slot> = None;
    let mut suffix: Vec<Slot> = Vec::new();
    let mut i: usize = 0;
    while i < items.len()
        invariant
            i <= items.len(),
            prefix.len() <= i,
            forall|k: int| 0 <= k < prefix.len() ==> !(#[trigger] items@[k].is_variadic()),
            prefix@ == items@.take(prefix.len() as int).map_values(|it: PatternItem| it.slot()),
            variadic is None ==> prefix.len() == i && suffix.len() == 0,
            variadic matches Some(v) ==> {
                &&& prefix.len() < i
                &&& items@[prefix.len() as int].is_variadic()
                &&& v == items@[prefix.len() as int].slot()
                &&& suffix.len() == i - prefix.len() - 1
                &&& forall|k: int| prefix.len() < k < i ==> !(#[trigger] items@[k].is_variadic())
                &&& suffix@ == items@.subrange(prefix.len() + 1, i as int).map_values(
                    |it: PatternItem| it.slot(),
                )
            },
        decreases items.len() - i,
    {
        let slot = slot_of(&items[i]);
        match &items[i] {
            PatternItem::Fixed { .. } => {
                if variadic.is_none() {
                    prefix.push(slot);
                    assert(prefix@ == items@.take(i + 1).map_values(|it: PatternItem| it.slot())) by {
                        assert(items@.take(i + 1) == items@.take(i as int).push(items@[i as int]));
                    }
                } else {
                    suffix.push(slot);
                    assert(suffix@ == items@.subrange(prefix.len() + 1, i + 1).map_values(
                        |it: PatternItem| it.slot(),
                    )) by {
                        assert(items@.subrange(prefix.len() + 1, i + 1) == items@.subrange(
                            prefix.len() + 1,
                            i as int,
                        ).push(items@[i as int]));
                    }
                }
            },
            PatternItem::Variadic { .. } => {
                if variadic.is_none() {
                    variadic = Some(slot);
                    assert(items@.subrange(i + 1, i + 1) == Seq::<PatternItem>::empty());
                } else {
                    assert(items@[prefix.len() as int].is_variadic() && items@[i as int].is_variadic());
                    return Err(SpecError::MultipleVariadic);
                }
            },
        }
        i += 1;
    }
    proof {
        let v = prefix.len() as int;
        assert(is_split_point(items@, v));
        lemma_split_point_unique(items@, v);
        if variadic is Some {
            assert(items@.subrange(v + 1, items.len() as int) == items@.skip(v + 1));
        }
        let shape = shape_of(items@);
        let built = PatternShape { prefix: prefix@, variadic, suffix: suffix@ };
        assert(built.prefix == shape.prefix);
        assert(built.variadic == shape.variadic);
        assert(built.suffix == shape.suffix);
        assert(!has_multiple_variadic(items@)) by {
            assert forall|a: int, b: int| 0 <= a < b < items@.len() implies !(items@[a].is_variadic()
                && items@[b].is_variadic()) by {
                if items@[a].is_variadic() && items@[b].is_variadic() {
                    assert(a == v);
                    assert(v < b);
                }
            }
        }
    }
    Ok(CompiledPattern { prefix, variadic, suffix })
}

impl SpecError {
    /// A sentence that says what is wrong with the pattern.
    pub fn message(&self) -> (text: String)
        ensures
            text@ == "multiple variable-length patterns are not allowed"@,
    {
        "multiple variable-length patterns are not allowed".to_owned()
    }
}

} // verus!
