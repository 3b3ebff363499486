//! Trying branches in declaration order and extracting under the first that fits.

use vstd::prelude::*;
use crate::binding::{Binding, EntryView};
use crate::extract::{convertible, extract, extracts_to};
use crate::matcher::shape_matches;
use crate::pattern::{
    compile, has_multiple_variadic, shape_of, CompiledPattern, PatternItem, PatternShape, SpecError,
};
use crate::tag::{node_rules, tags_of, Node, RuleTag};

verus! {

/// One candidate: a pattern and what to run with its bindings when it fits.
#[derive(Debug)]
pub struct Branch<B> {
    pub pattern: Vec<PatternItem>,
    pub body: B,
}

/// Why a dispatch did not produce bindings.
#[derive(Debug, PartialEq, Eq)]
pub enum DispatchError<E> {
    /// Some branch is malformed.
    Spec(SpecError),
    /// No branch fits the children, whose tags these are.
    NoMatch { observed_tags: Vec<RuleTag> },
    /// A conversion failed under the branch that fits; this is its error.
    Conversion(E),
}

/// The branch that fits and the values bound under it.
#[derive(Debug)]
pub struct BranchResult<'a, B, V> {
    /// Position of the branch among the candidates.
    pub branch: usize,
    pub body: &'a B,
    pub binding: Binding<V>,
}

/// Progress of the search for a branch.
#[derive(Clone, Copy, Debug, PartialEq, Eq, Structural)]
pub enum Scan {
    /// The branch at this position is the next to try.
    Scanning(usize),
    /// The branch at this position fits; the search is over.
    Matched(usize),
    /// No branch fits; the search is over.
    Exhausted,
}

/// The shapes of a list of compiled patterns.
pub open spec fn shapes_of(patterns: Seq<CompiledPattern>) -> Seq<PatternShape> {
    patterns.map_values(|p: CompiledPattern| p@)
}

/// The shapes that the patterns of a list of branches compile to.
pub open spec fn branch_shapes<B>(branches: Seq<Branch<B>>) -> Seq<PatternShape> {
    branches.map_values(|b: Branch<B>| shape_of(b.pattern@))
}

/// Some branch declares more than one variadic item.
pub open spec fn any_malformed<B>(branches: Seq<Branch<B>>) -> bool {
    exists|i: int| 0 <= i < branches.len() && has_multiple_variadic(#[trigger] branches[i].pattern@)
}

/// No shape fits the tags.
pub open spec fn none_matches(shapes: Seq<PatternShape>, tags: Seq<RuleTag>) -> bool {
    forall|j: int| 0 <= j < shapes.len() ==> !shape_matches(#[trigger] shapes[j], tags)
}

/// The shape at position `i` fits the tags and none before it does.
pub open spec fn is_first_match(shapes: Seq<PatternShape>, tags: Seq<RuleTag>, i: int) -> bool {
    &&& 0 <= i < shapes.len()
    &&& shape_matches(shapes[i], tags)
    &&& none_matches(shapes.take(i), tags)
}

/// One step of the search: a branch that fits ends it, a branch that does
/// not fit passes it on to the next, and running out of branches ends it.
/// A search that is over stays as it is.
pub open spec fn scan_next(shapes: Seq<PatternShape>, tags: Seq<RuleTag>, state: Scan) -> Scan {
    match state {
        Scan::Scanning(i) => if i >= shapes.len() {
            Scan::Exhausted
        } else if shape_matches(shapes[i as int], tags) {
            Scan::Matched(i)
        } else {
            Scan::Scanning((i + 1) as usize)
        },
        Scan::Matched(i) => Scan::Matched(i),
        Scan::Exhausted => Scan::Exhausted,
    }
}

/// Advances the search by one step.
pub fn scan_step(patterns: &Vec<CompiledPattern>, tags: &Vec<RuleTag>, state: Scan) -> (next: Scan)
    ensures
        next == scan_next(shapes_of(patterns@), tags@, state),
{
    match state {
        Scan::Scanning(i) => {
            if i >= patterns.len() {
                Scan::Exhausted
            } else if crate::matcher::matches(&patterns[i], tags) {
                Scan::Matched(i)
            } else {
                Scan::Scanning(i + 1)
            }
        },
        Scan::Matched(i) => Scan::Matched(i),
        Scan::Exhausted => Scan::Exhausted,
    }
}

/// Finds the first pattern that fits the tags.
pub fn select_branch(patterns: &Vec<CompiledPattern>, tags: &Vec<RuleTag>) -> (r: Option<usize>)
    ensures
        match r {
            Some(i) => is_first_match(shapes_of(patterns@), tags@, i as int),
            None => none_matches(shapes_of(patterns@), tags@),
        },
{
    let ghost shapes = shapes_of(patterns@);
    let mut state = Scan::Scanning(0);
    loop
        invariant
            shapes == shapes_of(patterns@),
            match state {
                Scan::Scanning(i) => i <= patterns.len() && none_matches(shapes.take(i as int), tags@),
                Scan::Matched(i) => is_first_match(shapes, tags@, i as int),
                Scan::Exhausted => none_matches(shapes, tags@),
            },
        decreases
            match state {
                Scan::Scanning(i) => patterns.len() - i + 1,
                _ => 0,
            },
    {
        match state {
            Scan::Scanning(i) => {
                state = scan_step(patterns, tags, state);
                proof {
                    if i >= patterns.len() {
                        assert(shapes.take(i as int) == shapes);
                    } else if !shape_matches(shapes[i as int], tags@) {
                        assert forall|j: int| 0 <= j < i + 1 implies !shape_matches(
                            #[trigger] shapes.take(i + 1)[j],
                            tags@,
                        ) by {
                            if j < i {
                                assert(shapes.take(i as int)[j] == shapes[j]);
                            }
                        }
                    }
                }
            },
            Scan::Matched(i) => {
                return Some(i);
            },
            Scan::Exhausted => {
                return None;
            },
        }
    }
}

/// When two branches both fit the same tags, the later one is never the one
/// selected: the selected branch is the earlier one or one before it.
pub proof fn law_first_match_wins(
    shapes: Seq<PatternShape>,
    tags: Seq<RuleTag>,
    first: int,
    second: int,
    selected: int,
)
    requires
        0 <= first < second < shapes.len(),
        shape_matches(shapes[first], tags),
        shape_matches(shapes[second], tags),
        is_first_match(shapes, tags, selected),
    ensures
        selected <= first,
        selected != second,
{
    if selected > first {
        assert(shapes.take(selected)[first] == shapes[first]);
    }
}

/// At most one branch is the first that fits.
pub proof fn law_first_match_is_unique(
    shapes: Seq<PatternShape>,
    tags: Seq<RuleTag>,
    one: int,
    other: int,
)
    requires
        is_first_match(shapes, tags, one),
        is_first_match(shapes, tags, other),
    ensures
        one == other,
{
    if one < other {
        assert(shapes.take(other)[one] == shapes[one]);
    }
    if other < one {
        assert(shapes.take(one)[other] == shapes[other]);
    }
}

/// Matches the children against the branches and extracts under the first
/// branch that fits.
///
/// Every branch is compiled before any matching, so a malformed branch is
/// reported whatever the children are. Otherwise the branches are tried in
/// order; under the first that fits the children are converted and bound, and
/// a failed conversion is the outcome of the whole dispatch: no later branch is
/// tried. If none fits, the error carries the tags that were observed.
pub fn match_nodes<'a, B, V, E, F>(
    children: &Vec<Node>,
    branches: &'a Vec<Branch<B>>,
    convert: F,
) -> (r: Result<BranchResult<'a, B, V>, DispatchError<E>>) where F: Fn(RuleTag, &Node) -> Result<V, E>
    requires
        forall|i: int|
            is_first_match(branch_shapes(branches@), tags_of(children@), i) ==> convertible(
                convert,
                #[trigger] branch_shapes(branches@)[i],
                children@,
            ),
    ensures
        r matches Err(DispatchError::Spec(e)) <==> any_malformed(branches@),
        r matches Err(DispatchError::Spec(e)) ==> e == SpecError::MultipleVariadic,
        r matches Err(DispatchError::NoMatch { observed_tags }) ==> {
            &&& observed_tags@ == tags_of(children@)
            &&& none_matches(branch_shapes(branches@), tags_of(children@))
        },
        r matches Ok(m) ==> {
            &&& is_first_match(branch_shapes(branches@), tags_of(children@), m.branch as int)
            &&& *m.body == branches[m.branch as int].body
            &&& extracts_to(
                convert,
                branch_shapes(branches@)[m.branch as int],
                children@,
                Ok::<Seq<EntryView<V>>, E>(m.binding@),
            )
        },
        r matches Err(DispatchError::Conversion(e)) ==> exists|i: int|
            {
                &&& is_first_match(branch_shapes(branches@), tags_of(children@), i)
                &&& extracts_to(
                    convert,
                    #[trigger] branch_shapes(branches@)[i],
                    children@,
                    Err::<Seq<EntryView<V>>, E>(e),
                )
            },
        !any_malformed(branches@) && none_matches(branch_shapes(branches@), tags_of(children@))
            ==> r matches Err(DispatchError::NoMatch { .. }),
{
    let ghost shapes = branch_shapes(branches@);
    let mut patterns: Vec<CompiledPattern> = Vec::new();
    let mut b: usize = 0;
    while b < branches.len()
        invariant
            b <= branches.len(),
            patterns.len() == b,
            shapes == branch_shapes(branches@),
            forall|i: int| 0 <= i < b ==> !has_multiple_variadic(#[trigger] branches[i].pattern@),
            forall|i: int| 0 <= i < b ==> (#[trigger] patterns[i])@ == shapes[i],
        decreases branches.len() - b,
    {
        match compile(&branches[b].pattern) {
            Ok(pattern) => {
                patterns.push(pattern);
            },
            Err(e) => {
                return Err(DispatchError::Spec(e));
            },
        }
        b += 1;
    }
    assert(shapes_of(patterns@) == shapes);
    let tags = node_rules(children);
    match select_branch(&patterns, &tags) {
        None => Err(DispatchError::NoMatch { observed_tags: tags }),
        Some(i) => {
            match extract(&patterns[i], children, convert) {
                Ok(binding) => Ok(BranchResult { branch: i, body: &branches[i].body, binding }),
                Err(e) => Err(DispatchError::Conversion(e)),
            }
        },
    }
}

} // verus!
