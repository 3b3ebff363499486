//! Converting the children of a matched node and binding the results.
//!
//! An [`Extraction`] names one conversion at a time, in the order that
//! [`crate::order`] lays down, and takes in its outcome. The first conversion
//! that fails ends the extraction with its error; when none fails the results
//! are bound in the order in which the items were declared. [`extract`] runs
//! an extraction against a conversion function.

use vstd::prelude::*;
use crate::binding::{Binding, Bound, Entry, EntryView};
use crate::order::{lemma_calls_cover_children, lemma_children_covered_by_calls};
use crate::pattern::{CompiledPattern, PatternShape};
use crate::tag::{Node, RuleTag};
use crate::window::Window;

verus! {

/// One conversion to make: the rule to convert under and the position of the
/// child to convert.
#[derive(Clone, Copy, Debug, PartialEq, Eq)]
pub struct Call {
    pub rule: RuleTag,
    pub child: usize,
}

/// The mathematical content of an extraction in progress.
pub struct ExtractionView<V, E> {
    pub shape: PatternShape,
    pub child_count: nat,
    /// Results of the conversions made so far, in the order they were made.
    pub values: Seq<V>,
    /// The error of the conversion that failed, if one did.
    pub failure: Option<E>,
}

impl<V, E> ExtractionView<V, E> {
    /// The conversion to make next: its rule and the position of its child.
    /// There is none once a conversion has failed or every child is converted.
    pub open spec fn pending(self) -> Option<(RuleTag, int)> {
        if self.failure is Some || self.values.len() >= self.child_count {
            None
        } else {
            Some(
                (
                    self.shape.call_rule(self.values.len() as int),
                    self.shape.call_child(self.child_count, self.values.len() as int),
                ),
            )
        }
    }

    /// The state after the pending conversion has returned `outcome`.
    pub open spec fn record(self, outcome: Result<V, E>) -> Self {
        match outcome {
            Ok(v) => ExtractionView { values: self.values.push(v), ..self },
            Err(e) => ExtractionView { failure: Some(e), ..self },
        }
    }

    /// What the extraction yields once nothing is pending.
    pub open spec fn outcome(self) -> Result<Seq<EntryView<V>>, E> {
        match self.failure {
            Some(e) => Err(e),
            None => Ok(self.shape.bind(self.values)),
        }
    }
}

/// An extraction in progress: it names the next conversion to make and takes
/// in its outcome, until a conversion fails or every child is converted.
pub struct Extraction<'a, V, E> {
    pattern: &'a CompiledPattern,
    child_count: usize,
    window: Window,
    heads: Vec<Entry<V>>,
    tails: Vec<V>,
    run: Vec<V>,
    failure: Option<E>,
}

impl<'a, V, E> View for Extraction<'a, V, E> {
    type V = ExtractionView<V, E>;

    closed spec fn view(&self) -> ExtractionView<V, E> {
        ExtractionView {
            shape: self.pattern@,
            child_count: self.child_count as nat,
            values: self.heads@.map_values(|e: Entry<V>| e.value->Single_0) + self.tails@ + self.run@,
            failure: self.failure,
        }
    }
}

impl<'a, V, E> Extraction<'a, V, E> {
    /// The collected results agree with the window and with the pattern.
    pub closed spec fn wf(&self) -> bool {
        let p = self.pattern.prefix.len();
        let s = self.pattern.suffix.len();
        &&& self.pattern@.fits(self.child_count as nat)
        &&& self.heads.len() <= p
        &&& self.tails.len() <= s
        &&& self.tails.len() > 0 ==> self.heads.len() == p
        &&& self.run.len() > 0 ==> self.heads.len() == p && self.tails.len() == s
            && self.pattern.variadic is Some
        &&& self.window.front == self.heads.len() + self.run.len()
        &&& self.window.back == self.child_count - self.tails.len()
        &&& self.window.front <= self.window.back
        &&& forall|i: int|
            0 <= i < self.heads.len() ==> {
                &&& (#[trigger] self.heads[i]).value is Single
                &&& self.heads[i].name == self.pattern.prefix[i].binder
            }
    }

    /// Starts the extraction of `child_count` children under `pattern`.
    pub fn begin(pattern: &'a CompiledPattern, child_count: usize) -> (ex: Self)
        requires
            pattern@.fits(child_count as nat),
        ensures
            ex.wf(),
            ex@ == (ExtractionView::<V, E> {
                shape: pattern@,
                child_count: child_count as nat,
                values: Seq::empty(),
                failure: None,
            }),
    {
        let ex = Extraction {
            pattern,
            child_count,
            window: Window::new(child_count),
            heads: Vec::new(),
            tails: Vec::new(),
            run: Vec::new(),
            failure: None,
        };
        assert(ex@.values == Seq::<V>::empty());
        ex
    }

    /// The conversion to make next, if any.
    pub fn next_call(&self) -> (call: Option<Call>)
        requires
            self.wf(),
        ensures
            match call {
                Some(c) => self@.pending() == Some((c.rule, c.child as int)) && c.child
                    < self@.child_count,
                None => self@.pending() is None,
            },
    {
        if self.failure.is_some() {
            return None;
        }
        let p: usize = self.pattern.prefix.len();
        let s: usize = self.pattern.suffix.len();
        let h: usize = self.heads.len();
        let t: usize = self.tails.len();
        if h < p {
            Some(Call { rule: self.pattern.prefix[h].rule, child: self.window.front })
        } else if t < s {
            Some(Call { rule: self.pattern.suffix[s - 1 - t].rule, child: self.window.back - 1 })
        } else {
            match &self.pattern.variadic {
                Some(v) => {
                    if self.window.len() > 0 {
                        Some(Call { rule: v.rule, child: self.window.front })
                    } else {
                        None
                    }
                },
                None => None,
            }
        }
    }

    /// Takes in the outcome of the pending conversion.
    pub fn record(&mut self, outcome: Result<V, E>)
        requires
            old(self).wf(),
            old(self)@.pending() is Some,
        ensures
            final(self).wf(),
            final(self)@ == old(self)@.record(outcome),
    {
        let ghost before = self@;
        let ghost heads_before = self.heads@.map_values(|e: Entry<V>| e.value->Single_0);
        match outcome {
            Err(e) => {
                self.failure = Some(e);
            },
            Ok(v) => {
                let p: usize = self.pattern.prefix.len();
                let s: usize = self.pattern.suffix.len();
                let h: usize = self.heads.len();
                let t: usize = self.tails.len();
                if h < p {
                    let _ = self.window.take_front();
                    let name = self.pattern.prefix[h].binder.clone();
                    self.heads.push(Entry { name, value: Bound::Single(v) });
                    assert(self.heads@.map_values(|e: Entry<V>| e.value->Single_0) == heads_before.push(v));
                } else if t < s {
                    let _ = self.window.take_back();
                    self.tails.push(v);
                } else {
                    let _ = self.window.take_front();
                    self.run.push(v);
                }
                assert(self@.values == before.values.push(v));
            },
        }
    }

    /// Ends the extraction: the bindings in declared order, or the error of
    /// the conversion that failed.
    pub fn finish(self) -> (r: Result<Binding<V>, E>)
        requires
            self.wf(),
            self@.pending() is None,
        ensures
            match r {
                Ok(b) => self@.outcome() == Ok::<Seq<EntryView<V>>, E>(b@),
                Err(e) => self@.outcome() == Err::<Seq<EntryView<V>>, E>(e),
            },
    {
        let ghost state = self@;
        let ghost shape = self.pattern@;
        let Extraction { pattern, heads, tails, run, failure, .. } = self;
        match failure {
            Some(e) => Err(e),
            None => {
                let p: usize = pattern.prefix.len();
                let s: usize = pattern.suffix.len();
                let ghost n = state.child_count as int;
                let ghost values = state.values;
                assert(values.len() == n);
                assert(heads.len() == p && tails.len() == s);
                let mut entries = heads;
                let mut tails = tails;
                let ghost tails_all = tails@;
                assert forall|i: int| 0 <= i < p implies (#[trigger] entries@[i])@ == shape.bind(
                    values,
                )[i] by {
                    assert(entries@[i].value is Single);
                    assert(values[i] == entries@[i].value->Single_0);
                }
                match &pattern.variadic {
                    Some(v) => {
                        let name = v.binder.clone();
                        assert(values.subrange(p + s, n) == run@);
                        entries.push(Entry { name, value: Bound::Sequence(run) });
                    },
                    None => {},
                }
                let ghost base = entries.len() as int;
                let mut j: usize = 0;
                while j < s
                    invariant
                        j <= s,
                        s == pattern.suffix.len(),
                        p == pattern.prefix.len(),
                        shape == pattern@,
                        base == shape.declared_len() - s,
                        base == p + if shape.variadic is Some { 1int } else { 0int },
                        entries.len() == base + j,
                        tails@ == tails_all.take(s - j),
                        tails_all.len() == s,
                        values.len() == n,
                        n >= p + s,
                        forall|t: int| 0 <= t < s ==> tails_all[t] == values[p + t],
                        forall|i: int|
                            0 <= i < entries.len() ==> (#[trigger] entries@[i])@ == shape.bind(values)[i],
                    decreases s - j,
                {
                    let value = tails.pop().unwrap();
                    let name = pattern.suffix[j].binder.clone();
                    entries.push(Entry { name, value: Bound::Single(value) });
                    proof {
                        assert(tails@ == tails_all.take(s - j - 1));
                        assert(value == tails_all[s - 1 - j]);
                        assert(entries@[base + j]@ == shape.bind(values)[base + j]);
                    }
                    j += 1;
                }
                let binding = Binding { entries };
                assert(binding@ == shape.bind(values));
                Ok(binding)
            },
        }
    }
}

/// The first `values.len()` conversions, made in order, returned `values`.
pub open spec fn converted_in_order<V, E, F: Fn(RuleTag, &Node) -> Result<V, E>>(
    convert: F,
    shape: PatternShape,
    children: Seq<Node>,
    values: Seq<V>,
) -> bool {
    &&& values.len() <= children.len()
    &&& forall|k: int|
        0 <= k < values.len() ==> call_ensures(
            convert,
            (shape.call_rule(k), &children[shape.call_child(children.len(), k)]),
            Ok::<V, E>(#[trigger] values[k]),
        )
}

/// `convert` may be called for every child under the rule of the item that
/// takes it.
pub open spec fn convertible<V, E, F: Fn(RuleTag, &Node) -> Result<V, E>>(
    convert: F,
    shape: PatternShape,
    children: Seq<Node>,
) -> bool {
    forall|c: int|
        0 <= c < children.len() ==> call_requires(
            convert,
            (shape.rule_at(children.len(), c), &#[trigger] children[c]),
        )
}

/// `result` is what an extraction yields when its conversions, made in
/// order, return `values` and then, if any conversion is left, an error: the
/// bindings of `values` if every child was converted, and else that error.
pub open spec fn yields<V, E, F: Fn(RuleTag, &Node) -> Result<V, E>>(
    convert: F,
    shape: PatternShape,
    children: Seq<Node>,
    values: Seq<V>,
    result: Result<Seq<EntryView<V>>, E>,
) -> bool {
    &&& converted_in_order(convert, shape, children, values)
    &&& match result {
        Ok(entries) => values.len() == children.len() && entries == shape.bind(values),
        Err(e) => values.len() < children.len() && call_ensures(
            convert,
            (
                shape.call_rule(values.len() as int),
                &children[shape.call_child(children.len(), values.len() as int)],
            ),
            Err::<V, E>(e),
        ),
    }
}

/// `result` is what extraction yields when the conversions return as
/// `convert` may: either every conversion succeeded and the bindings hold
/// their results, or some conversion failed after all earlier ones had
/// succeeded and the result is its error.
pub open spec fn extracts_to<V, E, F: Fn(RuleTag, &Node) -> Result<V, E>>(
    convert: F,
    shape: PatternShape,
    children: Seq<Node>,
    result: Result<Seq<EntryView<V>>, E>,
) -> bool {
    exists|values: Seq<V>| #[trigger] yields(convert, shape, children, values, result)
}

/// The mathematical content of an extraction result.
pub open spec fn result_view<V, E>(r: Result<Binding<V>, E>) -> Result<Seq<EntryView<V>>, E> {
    match r {
        Ok(b) => Ok(b@),
        Err(e) => Err(e),
    }
}

/// Converts the children of a node that `pattern` fits and binds the results
/// to the declared names.
///
/// The conversions are made one at a time in the order of `call_child`; the
/// first one that fails ends the extraction, and its error is the result.
pub fn extract<V, E, F>(pattern: &CompiledPattern, children: &Vec<Node>, convert: F) -> (r: Result<
    Binding<V>,
    E,
>) where F: Fn(RuleTag, &Node) -> Result<V, E>
    requires
        pattern@.fits(children.len() as nat),
        convertible(convert, pattern@, children@),
    ensures
        extracts_to(convert, pattern@, children@, result_view(r)),
{
    let ghost shape = pattern@;
    let ghost n = children.len() as nat;
    let mut extraction: Extraction<'_, V, E> = Extraction::begin(pattern, children.len());
    loop
        invariant
            extraction.wf(),
            extraction@.shape == shape,
            extraction@.child_count == n,
            shape == pattern@,
            n == children.len(),
            shape.fits(n),
            convertible(convert, shape, children@),
            converted_in_order(convert, shape, children@, extraction@.values),
            extraction@.failure matches Some(e) ==> extraction@.values.len() < n && call_ensures(
                convert,
                (
                    shape.call_rule(extraction@.values.len() as int),
                    &children@[shape.call_child(n, extraction@.values.len() as int)],
                ),
                Err::<V, E>(e),
            ),
        ensures
            extraction@.pending() is None,
        decreases
            n - extraction@.values.len() + if extraction@.failure is None { 1nat } else { 0nat },
    {
        let ghost before = extraction@;
        match extraction.next_call() {
            None => {
                break;
            },
            Some(call) => {
                proof {
                    lemma_calls_cover_children(shape, n, before.values.len() as int);
                }
                let outcome = convert(call.rule, &children[call.child]);
                let ghost seen = outcome;
                extraction.record(outcome);
                proof {
                    if let Ok(v) = seen {
                        assert(extraction@.values == before.values.push(v));
                        assert(converted_in_order(convert, shape, children@, extraction@.values));
                    }
                }
            },
        }
    }
    let ghost last = extraction@;
    let r = extraction.finish();
    proof {
        assert(yields(convert, shape, children@, last.values, result_view(r)));
    }
    r
}

/// Once a conversion has failed no further conversion is pending, whatever
/// was still left to convert, and the extraction yields the error of that
/// conversion and none of the results obtained before it.
pub proof fn law_fail_fast<V, E>(state: ExtractionView<V, E>, e: E)
    ensures
        state.record(Err(e)).pending() is None,
        state.record(Err(e)).outcome() == Err::<Seq<EntryView<V>>, E>(e),
{
}

/// `convert` can return only one thing for each conversion that an
/// extraction may make.
pub open spec fn single_valued<V, E, F: Fn(RuleTag, &Node) -> Result<V, E>>(
    convert: F,
    shape: PatternShape,
    children: Seq<Node>,
) -> bool {
    forall|k: int, one: Result<V, E>, other: Result<V, E>|
        0 <= k < children.len() && #[trigger] call_ensures(
            convert,
            (shape.call_rule(k), &children[shape.call_child(children.len(), k)]),
            one,
        ) && #[trigger] call_ensures(
            convert,
            (shape.call_rule(k), &children[shape.call_child(children.len(), k)]),
            other,
        ) ==> one == other
}

/// When `convert` can return only one thing for each conversion, there is
/// only one thing an extraction can yield: the bindings of all results if no
/// conversion fails, and else the error of the first conversion that fails,
/// counted in the order in which they are made.
pub proof fn law_extraction_is_determined<V, E, F: Fn(RuleTag, &Node) -> Result<V, E>>(
    convert: F,
    shape: PatternShape,
    children: Seq<Node>,
    one: Result<Seq<EntryView<V>>, E>,
    other: Result<Seq<EntryView<V>>, E>,
)
    requires
        single_valued(convert, shape, children),
        extracts_to(convert, shape, children, one),
        extracts_to(convert, shape, children, other),
    ensures
        one == other,
{
    let n = children.len();
    let first = choose|values: Seq<V>| #[trigger] yields(convert, shape, children, values, one);
    let second = choose|values: Seq<V>| #[trigger] yields(convert, shape, children, values, other);
    if first.len() < second.len() {
        // The conversion that failed in the one run succeeded in the other,
        // which a single-valued `convert` rules out.
        let k = first.len() as int;
        assert(call_ensures(
            convert,
            (shape.call_rule(k), &children[shape.call_child(n, k)]),
            Ok::<V, E>(second[k]),
        ));
        assert(Ok::<V, E>(second[k]) == Err::<V, E>(one->Err_0));
    } else if second.len() < first.len() {
        let k = second.len() as int;
        assert(call_ensures(
            convert,
            (shape.call_rule(k), &children[shape.call_child(n, k)]),
            Ok::<V, E>(first[k]),
        ));
        assert(Ok::<V, E>(first[k]) == Err::<V, E>(other->Err_0));
    } else {
        assert forall|k: int| 0 <= k < first.len() implies first[k] == second[k] by {
            assert(Ok::<V, E>(first[k]) == Ok::<V, E>(second[k]));
        }
        assert(first =~= second);
        if first.len() < n {
            assert(Err::<V, E>(one->Err_0) == Err::<V, E>(other->Err_0));
        }
    }
}

/// When every conversion has succeeded, the result laid out at a child's
/// position is what `convert` returned for that child under the rule of the
/// item the child falls under.
pub proof fn law_results_by_child<V, E, F: Fn(RuleTag, &Node) -> Result<V, E>>(
    convert: F,
    shape: PatternShape,
    children: Seq<Node>,
    values: Seq<V>,
    c: int,
)
    requires
        shape.fits(children.len()),
        values.len() == children.len(),
        converted_in_order(convert, shape, children, values),
        0 <= c < children.len(),
    ensures
        call_ensures(
            convert,
            (shape.rule_at(children.len(), c), &children[c]),
            Ok::<V, E>(shape.by_child(values)[c]),
        ),
{
    let k = shape.call_of_child(children.len(), c);
    lemma_children_covered_by_calls(shape, children.len(), c);
    assert(shape.by_child(values)[c] == values[k]);
}

} // verus!
