use node_match::binding::{Binding, Bound, Entry};
use node_match::dispatch::{match_nodes, scan_step, select_branch, Branch, DispatchError, Scan};
use node_match::extract::{extract, Call, Extraction};
use node_match::pattern::{compile, CompiledPattern, PatternItem, Slot, SpecError};
use node_match::render::{describe_no_match, render_tags};
use node_match::tag::{node_rules, Node, RuleTag};
use node_match::window::Window;
use std::cell::{Cell, RefCell};

const A: RuleTag = RuleTag { id: 0 };
const B: RuleTag = RuleTag { id: 1 };
const C: RuleTag = RuleTag { id: 2 };
const D: RuleTag = RuleTag { id: 3 };

fn fixed(rule: RuleTag, binder: &str) -> PatternItem {
    PatternItem::Fixed { rule, binder: binder.to_string() }
}

fn variadic(rule: RuleTag, binder: &str) -> PatternItem {
    PatternItem::Variadic { rule, binder: binder.to_string() }
}

fn slot(rule: RuleTag, binder: &str) -> Slot {
    Slot { rule, binder: binder.to_string() }
}

fn nodes(tags: &[RuleTag]) -> Vec<Node> {
    tags.iter()
        .enumerate()
        .map(|(i, rule)| Node { rule: *rule, text: format!("child {}", i), children: Vec::new() })
        .collect()
}

fn compiled(items: Vec<PatternItem>) -> CompiledPattern {
    compile(&items).unwrap()
}

fn fits(items: Vec<PatternItem>, tags: &[RuleTag]) -> bool {
    node_match::matcher::matches(&compiled(items), &tags.to_vec())
}

/// The rule a child was converted under, and the child.
fn labelled(rule: RuleTag, node: &Node) -> Result<(u32, String), String> {
    Ok((rule.id, node.text.clone()))
}

fn one(rule: RuleTag, child: usize) -> Bound<(u32, String)> {
    Bound::Single((rule.id, format!("child {}", child)))
}

#[test]
fn compile_splits_at_the_variadic_item() {
    let pattern = compiled(vec![fixed(A, "a"), fixed(B, "b"), variadic(C, "cs"), fixed(D, "d")]);
    assert_eq!(
        pattern,
        CompiledPattern {
            prefix: vec![slot(A, "a"), slot(B, "b")],
            variadic: Some(slot(C, "cs")),
            suffix: vec![slot(D, "d")],
        }
    );
}

#[test]
fn compile_without_variadic_puts_everything_in_the_prefix() {
    let pattern = compiled(vec![fixed(A, "a"), fixed(B, "b")]);
    assert_eq!(
        pattern,
        CompiledPattern { prefix: vec![slot(A, "a"), slot(B, "b")], variadic: None, suffix: vec![] }
    );
    assert_eq!(compiled(vec![]), CompiledPattern { prefix: vec![], variadic: None, suffix: vec![] });
}

#[test]
fn compile_with_leading_or_trailing_variadic() {
    assert_eq!(
        compiled(vec![variadic(A, "xs"), fixed(B, "b")]),
        CompiledPattern { prefix: vec![], variadic: Some(slot(A, "xs")), suffix: vec![slot(B, "b")] }
    );
    assert_eq!(
        compiled(vec![fixed(B, "b"), variadic(A, "xs")]),
        CompiledPattern { prefix: vec![slot(B, "b")], variadic: Some(slot(A, "xs")), suffix: vec![] }
    );
}

#[test]
fn compile_rejects_a_second_variadic_item_wherever_it_stands() {
    assert_eq!(compile(&vec![variadic(A, "x"), variadic(A, "y")]), Err(SpecError::MultipleVariadic));
    assert_eq!(
        compile(&vec![fixed(A, "a"), variadic(B, "x"), fixed(C, "c"), variadic(B, "y")]),
        Err(SpecError::MultipleVariadic)
    );
    assert_eq!(
        compile(&vec![variadic(B, "x"), variadic(B, "y"), variadic(B, "z")]),
        Err(SpecError::MultipleVariadic)
    );
}

#[test]
fn spec_error_has_a_message() {
    assert_eq!(SpecError::MultipleVariadic.message(), "multiple variable-length patterns are not allowed");
}

#[test]
fn fixed_pattern_fits_only_its_own_tags() {
    let pattern = || vec![fixed(A, "a"), fixed(B, "b"), fixed(C, "c")];
    assert!(fits(pattern(), &[A, B, C]));
    assert!(!fits(pattern(), &[A, B]));
    assert!(!fits(pattern(), &[A, B, C, C]));
    assert!(!fits(pattern(), &[A, C, B]));
    assert!(!fits(pattern(), &[C, B, A]));
    assert!(!fits(pattern(), &[]));
}

#[test]
fn empty_pattern_fits_only_no_children() {
    assert!(fits(vec![], &[]));
    assert!(!fits(vec![], &[A]));
}

#[test]
fn variadic_pattern_fits_any_run_of_its_rule() {
    let pattern = || vec![fixed(A, "a"), variadic(B, "bs"), fixed(C, "c")];
    assert!(fits(pattern(), &[A, C]));
    assert!(fits(pattern(), &[A, B, C]));
    assert!(fits(pattern(), &[A, B, B, B, B, C]));
    assert!(!fits(pattern(), &[A]));
    assert!(!fits(pattern(), &[C]));
    assert!(!fits(pattern(), &[]));
    assert!(!fits(pattern(), &[A, B, A, C]));
    assert!(!fits(pattern(), &[B, B, C]));
    assert!(!fits(pattern(), &[A, B, B]));
    assert!(!fits(pattern(), &[A, C, C]));
}

#[test]
fn lone_variadic_pattern_fits_the_empty_sequence() {
    assert!(fits(vec![variadic(B, "bs")], &[]));
    assert!(fits(vec![variadic(B, "bs")], &[B, B]));
    assert!(!fits(vec![variadic(B, "bs")], &[B, A]));
}

#[test]
fn suffix_items_are_compared_from_the_back() {
    let pattern = || vec![variadic(A, "xs"), fixed(B, "b"), fixed(C, "c")];
    assert!(fits(pattern(), &[A, A, C, B]));
    assert!(fits(pattern(), &[C, B]));
    assert!(!fits(pattern(), &[A, A, B, C]));
    assert!(!fits(pattern(), &[B, C]));
    let same = || vec![variadic(A, "xs"), fixed(B, "b"), fixed(B, "c")];
    assert!(fits(same(), &[A, B, B]));
}

#[test]
fn node_rules_are_the_tags_in_order() {
    assert_eq!(node_rules(&nodes(&[C, A, A, B])), vec![C, A, A, B]);
    assert_eq!(node_rules(&nodes(&[])), Vec::<RuleTag>::new());
}

#[test]
fn first_fitting_branch_is_selected() {
    let patterns = vec![
        compiled(vec![fixed(A, "a")]),
        compiled(vec![variadic(B, "bs")]),
        compiled(vec![fixed(B, "b"), fixed(B, "c")]),
        compiled(vec![variadic(A, "xs")]),
    ];
    assert_eq!(select_branch(&patterns, &vec![B, B]), Some(1));
    assert_eq!(select_branch(&patterns, &vec![A]), Some(0));
    assert_eq!(select_branch(&patterns, &vec![A, A]), Some(3));
    assert_eq!(select_branch(&patterns, &vec![]), Some(1));
    assert_eq!(select_branch(&patterns, &vec![C]), None);
    assert_eq!(select_branch(&vec![], &vec![A]), None);
}

#[test]
fn scan_steps_through_the_branches() {
    let patterns = vec![compiled(vec![fixed(A, "a")]), compiled(vec![fixed(B, "b")])];
    let tags = vec![B];
    assert_eq!(scan_step(&patterns, &tags, Scan::Scanning(0)), Scan::Scanning(1));
    assert_eq!(scan_step(&patterns, &tags, Scan::Scanning(1)), Scan::Matched(1));
    assert_eq!(scan_step(&patterns, &tags, Scan::Matched(1)), Scan::Matched(1));
    let other = vec![C];
    assert_eq!(scan_step(&patterns, &other, Scan::Scanning(1)), Scan::Scanning(2));
    assert_eq!(scan_step(&patterns, &other, Scan::Scanning(2)), Scan::Exhausted);
    assert_eq!(scan_step(&patterns, &other, Scan::Exhausted), Scan::Exhausted);
    assert_eq!(scan_step(&vec![], &other, Scan::Scanning(0)), Scan::Exhausted);
}

#[test]
fn earlier_branch_wins_when_two_fit() {
    let branches = vec![
        Branch { pattern: vec![variadic(A, "all")], body: 1 },
        Branch { pattern: vec![fixed(A, "x"), fixed(A, "y")], body: 2 },
    ];
    let children = nodes(&[A, A]);
    let matched = match_nodes(&children, &branches, labelled).unwrap();
    assert_eq!(matched.branch, 0);
    assert_eq!(*matched.body, 1);
    assert_eq!(
        matched.binding.get("all"),
        Some(&Bound::Sequence(vec![(0, "child 0".to_string()), (0, "child 1".to_string())]))
    );
    assert_eq!(matched.binding.get("x"), None);

    let swapped = vec![
        Branch { pattern: vec![fixed(A, "x"), fixed(A, "y")], body: 2 },
        Branch { pattern: vec![variadic(A, "all")], body: 1 },
    ];
    let matched = match_nodes(&children, &swapped, labelled).unwrap();
    assert_eq!(matched.branch, 0);
    assert_eq!(*matched.body, 2);
    assert_eq!(matched.binding.get("x"), Some(&one(A, 0)));
    assert_eq!(matched.binding.get("y"), Some(&one(A, 1)));
}

#[test]
fn later_branch_is_tried_when_earlier_ones_do_not_fit() {
    let branches = vec![
        Branch { pattern: vec![fixed(A, "a")], body: 'x' },
        Branch { pattern: vec![fixed(B, "b")], body: 'y' },
        Branch { pattern: vec![fixed(C, "c")], body: 'z' },
    ];
    let children = nodes(&[C]);
    let matched = match_nodes(&children, &branches, labelled).unwrap();
    assert_eq!(matched.branch, 2);
    assert_eq!(*matched.body, 'z');
    assert_eq!(matched.binding.len(), 1);
}

#[test]
fn malformed_branch_is_reported_even_after_a_fitting_one() {
    let branches = vec![
        Branch { pattern: vec![fixed(A, "a")], body: () },
        Branch { pattern: vec![variadic(A, "x"), variadic(B, "y")], body: () },
    ];
    let children = nodes(&[A]);
    let outcome = match_nodes(&children, &branches, labelled);
    assert_eq!(outcome.map(|m| m.branch), Err(DispatchError::Spec(SpecError::MultipleVariadic)));
}

#[test]
fn no_branches_means_no_match() {
    let branches: Vec<Branch<()>> = vec![];
    let children = nodes(&[B, A]);
    let outcome = match_nodes(&children, &branches, labelled);
    assert_eq!(outcome.map(|m| m.branch), Err(DispatchError::NoMatch { observed_tags: vec![B, A] }));
}

#[test]
fn too_few_children_is_an_ordinary_no_match() {
    let branches = vec![Branch { pattern: vec![fixed(A, "a"), fixed(B, "b"), fixed(C, "c")], body: () }];
    let children = nodes(&[A]);
    let outcome = match_nodes(&children, &branches, labelled);
    assert_eq!(outcome.map(|m| m.branch), Err(DispatchError::NoMatch { observed_tags: vec![A] }));
}

#[test]
fn bindings_follow_the_declared_order() {
    let pattern = compiled(vec![fixed(A, "a"), variadic(B, "bs"), fixed(C, "c"), fixed(D, "d")]);
    let children = nodes(&[A, B, B, D, C]);
    assert!(node_match::matcher::matches(&pattern, &node_rules(&children)));
    let binding = extract(&pattern, &children, labelled).unwrap();
    assert_eq!(
        binding,
        Binding {
            entries: vec![
                Entry { name: "a".to_string(), value: one(A, 0) },
                Entry {
                    name: "bs".to_string(),
                    value: Bound::Sequence(vec![(1, "child 1".to_string()), (1, "child 2".to_string())]),
                },
                Entry { name: "c".to_string(), value: one(C, 3) },
                Entry { name: "d".to_string(), value: one(D, 4) },
            ],
        }
    );
    assert_eq!(binding.get("d"), Some(&one(D, 4)));
    assert_eq!(binding.get("c"), Some(&one(C, 3)));
    assert_eq!(binding.get("a"), Some(&one(A, 0)));
    assert_eq!(binding.get("e"), None);
    assert_eq!(binding.len(), 4);
}

#[test]
fn children_are_converted_prefix_first_then_suffix_from_the_back_then_the_middle() {
    let pattern = compiled(vec![fixed(A, "a"), fixed(A, "b"), variadic(B, "bs"), fixed(C, "c"), fixed(D, "d")]);
    let children = nodes(&[A, A, B, B, B, D, C]);
    let calls: RefCell<Vec<(RuleTag, String)>> = RefCell::new(Vec::new());
    let convert = |rule: RuleTag, node: &Node| -> Result<(), ()> {
        calls.borrow_mut().push((rule, node.text.clone()));
        Ok(())
    };
    extract(&pattern, &children, convert).unwrap();
    let expected: Vec<(RuleTag, String)> = [(A, 0), (A, 1), (D, 6), (C, 5), (B, 2), (B, 3), (B, 4)]
        .iter()
        .map(|(rule, child)| (*rule, format!("child {}", child)))
        .collect();
    assert_eq!(*calls.borrow(), expected);
}

#[test]
fn no_conversion_is_made_after_one_fails() {
    let pattern = compiled(vec![fixed(A, "a"), variadic(B, "bs"), fixed(C, "c")]);
    let children = nodes(&[A, B, B, B, C]);
    for failing in 0..5usize {
        let made = Cell::new(0usize);
        let convert = |_rule: RuleTag, _node: &Node| -> Result<usize, String> {
            let k = made.get();
            made.set(k + 1);
            if k == failing {
                Err(format!("call {} failed", k))
            } else {
                Ok(k)
            }
        };
        let outcome = extract(&pattern, &children, convert);
        assert_eq!(outcome, Err(format!("call {} failed", failing)));
        assert_eq!(made.get(), failing + 1);
    }
}

#[test]
fn failed_conversion_ends_the_dispatch_without_trying_later_branches() {
    let branches = vec![
        Branch { pattern: vec![fixed(A, "a"), fixed(B, "b")], body: 1 },
        Branch { pattern: vec![variadic(A, "xs"), fixed(B, "b")], body: 2 },
    ];
    let children = nodes(&[A, B]);
    let made = Cell::new(0usize);
    let convert = |rule: RuleTag, _node: &Node| -> Result<u32, String> {
        made.set(made.get() + 1);
        if rule == B {
            Err("no b".to_string())
        } else {
            Ok(rule.id)
        }
    };
    let outcome = match_nodes(&children, &branches, convert);
    assert_eq!(outcome.map(|m| m.branch), Err(DispatchError::Conversion("no b".to_string())));
    assert_eq!(made.get(), 2);
}

#[test]
fn extraction_can_be_driven_step_by_step() {
    let pattern = compiled(vec![fixed(A, "a"), variadic(B, "bs"), fixed(C, "c")]);
    let mut extraction: Extraction<'_, char, String> = Extraction::begin(&pattern, 4);
    assert_eq!(extraction.next_call(), Some(Call { rule: A, child: 0 }));
    extraction.record(Ok('p'));
    assert_eq!(extraction.next_call(), Some(Call { rule: C, child: 3 }));
    extraction.record(Ok('q'));
    assert_eq!(extraction.next_call(), Some(Call { rule: B, child: 1 }));
    extraction.record(Ok('r'));
    assert_eq!(extraction.next_call(), Some(Call { rule: B, child: 2 }));
    extraction.record(Ok('s'));
    assert_eq!(extraction.next_call(), None);
    assert_eq!(
        extraction.finish(),
        Ok(Binding {
            entries: vec![
                Entry { name: "a".to_string(), value: Bound::Single('p') },
                Entry { name: "bs".to_string(), value: Bound::Sequence(vec!['r', 's']) },
                Entry { name: "c".to_string(), value: Bound::Single('q') },
            ],
        })
    );
}

#[test]
fn extraction_stops_asking_after_a_failure() {
    let pattern = compiled(vec![fixed(A, "a"), variadic(B, "bs"), fixed(C, "c")]);
    let mut extraction: Extraction<'_, char, String> = Extraction::begin(&pattern, 4);
    extraction.record(Ok('p'));
    assert_eq!(extraction.next_call(), Some(Call { rule: C, child: 3 }));
    extraction.record(Err("bad".to_string()));
    assert_eq!(extraction.next_call(), None);
    assert_eq!(extraction.finish(), Err("bad".to_string()));
}

#[test]
fn extraction_of_nothing_binds_nothing() {
    let pattern = compiled(vec![]);
    let extraction: Extraction<'_, char, String> = Extraction::begin(&pattern, 0);
    assert_eq!(extraction.next_call(), None);
    assert_eq!(extraction.finish(), Ok(Binding { entries: vec![] }));

    let lone = compiled(vec![variadic(B, "bs")]);
    let extraction: Extraction<'_, char, String> = Extraction::begin(&lone, 0);
    assert_eq!(extraction.next_call(), None);
    assert_eq!(
        extraction.finish(),
        Ok(Binding { entries: vec![Entry { name: "bs".to_string(), value: Bound::Sequence(vec![]) }] })
    );
}

#[test]
fn name_declared_twice_holds_the_later_value() {
    let binding = Binding {
        entries: vec![
            Entry { name: "x".to_string(), value: Bound::Single(1) },
            Entry { name: "y".to_string(), value: Bound::Sequence(vec![2, 3]) },
            Entry { name: "x".to_string(), value: Bound::Single(4) },
        ],
    };
    assert_eq!(binding.get("x"), Some(&Bound::Single(4)));
    assert_eq!(binding.get("y"), Some(&Bound::Sequence(vec![2, 3])));
    assert_eq!(binding.get("z"), None);
    assert_eq!(binding.get(""), None);
    assert_eq!(Binding::<u8> { entries: vec![] }.get("x"), None);
}

#[test]
fn tags_render_as_a_bracketed_list() {
    assert_eq!(render_tags(&vec![]), "[]");
    assert_eq!(render_tags(&vec![A]), "[0]");
    assert_eq!(render_tags(&vec![A, B, B, C]), "[0, 1, 1, 2]");
    assert_eq!(
        render_tags(&vec![RuleTag { id: 10 }, RuleTag { id: 907 }, RuleTag { id: u32::MAX }]),
        "[10, 907, 4294967295]"
    );
}

#[test]
fn no_match_is_described_with_the_observed_tags() {
    assert_eq!(describe_no_match(&vec![A, B]), "Nodes didn't match any pattern: [0, 1]");
    assert_eq!(describe_no_match(&vec![]), "Nodes didn't match any pattern: []");
}

#[test]
fn window_hands_out_positions_from_both_ends() {
    let mut window = Window::new(4);
    assert_eq!(window.len(), 4);
    assert_eq!(window.take_front(), Some(0));
    assert_eq!(window.take_back(), Some(3));
    assert_eq!(window.take_back(), Some(2));
    assert_eq!(window.len(), 1);
    assert_eq!(window.take_front(), Some(1));
    assert_eq!(window.take_front(), None);
    assert_eq!(window.take_back(), None);
    assert_eq!(window, Window { front: 2, back: 2 });
    assert_eq!(Window::new(0).take_back(), None);
}

#[test]
fn conversions_may_dispatch_on_the_children_of_a_child() {
    let inner = |rule: RuleTag, node: &Node| -> Result<String, String> {
        Ok(format!("{}:{}", rule.id, node.text))
    };
    let outer = |_rule: RuleTag, node: &Node| -> Result<usize, String> {
        let branches = vec![Branch { pattern: vec![variadic(B, "bs")], body: () }];
        match match_nodes(&node.children, &branches, inner) {
            Ok(matched) => match matched.binding.get("bs") {
                Some(Bound::Sequence(values)) => Ok(values.len()),
                _ => Err("bs is missing".to_string()),
            },
            Err(DispatchError::NoMatch { observed_tags }) => Err(describe_no_match(&observed_tags)),
            Err(_) => Err("inner dispatch failed".to_string()),
        }
    };
    let tree = |kids: &[RuleTag]| Node { rule: A, text: String::new(), children: nodes(kids) };
    let branches = vec![Branch { pattern: vec![fixed(A, "first"), fixed(A, "second")], body: () }];

    let children = vec![tree(&[B, B, B]), tree(&[])];
    let matched = match_nodes(&children, &branches, outer).unwrap();
    assert_eq!(matched.binding.get("first"), Some(&Bound::Single(3)));
    assert_eq!(matched.binding.get("second"), Some(&Bound::Single(0)));

    let children = vec![tree(&[B]), tree(&[B, C])];
    let outcome = match_nodes(&children, &branches, outer);
    assert_eq!(
        outcome.map(|m| m.branch),
        Err(DispatchError::Conversion("Nodes didn't match any pattern: [1, 2]".to_string()))
    );
}

/// Whether `items` fit `tags`, decided by trying every length for the run
/// that the variadic item stands for.
fn fits_by_enumeration(items: &[PatternItem], tags: &[RuleTag]) -> bool {
    let variadic_at = items.iter().position(|item| matches!(item, PatternItem::Variadic { .. }));
    let rule_of = |item: &PatternItem| match item {
        PatternItem::Fixed { rule, .. } => *rule,
        PatternItem::Variadic { rule, .. } => *rule,
    };
    match variadic_at {
        None => {
            items.len() == tags.len() && items.iter().zip(tags).all(|(item, tag)| rule_of(item) == *tag)
        }
        Some(v) => (0..=tags.len()).any(|run| {
            let mut expected: Vec<RuleTag> = items[..v].iter().map(rule_of).collect();
            expected.extend(std::iter::repeat(rule_of(&items[v])).take(run));
            // The items after the variadic one are laid out from the back.
            expected.extend(items[v + 1..].iter().rev().map(rule_of));
            expected == tags
        }),
    }
}

fn all_sequences(length: usize) -> Vec<Vec<RuleTag>> {
    let mut sequences = vec![vec![]];
    for _ in 0..length {
        sequences = sequences
            .into_iter()
            .flat_map(|s| {
                [A, B, C].into_iter().map(move |tag| {
                    let mut longer = s.clone();
                    longer.push(tag);
                    longer
                })
            })
            .collect();
    }
    sequences
}

#[test]
fn matching_agrees_with_enumeration_on_all_short_sequences() {
    let patterns: Vec<Vec<PatternItem>> = vec![
        vec![],
        vec![fixed(A, "a")],
        vec![fixed(A, "a"), fixed(B, "b")],
        vec![variadic(A, "xs")],
        vec![fixed(A, "a"), variadic(B, "bs")],
        vec![variadic(B, "bs"), fixed(C, "c")],
        vec![fixed(A, "a"), variadic(B, "bs"), fixed(C, "c")],
        vec![fixed(A, "a"), variadic(A, "as"), fixed(A, "z")],
        vec![variadic(A, "xs"), fixed(B, "b"), fixed(C, "c")],
        vec![fixed(C, "c"), fixed(A, "a"), variadic(B, "bs"), fixed(A, "y"), fixed(B, "z")],
    ];
    let mut fitting = 0;
    for items in &patterns {
        let pattern = compile(items).unwrap();
        for length in 0..=5 {
            for tags in all_sequences(length) {
                let expected = fits_by_enumeration(items, &tags);
                assert_eq!(
                    node_match::matcher::matches(&pattern, &tags),
                    expected,
                    "{:?} against {:?}",
                    items,
                    tags
                );
                if expected {
                    fitting += 1;
                }
            }
        }
    }
    assert_eq!(fitting, 1 + 1 + 1 + 6 + 5 + 5 + 4 + 4 + 4 + 2);
}

#[test]
fn every_child_is_converted_once_under_the_rule_of_its_item() {
    let items = vec![fixed(C, "c"), fixed(A, "a"), variadic(B, "bs"), fixed(A, "y"), fixed(B, "z")];
    let pattern = compiled(items);
    for run in 0..4usize {
        let mut tags = vec![C, A];
        tags.extend(std::iter::repeat(B).take(run));
        tags.extend([B, A]);
        let children = nodes(&tags);
        assert!(node_match::matcher::matches(&pattern, &tags));
        let binding = extract(&pattern, &children, labelled).unwrap();
        let mut expected = vec![
            Entry { name: "c".to_string(), value: one(C, 0) },
            Entry { name: "a".to_string(), value: one(A, 1) },
            Entry {
                name: "bs".to_string(),
                value: Bound::Sequence((0..run).map(|k| (B.id, format!("child {}", 2 + k))).collect()),
            },
        ];
        expected.push(Entry { name: "y".to_string(), value: one(A, 2 + run) });
        expected.push(Entry { name: "z".to_string(), value: one(B, 3 + run) });
        assert_eq!(binding, Binding { entries: expected });
    }
}
