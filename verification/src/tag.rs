//! Rule tags and the parse-tree nodes that carry them.

use vstd::prelude::*;

verus! {

/// Identifier of a grammar rule. Two tags denote the same rule exactly when
/// their identifiers are equal; nothing else about a tag is ever inspected.
#[derive(Clone, Copy, Debug, PartialEq, Eq, Structural)]
pub struct RuleTag {
    pub id: u32,
}

/// A parse-tree node: the rule that produced it, the text it spans and its
/// children in source order.
#[derive(Debug)]
pub struct Node {
    pub rule: RuleTag,
    pub text: String,
    pub children: Vec<Node>,
}

/// The rule tags of a sequence of nodes, in order.
pub open spec fn tags_of(nodes: Seq<Node>) -> Seq<RuleTag> {
    nodes.map_values(|n: Node| n.rule)
}

/// Takes a snapshot of the rule tag of every node, in order.
pub fn node_rules(nodes: &Vec<Node>) -> (tags: Vec<RuleTag>)
    ensures
        tags@ == tags_of(nodes@),
{
    let mut tags: Vec<RuleTag> = Vec::new();
    let mut i: usize = 0;
    while i < nodes.len()
        invariant
            i <= nodes.len(),
            tags@ == tags_of(nodes@.take(i as int)),
        decreases nodes.len() - i,
    {
        tags.push(nodes[i].rule);
        proof {
            assert(nodes@.take(i + 1) == nodes@.take(i as int).push(nodes@[i as int]));
        }
        i += 1;
    }
    proof {
        assert(nodes@.take(nodes.len() as int) == nodes@);
    }
    tags
}

} // verus!
