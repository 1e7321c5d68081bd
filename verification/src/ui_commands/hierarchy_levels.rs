//! The log of an entity tree, told by depth: where the strokes stand in
//! front of a line follows from how deep the entity is and from the depths
//! at which a stroke runs on. This says the same as the padding that
//! `log_hierarchy` hands down from parent to child, and is proved to.

use crate::entity::entity_debug_text;
use crate::ui_commands::log_hierarchy::{
    child_padding, children_lines, component_lines, hierarchy_lines, node_lines,
    spec_entity_label, spec_entity_line, EntityNodeView,
};
use vstd::prelude::*;

verus! {

/// The four columns that depth `i` adds to the padding: a stroke where one
/// runs on at the depth above, blanks else. The first four columns never
/// hold a stroke: the root has no siblings.
pub open spec fn padding_part(i: int, traced: Set<int>) -> Seq<char> {
    if i > 0 && traced.contains(i - 1) {
        "  ║ "@
    } else {
        "    "@
    }
}

/// The padding of an entity at depth `level`, where strokes run on at the
/// depths in `traced`.
pub open spec fn padding_at(level: nat, traced: Set<int>) -> Seq<char>
    decreases level,
{
    if level == 0 {
        Seq::empty()
    } else {
        padding_at((level - 1) as nat, traced) + padding_part(level - 1, traced)
    }
}

/// The lines of an entity at depth `level` and of all below it.
pub open spec fn node_lines_at(node: EntityNodeView, level: nat, is_last: bool, traced: Set<int>) -> Seq<
    Seq<char>,
>
    decreases node,
{
    let padding = padding_at(level, traced);
    seq![
        spec_entity_line(
            padding,
            is_last,
            spec_entity_label(entity_debug_text(node.id), node.name),
        ),
    ] + component_lines(node, padding, is_last, 0) + children_lines_at(
        node.children,
        level,
        traced,
        0,
    )
}

/// The lines of the children `from` onwards of an entity at depth `level`.
/// Below a child that is not the last, a stroke runs on at `level`.
pub open spec fn children_lines_at(
    children: Seq<EntityNodeView>,
    level: nat,
    traced: Set<int>,
    from: int,
) -> Seq<Seq<char>>
    decreases children, children.len() - from,
{
    if 0 <= from < children.len() {
        let last = from == children.len() - 1;
        node_lines_at(
            children[from],
            level + 1,
            last,
            if last {
                traced
            } else {
                traced.insert(level as int)
            },
        ) + children_lines_at(children, level, traced, from + 1)
    } else {
        seq![]
    }
}

/// Strokes at `level` or deeper do not show in the padding down to `level`.
proof fn lemma_padding_ignores_deeper(level: nat, traced: Set<int>, deeper: int)
    requires
        deeper + 1 >= level,
    ensures
        padding_at(level, traced.insert(deeper)) == padding_at(level, traced),
    decreases level,
{
    if level > 0 {
        lemma_padding_ignores_deeper((level - 1) as nat, traced, deeper);
    }
}

/// What the tree looks like at depth `level`, such that both tellings agree:
/// strokes run on above `level` only, and at the depth just above exactly
/// where the entity has later siblings, which the root has not.
pub open spec fn levels_fit(level: nat, is_last: bool, traced: Set<int>) -> bool {
    &&& forall|l: int| traced.contains(l) ==> 0 <= l < level
    &&& if level == 0 {
        is_last
    } else {
        traced.contains(level - 1) <==> !is_last
    }
}

proof fn lemma_node_lines_at(node: EntityNodeView, level: nat, is_last: bool, traced: Set<int>)
    requires
        levels_fit(level, is_last, traced),
    ensures
        node_lines_at(node, level, is_last, traced) == node_lines(
            node,
            padding_at(level, traced),
            is_last,
        ),
    decreases node, 1nat, 0nat,
{
    lemma_children_lines_at(node, level, is_last, traced, 0);
}

proof fn lemma_children_lines_at(
    node: EntityNodeView,
    level: nat,
    is_last: bool,
    traced: Set<int>,
    from: int,
)
    requires
        levels_fit(level, is_last, traced),
        0 <= from <= node.children.len(),
    ensures
        children_lines_at(node.children, level, traced, from) == children_lines(
            node.children,
            child_padding(padding_at(level, traced), is_last),
            from,
        ),
    decreases node, 0nat, node.children.len() - from,
{
    if from < node.children.len() {
        let last = from == node.children.len() - 1;
        let below = if last {
            traced
        } else {
            traced.insert(level as int)
        };
        assert(padding_at(level, below) == padding_at(level, traced)) by {
            if !last {
                lemma_padding_ignores_deeper(level, traced, level as int);
            }
        }
        assert(padding_part(level as int, below) == padding_part(level as int, traced));
        assert(padding_at(level + 1, below) == child_padding(padding_at(level, traced), is_last));
        assert(levels_fit(level + 1, last, below));
        lemma_node_lines_at(node.children[from], level + 1, last, below);
        lemma_children_lines_at(node, level, is_last, traced, from + 1);
    }
}

/// The log of a tree is its log told by depth, from a root at depth 0 with
/// no stroke running on.
pub proof fn lemma_hierarchy_lines_by_levels(root: EntityNodeView)
    ensures
        hierarchy_lines(root) == node_lines_at(root, 0, true, Set::empty()),
{
    lemma_node_lines_at(root, 0, true, Set::empty());
}

/// How many entities a tree holds, and how many components they list in
/// all.
pub open spec fn listed_count(node: EntityNodeView) -> nat
    decreases node,
{
    1 + node.components.len() + listed_count_below(node.children, 0)
}

/// What [`listed_count`] comes to over the children `from` onwards.
pub open spec fn listed_count_below(children: Seq<EntityNodeView>, from: int) -> nat
    decreases children, children.len() - from,
{
    if 0 <= from < children.len() {
        listed_count(children[from]) + listed_count_below(children, from + 1)
    } else {
        0
    }
}

proof fn lemma_component_line_count(
    node: EntityNodeView,
    padding: Seq<char>,
    is_last: bool,
    from: int,
)
    requires
        0 <= from <= node.components.len(),
    ensures
        component_lines(node, padding, is_last, from).len() == node.components.len() - from,
    decreases node.components.len() - from,
{
    if from < node.components.len() {
        lemma_component_line_count(node, padding, is_last, from + 1);
    }
}

proof fn lemma_children_line_count(node: EntityNodeView, padding: Seq<char>, from: int)
    requires
        0 <= from <= node.children.len(),
    ensures
        children_lines(node.children, padding, from).len() == listed_count_below(
            node.children,
            from,
        ),
    decreases node, 0nat, node.children.len() - from,
{
    if from < node.children.len() {
        lemma_line_count(node.children[from], padding, from == node.children.len() - 1);
        lemma_children_line_count(node, padding, from + 1);
    }
}

/// The log holds one line for each entity and one for each component
/// listed, whatever the padding.
pub proof fn lemma_line_count(node: EntityNodeView, padding: Seq<char>, is_last: bool)
    ensures
        node_lines(node, padding, is_last).len() == listed_count(node),
    decreases node, 1nat, 0nat,
{
    lemma_component_line_count(node, padding, is_last, 0);
    lemma_children_line_count(node, child_padding(padding, is_last), 0);
}

} // verus!
