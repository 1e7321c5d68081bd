//! The log of an entity tree: one line for each entity, one for each of its
//! components, and box-drawing strokes that tie children to their parent.

use crate::entity::{entity_debug_text, EntityId};
use crate::ui_commands::simple_name::{simple_name, spec_simple_name};
use vstd::prelude::*;

verus! {

/// What the log shows of an entity and of those below it.
pub struct EntityNode {
    /// The entity.
    pub id: EntityId,
    /// The text of its `Name` component, if it has one.
    pub name: Option<String>,
    /// The type names of the components to list, in the order to list them.
    pub components: Vec<String>,
    /// Its children, in order.
    pub children: Vec<EntityNode>,
}

/// An [`EntityNode`] as a mathematical tree.
pub struct EntityNodeView {
    pub id: u64,
    pub name: Option<Seq<char>>,
    pub components: Seq<Seq<char>>,
    pub children: Seq<EntityNodeView>,
}

/// The mathematical tree below `node`.
pub open spec fn node_view(node: EntityNode) -> EntityNodeView
    decreases node,
{
    EntityNodeView {
        id: node.id.bits(),
        name: match node.name {
            Some(name) => Some(name@),
            None => None,
        },
        components: node.components.deep_view(),
        children: Seq::new(
            node.children.len() as nat,
            |i: int|
                if 0 <= i < node.children.len() {
                    node_view(node.children[i])
                } else {
                    arbitrary()
                },
        ),
    }
}

impl View for EntityNode {
    type V = EntityNodeView;

    open spec fn view(&self) -> EntityNodeView {
        node_view(*self)
    }
}

impl EntityNode {
    /// The node of an entity without name, components or children.
    pub fn new(id: EntityId) -> (node: EntityNode)
        ensures
            node.id == id,
            node.name is None,
            node.components@ == Seq::<String>::empty(),
            node.children@ == Seq::<EntityNode>::empty(),
            node@ == (EntityNodeView {
                id: id.bits(),
                name: None,
                components: Seq::empty(),
                children: Seq::empty(),
            }),
    {
        let node = EntityNode { id, name: None, components: Vec::new(), children: Vec::new() };
        proof {
            node.lemma_view();
            assert(node.components@ =~= Seq::<String>::empty());
            assert(node.children@ =~= Seq::<EntityNode>::empty());
            assert(node@.components =~= Seq::empty());
            assert(node@.children =~= Seq::empty());
        }
        node
    }

    /// The view of a node, field by field.
    pub proof fn lemma_view(&self)
        ensures
            self@.id == self.id.bits(),
            self@.name == match self.name {
                Some(name) => Some(name@),
                None => None,
            },
            self@.components == self.components.deep_view(),
            self@.children.len() == self.children.len(),
            forall|i: int|
                0 <= i < self.children.len() ==> #[trigger] self@.children[i]
                    == self.children[i]@,
    {
    }
}

/// How an entity is called in its line: by identifier and name, or by
/// identifier alone.
pub open spec fn spec_entity_label(id_text: Seq<char>, name: Option<Seq<char>>) -> Seq<char> {
    match name {
        Some(name) => "["@ + id_text + "] "@ + name,
        None => "Entity "@ + id_text,
    }
}

/// The line of an entity: a corner where it is the last child of its parent,
/// a tee where siblings follow.
pub open spec fn spec_entity_line(padding: Seq<char>, is_last: bool, label: Seq<char>) -> Seq<
    char,
> {
    padding + "  "@ + (if is_last {
        "╚"@
    } else {
        "╠"@
    }) + "══ "@ + label + " "@
}

/// The strokes in front of a component: one that runs on to the entity's
/// later siblings, then one that runs down to its children.
pub open spec fn child_pipe(is_last: bool, has_children: bool) -> Seq<char> {
    if is_last {
        if has_children {
            "      ║      "@
        } else {
            "             "@
        }
    } else {
        if has_children {
            "  ║   ║      "@
        } else {
            "  ║          "@
        }
    }
}

/// The line of a component whose short name is `name`.
pub open spec fn spec_component_line(
    padding: Seq<char>,
    is_last: bool,
    has_children: bool,
    last_component: bool,
    name: Seq<char>,
) -> Seq<char> {
    padding + child_pipe(is_last, has_children) + (if last_component {
        "└"@
    } else {
        "├"@
    }) + "── "@ + name
}

/// The lines of the components `from` onwards of an entity.
pub open spec fn component_lines(
    node: EntityNodeView,
    padding: Seq<char>,
    is_last: bool,
    from: int,
) -> Seq<Seq<char>>
    decreases node.components.len() - from,
{
    if 0 <= from < node.components.len() {
        seq![
            spec_component_line(
                padding,
                is_last,
                node.children.len() > 0,
                from == node.components.len() - 1,
                spec_simple_name(node.components[from]),
            ),
        ] + component_lines(node, padding, is_last, from + 1)
    } else {
        seq![]
    }
}

/// The padding of the children of an entity with this padding: below a last
/// child it widens by blanks, below any other by the stroke that runs on to
/// the entity's later siblings.
pub open spec fn child_padding(padding: Seq<char>, is_last: bool) -> Seq<char> {
    padding + (if is_last {
        "    "@
    } else {
        "  ║ "@
    })
}

/// The lines of an entity and of all below it: its own line, its
/// components, then its children in order.
pub open spec fn node_lines(node: EntityNodeView, padding: Seq<char>, is_last: bool) -> Seq<
    Seq<char>,
>
    decreases node,
{
    seq![
        spec_entity_line(
            padding,
            is_last,
            spec_entity_label(entity_debug_text(node.id), node.name),
        ),
    ] + component_lines(node, padding, is_last, 0) + children_lines(
        node.children,
        child_padding(padding, is_last),
        0,
    )
}

/// The lines of the children `from` onwards; the last child is drawn as such.
pub open spec fn children_lines(children: Seq<EntityNodeView>, padding: Seq<char>, from: int) -> Seq<
    Seq<char>,
>
    decreases children, children.len() - from,
{
    if 0 <= from < children.len() {
        node_lines(children[from], padding, from == children.len() - 1) + children_lines(
            children,
            padding,
            from + 1,
        )
    } else {
        seq![]
    }
}

/// The log of the tree below `root`, which stands at the left margin and is
/// drawn as a last child.
pub open spec fn hierarchy_lines(root: EntityNodeView) -> Seq<Seq<char>> {
    node_lines(root, Seq::empty(), true)
}

/// How an entity is called in its line, given the text of its identifier.
pub fn entity_label(id_text: &str, name: &Option<String>) -> (label: String)
    ensures
        label@ == spec_entity_label(
            id_text@,
            match name {
                Some(name) => Some(name@),
                None => None,
            },
        ),
{
    match name {
        Some(name) => {
            let mut label = String::from_str("[");
            label.append(id_text);
            label.append("] ");
            label.append(name.as_str());
            label
        },
        None => {
            let mut label = String::from_str("Entity ");
            label.append(id_text);
            label
        },
    }
}

/// The line of an entity.
pub fn entity_line(padding: &str, is_last: bool, label: &str) -> (line: String)
    ensures
        line@ == spec_entity_line(padding@, is_last, label@),
{
    let mut line = String::from_str(padding);
    line.append("  ");
    line.append(
        if is_last {
            "╚"
        } else {
            "╠"
        },
    );
    line.append("══ ");
    line.append(label);
    line.append(" ");
    line
}

/// The line of a component whose short name is `name`.
pub fn component_line(
    padding: &str,
    is_last: bool,
    has_children: bool,
    last_component: bool,
    name: &str,
) -> (line: String)
    ensures
        line@ == spec_component_line(padding@, is_last, has_children, last_component, name@),
{
    let mut line = String::from_str(padding);
    line.append(
        if is_last {
            if has_children {
                "      ║      "
            } else {
                "             "
            }
        } else {
            if has_children {
                "  ║   ║      "
            } else {
                "  ║          "
            }
        },
    );
    line.append(
        if last_component {
            "└"
        } else {
            "├"
        },
    );
    line.append("── ");
    line.append(name);
    line
}

/// Appends the lines of `node` and of all below it to `lines`.
fn push_node_lines(node: &EntityNode, padding: &str, is_last: bool, lines: &mut Vec<String>)
    ensures
        final(lines).deep_view() == old(lines).deep_view() + node_lines(
            node@,
            padding@,
            is_last,
        ),
    decreases node,
{
    proof {
        node.lemma_view();
    }
    let ghost before = lines.deep_view();
    let id_text = node.id.debug_text();
    let label = entity_label(id_text.as_str(), &node.name);
    lines.push(entity_line(padding, is_last, label.as_str()));
    assert(lines.deep_view() =~= before.push(
        spec_entity_line(
            padding@,
            is_last,
            spec_entity_label(entity_debug_text(node@.id), node@.name),
        ),
    ));

    let has_children = node.children.len() > 0;
    let count = node.components.len();
    let mut i: usize = 0;
    while i < count
        invariant
            0 <= i <= count == node.components.len(),
            node@.components == node.components.deep_view(),
            has_children == (node@.children.len() > 0),
            lines.deep_view() + component_lines(node@, padding@, is_last, i as int)
                == before + seq![
                spec_entity_line(
                    padding@,
                    is_last,
                    spec_entity_label(entity_debug_text(node@.id), node@.name),
                ),
            ] + component_lines(node@, padding@, is_last, 0),
        decreases count - i,
    {
        let ghost so_far = lines.deep_view();
        let short = simple_name(node.components[i].as_str());
        let line = component_line(padding, is_last, has_children, i == count - 1, short.as_str());
        lines.push(line);
        proof {
            assert(node@.components[i as int] == node.components[i as int]@);
            assert(lines.deep_view() =~= so_far.push(line@));
            assert(so_far + component_lines(node@, padding@, is_last, i as int) =~= so_far.push(
                line@,
            ) + component_lines(node@, padding@, is_last, i + 1));
        }
        i = i + 1;
    }

    let mut below = String::from_str(padding);
    below.append(
        if is_last {
            "    "
        } else {
            "  ║ "
        },
    );
    let ghost head = lines.deep_view();
    let kids = node.children.len();
    let mut k: usize = 0;
    while k < kids
        invariant
            0 <= k <= kids == node.children.len(),
            node@.children.len() == node.children.len(),
            forall|i: int|
                0 <= i < node.children.len() ==> #[trigger] node@.children[i]
                    == node.children[i]@,
            below@ == child_padding(padding@, is_last),
            lines.deep_view() + children_lines(node@.children, below@, k as int) == head
                + children_lines(node@.children, below@, 0),
        decreases kids - k,
    {
        let ghost so_far = lines.deep_view();
        push_node_lines(&node.children[k], below.as_str(), k == kids - 1, lines);
        proof {
            assert(node@.children[k as int] == node.children[k as int]@);
            assert(so_far + children_lines(node@.children, below@, k as int) =~= lines.deep_view()
                + children_lines(node@.children, below@, k + 1));
        }
        k = k + 1;
    }
    proof {
        assert(lines.deep_view() =~= head + children_lines(node@.children, below@, 0));
        assert(head =~= before + seq![
            spec_entity_line(
                padding@,
                is_last,
                spec_entity_label(entity_debug_text(node@.id), node@.name),
            ),
        ] + component_lines(node@, padding@, is_last, 0));
        assert(lines.deep_view() =~= before + node_lines(node@, padding@, is_last));
    }
}

/// The log of the tree below `root`, line by line.
pub fn log_hierarchy(root: &EntityNode) -> (lines: Vec<String>)
    ensures
        lines.deep_view() == hierarchy_lines(root@),
{
    let mut lines: Vec<String> = Vec::new();
    let padding = String::new();
    push_node_lines(root, padding.as_str(), true, &mut lines);
    assert(lines.deep_view() =~= hierarchy_lines(root@));
    lines
}

} // verus!
