use bevy::ecs::entity::Entity;
use sickle_ui::entity::EntityId;
use sickle_ui::ui_commands::log_hierarchy::{
    component_line, entity_label, entity_line, log_hierarchy, EntityNode,
};

fn id(index: u32) -> EntityId {
    EntityId::from_bits(Entity::from_raw(index).to_bits()).unwrap()
}

fn text(index: u32) -> String {
    format!("{:?}", Entity::from_raw(index))
}

fn node(index: u32, name: Option<&str>, components: &[&str], children: Vec<EntityNode>) -> EntityNode {
    EntityNode {
        id: id(index),
        name: name.map(String::from),
        components: components.iter().map(|c| String::from(*c)).collect(),
        children,
    }
}

fn leaf(index: u32) -> EntityNode {
    node(index, None, &["bevy_ui::ui_node::Node"], vec![])
}

/// The lines of a tree, with the padding worked out from the depth of each
/// entity and the depths at which a stroke runs on.
fn by_levels(
    node: &EntityNode,
    level: usize,
    is_last: bool,
    trace_levels: &Vec<usize>,
    lines: &mut Vec<String>,
) {
    let prefix = if is_last { "╚" } else { "╠" };
    let mut padding_parts: Vec<&str> = Vec::with_capacity(level);
    for i in 0..level {
        let should_trace = i > 0 && trace_levels.contains(&(i - 1));
        padding_parts.push(if should_trace { "  ║ " } else { "    " });
    }
    let padding = padding_parts.join("");
    let id_text = format!("{:?}", Entity::from_bits(node.id.to_bits()));
    let name = match &node.name {
        Some(name) => format!("[{}] {}", id_text, name),
        None => format!("Entity {}", id_text),
    };
    lines.push(format!("{}  {}══ {} ", padding, prefix, name));
    let has_children = !node.children.is_empty();
    for i in 0..node.components.len() {
        let last = i == node.components.len() - 1;
        let component_pipe = if last { "└" } else { "├" };
        let child_pipe = if is_last {
            if has_children {
                "      ║      "
            } else {
                "             "
            }
        } else if has_children {
            "  ║   ║      "
        } else {
            "  ║          "
        };
        let full = node.components[i].as_str();
        let short = full.split("::").last().unwrap();
        lines.push(format!("{}{}{}── {}", padding, child_pipe, component_pipe, short));
    }
    for i in 0..node.children.len() {
        let last = i == node.children.len() - 1;
        let mut below = trace_levels.clone();
        if !last {
            below.push(level);
        }
        by_levels(&node.children[i], level + 1, last, &below, lines);
    }
}

fn lines_by_levels(root: &EntityNode) -> Vec<String> {
    let mut lines = Vec::new();
    by_levels(root, 0, true, &vec![], &mut lines);
    lines
}

#[test]
fn label_with_a_name() {
    assert_eq!(entity_label("4v1", &Some(String::from("Panel"))), "[4v1] Panel");
}

#[test]
fn label_without_a_name() {
    assert_eq!(entity_label("4v1", &None), "Entity 4v1");
}

#[test]
fn label_with_an_empty_name() {
    assert_eq!(entity_label("", &Some(String::new())), "[] ");
}

#[test]
fn line_of_a_last_child() {
    assert_eq!(entity_line("    ", true, "Entity 4v1"), "      ╚══ Entity 4v1 ");
}

#[test]
fn line_of_a_child_with_later_siblings() {
    assert_eq!(entity_line("  ║ ", false, "[4v1] Panel"), "  ║   ╠══ [4v1] Panel ");
}

#[test]
fn line_at_the_margin() {
    assert_eq!(entity_line("", true, "x"), "  ╚══ x ");
}

#[test]
fn component_lines_in_all_four_shapes() {
    assert_eq!(component_line("", true, true, false, "Node"), "      ║      ├── Node");
    assert_eq!(component_line("", true, false, true, "Node"), "             └── Node");
    assert_eq!(component_line("", false, true, true, "Node"), "  ║   ║      └── Node");
    assert_eq!(component_line("", false, false, false, "Node"), "  ║          ├── Node");
}

#[test]
fn component_line_behind_padding() {
    assert_eq!(
        component_line("      ║ ", false, false, true, "Style"),
        "      ║   ║          └── Style"
    );
}

#[test]
fn single_entity_without_components() {
    let root = node(3, None, &[], vec![]);
    assert_eq!(log_hierarchy(&root), vec![format!("  ╚══ Entity {} ", text(3))]);
}

#[test]
fn single_named_entity_with_components() {
    let root = node(3, Some("Root"), &["bevy_ui::ui_node::Node", "bevy_ui::ui_node::Style"], vec![]);
    assert_eq!(
        log_hierarchy(&root),
        vec![
            format!("  ╚══ [{}] Root ", text(3)),
            String::from("             ├── Node"),
            String::from("             └── Style"),
        ]
    );
}

#[test]
fn small_tree_line_by_line() {
    let root = node(
        0,
        None,
        &["bevy_ui::ui_node::Node"],
        vec![
            node(1, Some("First"), &["a::Node", "a::Style"], vec![node(3, None, &[], vec![])]),
            node(2, None, &[], vec![]),
        ],
    );
    assert_eq!(
        log_hierarchy(&root),
        vec![
            format!("  ╚══ Entity {} ", text(0)),
            String::from("      ║      └── Node"),
            format!("      ╠══ [{}] First ", text(1)),
            String::from("      ║   ║      ├── Node"),
            String::from("      ║   ║      └── Style"),
            format!("      ║   ╚══ Entity {} ", text(3)),
            format!("      ╚══ Entity {} ", text(2)),
        ]
    );
}

#[test]
fn strokes_run_on_past_the_subtree_of_an_earlier_sibling() {
    let root = node(
        254,
        None,
        &["bevy_ui::ui_node::Node"],
        vec![
            node(
                252,
                None,
                &["bevy_ui::ui_node::Node"],
                vec![node(
                    158,
                    None,
                    &["bevy_ui::ui_node::Node"],
                    vec![node(159, None, &["bevy_ui::ui_node::Node"], vec![leaf(286)]), leaf(287)],
                )],
            ),
            leaf(292),
        ],
    );
    assert_eq!(
        log_hierarchy(&root),
        vec![
            format!("  ╚══ Entity {} ", text(254)),
            String::from("      ║      └── Node"),
            format!("      ╠══ Entity {} ", text(252)),
            String::from("      ║   ║      └── Node"),
            format!("      ║   ╚══ Entity {} ", text(158)),
            String::from("      ║       ║      └── Node"),
            format!("      ║       ╠══ Entity {} ", text(159)),
            String::from("      ║       ║   ║      └── Node"),
            format!("      ║       ║   ╚══ Entity {} ", text(286)),
            String::from("      ║       ║              └── Node"),
            format!("      ║       ╚══ Entity {} ", text(287)),
            String::from("      ║                  └── Node"),
            format!("      ╚══ Entity {} ", text(292)),
            String::from("                 └── Node"),
        ]
    );
}

#[test]
fn component_names_are_shortened() {
    let root = node(1, None, &["sickle_ui::theme::Theme<sickle_ui::widgets::Checkbox>"], vec![]);
    assert_eq!(log_hierarchy(&root)[1], "             └── Theme<Checkbox>");
}

#[test]
fn one_line_for_each_entity_and_each_component() {
    let root = node(
        0,
        Some("a"),
        &["x::A", "x::B", "x::C"],
        vec![
            node(1, None, &["x::A"], vec![leaf(2), leaf(3), leaf(4)]),
            node(5, Some("b"), &[], vec![]),
            node(6, None, &["x::A", "x::B"], vec![node(7, None, &[], vec![leaf(8)])]),
        ],
    );
    assert_eq!(log_hierarchy(&root).len(), 9 + 3 + 1 + 3 + 2 + 1);
}

#[test]
fn agrees_with_padding_by_levels() {
    let deep = node(
        10,
        Some("root"),
        &["m::A", "m::B"],
        vec![
            node(
                11,
                None,
                &["m::A"],
                vec![
                    node(12, Some("x"), &[], vec![leaf(13), node(14, None, &[], vec![leaf(15), leaf(16)])]),
                    node(17, None, &["m::A", "m::B", "m::C"], vec![leaf(18)]),
                    leaf(19),
                ],
            ),
            node(20, None, &[], vec![node(21, None, &["m::A"], vec![node(22, None, &[], vec![leaf(23)])])]),
            node(24, Some("last"), &["m::Z"], vec![leaf(25), leaf(26)]),
        ],
    );
    assert_eq!(log_hierarchy(&deep), lines_by_levels(&deep));
}

#[test]
fn agrees_with_padding_by_levels_on_a_chain() {
    let mut chain = leaf(100);
    for index in 0..40u32 {
        chain = node(index, None, &["m::A"], vec![leaf(200 + index), chain, leaf(300 + index)]);
    }
    assert_eq!(log_hierarchy(&chain), lines_by_levels(&chain));
}

#[test]
fn new_node_is_bare() {
    let bare = EntityNode::new(id(9));
    assert_eq!(bare.id.to_bits(), id(9).to_bits());
    assert!(bare.name.is_none());
    assert!(bare.components.is_empty());
    assert!(bare.children.is_empty());
    assert_eq!(log_hierarchy(&bare), vec![format!("  ╚══ Entity {} ", text(9))]);
}
