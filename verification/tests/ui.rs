use zhazba::render::{
    constraint_from_variant, parse_constraint, Box, Constraint, ConstraintError, Direction,
    UiNode, UiNodeInner, UiTree,
};
use zhazba::rope::rope_from_str;

fn paragraph_text(tree: &UiTree, node: UiNode) -> String {
    match &tree.nodes[node.0] {
        UiNodeInner::Paragraph { text } => text.clone(),
        other => panic!("not a paragraph: {:?}", other),
    }
}

fn children(tree: &UiTree, node: UiNode) -> Vec<(UiNode, Constraint)> {
    match &tree.nodes[node.0] {
        UiNodeInner::Block { children, .. } | UiNodeInner::Tabs { children } => children.clone(),
        _ => Vec::new(),
    }
}

#[test]
fn a() {
    let mut tree = UiTree::initial();
    let window = tree.new_node(UiNodeInner::Block {
        direction: Direction::Horizontal,
        children: Vec::new(),
    });
    let node = tree.new_node(UiNodeInner::Paragraph { text: "mode".to_string() });
    tree.append_child(window, node, Constraint::Min(1));
    assert_eq!(paragraph_text(&tree, node), "mode");

    tree.text(node, "text".to_string());
    assert_eq!(paragraph_text(&tree, node), "text");
    let kids = children(&tree, window);
    assert_eq!(kids, vec![(node, Constraint::Min(1))]);
    assert_eq!(paragraph_text(&tree, kids[0].0), "text");

    tree.text(node, "other".to_string());
    assert_eq!(paragraph_text(&tree, children(&tree, window)[0].0), "other");
}

#[test]
fn initial_tree_is_vertical_block_with_full_horizontal_child() {
    let tree = UiTree::initial();
    assert_eq!(tree.root, UiNode(0));
    assert_eq!(tree.nodes.len(), 2);
    match &tree.nodes[0] {
        UiNodeInner::Block { direction, children } => {
            assert_eq!(*direction, Direction::Vertical);
            assert_eq!(children, &vec![(UiNode(1), Constraint::Percentage(100))]);
        }
        other => panic!("unexpected root {:?}", other),
    }
    match &tree.nodes[1] {
        UiNodeInner::Block { direction, children } => {
            assert_eq!(*direction, Direction::Horizontal);
            assert!(children.is_empty());
        }
        other => panic!("unexpected child {:?}", other),
    }
}

#[test]
fn paragraph_is_appended_to_its_parent() {
    let mut tree = UiTree::initial();
    let p = tree.paragraph(UiNode(1), "hello".to_string(), Constraint::Length(3));
    assert_eq!(p, UiNode(2));
    assert_eq!(paragraph_text(&tree, p), "hello");
    assert_eq!(children(&tree, UiNode(1)), vec![(p, Constraint::Length(3))]);
    // the root keeps its single child
    assert_eq!(children(&tree, UiNode(0)).len(), 1);
}

#[test]
fn appending_to_a_paragraph_changes_nothing() {
    let mut tree = UiTree::initial();
    let p = tree.paragraph(UiNode(1), "x".to_string(), Constraint::Fill(1));
    tree.append_child(p, UiNode(0), Constraint::Min(2));
    assert_eq!(paragraph_text(&tree, p), "x");
    assert!(children(&tree, p).is_empty());
}

#[test]
fn text_of_a_block_changes_nothing() {
    let mut tree = UiTree::initial();
    tree.text(UiNode(0), "ignored".to_string());
    assert_eq!(children(&tree, UiNode(0)), vec![(UiNode(1), Constraint::Percentage(100))]);
}

#[test]
fn tabs_take_children() {
    let mut tree = UiTree::initial();
    let tabs = tree.new_node(UiNodeInner::Tabs { children: Vec::new() });
    tree.append_child(tabs, UiNode(1), Constraint::Ratio(1, 2));
    assert_eq!(children(&tree, tabs), vec![(UiNode(1), Constraint::Ratio(1, 2))]);
}

#[test]
fn constraints_parse_by_lowercased_variant() {
    assert_eq!(parse_constraint("Fill", 3), Ok(Constraint::Fill(3)));
    assert_eq!(parse_constraint("LENGHT", 4), Ok(Constraint::Length(4)));
    assert_eq!(parse_constraint("max", 5), Ok(Constraint::Max(5)));
    assert_eq!(parse_constraint("Min", 6), Ok(Constraint::Min(6)));
    assert_eq!(parse_constraint("Percentage", 50), Ok(Constraint::Percentage(50)));
}

#[test]
fn the_correct_spelling_of_length_is_refused() {
    assert_eq!(parse_constraint("length", 4), Err(ConstraintError::UnexpectedVariant));
    assert_eq!(parse_constraint("", 4), Err(ConstraintError::UnexpectedVariant));
    assert_eq!(constraint_from_variant("Fill", 1), Err(ConstraintError::UnexpectedVariant));
    assert_eq!(constraint_from_variant("fill", 1), Ok(Constraint::Fill(1)));
}

#[test]
fn box_lays_characters_out_row_by_row() {
    let b = Box::new((2, 3), (2, 5), 0, rope_from_str("abcde"));
    assert_eq!(
        b.cells(),
        vec![(2, 3, 'a'), (3, 3, 'b'), (2, 4, 'c'), (3, 4, 'd'), (2, 5, 'e')]
    );
}

#[test]
fn box_leaves_out_cells_below_its_far_corner() {
    let b = Box::new((0, 0), (1, 1), 0, rope_from_str("abcd"));
    // rows 0 and 1 lie within the box (the far corner is inclusive), rows 2 and 3 do not
    assert_eq!(b.cells(), vec![(0, 0, 'a'), (0, 1, 'b')]);
}

#[test]
fn node_methods_edit_only_matching_kinds() {
    let mut block = UiNodeInner::Block { direction: Direction::Vertical, children: Vec::new() };
    block.append_child(UiNode(3), Constraint::Max(9));
    block.text("ignored".to_string());
    match &block {
        UiNodeInner::Block { direction, children } => {
            assert_eq!(*direction, Direction::Vertical);
            assert_eq!(children, &vec![(UiNode(3), Constraint::Max(9))]);
        }
        other => panic!("{:?}", other),
    }
    let mut para = UiNodeInner::Paragraph { text: "a".to_string() };
    para.append_child(UiNode(0), Constraint::Min(0));
    para.text("b".to_string());
    match &para {
        UiNodeInner::Paragraph { text } => assert_eq!(text, "b"),
        other => panic!("{:?}", other),
    }
    let mut buffer = UiNodeInner::Buffer(2);
    buffer.text("c".to_string());
    assert!(matches!(buffer, UiNodeInner::Buffer(2)));
}

#[test]
fn paragraph_under_a_paragraph_leaves_the_parent_as_it_was() {
    let mut tree = UiTree::initial();
    let p = tree.paragraph(UiNode(1), "keep".to_string(), Constraint::Min(1));
    let q = tree.paragraph(p, "new".to_string(), Constraint::Min(1));
    assert_eq!(paragraph_text(&tree, p), "keep");
    assert_eq!(paragraph_text(&tree, q), "new");
    assert!(children(&tree, p).is_empty());
}

#[test]
fn empty_box_fits_whatever_its_size() {
    let b = Box::new((65535, 65535), (0, 5), 0, rope_from_str(""));
    assert!(b.fits());
    assert!(b.cells().is_empty());
    let c = Box::new((0, 0), (0, 5), 0, rope_from_str("x"));
    assert!(!c.fits());
    let d = Box::new((65000, 0), (1000, 1), 0, rope_from_str("x"));
    assert!(!d.fits());
}
