use ykcode::document::{Document, MoveError, Node, SiblingDirection};
use ykcode::style::NodeKind;

#[test]
fn new_document_has_home_page() {
    let doc = Document::new("MySite");
    assert_eq!(doc.name, "MySite");
    assert_eq!(doc.pages.len(), 1);
    assert_eq!(doc.pages[0].name, "Home");
    assert_eq!(doc.pages[0].slug, "/");
}

#[test]
fn active_page_returns_home() {
    let doc = Document::default();
    let page = doc.active_page().expect("must have active page");
    assert_eq!(page.name, "Home");
}

#[test]
fn insert_node_adds_to_root_children() {
    let mut doc = Document::default();
    let node = Node::new(NodeKind::Button);
    let id = doc.insert_node(node);

    let root_id = doc.active_page().unwrap().root_node;
    assert!(doc.node(&root_id).unwrap().children.contains(&id));
    assert!(doc.node(&id).is_some());
}

#[test]
fn remove_node_detaches_and_deletes() {
    let mut doc = Document::default();
    let node = Node::new(NodeKind::Text);
    let id = doc.insert_node(node);

    let root_id = doc.active_page().unwrap().root_node;
    assert!(doc.node(&root_id).unwrap().children.contains(&id));

    doc.remove_node(id);
    assert!(doc.node(&id).is_none());
    assert!(!doc.node(&root_id).unwrap().children.contains(&id));
}

#[test]
fn insert_multiple_nodes_ordered() {
    let mut doc = Document::default();
    let id_a = doc.insert_node(Node::new(NodeKind::Section));
    let id_b = doc.insert_node(Node::new(NodeKind::Stack));
    let id_c = doc.insert_node(Node::new(NodeKind::Button));

    let root_id = doc.active_page().unwrap().root_node;
    let children = &doc.node(&root_id).unwrap().children;
    assert_eq!(children, &[id_a, id_b, id_c]);
}

#[test]
fn node_defaults_are_visible_and_unlocked() {
    let node = Node::new(NodeKind::Image);
    assert!(node.visible);
    assert!(!node.locked);
    assert!(node.content.is_none());
}

#[test]
fn parent_of_returns_root_parent() {
    let mut doc = Document::default();
    let child_id = doc.insert_node(Node::new(NodeKind::Text));
    let root_id = doc.active_page().unwrap().root_node;
    assert_eq!(doc.parent_of(child_id), Some(root_id));
}

#[test]
fn parent_of_returns_none_for_root() {
    let doc = Document::default();
    let root_id = doc.active_page().unwrap().root_node;
    assert_eq!(doc.parent_of(root_id), None);
}

#[test]
fn move_sibling_swaps_up_and_down() {
    let mut doc = Document::default();
    let id_a = doc.insert_node(Node::new(NodeKind::Text));
    let id_b = doc.insert_node(Node::new(NodeKind::Button));
    let id_c = doc.insert_node(Node::new(NodeKind::Stack));
    let root_id = doc.active_page().unwrap().root_node;

    assert_eq!(doc.node(&root_id).unwrap().children, &[id_a, id_b, id_c]);

    doc.move_sibling(id_b, SiblingDirection::Up).unwrap();
    assert_eq!(doc.node(&root_id).unwrap().children, &[id_b, id_a, id_c]);

    doc.move_sibling(id_b, SiblingDirection::Down).unwrap();
    assert_eq!(doc.node(&root_id).unwrap().children, &[id_a, id_b, id_c]);
}

#[test]
fn move_sibling_at_edge_returns_error() {
    let mut doc = Document::default();
    let id_a = doc.insert_node(Node::new(NodeKind::Text));
    let id_b = doc.insert_node(Node::new(NodeKind::Button));

    assert_eq!(
        doc.move_sibling(id_a, SiblingDirection::Up),
        Err(MoveError::AlreadyAtEdge)
    );
    assert_eq!(
        doc.move_sibling(id_b, SiblingDirection::Down),
        Err(MoveError::AlreadyAtEdge)
    );
}

#[test]
fn move_sibling_no_parent_for_root() {
    let mut doc = Document::default();
    let root_id = doc.active_page().unwrap().root_node;
    assert_eq!(
        doc.move_sibling(root_id, SiblingDirection::Up),
        Err(MoveError::NoParent)
    );
}

#[test]
fn insert_at_beginning() {
    let mut doc = Document::default();
    let root = doc.active_page().unwrap().root_node;
    let a_id = doc.insert_node(Node::new(NodeKind::Text));
    let b = Node::new(NodeKind::Button);
    let b_id = b.id;
    doc.insert_at(b, root, 0);
    assert_eq!(doc.node(&root).unwrap().children[0], b_id);
    assert_eq!(doc.node(&root).unwrap().children[1], a_id);
}

#[test]
fn insert_at_clamps_out_of_bounds() {
    let mut doc = Document::default();
    let root = doc.active_page().unwrap().root_node;
    let n = Node::new(NodeKind::Stack);
    let id = n.id;
    doc.insert_at(n, root, 999);
    assert_eq!(doc.node(&root).unwrap().children, &[id]);
}
