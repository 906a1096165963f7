use ykcode::document::{Document, MoveError, Node, SiblingDirection};
use ykcode::editor_state::{ComponentKind, EditorState};
use ykcode::export::export_document;
use ykcode::layers::flatten_tree;
use ykcode::walk::walk_ends;
use ykcode::history::{History, MAX_HISTORY};
use ykcode::ids::NodeId;
use ykcode::palette::kind_from_label;
use ykcode::project_editor::ProjectEditor;
use ykcode::shared::{Bounds, CanvasComponent, ComponentKind as Kind};
use ykcode::store::MemoryStore;
use ykcode::style::NodeKind;
use ykcode::text::{escape_html, slugify};

/// Whether no stored node is its own descendant: every walk from every node
/// ends.
fn is_acyclic(nodes: &std::collections::HashMap<u128, Node>) -> bool {
    let all: Vec<NodeId> = nodes.keys().map(|k| NodeId(*k)).collect();
    walk_ends(nodes, true, &all)
}

#[test]
fn redo_then_undo_restores() {
    let mut h: History<char> = History::new();
    let mut cur = 'a';
    h.push_history('a');
    cur = 'b';
    h.push_history('b');
    cur = 'c';
    h.undo(&mut cur);
    h.undo(&mut cur);
    assert_eq!(cur, 'a');
    let (u, r) = (h.undo_stack.clone(), h.redo_stack.clone());
    h.redo(&mut cur);
    h.undo(&mut cur);
    assert_eq!(cur, 'a');
    assert_eq!((h.undo_stack.clone(), h.redo_stack.clone()), (u, r));
}

#[test]
fn history_total_stays_bounded() {
    let mut h: History<usize> = History::new();
    let mut cur = 0usize;
    for i in 0..80 {
        h.push_history(i);
        if i % 3 == 0 {
            h.undo(&mut cur);
        }
        if i % 7 == 0 {
            h.redo(&mut cur);
        }
        assert!(h.undo_stack.len() + h.redo_stack.len() <= MAX_HISTORY);
    }
}

#[test]
fn editor_redo_then_undo_restores() {
    let mut s = EditorState::new();
    s.drop_component(ComponentKind::Button, 0, 0);
    s.drop_component(ComponentKind::Image, 0, 0);
    s.undo();
    let before: Vec<u128> = s.elements.iter().map(|e| e.id).collect();
    let idx = s.history_index;
    s.redo();
    s.undo();
    assert_eq!(s.elements.iter().map(|e| e.id).collect::<Vec<_>>(), before);
    assert_eq!(s.history_index, idx);
}

#[test]
fn editor_undo_reverts_delete() {
    let mut s = EditorState::new();
    s.drop_component(ComponentKind::Card, 0, 0);
    let ids: Vec<u128> = s.elements.iter().map(|e| e.id).collect();
    s.select(ids[0], false);
    s.delete_selected();
    assert!(s.elements.is_empty());
    s.undo();
    assert_eq!(s.elements.iter().map(|e| e.id).collect::<Vec<_>>(), ids);
}

#[test]
fn move_down_then_up_restores_order() {
    let mut doc = Document::default();
    let root = doc.active_page().unwrap().root_node;
    let a = doc.insert_node(Node::new(NodeKind::Text));
    let b = doc.insert_node(Node::new(NodeKind::Text));
    let c = doc.insert_node(Node::new(NodeKind::Text));
    assert_eq!(doc.move_sibling(a, SiblingDirection::Down), Ok(()));
    assert_eq!(doc.node(&root).unwrap().children, vec![b, a, c]);
    assert_eq!(doc.move_sibling(a, SiblingDirection::Up), Ok(()));
    assert_eq!(doc.node(&root).unwrap().children, vec![a, b, c]);
    assert_eq!(doc.move_sibling(c, SiblingDirection::Down), Err(MoveError::AlreadyAtEdge));
    assert_eq!(doc.node(&root).unwrap().children, vec![a, b, c]);
}

#[test]
fn inserted_node_has_its_parent() {
    let mut doc = Document::default();
    let a = doc.insert_node(Node::new(NodeKind::Container));
    let b = doc.insert_node_into(Node::new(NodeKind::Button), a);
    assert_eq!(doc.parent_of(b), Some(a));
    assert_eq!(doc.node(&a).unwrap().children.last(), Some(&b));
}

#[test]
fn acyclic_documents_and_cycles() {
    let mut doc = Document::default();
    assert!(is_acyclic(&doc.nodes));
    let a = doc.insert_node(Node::new(NodeKind::Container));
    let b = doc.insert_node_into(Node::new(NodeKind::Container), a);
    doc.insert_node_into(Node::new(NodeKind::Text), b);
    assert!(is_acyclic(&doc.nodes));
    // a child listed that is not stored does not matter
    doc.node(&b).unwrap();
    let mut dangling = Node::new(NodeKind::Stack);
    dangling.children.push(NodeId(12345));
    doc.insert_node(dangling);
    assert!(is_acyclic(&doc.nodes));
    // b lists a, which lists b
    let mut cyc = doc.clone();
    cyc.nodes.get_mut(&b.0).unwrap().children.push(a);
    assert!(!is_acyclic(&cyc.nodes));
    // a node that lists itself
    let mut selfish = Node::new(NodeKind::Section);
    let id = selfish.id;
    selfish.children.push(id);
    let mut one = Document::default();
    one.insert_node(selfish);
    assert!(!is_acyclic(&one.nodes));
}

#[test]
fn save_twice_is_save_once() {
    let mut s = MemoryStore::new();
    s.save("k".into(), "v".into()).unwrap();
    s.save("k".into(), "v".into()).unwrap();
    assert_eq!(s.list().unwrap(), vec!["k".to_string()]);
    assert_eq!(s.load("k").unwrap(), "v");
}

#[test]
fn escaped_text_has_no_markup() {
    let e = escape_html("<script>alert(\"x\")</script> & more");
    assert!(!e.contains('<') && !e.contains('>') && !e.contains('"'));
    assert_eq!(escape_html("plain text 123"), "plain text 123");
}

#[test]
fn slugs_are_file_names() {
    for t in ["", "-", "Hello, World!", "  x  ", "ÄÖÜ", "a-b", "--ok--"] {
        let s = slugify(t);
        assert!(!s.is_empty());
        assert!(s.chars().all(|c| c.is_ascii_alphanumeric() || c == '-'));
        assert!(!s.starts_with('-') && !s.ends_with('-'));
    }
}

#[test]
fn labels_name_their_kinds() {
    for k in [
        NodeKind::Section,
        NodeKind::Stack,
        NodeKind::Text,
        NodeKind::Button,
        NodeKind::Image,
        NodeKind::Divider,
        NodeKind::Spacer,
        NodeKind::Container,
    ] {
        assert_eq!(kind_from_label(k.label()), k);
    }
}

#[test]
fn documents_built_by_the_api_stay_acyclic() {
    let mut doc = Document::new("Site");
    assert!(is_acyclic(&doc.nodes));
    let a = doc.insert_node(Node::new(NodeKind::Container));
    let b = doc.insert_at(Node::new(NodeKind::Text), a, 0);
    let c = doc.insert_at(Node::new(NodeKind::Text), a, 0);
    assert!(is_acyclic(&doc.nodes));
    assert_eq!(doc.move_sibling(b, SiblingDirection::Up), Ok(()));
    assert!(is_acyclic(&doc.nodes));
    doc.remove_node(c);
    assert!(is_acyclic(&doc.nodes));
    assert_eq!(doc.node(&a).unwrap().children, vec![b]);
}

#[test]
fn toggling_twice_restores_selection() {
    let mut s = EditorState::new();
    s.select(1, false);
    s.select(2, true);
    let before = s.selected_ids.clone();
    s.select(3, true);
    s.select(3, true);
    assert_eq!(s.selected_ids, before);
}

#[test]
fn project_editor_undo_reverts_insert() {
    let mut e = ProjectEditor::new();
    assert_eq!(e.project.name, "My First Project");
    assert_eq!(e.components().len(), 1);
    let before: Vec<_> = e.components().iter().map(|c| c.id).collect();
    let snapshot = vec![CanvasComponent::new(Kind::Button, "Primary Button", Bounds::new(0, 0, 0, 0))];
    let snapshot_id = snapshot[0].id;
    e.insert_component(snapshot, CanvasComponent::new(Kind::Text, "Text", Bounds::new(1, 1, 1, 1)));
    assert_eq!(e.components().len(), 2);
    assert_eq!(e.components()[0].id, before[0]);
    assert_eq!(e.history.len(), 1);
    e.undo();
    assert_eq!(e.components().len(), 1);
    assert_eq!(e.components()[0].id, snapshot_id);
    e.undo();
    assert_eq!(e.components().len(), 1);
    e.active_artboard = 5;
    assert!(e.components().is_empty());
}

#[test]
fn unreachable_cycles_do_not_stop_export_or_layers() {
    let mut doc = Document::default();
    let root = doc.active_page().unwrap().root_node;
    let mut a = Node::new(NodeKind::Container);
    let mut b = Node::new(NodeKind::Container);
    a.children.push(b.id);
    b.children.push(a.id);
    let (ida, idb) = (a.id, b.id);
    doc.nodes.insert(ida.0, a);
    doc.nodes.insert(idb.0, b);
    assert!(!is_acyclic(&doc.nodes));
    let roots = vec![root];
    assert!(walk_ends(&doc.nodes, true, &roots));
    assert!(walk_ends(&doc.nodes, false, &doc.node(&root).unwrap().children));
    assert!(!walk_ends(&doc.nodes, true, &vec![ida]));
    assert_eq!(flatten_tree(&doc).len(), 1);
    let out = export_document(&doc);
    assert!(out.html.contains("<body>"));
    // a hidden box is not followed by the exporter, though the layer list follows it
    let mut hidden = Node::new(NodeKind::Section);
    hidden.visible = false;
    hidden.children.push(ida);
    let h = doc.insert_node(hidden);
    assert!(walk_ends(&doc.nodes, false, &doc.node(&root).unwrap().children));
    assert!(!walk_ends(&doc.nodes, true, &roots));
    let _ = h;
}
