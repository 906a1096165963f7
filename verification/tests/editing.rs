use ykcode::document::{Document, MoveError, Node, SiblingDirection};
use ykcode::editor_state::{
    all_categories, element_preview_style, ActiveTool, CanvasElement, ComponentKind, DeviceMode,
    EditorState, PanelState,
};
use ykcode::history::{History, MAX_HISTORY};
use ykcode::layers::{can_move_down, can_move_up, flatten_tree};
use ykcode::style::NodeKind;

#[test]
fn history_undo_reverts_and_redo_reapplies() {
    let mut h: History<u32> = History::new();
    let mut doc = 1u32;
    assert!(!h.can_undo() && !h.can_redo());
    h.push_history(doc);
    doc = 2;
    h.undo(&mut doc);
    assert_eq!(doc, 1);
    assert!(h.can_redo() && !h.can_undo());
    h.redo(&mut doc);
    assert_eq!(doc, 2);
    assert_eq!(h.undo_stack, vec![1]);
    assert!(h.redo_stack.is_empty());
}

#[test]
fn history_undo_on_empty_changes_nothing() {
    let mut h: History<u32> = History::new();
    let mut doc = 7u32;
    h.undo(&mut doc);
    h.redo(&mut doc);
    assert_eq!(doc, 7);
    assert!(h.undo_stack.is_empty() && h.redo_stack.is_empty() && !h.paused);
}

#[test]
fn history_push_clears_redo_and_respects_pause() {
    let mut h: History<u32> = History::new();
    let mut doc = 0u32;
    h.push_history(0);
    doc = 1;
    h.undo(&mut doc);
    assert_eq!(h.redo_stack, vec![1]);
    h.push_history(0);
    assert!(h.redo_stack.is_empty());
    h.paused = true;
    h.push_history(42);
    assert_eq!(h.undo_stack, vec![0]);
    let _ = doc;
}

#[test]
fn history_keeps_at_most_fifty_snapshots() {
    let mut h: History<usize> = History::new();
    for i in 0..(MAX_HISTORY + 7) {
        h.push_history(i);
    }
    assert_eq!(h.undo_stack.len(), MAX_HISTORY);
    assert_eq!(h.undo_stack[0], 7);
    assert_eq!(*h.undo_stack.last().unwrap(), MAX_HISTORY + 6);
}

#[test]
fn editor_state_starts_empty() {
    let s = EditorState::new();
    assert!(s.elements.is_empty());
    assert_eq!(s.history.len(), 1);
    assert_eq!(s.history_index, 0);
    assert!(!s.can_undo() && !s.can_redo());
    assert_eq!(s.panel_left, PanelState::Expanded);
    assert_eq!(s.panel_bottom, PanelState::Collapsed);
    assert_eq!(s.active_tool, ActiveTool::Select);
    assert_eq!(s.device_mode, DeviceMode::Desktop);
    assert_eq!(s.theme, "dark");
}

#[test]
fn editor_drop_then_undo_then_redo() {
    let mut s = EditorState::new();
    s.drop_component(ComponentKind::Button, 10.0f64.to_bits(), 20.0f64.to_bits());
    s.drop_component(ComponentKind::Card, 0, 0);
    assert_eq!(s.elements.len(), 2);
    assert_eq!(s.elements[0].z_index, 0);
    assert_eq!(s.elements[1].z_index, 1);
    assert_eq!(s.elements[0].label, "Button");
    assert_eq!(f64::from_bits(s.elements[0].width), 120.0);
    assert_eq!(f64::from_bits(s.elements[1].height), 180.0);
    assert_eq!(s.history_index, 2);
    s.undo();
    assert_eq!(s.elements.len(), 1);
    s.undo();
    assert!(s.elements.is_empty());
    s.undo();
    assert!(s.elements.is_empty());
    assert_eq!(s.history_index, 0);
    s.redo();
    s.redo();
    assert_eq!(s.elements.len(), 2);
    assert!(!s.can_redo());
}

#[test]
fn editor_push_after_undo_drops_redo_branch() {
    let mut s = EditorState::new();
    s.drop_component(ComponentKind::Input, 0, 0);
    s.drop_component(ComponentKind::Modal, 0, 0);
    s.undo();
    s.drop_component(ComponentKind::List, 0, 0);
    assert_eq!(s.history.len(), 3);
    assert!(!s.can_redo());
    assert_eq!(s.elements[1].kind, ComponentKind::List);
}

#[test]
fn editor_select_and_delete() {
    let mut s = EditorState::new();
    s.drop_component(ComponentKind::Button, 0, 0);
    s.drop_component(ComponentKind::Image, 0, 0);
    s.drop_component(ComponentKind::Form, 0, 0);
    let a = s.elements[0].id;
    let c = s.elements[2].id;
    s.select(a, false);
    assert_eq!(s.selected_ids, vec![a]);
    s.select(c, true);
    assert_eq!(s.selected_ids, vec![a, c]);
    s.select(a, true);
    assert_eq!(s.selected_ids, vec![c]);
    s.select(a, true);
    s.delete_selected();
    assert_eq!(s.elements.len(), 1);
    assert_eq!(s.elements[0].kind, ComponentKind::Image);
    assert!(s.selected_ids.is_empty());
    s.undo();
    assert_eq!(s.elements.len(), 3);
    s.select(a, false);
    s.clear_selection();
    assert!(s.selected_ids.is_empty());
}

#[test]
fn editor_toggle_theme() {
    let mut s = EditorState::new();
    s.toggle_theme();
    assert_eq!(s.theme, "light");
    s.toggle_theme();
    assert_eq!(s.theme, "dark");
}

#[test]
fn canvas_element_defaults() {
    let e = CanvasElement::new(ComponentKind::NavigationBar, 1, 2);
    assert_eq!(f64::from_bits(e.width), 375.0);
    assert_eq!(f64::from_bits(e.height), 56.0);
    assert_eq!(e.label, "Nav Bar");
    assert_eq!((e.x, e.y, e.z_index), (1, 2, 0));
    let d = CanvasElement::new(ComponentKind::Divider, 0, 0);
    assert_eq!((f64::from_bits(d.width), f64::from_bits(d.height)), (240.0, 1.0));
}

#[test]
fn component_kind_texts() {
    assert_eq!(ComponentKind::TextBlock.label(), "Text");
    assert_eq!(ComponentKind::Modal.category(), "Forms");
    assert!(ComponentKind::Button.icon_path().starts_with('M'));
    let cats = all_categories();
    assert_eq!(cats.len(), 6);
    assert_eq!(cats[0].0, "Controls");
    assert_eq!(cats[0].1, vec![ComponentKind::Button, ComponentKind::Input]);
    assert_eq!(cats[5].1, vec![ComponentKind::List, ComponentKind::Form, ComponentKind::Modal]);
    assert_eq!(
        element_preview_style(&ComponentKind::Divider),
        "background:var(--color-border-default);height:1px;"
    );
}

#[test]
fn layers_list_nodes_depth_first() {
    let mut doc = Document::default();
    let root = doc.active_page().unwrap().root_node;
    let a = doc.insert_node(Node::new(NodeKind::Section));
    let b = doc.insert_node_into(Node::new(NodeKind::Text), a);
    let c = doc.insert_node(Node::new(NodeKind::Button));
    let items = flatten_tree(&doc);
    let rows: Vec<_> = items.iter().map(|i| (i.id, i.depth)).collect();
    assert_eq!(rows, vec![(root, 0), (a, 1), (b, 2), (c, 1)]);
    assert_eq!(items[2].name, "Text");
    assert_eq!(items[2].icon, "T");
}

#[test]
fn layers_move_buttons_follow_position() {
    let mut doc = Document::default();
    let root = doc.active_page().unwrap().root_node;
    let a = doc.insert_node(Node::new(NodeKind::Section));
    let b = doc.insert_node(Node::new(NodeKind::Stack));
    assert!(!can_move_up(&doc, a) && can_move_down(&doc, a));
    assert!(can_move_up(&doc, b) && !can_move_down(&doc, b));
    assert!(!can_move_up(&doc, root) && !can_move_down(&doc, root));
    assert_eq!(doc.move_sibling(a, SiblingDirection::Up), Err(MoveError::AlreadyAtEdge));
    assert_eq!(doc.move_sibling(b, SiblingDirection::Up), Ok(()));
    assert!(!can_move_up(&doc, b) && can_move_up(&doc, a));
    assert_eq!(doc.move_sibling(b, SiblingDirection::Down), Ok(()));
    assert_eq!(doc.node(&root).unwrap().children, vec![a, b]);
}

#[test]
fn remove_leaves_children_unattached() {
    let mut doc = Document::default();
    let a = doc.insert_node(Node::new(NodeKind::Container));
    let b = doc.insert_node_into(Node::new(NodeKind::Text), a);
    doc.remove_node(a);
    assert!(doc.node(&a).is_none());
    assert!(doc.node(&b).is_some());
    assert_eq!(doc.parent_of(b), None);
    assert_eq!(doc.move_sibling(b, SiblingDirection::Down), Err(MoveError::NoParent));
}

#[test]
fn inspector_setters_change_one_field() {
    let mut doc = Document::default();
    let a = doc.insert_node(Node::new(NodeKind::Stack));
    let b = doc.insert_node(Node::new(NodeKind::Stack));
    doc.set_direction(a, ykcode::style::FlexDirection::Row);
    doc.set_gap(a, 12.0f32.to_bits());
    doc.set_opacity(a, 0.25f32.to_bits());
    let na = doc.node(&a).unwrap();
    assert_eq!(na.layout.direction, ykcode::style::FlexDirection::Row);
    assert_eq!(f32::from_bits(na.layout.gap), 12.0);
    assert_eq!(f32::from_bits(na.appearance.opacity), 0.25);
    let nb = doc.node(&b).unwrap();
    assert_eq!(nb.layout.direction, ykcode::style::FlexDirection::Column);
    assert_eq!(nb.layout.gap, 0);
    doc.set_gap(ykcode::ids::NodeId(3), 1);
    assert_eq!(doc.nodes.len(), 3);
}
