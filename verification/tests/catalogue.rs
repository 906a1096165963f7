use ykcode::catalogue::{categories, component_catalogue, filter_catalogue};
use ykcode::palette::{
    all_palette_entries, default_node_content, filter_palette, kind_from_label, kind_from_payload,
    node_with_defaults,
};
use ykcode::canvas_view::{kind_class, node_view, NodeView};
use ykcode::document::{Document, Node};
use ykcode::palette::{drop_node, payload_label};
use ykcode::shared::ComponentKind;
use ykcode::style::NodeKind;

#[test]
fn palette_has_eight_cards_with_button_featured() {
    let e = all_palette_entries();
    assert_eq!(e.len(), 8);
    let labels: Vec<&str> = e.iter().map(|x| x.label).collect();
    assert_eq!(
        labels,
        vec!["Section", "Stack", "Text", "Button", "Image", "Container", "Divider", "Spacer"]
    );
    assert!(e[3].featured);
    assert_eq!(e.iter().filter(|x| x.featured).count(), 1);
    assert_eq!(e[1].icon, "≡");
    assert_eq!(e[7].hint, "Flexible gap");
}

#[test]
fn palette_search_is_case_insensitive_substring() {
    let e = all_palette_entries();
    assert_eq!(filter_palette(&e, "").len(), 8);
    let found: Vec<&str> = filter_palette(&e, "TA").iter().map(|x| x.label).collect();
    assert_eq!(found, vec!["Stack", "Container"]);
    let found: Vec<&str> = filter_palette(&e, "er").iter().map(|x| x.label).collect();
    assert_eq!(found, vec!["Container", "Divider", "Spacer"]);
    assert!(filter_palette(&e, "zzz").is_empty());
    assert_eq!(filter_palette(&e, "BUTTON")[0].label, "Button");
}

#[test]
fn kinds_from_labels_and_payloads() {
    for e in all_palette_entries() {
        assert_eq!(kind_from_label(e.label).label(), e.label);
    }
    assert_eq!(kind_from_payload("Spacer"), NodeKind::Spacer);
    assert_eq!(kind_from_payload("spacer"), NodeKind::Container);
    assert_eq!(kind_from_payload(""), NodeKind::Container);
}

#[test]
fn default_contents() {
    assert_eq!(default_node_content(&NodeKind::Text).as_deref(), Some("Add your text"));
    assert_eq!(default_node_content(&NodeKind::Image).as_deref(), Some("🖼 Add image"));
    assert_eq!(default_node_content(&NodeKind::Divider), None);
    let n = node_with_defaults(NodeKind::Button);
    assert_eq!(n.content.as_deref(), Some("Button"));
    assert_eq!(n.name, "Button");
}

#[test]
fn catalogue_lists_fifteen_components() {
    let c = component_catalogue();
    assert_eq!(c.len(), 15);
    assert_eq!(c[0].label, "Button");
    assert!(matches!(c[14].kind, ComponentKind::Navbar));
    assert_eq!(c[7].description, "CSS grid layout");
    assert_eq!(categories(), vec!["All", "Basics", "Layout", "Forms", "Data", "Navigation"]);
}

#[test]
fn catalogue_filters_by_category_and_query() {
    let c = component_catalogue();
    assert_eq!(filter_catalogue(&c, "", "All").len(), 15);
    let forms: Vec<&str> = filter_catalogue(&c, "", "Forms").iter().map(|x| x.label).collect();
    assert_eq!(forms, vec!["Input", "Textarea", "Select", "Toggle"]);
    let flex: Vec<&str> = filter_catalogue(&c, "FLEX", "All").iter().map(|x| x.label).collect();
    assert_eq!(flex, vec!["Row", "Column"]);
    let text_forms: Vec<&str> = filter_catalogue(&c, "text", "Forms").iter().map(|x| x.label).collect();
    assert_eq!(text_forms, vec!["Input", "Textarea"]);
    assert!(filter_catalogue(&c, "", "Nothing").is_empty());
}

#[test]
fn drop_payloads_and_dropping() {
    assert_eq!(payload_label(Some("Text".into()), Some("Button".into())), Some("Text".into()));
    assert_eq!(payload_label(Some("".into()), Some("Button".into())), Some("Button".into()));
    assert_eq!(payload_label(None, Some("".into())), None);
    assert_eq!(payload_label(None, None), None);
    let mut doc = Document::default();
    let root = doc.active_page().unwrap().root_node;
    let a = drop_node(&mut doc, node_with_defaults(kind_from_payload("Text")));
    let b = drop_node(&mut doc, node_with_defaults(kind_from_payload("Spacer")));
    assert_eq!(doc.node(&root).unwrap().children, vec![a, b]);
    assert_eq!(doc.node(&a).unwrap().content.as_deref(), Some("Add your text"));
    let mut pageless = Document::default();
    pageless.active_page_id = None;
    let before = pageless.nodes.len();
    drop_node(&mut pageless, node_with_defaults(NodeKind::Image));
    assert_eq!(pageless.nodes.len(), before);
}

#[test]
fn drawn_node_shapes() {
    assert_eq!(kind_class(NodeKind::Container), "yk-node yk-node--container");
    assert_eq!(kind_class(NodeKind::Button), "yk-node yk-node--button");
    let t = Node::new(NodeKind::Text);
    assert!(matches!(node_view(&t), NodeView::Editable));
    let img = Node::new(NodeKind::Image);
    assert!(matches!(node_view(&img), NodeView::Content(ref s) if s == "🖼 Add image"));
    let mut sec = Node::new(NodeKind::Section);
    assert!(matches!(node_view(&sec), NodeView::Container { empty: true }));
    sec.content = Some("Hi".into());
    assert!(matches!(node_view(&sec), NodeView::Content(ref s) if s == "Hi"));
    sec.children.push(t.id);
    assert!(matches!(node_view(&sec), NodeView::Container { empty: false }));
    let mut btn = Node::new(NodeKind::Button);
    btn.children.push(img.id);
    assert!(matches!(node_view(&btn), NodeView::Container { empty: false }));
}

#[test]
fn set_content_changes_one_node() {
    let mut doc = Document::default();
    let a = doc.insert_node(Node::new(NodeKind::Text));
    doc.set_content(a, "Hello".into());
    assert_eq!(doc.node(&a).unwrap().content.as_deref(), Some("Hello"));
    let n = doc.nodes.len();
    doc.set_content(ykcode::ids::NodeId(7), "x".into());
    assert_eq!(doc.nodes.len(), n);
}
