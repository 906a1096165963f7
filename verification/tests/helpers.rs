use std::collections::HashMap;

use ykcode::css::{background_label, layout_to_css};
use ykcode::document::Node;
use ykcode::editor_state::{short_id, ComponentKind, EditorState};
use ykcode::export::{export_node, node_class};
use ykcode::style::{Color, NodeKind};
use ykcode::project_editor::ProjectEditor;
use ykcode::shared::{Bounds, CanvasComponent, ComponentKind as Kind};
use ykcode::text::{accept_name, commit_name, escape_html, trim_text, white_space};

/// Reads back the five entities that the escaper writes.
fn unescape(s: &str) -> String {
    s.replace("&lt;", "<")
        .replace("&gt;", ">")
        .replace("&quot;", "\"")
        .replace("&#39;", "'")
        .replace("&amp;", "&")
}

#[test]
fn background_label_prints_rgb_or_none() {
    let c = Color { r: 1, g: 2, b: 3, a: 255 };
    assert_eq!(background_label(Some(c)), "rgb(1 2 3)");
    assert_eq!(background_label(Some(Color { r: 255, g: 0, b: 10, a: 0 })), "rgb(255 0 10)");
    assert_eq!(background_label(None), "None");
}

#[test]
fn short_id_is_first_group_of_uuid_text() {
    let id: u128 = 0x67e5_5044_10b1_426f_9247_bb68_0e5f_e0c8;
    assert_eq!(short_id(id), "67e55044");
    assert_eq!(short_id(0), "00000000");
    let v4 = uuid::Uuid::new_v4();
    let text = v4.hyphenated().to_string();
    assert_eq!(short_id(v4.as_u128()), text[..8].to_string());
}

#[test]
fn rename_commits_trimmed_names_only() {
    assert_eq!(commit_name("  Site  "), Some("Site".to_string()));
    assert_eq!(commit_name("Home"), Some("Home".to_string()));
    assert_eq!(commit_name("   "), None);
    assert_eq!(commit_name(""), None);
    assert_eq!(commit_name("\tA b\n"), Some("A b".to_string()));
    assert_eq!(accept_name("x".to_string()), Some("x".to_string()));
    assert_eq!(accept_name(String::new()), None);
}

#[test]
fn escaped_text_reads_back() {
    for s in ["", "plain", "<a href=\"x\">T&amp;'s</a>", "&&<<>>\"\"''", "héllo <wörld>"] {
        let e = escape_html(s);
        assert!(!e.contains('<') && !e.contains('>') && !e.contains('"'));
        assert_eq!(unescape(&e), s);
    }
}

#[test]
fn editor_undo_at_end_of_history_is_accepted() {
    let mut st = EditorState::new();
    st.drop_component(ComponentKind::Button, 10, 20);
    assert_eq!(st.history.len(), 2);
    st.history_index = 2;
    st.undo();
    assert_eq!(st.history_index, 1);
    assert_eq!(st.elements.len(), 1);
}

#[test]
fn editor_redo_and_push_beyond_history_do_not_panic() {
    let mut st = EditorState::new();
    st.history_index = 5;
    assert!(!st.can_redo());
    st.redo();
    assert_eq!(st.history_index, 5);
    st.push_to_history();
    assert_eq!(st.history.len(), 2);
    assert_eq!(st.history_index, 1);
    assert!(st.can_undo());
    assert!(!st.can_redo());
}

#[test]
fn container_exports_its_children_in_order() {
    let mut nodes: HashMap<u128, Node> = HashMap::new();
    let mut t = Node::new(NodeKind::Text);
    t.content = Some("Hi <b>".to_string());
    let b = Node::new(NodeKind::Button);
    let mut hidden = Node::new(NodeKind::Text);
    hidden.visible = false;
    let mut c = Node::new(NodeKind::Container);
    let missing = Node::new(NodeKind::Text).id;
    c.children = vec![t.id, missing, hidden.id, b.id];
    nodes.insert(t.id.0, t.clone());
    nodes.insert(b.id.0, b.clone());
    nodes.insert(hidden.id.0, hidden.clone());
    nodes.insert(c.id.0, c.clone());
    let (th, tc) = export_node(&t, &nodes);
    let (bh, bc) = export_node(&b, &nodes);
    assert_eq!(export_node(&hidden, &nodes), (String::new(), String::new()));
    let cls = node_class(c.id);
    let (h, css) = export_node(&c, &nodes);
    assert_eq!(h, format!("<div class=\"{}\">{}{}</div>", cls, th, bh));
    assert_eq!(css, format!(".{}{{{}}}{}{}", cls, layout_to_css(&c), tc, bc));
    assert!(th.contains("Hi &lt;b&gt;"));
}

#[test]
fn white_space_is_the_unicode_set() {
    let mut count = 0;
    for u in 0u32..0x11_0000 {
        if let Some(c) = char::from_u32(u) {
            assert_eq!(white_space(c), c.is_whitespace(), "U+{:04X}", u);
            if white_space(c) {
                count += 1;
            }
        }
    }
    assert_eq!(count, 25);
}

#[test]
fn trim_text_matches_str_trim() {
    for s in [
        "",
        "   ",
        "  Site  ",
        "\u{3000}\u{a0}Name\u{2029}\u{85}",
        "\u{200b}kept\u{feff}",
        "a b\tc",
        "\t\n\r x \u{1680}",
    ] {
        assert_eq!(trim_text(s), s.trim());
    }
    assert_eq!(commit_name("\u{3000}Home\u{2003}"), Some("Home".to_string()));
    assert_eq!(commit_name("\u{2028}\u{205f}"), None);
}

#[test]
fn project_editor_keeps_project_header() {
    let mut ed = ProjectEditor::new();
    ed.project.description = "About".to_string();
    let before_id = ed.project.id;
    let c = CanvasComponent::new(Kind::Text, "Label", Bounds::new(0, 0, 0x42c8_0000, 0x41a0_0000));
    ed.insert_component(Vec::new(), c);
    assert_eq!(ed.components().len(), 2);
    assert_eq!(ed.project.description, "About");
    ed.undo();
    assert_eq!(ed.components().len(), 0);
    assert_eq!(ed.project.description, "About");
    assert_eq!(ed.project.name, "My First Project");
    assert!(ed.project.id == before_id);
}
