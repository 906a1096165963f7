use ykcode::css::{css_text, layout_decls, layout_to_css, node_inline_style, CssValue, Decl};
use ykcode::document::{Document, Node};
use ykcode::export::{color_css, export_document, export_node, node_class};
use ykcode::ids::NodeId;
use ykcode::style::{Color, Display, NodeKind, Size, Spacing};
use ykcode::text::escape_html;

fn fixed1(bits: u32) -> String {
    format!("{:.1}", f32::from_bits(bits))
}

/// The text of a declaration as the exporter prints it.
fn export_decl(d: &Decl) -> String {
    let v = match &d.value {
        CssValue::Text(s) => s.clone(),
        CssValue::Px(b) => format!("{}px", fixed1(*b)),
        CssValue::Percent(b) => format!("{}%", fixed1(*b)),
        CssValue::Edges(e) => format!(
            "{}px {}px {}px {}px",
            fixed1(e.top),
            fixed1(e.right),
            fixed1(e.bottom),
            fixed1(e.left)
        ),
        CssValue::Number(b) => format!("{:.3}", f32::from_bits(*b)),
        CssValue::Rgba(c) => format!("rgba({},{},{},{:.3})", c.r, c.g, c.b, c.a as f32 / 255.0),
    };
    format!("{}:{}", d.property, v)
}

/// The CSS of a node printed with Rust's float formatting, to hold the
/// library's own printing against.
fn float_printed_css(node: &Node) -> String {
    layout_decls(node).iter().map(export_decl).collect::<Vec<_>>().join(";")
}

fn export_css(node: &Node) -> String {
    let s = layout_to_css(node);
    assert_eq!(s, float_printed_css(node));
    assert_eq!(s, css_text(&layout_decls(node)));
    s
}

fn export(doc: &Document) -> ykcode::export::ExportOutput {
    export_document(doc)
}

#[test]
fn export_produces_html_structure() {
    let mut doc = Document::default();
    let mut btn = Node::new(NodeKind::Button);
    btn.content = Some("Click me".into());
    doc.insert_node(btn);
    let out = export_document(&doc);
    assert!(out.html.contains("<!DOCTYPE html>"));
    assert!(out.html.contains("Click me"));
    assert!(out.css.contains("display:flex"));
}

#[test]
fn export_text_renders_paragraph() {
    let mut doc = Document::default();
    let mut t = Node::new(NodeKind::Text);
    t.content = Some("Hello".into());
    doc.insert_node(t);
    let out = export_document(&doc);
    assert!(out.html.contains("<p class=\"yk-n-"));
    assert!(out.html.contains("Hello"));
}

#[test]
fn export_skips_invisible() {
    let mut doc = Document::default();
    let mut n = Node::new(NodeKind::Text);
    n.visible = false;
    n.content = Some("Secret".into());
    doc.insert_node(n);
    let out = export_document(&doc);
    assert!(!out.html.contains("Secret"));
}

#[test]
fn export_css_starts_with_reset_and_page_embeds_it() {
    let doc = Document::new("A <b> & \"c\"");
    let out = export(&doc);
    assert!(out
        .css
        .starts_with("*,*::before,*::after{box-sizing:border-box}body{margin:0;font-family:Manrope,system-ui,sans-serif}"));
    assert!(out.html.contains(&format!("<style>{}</style>", out.css)));
    assert!(out.html.contains("<title>A &lt;b&gt; &amp; &quot;c&quot;</title>"));
    assert!(out.html.ends_with("\n</body>\n</html>"));
}

#[test]
fn export_root_rule_has_padding_and_white_background() {
    let doc = Document::default();
    let root = doc.active_page().unwrap().root_node;
    let out = export(&doc);
    let rule = format!(
        ".{}{{display:flex;flex-direction:column;align-items:flex-start;justify-content:flex-start;padding:24.0px 24.0px 24.0px 24.0px;width:100%;background:rgba(255,255,255,1.000)}}",
        node_class(root)
    );
    assert!(out.css.contains(&rule));
    assert!(out.html.contains(&format!("<body>\n<div class=\"{}\"></div>\n</body>", node_class(root))));
}

#[test]
fn export_node_renders_children_in_order() {
    let mut doc = Document::default();
    let a = doc.insert_node(Node::new(NodeKind::Divider));
    let b = doc.insert_node(Node::new(NodeKind::Spacer));
    let root = doc.active_page().unwrap().root_node;
    let (html, css) = export_node(doc.node(&root).unwrap(), &doc.nodes);
    let expected = format!(
        "<div class=\"{}\"><hr class=\"{}\"/><div class=\"{}\" aria-hidden=\"true\"></div></div>",
        node_class(root),
        node_class(a),
        node_class(b)
    );
    assert_eq!(html, expected);
    assert!(css.find(&node_class(a)).unwrap() < css.find(&node_class(b)).unwrap());
}

#[test]
fn export_image_uses_aria_label_and_escapes() {
    let mut doc = Document::default();
    let mut img = Node::new(NodeKind::Image);
    img.content = Some("a\"b".into());
    let id = doc.insert_node(img);
    let out = export(&doc);
    assert!(out.html.contains(&format!(
        "<div class=\"{}\" role=\"img\" aria-label=\"a&quot;b\"></div>",
        node_class(id)
    )));
}

#[test]
fn export_defaults_for_missing_content() {
    let mut doc = Document::default();
    doc.insert_node(Node::new(NodeKind::Text));
    doc.insert_node(Node::new(NodeKind::Button));
    doc.insert_node(Node::new(NodeKind::Image));
    let out = export(&doc);
    assert!(out.html.contains(">Add your text</p>"));
    assert!(out.html.contains(">Button</button>"));
    assert!(out.html.contains("aria-label=\"Image\""));
}

#[test]
fn node_class_is_first_eight_hex_digits() {
    let id = NodeId(0x1234_5678_9abc_4def_8123_4567_89ab_cdefu128);
    assert_eq!(node_class(id), "yk-n-12345678");
    let id = NodeId(0x0000_00ab_9abc_4def_8123_4567_89ab_cdefu128);
    assert_eq!(node_class(id), "yk-n-000000ab");
}

#[test]
fn node_id_text_matches_uuid_crate() {
    for v in [0u128, 1, u128::MAX, 0x1234_5678_9abc_4def_8123_4567_89ab_cdef] {
        assert_eq!(NodeId(v).to_string(), uuid::Uuid::from_u128(v).to_string());
    }
    let fresh = NodeId::new();
    let u = uuid::Uuid::from_u128(fresh.0);
    assert_eq!(u.get_version_num(), 4);
    assert_eq!(fresh.to_string(), u.to_string());
}

#[test]
fn color_css_matches_float_formatting() {
    for a in 0..=255u8 {
        let c = Color::rgba(1, 22, 255, a);
        let expected = format!("rgba(1,22,255,{:.3})", a as f32 / 255.0);
        assert_eq!(color_css(&c), expected, "alpha {}", a);
    }
    assert_eq!(color_css(&Color::rgb(0, 0, 0)), "rgba(0,0,0,1.000)");
    assert_eq!(color_css(&Color::transparent()), "rgba(0,0,0,0.000)");
}

#[test]
fn escape_html_replaces_markup() {
    assert_eq!(escape_html("a&b<c>d\"e'f"), "a&amp;b&lt;c&gt;d&quot;e'f");
    assert_eq!(escape_html(""), "");
    assert_eq!(escape_html("plain"), "plain");
}

#[test]
fn layout_of_default_node() {
    let n = Node::new(NodeKind::Stack);
    assert_eq!(
        export_css(&n),
        "display:flex;flex-direction:column;align-items:flex-start;justify-content:flex-start;width:100%"
    );
}

#[test]
fn layout_of_block_with_sizes_gap_and_opacity() {
    let mut n = Node::new(NodeKind::Container);
    n.layout.display = Display::Block;
    n.layout.gap = 8.0f32.to_bits();
    n.layout.padding = Spacing { top: 0, right: 4.5f32.to_bits(), bottom: 0, left: 0 };
    n.layout.width = Size::Fixed(120.0f32.to_bits());
    n.layout.height = Size::Percent(50.0f32.to_bits());
    n.appearance.background = Some(Color::rgba(10, 20, 30, 128));
    n.appearance.opacity = 0.5f32.to_bits();
    assert_eq!(
        export_css(&n),
        "display:block;gap:8.0px;padding:0.0px 4.5px 0.0px 0.0px;width:120.0px;height:50.0%;background:rgba(10,20,30,0.502);opacity:0.500"
    );
}

#[test]
fn layout_skips_zero_negative_and_nan_lengths() {
    let mut n = Node::new(NodeKind::Container);
    n.layout.display = Display::Grid;
    n.layout.gap = (-3.0f32).to_bits();
    n.layout.padding = Spacing::all(f32::NAN.to_bits());
    n.layout.width = Size::Auto;
    n.appearance.opacity = 0.999f32.to_bits();
    assert_eq!(export_css(&n), "display:grid");
    n.appearance.opacity = (-0.0f32).to_bits();
    assert_eq!(export_css(&n), "display:grid;opacity:-0.000");
}

#[test]
fn float_tests_on_bit_patterns_match_float_comparison() {
    let patterns = [
        0u32, 1, 0x3f7f_be76, 0x3f7f_be77, 0x3f7f_be78, 0x3f80_0000, 0x7f7f_ffff, 0x7f80_0000,
        0x7f80_0001, 0x7fc0_0000, 0x8000_0000, 0x8000_0001, 0xbf80_0000, 0xff80_0000, 0xff80_0001,
        0xffff_ffff,
    ];
    for b in patterns {
        let x = f32::from_bits(b);
        assert_eq!(ykcode::css::is_positive(b), x > 0.0, "{:#x}", b);
        assert_eq!(ykcode::css::below_opacity_limit(b), x < 0.999, "{:#x}", b);
    }
}

#[test]
fn inline_style_always_has_direction() {
    let mut n = Node::new(NodeKind::Text);
    n.layout.display = Display::Block;
    n.appearance.background = Some(Color::rgba(1, 2, 3, 255));
    let d = node_inline_style(&n);
    let names: Vec<&str> = d.iter().map(|x| x.property.as_str()).collect();
    assert_eq!(names, vec!["display", "flex-direction", "width", "background"]);
    assert!(matches!(d[3].value, CssValue::Rgba(c) if c == Color::rgba(1, 2, 3, 255)));
}
