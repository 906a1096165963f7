//! How the page editor draws a node: its CSS classes and which of three
//! shapes it takes.
use vstd::prelude::*;

use crate::document::Node;
use crate::palette::{default_content, default_node_content};
use crate::style::NodeKind;

verus! {

/// The lowercase name of a kind.
pub open spec fn kind_slug(k: NodeKind) -> Seq<char> {
    match k {
        NodeKind::Section => "section"@,
        NodeKind::Stack => "stack"@,
        NodeKind::Text => "text"@,
        NodeKind::Button => "button"@,
        NodeKind::Image => "image"@,
        NodeKind::Divider => "divider"@,
        NodeKind::Spacer => "spacer"@,
        NodeKind::Container => "container"@,
    }
}

/// The CSS classes of a drawn node: `yk-node` and `yk-node--` with the
/// lowercase name of its kind.
pub fn kind_class(kind: NodeKind) -> (s: String)
    ensures
        s@ == "yk-node yk-node--"@ + kind_slug(kind),
{
    let name = match kind {
        NodeKind::Section => "section",
        NodeKind::Stack => "stack",
        NodeKind::Text => "text",
        NodeKind::Button => "button",
        NodeKind::Image => "image",
        NodeKind::Divider => "divider",
        NodeKind::Spacer => "spacer",
        NodeKind::Container => "container",
    };
    let mut s = String::from_str("yk-node yk-node--");
    s.append(name);
    s
}

/// The shape a node is drawn in.
#[derive(Debug, Clone)]
pub enum NodeView {
    /// A text or button without children: its text can be edited in place.
    Editable,
    /// A childless node showing this text.
    Content(String),
    /// A box around the children; `empty` when there are none.
    Container { empty: bool },
}

/// The text a node shows: its own, else the placeholder of its kind.
pub open spec fn shown_text(n: Node) -> Option<Seq<char>> {
    match n.content {
        Some(s) => Some(s@),
        None => default_content(n.kind),
    }
}

/// How a node is drawn: a childless text or button is editable in place; any
/// other childless node with a text (its own or its kind's placeholder) shows
/// it; everything else is a box around its children.
pub fn node_view(node: &Node) -> (v: NodeView)
    ensures
        (node.kind == NodeKind::Text || node.kind == NodeKind::Button) && node.children@.len() == 0 ==> v
            is Editable,
        !((node.kind == NodeKind::Text || node.kind == NodeKind::Button) && node.children@.len() == 0) ==> match shown_text(*node) {
            Some(t) if node.children@.len() == 0 => v matches NodeView::Content(s) && s@ == t,
            _ => v == NodeView::Container { empty: node.children@.len() == 0 },
        },
{
    let leaf = node.children.len() == 0;
    let editable = match node.kind {
        NodeKind::Text | NodeKind::Button => true,
        _ => false,
    };
    if editable && leaf {
        return NodeView::Editable;
    }
    let content = match &node.content {
        Some(s) => Some(s.clone()),
        None => default_node_content(&node.kind),
    };
    match content {
        Some(text) if leaf => NodeView::Content(text),
        _ => NodeView::Container { empty: leaf },
    }
}

} // verus!
