//! Creating nodes from the component palette and from drag-and-drop payloads.
use vstd::prelude::*;

use crate::document::{inserted_under, new_node_shape, same_header, Document, Node};
use crate::ids::NodeId;
use crate::ids::is_random_uuid;
use crate::style::{kind_label, NodeKind};
use crate::text::{has_substring, lowercase, matches_query, text_eq, to_lowercase};

verus! {

/// The kind named by a palette label or drop payload; unknown text gives
/// `Container`.
pub open spec fn kind_named(s: Seq<char>) -> NodeKind {
    if s == "Section"@ {
        NodeKind::Section
    } else if s == "Stack"@ {
        NodeKind::Stack
    } else if s == "Text"@ {
        NodeKind::Text
    } else if s == "Button"@ {
        NodeKind::Button
    } else if s == "Image"@ {
        NodeKind::Image
    } else if s == "Container"@ {
        NodeKind::Container
    } else if s == "Divider"@ {
        NodeKind::Divider
    } else if s == "Spacer"@ {
        NodeKind::Spacer
    } else {
        NodeKind::Container
    }
}

/// The kind carried by a drag-and-drop payload (a kind label); anything else
/// is a `Container`.
pub fn kind_from_payload(s: &str) -> (k: NodeKind)
    ensures
        k == kind_named(s@),
{
    if text_eq(s, "Section") {
        NodeKind::Section
    } else if text_eq(s, "Stack") {
        NodeKind::Stack
    } else if text_eq(s, "Text") {
        NodeKind::Text
    } else if text_eq(s, "Button") {
        NodeKind::Button
    } else if text_eq(s, "Image") {
        NodeKind::Image
    } else if text_eq(s, "Container") {
        NodeKind::Container
    } else if text_eq(s, "Divider") {
        NodeKind::Divider
    } else if text_eq(s, "Spacer") {
        NodeKind::Spacer
    } else {
        NodeKind::Container
    }
}

/// The kind a palette card with this label creates; the same mapping as for
/// drop payloads.
pub fn kind_from_label(label: &str) -> (k: NodeKind)
    ensures
        k == kind_named(label@),
{
    kind_from_payload(label)
}

/// The placeholder text a new node of a kind starts with.
pub open spec fn default_content(kind: NodeKind) -> Option<Seq<char>> {
    match kind {
        NodeKind::Text => Some("Add your text"@),
        NodeKind::Button => Some("Button"@),
        NodeKind::Image => Some("🖼 Add image"@),
        _ => None,
    }
}

/// The placeholder text a new node of a kind starts with, if any.
pub fn default_node_content(kind: &NodeKind) -> (r: Option<String>)
    ensures
        match default_content(*kind) {
            Some(t) => r matches Some(s) && s@ == t,
            None => r.is_none(),
        },
{
    match kind {
        NodeKind::Text => Some(String::from_str("Add your text")),
        NodeKind::Button => Some(String::from_str("Button")),
        NodeKind::Image => Some(String::from_str("🖼 Add image")),
        _ => None,
    }
}

/// A new node of a kind, with the placeholder text of that kind.
pub fn node_with_defaults(kind: NodeKind) -> (n: Node)
    ensures
        new_node_shape(n, kind),
        is_random_uuid(n.id.0),
        match default_content(kind) {
            Some(t) => n.content matches Some(s) && s@ == t,
            None => n.content.is_none(),
        },
{
    let mut node = Node::new(kind);
    node.content = default_node_content(&kind);
    node
}

/// The kind label carried by a drop: the payload of the component type if it
/// is not empty, else the plain-text payload if that is not empty.
pub fn payload_label(primary: Option<String>, fallback: Option<String>) -> (r: Option<String>)
    ensures
        primary matches Some(p) && p@.len() > 0 ==> r == primary,
        !(primary matches Some(p) && p@.len() > 0) ==> (fallback matches Some(f) && f@.len() > 0 ==> r
            == fallback),
        !(primary matches Some(p) && p@.len() > 0) && !(fallback matches Some(f) && f@.len() > 0) ==> r.is_none(),
{
    match primary {
        Some(p) if !p.as_str().is_empty() => Some(p),
        _ => match fallback {
            Some(f) if !f.as_str().is_empty() => Some(f),
            _ => None,
        },
    }
}

/// Drops `node` on the page: with an active page, it goes last among the
/// children of the page's root; without one, nothing changes. Gives back the
/// node's id.
pub fn drop_node(doc: &mut Document, node: Node) -> (r: NodeId)
    ensures
        r == node.id,
        same_header(*old(doc), *final(doc)),
        match old(doc).active_root() {
            Some(root) => inserted_under(
                old(doc).nodes@,
                final(doc).nodes@,
                node,
                root.0,
                if old(doc).nodes@.contains_key(root.0) {
                    old(doc).nodes@[root.0].children@.len() as int
                } else {
                    0
                },
            ),
            None => final(doc).nodes@ == old(doc).nodes@,
        },
{
    let id = node.id;
    let parent = match doc.active_page() {
        Some(p) => Some(p.root_node),
        None => None,
    };
    if let Some(parent_id) = parent {
        let index = match doc.node(&parent_id) {
            Some(n) => n.children.len(),
            None => 0,
        };
        doc.insert_at(node, parent_id, index);
    }
    id
}

/// A card of the component palette.
#[derive(Debug, Clone, Copy, PartialEq, Eq)]
pub struct PaletteEntry {
    pub icon: &'static str,
    pub label: &'static str,
    pub hint: &'static str,
    pub featured: bool,
}

impl View for PaletteEntry {
    type V = (Seq<char>, Seq<char>, Seq<char>, bool);

    open spec fn view(&self) -> (Seq<char>, Seq<char>, Seq<char>, bool) {
        (self.icon@, self.label@, self.hint@, self.featured)
    }
}

/// The cards of the palette, in order: icon, label, hint, and whether the
/// card is featured.
pub open spec fn palette_table() -> Seq<(Seq<char>, Seq<char>, Seq<char>, bool)> {
    seq![
        ("⬜"@, "Section"@, "Full-width layout block"@, false),
        ("≡"@, "Stack"@, "Flex row or column"@, false),
        ("T"@, "Text"@, "Heading or paragraph"@, false),
        ("◉"@, "Button"@, "Call to action"@, true),
        ("🖼"@, "Image"@, "Photo or illustration"@, false),
        ("▭"@, "Container"@, "Nestable block"@, false),
        ("—"@, "Divider"@, "Horizontal rule"@, false),
        ("↕"@, "Spacer"@, "Flexible gap"@, false),
    ]
}

/// The views of a list of cards.
pub open spec fn entry_views(s: Seq<PaletteEntry>) -> Seq<(Seq<char>, Seq<char>, Seq<char>, bool)> {
    s.map_values(|e: PaletteEntry| e@)
}

fn entry(icon: &'static str, label: &'static str, hint: &'static str, featured: bool) -> (e: PaletteEntry)
    ensures
        e@ == (icon@, label@, hint@, featured),
{
    PaletteEntry { icon, label, hint, featured }
}

/// The cards of the palette (see `palette_table`).
pub fn all_palette_entries() -> (r: Vec<PaletteEntry>)
    ensures
        entry_views(r@) == palette_table(),
{
    let mut r: Vec<PaletteEntry> = Vec::new();
    r.push(entry("⬜", "Section", "Full-width layout block", false));
    r.push(entry("≡", "Stack", "Flex row or column", false));
    r.push(entry("T", "Text", "Heading or paragraph", false));
    r.push(entry("◉", "Button", "Call to action", true));
    r.push(entry("🖼", "Image", "Photo or illustration", false));
    r.push(entry("▭", "Container", "Nestable block", false));
    r.push(entry("—", "Divider", "Horizontal rule", false));
    r.push(entry("↕", "Spacer", "Flexible gap", false));
    assert(entry_views(r@) =~= palette_table());
    r
}

/// A card is shown for the lowercased query `q` when `q` is empty or occurs
/// in the card's lowercased label.
pub open spec fn shown_for(q: Seq<char>) -> spec_fn((Seq<char>, Seq<char>, Seq<char>, bool)) -> bool {
    |e: (Seq<char>, Seq<char>, Seq<char>, bool)| q.len() == 0 || has_substring(lowercase(e.1), q)
}

/// The cards of `entries` that match a search `query`, in order: all when the
/// lowercased query is empty, else those whose lowercased label contains it.
pub fn filter_palette(entries: &Vec<PaletteEntry>, query: &str) -> (r: Vec<PaletteEntry>)
    ensures
        entry_views(r@) == entry_views(entries@).filter(shown_for(lowercase(query@))),
{
    let q = to_lowercase(query);
    let ghost pred = shown_for(lowercase(query@));
    let mut r: Vec<PaletteEntry> = Vec::new();
    let mut i: usize = 0;
    while i < entries.len()
        invariant
            i <= entries@.len(),
            q@ == lowercase(query@),
            pred == shown_for(lowercase(query@)),
            entry_views(r@) == entry_views(entries@.take(i as int)).filter(pred),
        decreases entries@.len() - i,
    {
        let e = entries[i];
        let label = to_lowercase(e.label);
        let keep = matches_query(label.as_str(), q.as_str());
        proof {
            let t = entries@.take(i + 1);
            assert(t.drop_last() =~= entries@.take(i as int));
            assert(entry_views(t).drop_last() =~= entry_views(entries@.take(i as int)));
            assert(entry_views(t).last() == e@);
            reveal_with_fuel(Seq::filter, 1);
            assert(keep == pred(e@));
        }
        let ghost before = r@;
        if keep {
            r.push(e);
            assert(entry_views(r@) =~= entry_views(before).push(e@));
        }
        i = i + 1;
    }
    assert(entries@.take(i as int) =~= entries@);
    r
}

/// A palette search shows a card exactly when the lowercased query is empty
/// or occurs in the card's lowercased label.
pub proof fn law_palette_search(entries: Seq<(Seq<char>, Seq<char>, Seq<char>, bool)>, query: Seq<char>, i: int)
    requires
        0 <= i < entries.len(),
    ensures
        ({
            let e = entries[i];
            let q = lowercase(query);
            let shown = entries.filter(shown_for(q)).contains(e);
            &&& has_substring(lowercase(e.1), q) ==> shown
            &&& q.len() == 0 ==> shown
            &&& shown ==> q.len() == 0 || has_substring(lowercase(e.1), q)
        }),
{
    let pred = shown_for(lowercase(query));
    if pred(entries[i]) {
        entries.lemma_filter_contains(pred, i);
    }
    if entries.filter(pred).contains(entries[i]) {
        let j = choose|j: int| 0 <= j < entries.filter(pred).len() && entries.filter(pred)[j] == entries[i];
        entries.lemma_filter_pred(pred, j);
    }
}

/// A kind's label names that kind: dropping or choosing a card labelled with a
/// kind's name creates a node of that kind.
pub proof fn law_label_names_kind(k: NodeKind)
    ensures
        kind_named(kind_label(k)) == k,
{
    reveal_strlit("Section");
    reveal_strlit("Stack");
    reveal_strlit("Text");
    reveal_strlit("Button");
    reveal_strlit("Image");
    reveal_strlit("Container");
    reveal_strlit("Divider");
    reveal_strlit("Spacer");
    assert("Section"@.len() == 7 && "Section"@[0] == 'S' && "Section"@[1] == 'e');
    assert("Stack"@.len() == 5 && "Stack"@[0] == 'S' && "Stack"@[1] == 't');
    assert("Text"@.len() == 4 && "Text"@[0] == 'T' && "Text"@[1] == 'e');
    assert("Button"@.len() == 6 && "Button"@[0] == 'B' && "Button"@[1] == 'u');
    assert("Image"@.len() == 5 && "Image"@[0] == 'I' && "Image"@[1] == 'm');
    assert("Container"@.len() == 9 && "Container"@[0] == 'C' && "Container"@[1] == 'o');
    assert("Divider"@.len() == 7 && "Divider"@[0] == 'D' && "Divider"@[1] == 'i');
    assert("Spacer"@.len() == 6 && "Spacer"@[0] == 'S' && "Spacer"@[1] == 'p');
}

} // verus!
