//! Export of a page as standalone HTML with embedded CSS.
use std::collections::HashMap;
use vstd::prelude::*;

use crate::document::{
    appended_under, clamp_index, detached, find_first, inserted_under, key_list, lemma_find_first, moved_among,
    not_id, swap_at, with_children, Document, Node, SiblingDirection,
};
use crate::ids::{hex_digit, uuid_hyphenated, uuid_simple, uuid_to_string, NodeId};
use crate::css::{export_plan, joined, layout_to_css};
use crate::walk::{expands, export_ends, kids_in, ranked_on};
use crate::style::{Alignment, Color, NodeKind};
use crate::text::{dec_text, dec_string, digit_char, escape_html, escape_text, push_char};

verus! {

broadcast use vstd::std_specs::hash::group_hash_axioms;

/// The CSS keyword of an alignment.
pub open spec fn alignment_text(a: Alignment) -> Seq<char> {
    match a {
        Alignment::Start => "flex-start"@,
        Alignment::Center => "center"@,
        Alignment::End => "flex-end"@,
        Alignment::SpaceBetween => "space-between"@,
        Alignment::SpaceAround => "space-around"@,
        Alignment::Stretch => "stretch"@,
    }
}

/// The CSS keyword of an alignment.
pub fn alignment_css(a: &Alignment) -> (s: &'static str)
    ensures
        s@ == alignment_text(*a),
{
    match a {
        Alignment::Start => "flex-start",
        Alignment::Center => "center",
        Alignment::End => "flex-end",
        Alignment::SpaceBetween => "space-between",
        Alignment::SpaceAround => "space-around",
        Alignment::Stretch => "stretch",
    }
}

/// Thousandths of `a / 255`, rounded to nearest (no value lies halfway).
pub open spec fn alpha_thousandths(a: u8) -> nat {
    ((2000 * (a as nat) + 255) / 510) as nat
}

/// `a / 255` with three decimals: `0.000` to `1.000`.
pub open spec fn alpha_text(a: u8) -> Seq<char> {
    let q = alpha_thousandths(a);
    if q >= 1000 {
        "1.000"@
    } else {
        "0."@ + seq![digit_char(q / 100), digit_char((q / 10) % 10), digit_char(q % 10)]
    }
}

/// The CSS text `rgba(r,g,b,alpha)` of a color, alpha as a fraction with three
/// decimals.
pub open spec fn color_text(c: Color) -> Seq<char> {
    "rgba("@ + dec_text(c.r as nat) + ","@ + dec_text(c.g as nat) + ","@ + dec_text(c.b as nat) + ","@
        + alpha_text(c.a) + ")"@
}

/// The CSS text of a color, as `rgba(r,g,b,a)` with `a` in `0.000..=1.000`.
pub fn color_css(c: &Color) -> (s: String)
    ensures
        s@ == color_text(*c),
{
    let mut s = String::from_str("rgba(");
    let r = dec_string(c.r as u128);
    s.append(r.as_str());
    s.append(",");
    let g = dec_string(c.g as u128);
    s.append(g.as_str());
    s.append(",");
    let b = dec_string(c.b as u128);
    s.append(b.as_str());
    s.append(",");
    let q: u32 = (2000 * (c.a as u32) + 255) / 510;
    if q >= 1000 {
        s.append("1.000");
    } else {
        s.append("0.");
        push_char(&mut s, ((q / 100) as u8 + 48) as char);
        push_char(&mut s, (((q / 10) % 10) as u8 + 48) as char);
        push_char(&mut s, ((q % 10) as u8 + 48) as char);
    }
    s.append(")");
    proof {
        reveal_strlit("0.");
        assert(q as nat == alpha_thousandths(c.a));
    }
    assert(s@ =~= color_text(*c));
    s
}

/// The CSS class of a node: `yk-n-` and the first 8 hex digits of its id.
pub open spec fn class_text(id: NodeId) -> Seq<char> {
    "yk-n-"@ + uuid_simple(id.0).subrange(0, 8)
}

/// No hex digit is a hyphen.
proof fn lemma_hex_not_dash(d: nat)
    requires
        d < 16,
    ensures
        hex_digit(d) != '-',
        hex_digit(d) == '-' ==> false,
{
}

/// The CSS class of a node: its id's UUID text with the hyphens removed, cut
/// to 8 characters, after `yk-n-`.
pub fn node_class(id: NodeId) -> (s: String)
    ensures
        s@ == class_text(id),
{
    let full = uuid_to_string(id.0);
    let text = full.as_str();
    let mut s = String::from_str("yk-n-");
    let mut taken: usize = 0;
    let mut i: usize = 0;
    while taken < 8
        invariant
            text@ == uuid_hyphenated(id.0),
            i == taken,
            taken <= 8,
            s@ == "yk-n-"@ + uuid_simple(id.0).subrange(0, taken as int),
        decreases 8 - taken,
    {
        let c = text.get_char(i);
        proof {
            let v = id.0;
            let d = ((v as nat) / vstd::arithmetic::power::pow(16, (31 - i) as nat) as nat) % 16;
            lemma_hex_not_dash(d);
            assert(text@[i as int] == uuid_simple(v)[i as int]);
        }
        if c != '-' {
            push_char(&mut s, c);
            taken = taken + 1;
            assert(s@ =~= "yk-n-"@ + uuid_simple(id.0).subrange(0, taken as int));
        }
        i = i + 1;
    }
    s
}

/// The HTML and CSS produced for a page.
#[derive(Debug, Clone, PartialEq, Eq)]
pub struct ExportOutput {
    pub html: String,
    pub css: String,
}

/// `rank` decreases from every stored node to each of its stored children: the
/// child links of `nodes` hold no cycle.
pub open spec fn ranked(nodes: Map<u128, Node>, rank: Map<u128, nat>) -> bool {
    forall|k: u128| #[trigger] nodes.contains_key(k) ==> {
        &&& rank.contains_key(k)
        &&& forall|j: int|
            0 <= j < nodes[k].children@.len() && nodes.contains_key(#[trigger] nodes[k].children@[j].0)
                ==> rank[nodes[k].children@[j].0] < rank[k]
    }
}

/// Following child links from any stored node always ends.
pub open spec fn acyclic(nodes: Map<u128, Node>) -> bool {
    exists|rank: Map<u128, nat>| ranked(nodes, rank)
}

/// Every stored child in `kids` has a rank below `b`.
pub open spec fn kids_below(nodes: Map<u128, Node>, rank: Map<u128, nat>, kids: Seq<NodeId>, b: nat) -> bool {
    forall|j: int| 0 <= j < kids.len() && nodes.contains_key(#[trigger] kids[j].0) ==> rank[kids[j].0] < b
}

/// One more than the largest rank of a stored child in `kids`.
pub open spec fn kid_bound(nodes: Map<u128, Node>, rank: Map<u128, nat>, kids: Seq<NodeId>) -> nat
    decreases kids.len(),
{
    if kids.len() == 0 {
        0
    } else {
        let rest = kid_bound(nodes, rank, kids.drop_last());
        let here: nat = if nodes.contains_key(kids.last().0) {
            rank[kids.last().0] + 1
        } else {
            0
        };
        if rest < here {
            here
        } else {
            rest
        }
    }
}

pub(crate) proof fn lemma_kid_bound(nodes: Map<u128, Node>, rank: Map<u128, nat>, kids: Seq<NodeId>)
    ensures
        kids_below(nodes, rank, kids, kid_bound(nodes, rank, kids)),
    decreases kids.len(),
{
    if kids.len() > 0 {
        lemma_kid_bound(nodes, rank, kids.drop_last());
        assert forall|j: int| 0 <= j < kids.len() && nodes.contains_key(#[trigger] kids[j].0) implies rank[kids[j].0]
            < kid_bound(nodes, rank, kids) by {
            if j < kids.len() - 1 {
                assert(kids.drop_last()[j] == kids[j]);
            }
        }
    }
}

/// The text of a node, or `default` when it has none.
pub open spec fn content_or(content: Option<String>, default: Seq<char>) -> Seq<char> {
    match content {
        Some(s) => s@,
        None => default,
    }
}

/// The CSS rule of a node: its class selector around its declarations.
pub open spec fn rule_text(n: Node) -> Seq<char> {
    "."@ + class_text(n.id) + "{"@ + joined(export_plan(n)) + "}"@
}

/// The HTML and CSS of a node whose stored children have ranks below `b`.
pub open spec fn render_node(
    nodes: Map<u128, Node>,
    rank: Map<u128, nat>,
    n: Node,
    b: nat,
) -> (Seq<char>, Seq<char>)
    decreases b, 1nat, 0nat,
{
    if !n.visible {
        (Seq::empty(), Seq::empty())
    } else {
        let cls = class_text(n.id);
        let rule = rule_text(n);
        match n.kind {
            NodeKind::Text => (
                "<p class=\""@ + cls + "\">"@ + escape_text(content_or(n.content, "Add your text"@)) + "</p>"@,
                rule,
            ),
            NodeKind::Button => (
                "<button type=\"button\" class=\""@ + cls + "\">"@ + escape_text(
                    content_or(n.content, "Button"@),
                ) + "</button>"@,
                rule,
            ),
            NodeKind::Image => (
                "<div class=\""@ + cls + "\" role=\"img\" aria-label=\""@ + escape_text(
                    content_or(n.content, "Image"@),
                ) + "\"></div>"@,
                rule,
            ),
            NodeKind::Divider => ("<hr class=\""@ + cls + "\"/>"@, rule),
            NodeKind::Spacer => ("<div class=\""@ + cls + "\" aria-hidden=\"true\"></div>"@, rule),
            _ => {
                let kids = render_kids(nodes, rank, n.children@, b);
                ("<div class=\""@ + cls + "\">"@ + kids.0 + "</div>"@, rule + kids.1)
            },
        }
    }
}

/// The concatenated HTML and CSS of the stored children in `kids`, in order.
pub open spec fn render_kids(
    nodes: Map<u128, Node>,
    rank: Map<u128, nat>,
    kids: Seq<NodeId>,
    b: nat,
) -> (Seq<char>, Seq<char>)
    decreases b, 0nat, kids.len(),
{
    if kids.len() == 0 {
        (Seq::empty(), Seq::empty())
    } else {
        let rest = render_kids(nodes, rank, kids.drop_last(), b);
        let k = kids.last();
        if nodes.contains_key(k.0) && rank[k.0] < b {
            let here = render_node(nodes, rank, nodes[k.0], rank[k.0]);
            (rest.0 + here.0, rest.1 + here.1)
        } else {
            rest
        }
    }
}

/// The HTML fragment and CSS rules of `n` and, recursively, of its stored
/// children; hidden nodes produce nothing.
pub open spec fn render(nodes: Map<u128, Node>, n: Node) -> (Seq<char>, Seq<char>) {
    let (rank, s) = choose|rank: Map<u128, nat>, s: Set<u128>|
        ranked_on(nodes, false, rank, s) && kids_in(nodes, n.children@, s);
    render_node(nodes, rank, n, kid_bound(nodes, rank, n.children@))
}

/// The text of a node, or `default`.
fn content_str<'a>(content: &'a Option<String>, default: &'a str) -> (r: &'a str)
    ensures
        r@ == content_or(*content, default@),
{
    match content {
        Some(s) => s.as_str(),
        None => default,
    }
}

fn export_rec(
    node: &Node,
    nodes: &HashMap<u128, Node>,
    Ghost(rank): Ghost<Map<u128, nat>>,
    Ghost(s): Ghost<Set<u128>>,
    Ghost(b): Ghost<nat>,
) -> (r: (String, String))
    requires
        expands(*node) ==> {
            &&& ranked_on(nodes@, false, rank, s)
            &&& kids_in(nodes@, node.children@, s)
            &&& kids_below(nodes@, rank, node.children@, b)
        },
    ensures
        (r.0@, r.1@) == render_node(nodes@, rank, *node, b),
    decreases b,
{
    if !node.visible {
        return (String::new(), String::new());
    }
    let cls = node_class(node.id);
    let mut css = String::from_str(".");
    css.append(cls.as_str());
    css.append("{");
    let body = layout_to_css(node);
    css.append(body.as_str());
    css.append("}");
    let mut html = String::new();
    match node.kind {
        NodeKind::Text => {
            let text = escape_html(content_str(&node.content, "Add your text"));
            html.append("<p class=\"");
            html.append(cls.as_str());
            html.append("\">");
            html.append(text.as_str());
            html.append("</p>");
        },
        NodeKind::Button => {
            let label = escape_html(content_str(&node.content, "Button"));
            html.append("<button type=\"button\" class=\"");
            html.append(cls.as_str());
            html.append("\">");
            html.append(label.as_str());
            html.append("</button>");
        },
        NodeKind::Image => {
            let alt = escape_html(content_str(&node.content, "Image"));
            html.append("<div class=\"");
            html.append(cls.as_str());
            html.append("\" role=\"img\" aria-label=\"");
            html.append(alt.as_str());
            html.append("\"></div>");
        },
        NodeKind::Divider => {
            html.append("<hr class=\"");
            html.append(cls.as_str());
            html.append("\"/>");
        },
        NodeKind::Spacer => {
            html.append("<div class=\"");
            html.append(cls.as_str());
            html.append("\" aria-hidden=\"true\"></div>");
        },
        _ => {
            assert(expands(*node));
            let mut kids_html = String::new();
            let mut kids_css = String::new();
            let mut i: usize = 0;
            while i < node.children.len()
                invariant
                    i <= node.children@.len(),
                    ranked_on(nodes@, false, rank, s),
                    kids_in(nodes@, node.children@, s),
                    kids_below(nodes@, rank, node.children@, b),
                    (kids_html@, kids_css@) == render_kids(
                        nodes@,
                        rank,
                        node.children@.take(i as int),
                        b,
                    ),
                decreases node.children@.len() - i,
            {
                let cid = node.children[i];
                proof {
                    let t = node.children@.take(i + 1);
                    assert(t.drop_last() =~= node.children@.take(i as int));
                    assert(t.last() == cid);
                }
                match nodes.get(&cid.0) {
                    Some(child) => {
                        assert(rank[cid.0] < b);
                        assert(s.contains(cid.0));
                        assert(*child == nodes@[cid.0]);
                        assert(expands(*child) ==> kids_in(nodes@, child.children@, s) && kids_below(
                            nodes@,
                            rank,
                            child.children@,
                            rank[cid.0],
                        )) by {
                            if expands(*child) {
                                assert forall|j: int|
                                    0 <= j < child.children@.len() && nodes@.contains_key(
                                        #[trigger] child.children@[j].0,
                                    ) implies s.contains(child.children@[j].0) && rank[child.children@[j].0]
                                    < rank[cid.0] by {
                                    assert(nodes@[cid.0].children@[j] == child.children@[j]);
                                }
                            }
                        }
                        let (h, c) = export_rec(child, nodes, Ghost(rank), Ghost(s), Ghost(rank[cid.0]));
                        kids_html.append(h.as_str());
                        kids_css.append(c.as_str());
                    },
                    None => {},
                }
                i = i + 1;
            }
            assert(node.children@.take(i as int) =~= node.children@);
            html.append("<div class=\"");
            html.append(cls.as_str());
            html.append("\">");
            html.append(kids_html.as_str());
            html.append("</div>");
            css.append(kids_css.as_str());
        },
    }
    (html, css)
}

/// Renders a node and, recursively, its stored children into an HTML fragment
/// and CSS rules. A hidden node renders nothing; only a visible section, stack
/// or container renders its children, so only cycles reachable that way
/// matter.
pub fn export_node(node: &Node, nodes: &HashMap<u128, Node>) -> (r: (String, String))
    requires
        export_ends(nodes@, *node),
    ensures
        (r.0@, r.1@) == render(nodes@, *node),
{
    let ghost (rank, s) = choose|rank: Map<u128, nat>, s: Set<u128>|
        ranked_on(nodes@, false, rank, s) && kids_in(nodes@, node.children@, s);
    proof {
        lemma_kid_bound(nodes@, rank, node.children@);
    }
    export_rec(node, nodes, Ghost(rank), Ghost(s), Ghost(kid_bound(nodes@, rank, node.children@)))
}

/// The page that is exported: the active page, else the first page.
pub open spec fn export_page_index(doc: Document) -> Option<int> {
    match doc.active_page_index() {
        Some(i) => Some(i),
        None => if doc.pages@.len() > 0 {
            Some(0)
        } else {
            None
        },
    }
}

/// The CSS reset that precedes the node rules.
pub open spec fn reset_css() -> Seq<char> {
    "*,*::before,*::after{box-sizing:border-box}body{margin:0;font-family:Manrope,system-ui,sans-serif}"@
}

/// The standalone page around a title, a style sheet and a body fragment.
pub open spec fn page_html(title: Seq<char>, css: Seq<char>, body: Seq<char>) -> Seq<char> {
    "<!DOCTYPE html>\n<html lang=\"en\">\n<head>\n<meta charset=\"utf-8\"/>\n<meta name=\"viewport\" content=\"width=device-width, initial-scale=1\"/>\n<title>"@
        + title + "</title>\n<style>"@ + css + "</style>\n</head>\n<body>\n"@ + body
        + "\n</body>\n</html>"@
}

/// Exports the active page (else the first page) as standalone HTML with the
/// CSS embedded.
pub fn export_document(doc: &Document) -> (out: ExportOutput)
    requires
        doc.pages@.len() > 0,
        doc.nodes@.contains_key(doc.pages@[export_page_index(*doc)->0].root_node.0),
        export_ends(doc.nodes@, doc.nodes@[doc.pages@[export_page_index(*doc)->0].root_node.0]),
    ensures
        ({
            let root = doc.nodes@[doc.pages@[export_page_index(*doc)->0].root_node.0];
            let body = render(doc.nodes@, root);
            &&& out.css@ == reset_css() + body.1
            &&& out.html@ == page_html(escape_text(doc.name@), out.css@, body.0)
        }),
{
    let page = match doc.active_page() {
        Some(p) => p,
        None => &doc.pages[0],
    };
    let root = doc.nodes.get(&page.root_node.0).unwrap();
    let (body_inner, node_css) = export_node(root, &doc.nodes);
    let mut css = String::from_str(
        "*,*::before,*::after{box-sizing:border-box}body{margin:0;font-family:Manrope,system-ui,sans-serif}",
    );
    css.append(node_css.as_str());
    let title = escape_html(doc.name.as_str());
    let mut html = String::from_str(
        "<!DOCTYPE html>\n<html lang=\"en\">\n<head>\n<meta charset=\"utf-8\"/>\n<meta name=\"viewport\" content=\"width=device-width, initial-scale=1\"/>\n<title>",
    );
    html.append(title.as_str());
    html.append("</title>\n<style>");
    html.append(css.as_str());
    html.append("</style>\n</head>\n<body>\n");
    html.append(body_inner.as_str());
    html.append("\n</body>\n</html>");
    ExportOutput { html, css }
}

/// A hidden node renders to nothing, whatever its children.
pub proof fn law_hidden_renders_nothing(nodes: Map<u128, Node>, n: Node)
    requires
        !n.visible,
    ensures
        render(nodes, n) == (Seq::<char>::empty(), Seq::<char>::empty()),
{
}

/// `rank`, `s` and `b` let node `m` be rendered: when it expands, the ranking
/// holds on `s`, its stored children lie in `s` and rank below `b`.
pub open spec fn renders_with(nodes: Map<u128, Node>, m: Node, rank: Map<u128, nat>, s: Set<u128>, b: nat) -> bool {
    expands(m) ==> {
        &&& ranked_on(nodes, false, rank, s)
        &&& kids_in(nodes, m.children@, s)
        &&& kids_below(nodes, rank, m.children@, b)
    }
}

/// The rendering of a node does not depend on the ranking used.
proof fn lemma_render_indep(
    nodes: Map<u128, Node>,
    m: Node,
    r1: Map<u128, nat>,
    s1: Set<u128>,
    b1: nat,
    r2: Map<u128, nat>,
    s2: Set<u128>,
    b2: nat,
)
    requires
        renders_with(nodes, m, r1, s1, b1),
        renders_with(nodes, m, r2, s2, b2),
    ensures
        render_node(nodes, r1, m, b1) == render_node(nodes, r2, m, b2),
    decreases b1, 1nat, 0nat,
{
    if expands(m) {
        lemma_render_kids_indep(nodes, m.children@, r1, s1, b1, r2, s2, b2);
    }
}

proof fn lemma_render_kids_indep(
    nodes: Map<u128, Node>,
    kids: Seq<NodeId>,
    r1: Map<u128, nat>,
    s1: Set<u128>,
    b1: nat,
    r2: Map<u128, nat>,
    s2: Set<u128>,
    b2: nat,
)
    requires
        ranked_on(nodes, false, r1, s1),
        kids_in(nodes, kids, s1),
        kids_below(nodes, r1, kids, b1),
        ranked_on(nodes, false, r2, s2),
        kids_in(nodes, kids, s2),
        kids_below(nodes, r2, kids, b2),
    ensures
        render_kids(nodes, r1, kids, b1) == render_kids(nodes, r2, kids, b2),
    decreases b1, 0nat, kids.len(),
{
    if kids.len() > 0 {
        let t = kids.drop_last();
        assert(kids_in(nodes, t, s1) && kids_in(nodes, t, s2) && kids_below(nodes, r1, t, b1) && kids_below(
            nodes,
            r2,
            t,
            b2,
        )) by {
            assert forall|j: int| 0 <= j < t.len() implies t[j] == kids[j] by {}
        }
        lemma_render_kids_indep(nodes, t, r1, s1, b1, r2, s2, b2);
        let k = kids.last();
        if nodes.contains_key(k.0) {
            assert(kids[kids.len() - 1] == k);
            let c = nodes[k.0];
            assert(s1.contains(k.0) && s2.contains(k.0));
            assert(r1[k.0] < b1 && r2[k.0] < b2);
            assert(renders_with(nodes, c, r1, s1, r1[k.0]) && renders_with(nodes, c, r2, s2, r2[k.0])) by {
                if expands(c) {
                    assert(kids_in(nodes, c.children@, s1) && kids_below(nodes, r1, c.children@, r1[k.0])) by {
                        assert forall|j: int| 0 <= j < c.children@.len() && nodes.contains_key(#[trigger] c.children@[j].0)
                            implies s1.contains(c.children@[j].0) && r1[c.children@[j].0] < r1[k.0] by {}
                    }
                    assert(kids_in(nodes, c.children@, s2) && kids_below(nodes, r2, c.children@, r2[k.0])) by {
                        assert forall|j: int| 0 <= j < c.children@.len() && nodes.contains_key(#[trigger] c.children@[j].0)
                            implies s2.contains(c.children@[j].0) && r2[c.children@[j].0] < r2[k.0] by {}
                    }
                }
            }
            lemma_render_indep(nodes, c, r1, s1, r1[k.0], r2, s2, r2[k.0]);
        }
    }
}

/// With any ranking that lets `m` be rendered, `render` gives the same text.
proof fn lemma_render_any(nodes: Map<u128, Node>, m: Node, r: Map<u128, nat>, s: Set<u128>, b: nat)
    requires
        renders_with(nodes, m, r, s, b),
    ensures
        render(nodes, m) == render_node(nodes, r, m, b),
{
    let (r2, s2) = choose|rank: Map<u128, nat>, s: Set<u128>|
        ranked_on(nodes, false, rank, s) && kids_in(nodes, m.children@, s);
    lemma_kid_bound(nodes, r2, m.children@);
    if expands(m) {
        assert(ranked_on(nodes, false, r, s) && kids_in(nodes, m.children@, s));
    }
    lemma_render_indep(nodes, m, r, s, b, r2, s2, kid_bound(nodes, r2, m.children@));
}

/// The HTML and CSS of the stored nodes among `kids`, each exported on its
/// own, one after another.
pub open spec fn kids_export(nodes: Map<u128, Node>, kids: Seq<NodeId>) -> (Seq<char>, Seq<char>)
    decreases kids.len(),
{
    if kids.len() == 0 {
        (Seq::empty(), Seq::empty())
    } else {
        let rest = kids_export(nodes, kids.drop_last());
        let k = kids.last();
        if nodes.contains_key(k.0) {
            let here = render(nodes, nodes[k.0]);
            (rest.0 + here.0, rest.1 + here.1)
        } else {
            rest
        }
    }
}

proof fn lemma_kids_export(nodes: Map<u128, Node>, kids: Seq<NodeId>, r: Map<u128, nat>, s: Set<u128>, b: nat)
    requires
        ranked_on(nodes, false, r, s),
        kids_in(nodes, kids, s),
        kids_below(nodes, r, kids, b),
    ensures
        render_kids(nodes, r, kids, b) == kids_export(nodes, kids),
    decreases kids.len(),
{
    if kids.len() > 0 {
        let t = kids.drop_last();
        assert(kids_in(nodes, t, s) && kids_below(nodes, r, t, b)) by {
            assert forall|j: int| 0 <= j < t.len() implies t[j] == kids[j] by {}
        }
        lemma_kids_export(nodes, t, r, s, b);
        let k = kids.last();
        if nodes.contains_key(k.0) {
            assert(kids[kids.len() - 1] == k);
            let c = nodes[k.0];
            assert(s.contains(k.0));
            assert(renders_with(nodes, c, r, s, r[k.0])) by {
                if expands(c) {
                    assert forall|j: int| 0 <= j < c.children@.len() && nodes.contains_key(#[trigger] c.children@[j].0)
                        implies s.contains(c.children@[j].0) && r[c.children@[j].0] < r[k.0] by {}
                }
            }
            lemma_render_any(nodes, c, r, s, r[k.0]);
        }
    }
}

/// A visible section, stack or container exports as a box around the exports
/// of its stored children, in order: its own rule comes first, then theirs.
pub proof fn law_container_export(nodes: Map<u128, Node>, n: Node)
    requires
        expands(n),
        export_ends(nodes, n),
    ensures
        render(nodes, n) == (
            "<div class=\""@ + class_text(n.id) + "\">"@ + kids_export(nodes, n.children@).0 + "</div>"@,
            rule_text(n) + kids_export(nodes, n.children@).1,
        ),
{
    let (r, s) = choose|rank: Map<u128, nat>, s: Set<u128>|
        ranked_on(nodes, false, rank, s) && kids_in(nodes, n.children@, s);
    let b = kid_bound(nodes, r, n.children@);
    lemma_kid_bound(nodes, r, n.children@);
    lemma_kids_export(nodes, n.children@, r, s, b);
}

/// Every visible node that is exported contributes its own rule
/// `.class{declarations}`, with its declarations as `layout_to_css` writes
/// them: the CSS of a visible text, button, image, divider or spacer is
/// exactly that rule, and the CSS of a visible box starts with it.
pub proof fn law_visible_node_has_its_rule(nodes: Map<u128, Node>, n: Node)
    requires
        n.visible,
        export_ends(nodes, n),
    ensures
        ({
            let rule = "."@ + class_text(n.id) + "{"@ + joined(export_plan(n)) + "}"@;
            &&& !expands(n) ==> render(nodes, n).1 == rule
            &&& expands(n) ==> render(nodes, n).1.len() >= rule.len() && render(nodes, n).1.subrange(
                0,
                rule.len() as int,
            ) == rule
        }),
{
    let rule = "."@ + class_text(n.id) + "{"@ + joined(export_plan(n)) + "}"@;
    if expands(n) {
        law_container_export(nodes, n);
        let kids = kids_export(nodes, n.children@).1;
        assert((rule + kids).subrange(0, rule.len() as int) =~= rule);
    }
}

/// A box whose children are not stored, or a leaf, exports whatever the
/// rest of the map holds: hidden nodes export nothing (see
/// `law_hidden_renders_nothing`), and a visible text exports its paragraph.
pub proof fn law_leaf_export_needs_no_walk(nodes: Map<u128, Node>, n: Node)
    requires
        !expands(n),
    ensures
        export_ends(nodes, n),
{
}

/// A map in which no node has children is acyclic; a new document is one.
pub proof fn law_childless_nodes_acyclic(nodes: Map<u128, Node>)
    requires
        forall|k: u128| #[trigger] nodes.contains_key(k) ==> nodes[k].children@.len() == 0,
    ensures
        acyclic(nodes),
{
    let rank = Map::<u128, nat>::new(|k: u128| nodes.contains_key(k), |k: u128| 0nat);
    assert(ranked(nodes, rank));
}

/// `node` can hang under `parent` without closing a cycle: with `node` stored,
/// the nodes can be ranked so that `node` ranks below `parent` (nothing below
/// `node` leads back to `parent`).
pub open spec fn can_hang_under(before: Map<u128, Node>, node: Node, parent: u128) -> bool {
    let m = before.insert(node.id.0, node);
    exists|r: Map<u128, nat>| ranked(m, r) && (m.contains_key(parent) ==> r[node.id.0] < r[parent])
}

/// Putting `x` among the children of `parent`, where `x` ranks below `parent`,
/// keeps a ranking.
proof fn lemma_attach_keeps_rank(
    m: Map<u128, Node>,
    after: Map<u128, Node>,
    x: u128,
    parent: u128,
    kids: Seq<NodeId>,
    r: Map<u128, nat>,
)
    requires
        ranked(m, r),
        m.contains_key(x),
        m.contains_key(parent) ==> r[x] < r[parent],
        with_children(m, after, parent, kids),
        m.contains_key(parent) ==> forall|j: int|
            0 <= j < kids.len() ==> #[trigger] kids[j].0 == x || m[parent].children@.contains(kids[j]),
    ensures
        ranked(after, r),
{
    assert forall|k: u128| #[trigger] after.contains_key(k) implies {
        &&& r.contains_key(k)
        &&& forall|j: int|
            0 <= j < after[k].children@.len() && after.contains_key(#[trigger] after[k].children@[j].0) ==> r[after[k].children@[j].0]
                < r[k]
    } by {
        assert(m.contains_key(k));
        assert forall|j: int|
            0 <= j < after[k].children@.len() && after.contains_key(#[trigger] after[k].children@[j].0) implies r[after[k].children@[j].0]
            < r[k] by {
            if k == parent {
                assert(kids[j] == after[k].children@[j]);
                if kids[j].0 != x {
                    assert(m[parent].children@.contains(kids[j]));
                    let i = choose|i: int| 0 <= i < m[parent].children@.len() && m[parent].children@[i] == kids[j];
                    assert(m.contains_key(m[parent].children@[i].0));
                }
            } else {
                assert(after[k] == m[k]);
            }
        }
    }
}

/// Inserting a node under another keeps the document acyclic when the node
/// can hang there (`insert_node`, `insert_node_into`).
pub proof fn law_append_keeps_acyclic(before: Map<u128, Node>, after: Map<u128, Node>, node: Node, parent: u128)
    requires
        can_hang_under(before, node, parent),
        appended_under(before, after, node, parent),
    ensures
        acyclic(after),
{
    let m = before.insert(node.id.0, node);
    let r = choose|r: Map<u128, nat>| ranked(m, r) && (m.contains_key(parent) ==> r[node.id.0] < r[parent]);
    let kids = m[parent].children@.push(node.id);
    if m.contains_key(parent) {
        assert forall|j: int| 0 <= j < kids.len() implies #[trigger] kids[j].0 == node.id.0 || m[parent].children@.contains(
            kids[j],
        ) by {
            if j < kids.len() - 1 {
                assert(m[parent].children@[j] == kids[j]);
            }
        }
    }
    lemma_attach_keeps_rank(m, after, node.id.0, parent, kids, r);
}

/// Inserting a node at a position among the children of another keeps the
/// document acyclic when the node can hang there (`insert_at`).
pub proof fn law_insert_at_keeps_acyclic(
    before: Map<u128, Node>,
    after: Map<u128, Node>,
    node: Node,
    parent: u128,
    index: int,
)
    requires
        0 <= index,
        can_hang_under(before, node, parent),
        inserted_under(before, after, node, parent, index),
    ensures
        acyclic(after),
{
    let m = before.insert(node.id.0, node);
    let r = choose|r: Map<u128, nat>| ranked(m, r) && (m.contains_key(parent) ==> r[node.id.0] < r[parent]);
    let old = m[parent].children@;
    let at = clamp_index(index, old.len() as int);
    let kids = old.insert(at, node.id);
    if m.contains_key(parent) {
        old.insert_ensures(at, node.id);
        assert forall|j: int| 0 <= j < kids.len() implies #[trigger] kids[j].0 == node.id.0 || old.contains(kids[j]) by {
            if j < at {
                assert(kids[j] == old[j]);
            } else if j > at {
                assert(kids[(j - 1) + 1] == old[j - 1]);
            }
        }
    }
    lemma_attach_keeps_rank(m, after, node.id.0, parent, kids, r);
}

/// A node without children can hang under any other node of an acyclic
/// document; every node made by `Node::new` is such a node.
pub proof fn law_childless_can_hang(before: Map<u128, Node>, node: Node, parent: u128)
    requires
        acyclic(before),
        node.children@.len() == 0,
        parent != node.id.0,
    ensures
        can_hang_under(before, node, parent),
{
    let m = before.insert(node.id.0, node);
    let r0 = choose|r: Map<u128, nat>| ranked(before, r);
    let x = node.id.0;
    let r1 = Map::<u128, nat>::new(|k: u128| m.contains_key(k), |k: u128| if k == x { 0nat } else { r0[k] + 1 });
    assert forall|k: u128| #[trigger] m.contains_key(k) implies {
        &&& r1.contains_key(k)
        &&& forall|j: int|
            0 <= j < m[k].children@.len() && m.contains_key(#[trigger] m[k].children@[j].0) ==> r1[m[k].children@[j].0]
                < r1[k]
    } by {
        if k != x {
            assert(before.contains_key(k));
            assert(m[k] == before[k]);
            assert forall|j: int|
                0 <= j < m[k].children@.len() && m.contains_key(#[trigger] m[k].children@[j].0) implies r1[m[k].children@[j].0]
                < r1[k] by {
                let c = m[k].children@[j].0;
                if c != x {
                    assert(before.contains_key(c));
                }
            }
        }
    }
    assert(ranked(m, r1));
    if m.contains_key(parent) {
        assert(r1[x] < r1[parent]);
    }
}

/// Removing a node keeps the document acyclic (`remove_node`).
pub proof fn law_remove_keeps_acyclic(before: Map<u128, Node>, after: Map<u128, Node>, id: NodeId)
    requires
        acyclic(before),
        after.dom() == before.dom().remove(id.0),
        forall|k: u128| #[trigger] after.contains_key(k) ==> detached(before, after, k, id),
    ensures
        acyclic(after),
{
    let r0 = choose|r: Map<u128, nat>| ranked(before, r);
    assert forall|k: u128| #[trigger] after.contains_key(k) implies {
        &&& r0.contains_key(k)
        &&& forall|j: int|
            0 <= j < after[k].children@.len() && after.contains_key(#[trigger] after[k].children@[j].0) ==> r0[after[k].children@[j].0]
                < r0[k]
    } by {
        assert(before.contains_key(k));
        assert(detached(before, after, k, id));
        assert forall|j: int|
            0 <= j < after[k].children@.len() && after.contains_key(#[trigger] after[k].children@[j].0) implies r0[after[k].children@[j].0]
            < r0[k] by {
            let kids = before[k].children@;
            let c = after[k].children@[j];
            assert(kids.filter(not_id(id)).contains(c));
            kids.lemma_filter_contains_rev(not_id(id), c);
            let i = choose|i: int| 0 <= i < kids.len() && kids[i] == c;
            assert(before.contains_key(kids[i].0));
        }
    }
    assert(ranked(after, r0));
}

/// Moving a node among its siblings keeps the document acyclic
/// (`move_sibling`).
pub proof fn law_move_keeps_acyclic(
    before: Map<u128, Node>,
    after: Map<u128, Node>,
    p: u128,
    child: NodeId,
    dir: SiblingDirection,
    r: Result<(), crate::document::MoveError>,
)
    requires
        acyclic(before),
        before.contains_key(p),
        moved_among(before, after, p, child, dir, r),
    ensures
        acyclic(after),
{
    let r0 = choose|r: Map<u128, nat>| ranked(before, r);
    let kids = before[p].children@;
    lemma_find_first(kids, child, 0);
    let i = find_first(kids, child, 0)->0;
    let (a, b) = match dir {
        SiblingDirection::Up => (i - 1, i),
        SiblingDirection::Down => (i, i + 1),
    };
    if after != before {
        assert(with_children(before, after, p, swap_at(kids, a, b)));
        assert forall|k: u128| #[trigger] after.contains_key(k) implies {
            &&& r0.contains_key(k)
            &&& forall|j: int|
                0 <= j < after[k].children@.len() && after.contains_key(#[trigger] after[k].children@[j].0) ==> r0[after[k].children@[j].0]
                    < r0[k]
        } by {
            assert(before.contains_key(k));
            assert forall|j: int|
                0 <= j < after[k].children@.len() && after.contains_key(#[trigger] after[k].children@[j].0) implies r0[after[k].children@[j].0]
                < r0[k] by {
                if k == p {
                    let w = if j == a { b } else if j == b { a } else { j };
                    assert(after[k].children@[j] == kids[w]);
                    assert(before.contains_key(kids[w].0));
                } else {
                    assert(after[k] == before[k]);
                }
            }
        }
        assert(ranked(after, r0));
    }
}

} // verus!
