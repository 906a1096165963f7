//! The CSS declarations of a node's layout and appearance.
//!
//! Lengths, percentages and the opacity are single-precision bit patterns; the
//! functions here decide which declarations a node gets and in what order, and
//! hand each number on as its bit pattern for the caller to print.
use vstd::prelude::*;

use crate::document::Node;
use crate::decimal::{fixed_decimal, fixed_text};
use crate::export::{alignment_css, alignment_text, color_css, color_text};
use crate::style::Alignment;
use crate::style::{Color, Display, FlexDirection, Size, Spacing};
use crate::text::{dec_string, dec_text};

verus! {

/// The bit pattern of the single-precision value nearest to 0.999, below which
/// an opacity is written out.
pub const OPACITY_LIMIT_BITS: u32 = 0x3f7f_be77u32;

/// The single-precision value with bit pattern `b` is greater than zero: a
/// positive finite number or positive infinity (NaN and both zeros are not).
pub open spec fn positive_bits(b: u32) -> bool {
    0 < b && b <= 0x7f80_0000
}

/// The single-precision value with bit pattern `b` is less than the positive
/// finite value with bit pattern `t`: either a smaller non-negative value, or a
/// negative one (a zero or infinity included, NaN excluded).
pub open spec fn below_bits(b: u32, t: u32) -> bool {
    b < t || (0x8000_0000 <= b && b <= 0xff80_0000)
}

/// `x > 0.0` for a single-precision bit pattern.
pub fn is_positive(x: u32) -> (r: bool)
    ensures
        r == positive_bits(x),
{
    0 < x && x <= 0x7f80_0000
}

/// `x < 0.999` for a single-precision bit pattern.
pub fn below_opacity_limit(x: u32) -> (r: bool)
    ensures
        r == below_bits(x, OPACITY_LIMIT_BITS),
{
    x < OPACITY_LIMIT_BITS || (0x8000_0000 <= x && x <= 0xff80_0000)
}

/// The value of a CSS declaration: text, or numbers as single-precision bit
/// patterns for the caller to print.
#[derive(Debug, Clone)]
pub enum CssValue {
    /// Text written as it is.
    Text(String),
    /// A length in pixels.
    Px(u32),
    /// A percentage.
    Percent(u32),
    /// Four lengths in pixels: top, right, bottom, left.
    Edges(Spacing),
    /// A plain number.
    Number(u32),
    /// A color whose alpha is written as the fraction `a / 255`.
    Rgba(Color),
}

/// A value as mathematics sees it.
pub enum ValueView {
    Text(Seq<char>),
    Px(u32),
    Percent(u32),
    Edges(Spacing),
    Number(u32),
    Rgba(Color),
}

/// One CSS declaration: `property:value`.
#[derive(Debug, Clone)]
pub struct Decl {
    pub property: String,
    pub value: CssValue,
}

impl View for Decl {
    type V = (Seq<char>, ValueView);

    open spec fn view(&self) -> (Seq<char>, ValueView) {
        (
            self.property@,
            match self.value {
                CssValue::Text(s) => ValueView::Text(s@),
                CssValue::Px(v) => ValueView::Px(v),
                CssValue::Percent(v) => ValueView::Percent(v),
                CssValue::Edges(e) => ValueView::Edges(e),
                CssValue::Number(v) => ValueView::Number(v),
                CssValue::Rgba(c) => ValueView::Rgba(c),
            },
        )
    }
}

/// A declaration with a text value.
pub open spec fn text_decl(p: Seq<char>, v: Seq<char>) -> (Seq<char>, ValueView) {
    (p, ValueView::Text(v))
}

/// The declarations `decls` views as the list `plan`.
pub open spec fn decls_are(decls: Seq<Decl>, plan: Seq<(Seq<char>, ValueView)>) -> bool {
    &&& decls.len() == plan.len()
    &&& forall|i: int| 0 <= i < decls.len() ==> #[trigger] decls[i]@ == plan[i]
}

/// `display:..`.
pub open spec fn display_part(d: Display) -> Seq<(Seq<char>, ValueView)> {
    seq![
        text_decl(
            "display"@,
            match d {
                Display::Flex => "flex"@,
                Display::Grid => "grid"@,
                Display::Block => "block"@,
            },
        ),
    ]
}

/// `flex-direction:..`.
pub open spec fn direction_part(d: FlexDirection) -> Seq<(Seq<char>, ValueView)> {
    seq![
        text_decl(
            "flex-direction"@,
            match d {
                FlexDirection::Row => "row"@,
                FlexDirection::Column => "column"@,
            },
        ),
    ]
}

/// `gap:..px` when the gap is greater than zero.
pub open spec fn gap_part(gap: u32) -> Seq<(Seq<char>, ValueView)> {
    if positive_bits(gap) {
        seq![("gap"@, ValueView::Px(gap))]
    } else {
        Seq::empty()
    }
}

/// `padding:..` when some edge is greater than zero.
pub open spec fn padding_part(p: Spacing) -> Seq<(Seq<char>, ValueView)> {
    if positive_bits(p.top) || positive_bits(p.right) || positive_bits(p.bottom) || positive_bits(
        p.left,
    ) {
        seq![("padding"@, ValueView::Edges(p))]
    } else {
        Seq::empty()
    }
}

/// `width:..` or `height:..` unless the size is automatic.
pub open spec fn size_part(name: Seq<char>, s: Size) -> Seq<(Seq<char>, ValueView)> {
    match s {
        Size::Fixed(v) => seq![(name, ValueView::Px(v))],
        Size::Percent(v) => seq![(name, ValueView::Percent(v))],
        Size::Fill => seq![text_decl(name, "100%"@)],
        Size::Auto => Seq::empty(),
    }
}

/// `opacity:..` when the opacity is below 0.999.
pub open spec fn opacity_part(o: u32) -> Seq<(Seq<char>, ValueView)> {
    if below_bits(o, OPACITY_LIMIT_BITS) {
        seq![("opacity"@, ValueView::Number(o))]
    } else {
        Seq::empty()
    }
}

/// The declarations of an exported node: display; for a flex box its
/// direction and alignments; gap; padding; width; height; background (its
/// alpha with three decimals); opacity.
pub open spec fn export_plan(n: Node) -> Seq<(Seq<char>, ValueView)> {
    let l = n.layout;
    let flex = if l.display == Display::Flex {
        direction_part(l.direction) + seq![
            text_decl("align-items"@, alignment_text(l.align_items)),
            text_decl("justify-content"@, alignment_text(l.justify_content)),
        ]
    } else {
        Seq::empty()
    };
    let background = match n.appearance.background {
        Some(c) => seq![text_decl("background"@, color_text(c))],
        None => Seq::empty(),
    };
    display_part(l.display) + flex + gap_part(l.gap) + padding_part(l.padding) + size_part(
        "width"@,
        l.width,
    ) + size_part("height"@, l.height) + background + opacity_part(n.appearance.opacity)
}

/// The declarations of a node drawn on the canvas: display; direction; gap;
/// padding; width; height; background; opacity.
pub open spec fn inline_plan(n: Node) -> Seq<(Seq<char>, ValueView)> {
    let l = n.layout;
    let background = match n.appearance.background {
        Some(c) => seq![("background"@, ValueView::Rgba(c))],
        None => Seq::empty(),
    };
    display_part(l.display) + direction_part(l.direction) + gap_part(l.gap) + padding_part(
        l.padding,
    ) + size_part("width"@, l.width) + size_part("height"@, l.height) + background
        + opacity_part(n.appearance.opacity)
}

/// Every declaration of `p` names a property of at most ten characters.
spec fn short_names(p: Seq<(Seq<char>, ValueView)>) -> bool {
    forall|j: int| 0 <= j < p.len() ==> (#[trigger] p[j]).0.len() <= 10
}

/// The declarations after the flex part (gap, padding, sizes, background,
/// opacity) all name properties of at most ten characters.
proof fn lemma_tail_names(n: Node)
    ensures
        short_names(
            gap_part(n.layout.gap) + padding_part(n.layout.padding) + size_part("width"@, n.layout.width)
                + size_part("height"@, n.layout.height) + match n.appearance.background {
                Some(c) => seq![text_decl("background"@, color_text(c))],
                None => Seq::empty(),
            } + opacity_part(n.appearance.opacity),
        ),
{
    reveal_strlit("gap");
    reveal_strlit("padding");
    reveal_strlit("width");
    reveal_strlit("height");
    reveal_strlit("background");
    reveal_strlit("opacity");
    let l = n.layout;
    let a = gap_part(l.gap);
    let b = padding_part(l.padding);
    let c = size_part("width"@, l.width);
    let d = size_part("height"@, l.height);
    let e = match n.appearance.background {
        Some(c) => seq![text_decl("background"@, color_text(c))],
        None => Seq::empty(),
    };
    let f = opacity_part(n.appearance.opacity);
    assert(short_names(a) && short_names(b) && short_names(c) && short_names(d) && short_names(e)
        && short_names(f));
    assert(short_names(a + b));
    assert(short_names(a + b + c));
    assert(short_names(a + b + c + d));
    assert(short_names(a + b + c + d + e));
    assert(short_names(a + b + c + d + e + f));
}

/// For a flex box, the exported declarations set `align-items` to the CSS
/// keyword of the layout's item alignment and `justify-content` to the keyword
/// of its content justification: each property is declared, and wherever it
/// is declared it has that value, whatever the other alignment is.
pub proof fn law_flex_alignments(n: Node)
    requires
        n.layout.display == Display::Flex,
    ensures
        ({
            let p = export_plan(n);
            let ai = ValueView::Text(alignment_text(n.layout.align_items));
            let jc = ValueView::Text(alignment_text(n.layout.justify_content));
            &&& exists|i: int| 0 <= i < p.len() && #[trigger] p[i] == ("align-items"@, ai)
            &&& exists|i: int| 0 <= i < p.len() && #[trigger] p[i] == ("justify-content"@, jc)
            &&& forall|i: int| 0 <= i < p.len() && (#[trigger] p[i]).0 == "align-items"@ ==> p[i].1 == ai
            &&& forall|i: int| 0 <= i < p.len() && (#[trigger] p[i]).0 == "justify-content"@ ==> p[i].1 == jc
        }),
{
    reveal_strlit("display");
    reveal_strlit("flex-direction");
    reveal_strlit("align-items");
    reveal_strlit("justify-content");
    assert("display"@.len() == 7 && "flex-direction"@.len() == 14);
    assert("align-items"@.len() == 11 && "justify-content"@.len() == 15);
    let l = n.layout;
    let head = display_part(l.display) + (direction_part(l.direction) + seq![
        text_decl("align-items"@, alignment_text(l.align_items)),
        text_decl("justify-content"@, alignment_text(l.justify_content)),
    ]);
    let tail = gap_part(l.gap) + padding_part(l.padding) + size_part("width"@, l.width) + size_part(
        "height"@,
        l.height,
    ) + match n.appearance.background {
        Some(c) => seq![text_decl("background"@, color_text(c))],
        None => Seq::empty(),
    } + opacity_part(n.appearance.opacity);
    let p = export_plan(n);
    lemma_tail_names(n);
    assert(p =~= head + tail);
    assert(head.len() == 4);
    assert(p[2] == text_decl("align-items"@, alignment_text(l.align_items)));
    assert(p[3] == text_decl("justify-content"@, alignment_text(l.justify_content)));
    assert forall|i: int| 0 <= i < p.len() && (#[trigger] p[i]).0 == "align-items"@ implies p[i].1
        == ValueView::Text(alignment_text(l.align_items)) by {
        if i >= 4 {
            assert(p[i] == tail[i - 4]);
            assert(tail[i - 4].0.len() <= 10);
        } else if i == 0 {
            assert(p[0] == head[0]);
            assert(p[0].0 == "display"@);
        } else if i == 1 {
            assert(p[1] == head[1]);
            assert(p[1].0 == "flex-direction"@);
        }
    }
    assert forall|i: int| 0 <= i < p.len() && (#[trigger] p[i]).0 == "justify-content"@ implies p[i].1
        == ValueView::Text(alignment_text(l.justify_content)) by {
        if i >= 4 {
            assert(p[i] == tail[i - 4]);
            assert(tail[i - 4].0.len() <= 10);
        } else if i == 0 {
            assert(p[0] == head[0]);
            assert(p[0].0 == "display"@);
        } else if i == 1 {
            assert(p[1] == head[1]);
            assert(p[1].0 == "flex-direction"@);
        }
    }
}

/// Different alignments are written as different CSS keywords.
pub proof fn law_alignment_keywords_distinct(a: Alignment, b: Alignment)
    requires
        a != b,
    ensures
        alignment_text(a) != alignment_text(b),
{
    reveal_strlit("flex-start");
    reveal_strlit("center");
    reveal_strlit("flex-end");
    reveal_strlit("space-between");
    reveal_strlit("space-around");
    reveal_strlit("stretch");
    assert("flex-start"@.len() == 10);
    assert("center"@.len() == 6);
    assert("flex-end"@.len() == 8);
    assert("space-between"@.len() == 13);
    assert("space-around"@.len() == 12);
    assert("stretch"@.len() == 7);
    assert(alignment_text(a).len() != alignment_text(b).len());
}

fn text_value(property: &str, value: &str) -> (d: Decl)
    ensures
        d@ == text_decl(property@, value@),
{
    Decl { property: String::from_str(property), value: CssValue::Text(String::from_str(value)) }
}

/// Appends `d`, keeping `r` in step with `plan`.
fn append_decl(r: &mut Vec<Decl>, Ghost(plan): Ghost<Seq<(Seq<char>, ValueView)>>, d: Decl)
    requires
        decls_are(old(r)@, plan),
    ensures
        decls_are(final(r)@, plan.push(d@)),
{
    let ghost before = r@;
    r.push(d);
    assert forall|i: int| 0 <= i < r@.len() implies #[trigger] r@[i]@ == plan.push(d@)[i] by {
        if i < before.len() {
            assert(r@[i] == before[i]);
        }
    }
}

fn display_decl(d: Display) -> (r: Decl)
    ensures
        seq![r@] == display_part(d),
{
    let v = match d {
        Display::Flex => "flex",
        Display::Grid => "grid",
        Display::Block => "block",
    };
    text_value("display", v)
}

fn direction_decl(d: FlexDirection) -> (r: Decl)
    ensures
        seq![r@] == direction_part(d),
{
    let v = match d {
        FlexDirection::Row => "row",
        FlexDirection::Column => "column",
    };
    text_value("flex-direction", v)
}

/// Appends the declarations shared by both plans after the flex part: gap,
/// padding, width and height.
fn add_box(r: &mut Vec<Decl>, Ghost(plan): Ghost<Seq<(Seq<char>, ValueView)>>, n: &Node)
    requires
        decls_are(old(r)@, plan),
    ensures
        decls_are(
            final(r)@,
            plan + gap_part(n.layout.gap) + padding_part(n.layout.padding) + size_part(
                "width"@,
                n.layout.width,
            ) + size_part("height"@, n.layout.height),
        ),
{
    let ghost mut p = plan;
    let l = &n.layout;
    if is_positive(l.gap) {
        append_decl(r, Ghost(p), Decl { property: String::from_str("gap"), value: CssValue::Px(l.gap) });
        proof {
            p = p.push(r@[r@.len() - 1]@);
        }
    }
    assert(p == plan + gap_part(l.gap));
    let ghost p1 = p;
    let e = l.padding;
    if is_positive(e.top) || is_positive(e.right) || is_positive(e.bottom) || is_positive(e.left) {
        append_decl(r, Ghost(p), Decl { property: String::from_str("padding"), value: CssValue::Edges(e) });
        proof {
            p = p.push(r@[r@.len() - 1]@);
        }
    }
    assert(p == p1 + padding_part(l.padding));
    let ghost p2 = p;
    match l.width {
        Size::Fixed(v) => {
            append_decl(r, Ghost(p), Decl { property: String::from_str("width"), value: CssValue::Px(v) });
            proof {
                p = p.push(r@[r@.len() - 1]@);
            }
        },
        Size::Percent(v) => {
            append_decl(r, Ghost(p), Decl { property: String::from_str("width"), value: CssValue::Percent(v) });
            proof {
                p = p.push(r@[r@.len() - 1]@);
            }
        },
        Size::Fill => {
            append_decl(r, Ghost(p), text_value("width", "100%"));
            proof {
                p = p.push(r@[r@.len() - 1]@);
            }
        },
        Size::Auto => {},
    }
    assert(p == p2 + size_part("width"@, l.width));
    let ghost p3 = p;
    match l.height {
        Size::Fixed(v) => {
            append_decl(r, Ghost(p), Decl { property: String::from_str("height"), value: CssValue::Px(v) });
            proof {
                p = p.push(r@[r@.len() - 1]@);
            }
        },
        Size::Percent(v) => {
            append_decl(r, Ghost(p), Decl { property: String::from_str("height"), value: CssValue::Percent(v) });
            proof {
                p = p.push(r@[r@.len() - 1]@);
            }
        },
        Size::Fill => {
            append_decl(r, Ghost(p), text_value("height", "100%"));
            proof {
                p = p.push(r@[r@.len() - 1]@);
            }
        },
        Size::Auto => {},
    }
    assert(p == p3 + size_part("height"@, l.height));
}

/// The CSS declarations of an exported node, in order: display; for a flex
/// box its direction and alignments; gap and padding when greater than zero;
/// width and height unless automatic; background; opacity when below 0.999.
pub fn layout_decls(node: &Node) -> (r: Vec<Decl>)
    ensures
        decls_are(r@, export_plan(*node)),
{
    let mut r: Vec<Decl> = Vec::new();
    let l = &node.layout;
    let a = &node.appearance;
    let ghost mut p: Seq<(Seq<char>, ValueView)> = Seq::empty();
    append_decl(&mut r, Ghost(p), display_decl(l.display));
    proof {
        p = p.push(r@[r@.len() - 1]@);
    }
    assert(p == display_part(l.display));
    let ghost p0 = p;
    if l.display == Display::Flex {
        append_decl(&mut r, Ghost(p), direction_decl(l.direction));
        proof {
            p = p.push(r@[r@.len() - 1]@);
        }
        append_decl(&mut r, Ghost(p), text_value("align-items", alignment_css(&l.align_items)));
        proof {
            p = p.push(r@[r@.len() - 1]@);
        }
        append_decl(&mut r, Ghost(p), text_value("justify-content", alignment_css(&l.justify_content)));
        proof {
            p = p.push(r@[r@.len() - 1]@);
        }
    }
    let ghost flex = if l.display == Display::Flex {
        direction_part(l.direction) + seq![
            text_decl("align-items"@, alignment_text(l.align_items)),
            text_decl("justify-content"@, alignment_text(l.justify_content)),
        ]
    } else {
        Seq::<(Seq<char>, ValueView)>::empty()
    };
    assert(p == p0 + flex);
    let ghost p1 = p;
    add_box(&mut r, Ghost(p), node);
    proof {
        p = p + gap_part(l.gap) + padding_part(l.padding) + size_part("width"@, l.width) + size_part(
            "height"@,
            l.height,
        );
    }
    let ghost p2 = p;
    match &a.background {
        Some(c) => {
            append_decl(&mut r, Ghost(p), Decl { property: String::from_str("background"), value: CssValue::Text(color_css(c)) });
            proof {
                p = p.push(r@[r@.len() - 1]@);
            }
        },
        None => {},
    }
    let ghost background = match a.background {
        Some(c) => seq![text_decl("background"@, color_text(c))],
        None => Seq::<(Seq<char>, ValueView)>::empty(),
    };
    assert(p == p2 + background);
    let ghost p3 = p;
    if below_opacity_limit(a.opacity) {
        append_decl(&mut r, Ghost(p), Decl { property: String::from_str("opacity"), value: CssValue::Number(a.opacity) });
        proof {
            p = p.push(r@[r@.len() - 1]@);
        }
    }
    assert(p == p3 + opacity_part(a.opacity));
    assert(p =~= export_plan(*node));
    r
}

/// The inline style of a node drawn on the canvas, in order: display;
/// direction; gap and padding when greater than zero; width and height unless
/// automatic; background; opacity when below 0.999.
pub fn node_inline_style(node: &Node) -> (r: Vec<Decl>)
    ensures
        decls_are(r@, inline_plan(*node)),
{
    let mut r: Vec<Decl> = Vec::new();
    let l = &node.layout;
    let a = &node.appearance;
    let ghost mut p: Seq<(Seq<char>, ValueView)> = Seq::empty();
    append_decl(&mut r, Ghost(p), display_decl(l.display));
    proof {
        p = p.push(r@[r@.len() - 1]@);
    }
    append_decl(&mut r, Ghost(p), direction_decl(l.direction));
    proof {
        p = p.push(r@[r@.len() - 1]@);
    }
    assert(p == display_part(l.display) + direction_part(l.direction));
    let ghost p1 = p;
    add_box(&mut r, Ghost(p), node);
    proof {
        p = p + gap_part(l.gap) + padding_part(l.padding) + size_part("width"@, l.width) + size_part(
            "height"@,
            l.height,
        );
    }
    let ghost p2 = p;
    match &a.background {
        Some(c) => {
            append_decl(&mut r, Ghost(p), Decl { property: String::from_str("background"), value: CssValue::Rgba(*c) });
            proof {
                p = p.push(r@[r@.len() - 1]@);
            }
        },
        None => {},
    }
    let ghost background = match a.background {
        Some(c) => seq![("background"@, ValueView::Rgba(c))],
        None => Seq::<(Seq<char>, ValueView)>::empty(),
    };
    assert(p == p2 + background);
    let ghost p3 = p;
    if below_opacity_limit(a.opacity) {
        append_decl(&mut r, Ghost(p), Decl { property: String::from_str("opacity"), value: CssValue::Number(a.opacity) });
        proof {
            p = p.push(r@[r@.len() - 1]@);
        }
    }
    assert(p == p3 + opacity_part(a.opacity));
    assert(p =~= inline_plan(*node));
    r
}

/// A value as the exported style sheet writes it: lengths and percentages
/// with one decimal, plain numbers with three.
pub open spec fn value_text(v: ValueView) -> Seq<char> {
    match v {
        ValueView::Text(s) => s,
        ValueView::Px(b) => fixed_text(b, 1) + "px"@,
        ValueView::Percent(b) => fixed_text(b, 1) + "%"@,
        ValueView::Edges(e) => fixed_text(e.top, 1) + "px "@ + fixed_text(e.right, 1) + "px "@ + fixed_text(
            e.bottom,
            1,
        ) + "px "@ + fixed_text(e.left, 1) + "px"@,
        ValueView::Number(b) => fixed_text(b, 3),
        ValueView::Rgba(c) => color_text(c),
    }
}

/// `property:value`.
pub open spec fn decl_line(d: (Seq<char>, ValueView)) -> Seq<char> {
    d.0 + ":"@ + value_text(d.1)
}

/// The declarations of `plan` joined by `;`.
pub open spec fn joined(plan: Seq<(Seq<char>, ValueView)>) -> Seq<char>
    decreases plan.len(),
{
    if plan.len() == 0 {
        Seq::empty()
    } else if plan.len() == 1 {
        decl_line(plan[0])
    } else {
        joined(plan.drop_last()) + ";"@ + decl_line(plan.last())
    }
}

/// The text of a value as the exported style sheet writes it.
fn value_string(v: &CssValue) -> (s: String)
    ensures
        s@ == value_text(
            match *v {
                CssValue::Text(t) => ValueView::Text(t@),
                CssValue::Px(b) => ValueView::Px(b),
                CssValue::Percent(b) => ValueView::Percent(b),
                CssValue::Edges(e) => ValueView::Edges(e),
                CssValue::Number(b) => ValueView::Number(b),
                CssValue::Rgba(c) => ValueView::Rgba(c),
            },
        ),
{
    match v {
        CssValue::Text(t) => t.clone(),
        CssValue::Px(b) => {
            let mut s = fixed_decimal(*b, 1);
            s.append("px");
            s
        },
        CssValue::Percent(b) => {
            let mut s = fixed_decimal(*b, 1);
            s.append("%");
            s
        },
        CssValue::Edges(e) => {
            let mut s = fixed_decimal(e.top, 1);
            s.append("px ");
            s.append(fixed_decimal(e.right, 1).as_str());
            s.append("px ");
            s.append(fixed_decimal(e.bottom, 1).as_str());
            s.append("px ");
            s.append(fixed_decimal(e.left, 1).as_str());
            s.append("px");
            s
        },
        CssValue::Number(b) => fixed_decimal(*b, 3),
        CssValue::Rgba(c) => color_css(c),
    }
}

/// The declarations joined by `;`, each as `property:value`.
pub fn css_text(decls: &Vec<Decl>) -> (s: String)
    ensures
        s@ == joined(decls@.map_values(|d: Decl| d@)),
{
    let ghost views = decls@.map_values(|d: Decl| d@);
    let mut s = String::new();
    let mut i: usize = 0;
    while i < decls.len()
        invariant
            i <= decls@.len(),
            views == decls@.map_values(|d: Decl| d@),
            s@ == joined(views.take(i as int)),
        decreases decls@.len() - i,
    {
        let d = &decls[i];
        proof {
            assert(views.take(i + 1).drop_last() =~= views.take(i as int));
            assert(views.take(i + 1).last() == d@);
            if i == 0 {
                assert(views.take(0) =~= Seq::<(Seq<char>, ValueView)>::empty());
            }
        }
        if i > 0 {
            s.append(";");
        }
        s.append(d.property.as_str());
        s.append(":");
        let v = value_string(&d.value);
        s.append(v.as_str());
        proof {
            reveal_strlit(";");
            reveal_strlit(":");
        }
        assert(s@ =~= joined(views.take(i + 1)));
        i = i + 1;
    }
    assert(views.take(i as int) =~= views);
    s
}

/// The CSS declarations of an exported node (see `layout_decls`), joined by
/// `;`: lengths with one decimal, the opacity with three.
pub fn layout_to_css(node: &Node) -> (s: String)
    ensures
        s@ == joined(export_plan(*node)),
{
    let decls = layout_decls(node);
    proof {
        assert(decls@.map_values(|d: Decl| d@) =~= export_plan(*node));
    }
    css_text(&decls)
}

/// The inspector's text for a background: `rgb(r g b)`, or `None`.
pub open spec fn background_text(bg: Option<Color>) -> Seq<char> {
    match bg {
        Some(c) => "rgb("@ + dec_text(c.r as nat) + " "@ + dec_text(c.g as nat) + " "@ + dec_text(c.b as nat) + ")"@,
        None => "None"@,
    }
}

/// The inspector's text for a background: `rgb(r g b)`, or `None`.
pub fn background_label(bg: Option<Color>) -> (s: String)
    ensures
        s@ == background_text(bg),
{
    match bg {
        Some(c) => {
            let mut s = String::from_str("rgb(");
            s.append(dec_string(c.r as u128).as_str());
            s.append(" ");
            s.append(dec_string(c.g as u128).as_str());
            s.append(" ");
            s.append(dec_string(c.b as u128).as_str());
            s.append(")");
            s
        },
        None => String::from_str("None"),
    }
}

} // verus!
