//! Node kinds and style values.
use vstd::prelude::*;

verus! {

/// Structural kind of a visual node.
#[derive(Debug, Clone, Copy, PartialEq, Eq, Structural)]
pub enum NodeKind {
    Section,
    Stack,
    Text,
    Button,
    Image,
    Divider,
    Spacer,
    Container,
}

/// The display name of a kind.
pub open spec fn kind_label(k: NodeKind) -> Seq<char> {
    match k {
        NodeKind::Section => "Section"@,
        NodeKind::Stack => "Stack"@,
        NodeKind::Text => "Text"@,
        NodeKind::Button => "Button"@,
        NodeKind::Image => "Image"@,
        NodeKind::Divider => "Divider"@,
        NodeKind::Spacer => "Spacer"@,
        NodeKind::Container => "Container"@,
    }
}

/// The glyph shown for a kind in the layer list.
pub open spec fn kind_icon(k: NodeKind) -> Seq<char> {
    match k {
        NodeKind::Section => "⬜"@,
        NodeKind::Stack => "⊞"@,
        NodeKind::Text => "T"@,
        NodeKind::Button => "◉"@,
        NodeKind::Image => "🖼"@,
        NodeKind::Divider => "—"@,
        NodeKind::Spacer => "↕"@,
        NodeKind::Container => "▭"@,
    }
}

impl NodeKind {
    pub fn label(&self) -> (s: &'static str)
        ensures
            s@ == kind_label(*self),
    {
        match self {
            NodeKind::Section => "Section",
            NodeKind::Stack => "Stack",
            NodeKind::Text => "Text",
            NodeKind::Button => "Button",
            NodeKind::Image => "Image",
            NodeKind::Divider => "Divider",
            NodeKind::Spacer => "Spacer",
            NodeKind::Container => "Container",
        }
    }

    pub fn icon(&self) -> (s: &'static str)
        ensures
            s@ == kind_icon(*self),
    {
        match self {
            NodeKind::Section => "⬜",
            NodeKind::Stack => "⊞",
            NodeKind::Text => "T",
            NodeKind::Button => "◉",
            NodeKind::Image => "🖼",
            NodeKind::Divider => "—",
            NodeKind::Spacer => "↕",
            NodeKind::Container => "▭",
        }
    }
}

/// An RGBA color with 8-bit channels.
#[derive(Debug, Clone, Copy, PartialEq, Eq, Structural)]
pub struct Color {
    pub r: u8,
    pub g: u8,
    pub b: u8,
    pub a: u8,
}

impl Color {
    pub fn rgba(r: u8, g: u8, b: u8, a: u8) -> (c: Self)
        ensures
            c == (Color { r, g, b, a }),
    {
        Color { r, g, b, a }
    }

    /// An opaque color.
    pub fn rgb(r: u8, g: u8, b: u8) -> (c: Self)
        ensures
            c == (Color { r, g, b, a: 255 }),
    {
        Color { r, g, b, a: 255 }
    }

    /// Fully transparent black (`TRANSPARENT`).
    pub fn transparent() -> (c: Self)
        ensures
            c == (Color { r: 0, g: 0, b: 0, a: 0 }),
    {
        Color { r: 0, g: 0, b: 0, a: 0 }
    }

    /// Opaque white (`WHITE`).
    pub fn white() -> (c: Self)
        ensures
            c == (Color { r: 255, g: 255, b: 255, a: 255 }),
    {
        Color { r: 255, g: 255, b: 255, a: 255 }
    }

    /// Opaque black (`BLACK`).
    pub fn black() -> (c: Self)
        ensures
            c == (Color { r: 0, g: 0, b: 0, a: 255 }),
    {
        Color { r: 0, g: 0, b: 0, a: 255 }
    }

    /// The brand purple (`BRAND`), `rgb(155, 123, 255)`.
    pub fn brand() -> (c: Self)
        ensures
            c == (Color { r: 155, g: 123, b: 255, a: 255 }),
    {
        Color::rgb(155, 123, 255)
    }
}


/// CSS display mode of a node.
#[derive(Debug, Clone, Copy, PartialEq, Eq, Structural)]
pub enum Display {
    Flex,
    Grid,
    Block,
}

#[derive(Debug, Clone, Copy, PartialEq, Eq, Structural)]
pub enum FlexDirection {
    Row,
    Column,
}

#[derive(Debug, Clone, Copy, PartialEq, Eq, Structural)]
pub enum Alignment {
    Start,
    Center,
    End,
    SpaceBetween,
    SpaceAround,
    Stretch,
}

/// The bit pattern of the single-precision value 1.0.
pub const ONE_BITS: u32 = 0x3f80_0000u32;

/// Four box edges. Each edge is the IEEE-754 single-precision bit pattern of
/// its length in pixels.
#[derive(Debug, Clone, Copy, PartialEq, Eq, Structural)]
pub struct Spacing {
    pub top: u32,
    pub right: u32,
    pub bottom: u32,
    pub left: u32,
}

impl Spacing {
    /// All four edges zero.
    pub fn zero() -> (s: Self)
        ensures
            s == (Spacing { top: 0, right: 0, bottom: 0, left: 0 }),
    {
        Spacing { top: 0, right: 0, bottom: 0, left: 0 }
    }

    /// All four edges the same length `v` (a single-precision bit pattern).
    pub fn all(v: u32) -> (s: Self)
        ensures
            s == (Spacing { top: v, right: v, bottom: v, left: v }),
    {
        Spacing { top: v, right: v, bottom: v, left: v }
    }
}

impl Default for Spacing {
    fn default() -> (s: Self)
        ensures
            s == (Spacing { top: 0, right: 0, bottom: 0, left: 0 }),
    {
        Spacing::zero()
    }
}

/// A width or height. `Fixed` holds pixels and `Percent` a percentage, each as a
/// single-precision bit pattern.
#[derive(Debug, Clone, Copy, PartialEq, Eq, Structural)]
pub enum Size {
    Auto,
    Fixed(u32),
    Percent(u32),
    Fill,
}

/// Box layout of a node. `gap` is a single-precision bit pattern (pixels).
#[derive(Debug, Clone, Copy, PartialEq, Eq, Structural)]
pub struct Layout {
    pub display: Display,
    pub direction: FlexDirection,
    pub align_items: Alignment,
    pub justify_content: Alignment,
    pub gap: u32,
    pub padding: Spacing,
    pub margin: Spacing,
    pub width: Size,
    pub height: Size,
}

/// The layout a new node starts with: a full-width flex column, no spacing.
pub open spec fn default_layout() -> Layout {
    Layout {
        display: Display::Flex,
        direction: FlexDirection::Column,
        align_items: Alignment::Start,
        justify_content: Alignment::Start,
        gap: 0,
        padding: Spacing { top: 0, right: 0, bottom: 0, left: 0 },
        margin: Spacing { top: 0, right: 0, bottom: 0, left: 0 },
        width: Size::Fill,
        height: Size::Auto,
    }
}

impl Default for Layout {
    fn default() -> (l: Self)
        ensures
            l == default_layout(),
    {
        Layout {
            display: Display::Flex,
            direction: FlexDirection::Column,
            align_items: Alignment::Start,
            justify_content: Alignment::Start,
            gap: 0,
            padding: Spacing::zero(),
            margin: Spacing::zero(),
            width: Size::Fill,
            height: Size::Auto,
        }
    }
}

/// A border; `width` and `radius` are single-precision bit patterns (pixels).
#[derive(Debug, Clone, Copy, PartialEq, Eq, Structural)]
pub struct Border {
    pub width: u32,
    pub color: Color,
    pub radius: u32,
}

/// A box shadow; the four lengths are single-precision bit patterns (pixels).
#[derive(Debug, Clone, Copy, PartialEq, Eq, Structural)]
pub struct Shadow {
    pub x: u32,
    pub y: u32,
    pub blur: u32,
    pub spread: u32,
    pub color: Color,
    pub inset: bool,
}

/// Fill, border, opacity and shadows of a node. `opacity` is a single-precision
/// bit pattern.
#[derive(Debug, Clone)]
pub struct Appearance {
    pub background: Option<Color>,
    pub border: Option<Border>,
    pub opacity: u32,
    pub shadows: Vec<Shadow>,
}

impl Default for Appearance {
    /// No background, no border, opacity 1.0 and no shadows.
    fn default() -> (a: Self)
        ensures
            a.background.is_none(),
            a.border.is_none(),
            a.opacity == ONE_BITS,
            a.shadows@.len() == 0,
    {
        Appearance { background: None, border: None, opacity: ONE_BITS, shadows: Vec::new() }
    }
}

#[derive(Debug, Clone, Copy, PartialEq, Eq, Structural)]
pub enum TextAlign {
    Left,
    Center,
    Right,
    Justify,
}

/// Text style. `font_size`, `line_height` and `letter_spacing` are
/// single-precision bit patterns.
#[derive(Debug, Clone)]
pub struct Typography {
    pub font_family: String,
    pub font_size: u32,
    pub font_weight: u16,
    pub color: Color,
    pub line_height: u32,
    pub letter_spacing: u32,
    pub align: TextAlign,
}

impl Default for Typography {
    /// Manrope 16px, weight 400, black, line height 1.5, left aligned.
    fn default() -> (t: Self)
        ensures
            t.font_family@ == "Manrope, sans-serif"@,
            t.font_size == 0x4180_0000u32,
            t.font_weight == 400,
            t.color == (Color { r: 0, g: 0, b: 0, a: 255 }),
            t.line_height == 0x3fc0_0000u32,
            t.letter_spacing == 0,
            t.align == TextAlign::Left,
    {
        Typography {
            font_family: String::from_str("Manrope, sans-serif"),
            font_size: 0x4180_0000u32,
            font_weight: 400,
            color: Color::black(),
            line_height: 0x3fc0_0000u32,
            letter_spacing: 0,
            align: TextAlign::Left,
        }
    }
}

} // verus!
