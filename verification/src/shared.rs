//! The project model of the free-form designer: components on artboards,
//! palette, disclosure level and viewport. Lengths, angles and factors are
//! IEEE-754 single-precision bit patterns.
use vstd::hash_map::StringHashMap;
use vstd::prelude::*;

use crate::ids::{is_random_uuid, random_uuid, uuid_hyphenated, uuid_to_string};

verus! {

/// Identifier of a component on an artboard.
#[derive(Debug, Clone, Copy, PartialEq, Eq, Hash, Structural)]
pub struct ComponentId(pub u128);

impl ComponentId {
    /// A fresh random identifier.
    pub fn new() -> (r: Self)
        ensures
            is_random_uuid(r.0),
    {
        ComponentId(random_uuid())
    }

    /// The hyphenated UUID text of this identifier.
    pub fn to_string(&self) -> (s: String)
        ensures
            s@ == uuid_hyphenated(self.0),
    {
        uuid_to_string(self.0)
    }
}

impl Default for ComponentId {
    fn default() -> (r: Self)
        ensures
            is_random_uuid(r.0),
    {
        ComponentId::new()
    }
}

/// Identifier of a project.
#[derive(Debug, Clone, Copy, PartialEq, Eq, Hash, Structural)]
pub struct ProjectId(pub u128);

impl ProjectId {
    /// A fresh random identifier.
    pub fn new() -> (r: Self)
        ensures
            is_random_uuid(r.0),
    {
        ProjectId(random_uuid())
    }

    /// The hyphenated UUID text of this identifier.
    pub fn to_string(&self) -> (s: String)
        ensures
            s@ == uuid_hyphenated(self.0),
    {
        uuid_to_string(self.0)
    }
}

impl Default for ProjectId {
    fn default() -> (r: Self)
        ensures
            is_random_uuid(r.0),
    {
        ProjectId::new()
    }
}

/// The catalogue of component types.
#[derive(Debug)]
pub enum ComponentKind {
    Button,
    Text,
    Image,
    Icon,
    Divider,
    Container,
    Row,
    Column,
    Grid,
    Stack,
    Navbar,
    Sidebar,
    Tab,
    Breadcrumb,
    Input,
    Textarea,
    Select,
    Checkbox,
    Radio,
    Toggle,
    Slider,
    DatePicker,
    Video,
    Audio,
    Carousel,
    Table,
    List,
    Card,
    Badge,
    Tag,
    ProductCard,
    PriceTag,
    CartIcon,
    Custom { name: String },
}

impl Clone for ComponentKind {
    fn clone(&self) -> (r: Self)
        ensures
            r == *self,
    {
        match self {
            ComponentKind::Button => ComponentKind::Button,
            ComponentKind::Text => ComponentKind::Text,
            ComponentKind::Image => ComponentKind::Image,
            ComponentKind::Icon => ComponentKind::Icon,
            ComponentKind::Divider => ComponentKind::Divider,
            ComponentKind::Container => ComponentKind::Container,
            ComponentKind::Row => ComponentKind::Row,
            ComponentKind::Column => ComponentKind::Column,
            ComponentKind::Grid => ComponentKind::Grid,
            ComponentKind::Stack => ComponentKind::Stack,
            ComponentKind::Navbar => ComponentKind::Navbar,
            ComponentKind::Sidebar => ComponentKind::Sidebar,
            ComponentKind::Tab => ComponentKind::Tab,
            ComponentKind::Breadcrumb => ComponentKind::Breadcrumb,
            ComponentKind::Input => ComponentKind::Input,
            ComponentKind::Textarea => ComponentKind::Textarea,
            ComponentKind::Select => ComponentKind::Select,
            ComponentKind::Checkbox => ComponentKind::Checkbox,
            ComponentKind::Radio => ComponentKind::Radio,
            ComponentKind::Toggle => ComponentKind::Toggle,
            ComponentKind::Slider => ComponentKind::Slider,
            ComponentKind::DatePicker => ComponentKind::DatePicker,
            ComponentKind::Video => ComponentKind::Video,
            ComponentKind::Audio => ComponentKind::Audio,
            ComponentKind::Carousel => ComponentKind::Carousel,
            ComponentKind::Table => ComponentKind::Table,
            ComponentKind::List => ComponentKind::List,
            ComponentKind::Card => ComponentKind::Card,
            ComponentKind::Badge => ComponentKind::Badge,
            ComponentKind::Tag => ComponentKind::Tag,
            ComponentKind::ProductCard => ComponentKind::ProductCard,
            ComponentKind::PriceTag => ComponentKind::PriceTag,
            ComponentKind::CartIcon => ComponentKind::CartIcon,
            ComponentKind::Custom { name } => ComponentKind::Custom { name: name.clone() },
        }
    }
}

/// A design token; `Spacing`, `FontSize` and `BorderRadius` hold
/// single-precision bit patterns.
#[derive(Debug, Clone)]
pub enum DesignToken {
    Color(String),
    Spacing(u32),
    FontSize(u32),
    FontWeight(u16),
    BorderRadius(u32),
    Shadow(String),
    Duration(u32),
}

/// Position and size of a component.
#[derive(Debug, Clone, Copy, PartialEq, Eq, Structural)]
pub struct Bounds {
    pub x: u32,
    pub y: u32,
    pub width: u32,
    pub height: u32,
}

impl Bounds {
    pub fn new(x: u32, y: u32, width: u32, height: u32) -> (b: Self)
        ensures
            b == (Bounds { x, y, width, height }),
    {
        Bounds { x, y, width, height }
    }
}

/// The bit pattern of the single-precision value 1.0.
pub const F32_ONE_BITS: u32 = 0x3f80_0000u32;

/// Style of a component. The lengths and the opacity are single-precision bit
/// patterns.
pub struct StyleProperties {
    pub background: Option<String>,
    pub border_color: Option<String>,
    pub border_width: Option<u32>,
    pub border_radius: Option<u32>,
    pub padding: [u32; 4],
    pub margin: [u32; 4],
    pub opacity: u32,
    pub font_size: Option<u32>,
    pub font_weight: Option<u16>,
    pub color: Option<String>,
    pub text_align: Option<String>,
    pub custom: StringHashMap<String>,
}

/// The style a new component starts with: nothing set, zero spacing, opaque.
pub open spec fn is_default_style(s: StyleProperties) -> bool {
    &&& s.background.is_none()
    &&& s.border_color.is_none()
    &&& s.border_width.is_none()
    &&& s.border_radius.is_none()
    &&& s.padding@ == seq![0u32, 0, 0, 0]
    &&& s.margin@ == seq![0u32, 0, 0, 0]
    &&& s.opacity == F32_ONE_BITS
    &&& s.font_size.is_none()
    &&& s.font_weight.is_none()
    &&& s.color.is_none()
    &&& s.text_align.is_none()
    &&& s.custom@ == Map::<Seq<char>, String>::empty()
}

impl Default for StyleProperties {
    fn default() -> (s: Self)
        ensures
            is_default_style(s),
    {
        let s = StyleProperties {
            background: None,
            border_color: None,
            border_width: None,
            border_radius: None,
            padding: [0u32; 4],
            margin: [0u32; 4],
            opacity: F32_ONE_BITS,
            font_size: None,
            font_weight: None,
            color: None,
            text_align: None,
            custom: StringHashMap::new(),
        };
        assert(s.padding@ =~= seq![0u32, 0, 0, 0]);
        assert(s.margin@ =~= seq![0u32, 0, 0, 0]);
        s
    }
}

/// A node of the canvas component tree. `rotation` is a single-precision bit
/// pattern (degrees).
pub struct CanvasComponent {
    pub id: ComponentId,
    pub kind: ComponentKind,
    pub name: String,
    pub bounds: Bounds,
    pub style: StyleProperties,
    pub children: Vec<CanvasComponent>,
    pub visible: bool,
    pub locked: bool,
    pub rotation: u32,
}

impl CanvasComponent {
    /// A visible, unlocked, unrotated component with default style, no
    /// children and a fresh id.
    pub fn new(kind: ComponentKind, name: &str, bounds: Bounds) -> (c: Self)
        ensures
            c.kind == kind,
            c.name@ == name@,
            c.bounds == bounds,
            is_default_style(c.style),
            c.children@.len() == 0,
            c.visible,
            !c.locked,
            c.rotation == 0,
            is_random_uuid(c.id.0),
    {
        CanvasComponent {
            id: ComponentId::new(),
            kind,
            name: String::from_str(name),
            bounds,
            style: StyleProperties::default(),
            children: Vec::new(),
            visible: true,
            locked: false,
            rotation: 0,
        }
    }
}

/// The colors of a project.
#[derive(Debug, Clone)]
pub struct ProjectPalette {
    pub primary: String,
    pub secondary: String,
    pub accent: String,
    pub surface: String,
    pub background: String,
    pub text: String,
    pub success: String,
    pub warning: String,
    pub error: String,
    pub custom: Vec<(String, String)>,
}

/// The palette a new project starts with.
pub open spec fn is_default_palette(p: ProjectPalette) -> bool {
    &&& p.primary@ == "#7c5cff"@
    &&& p.secondary@ == "#35cfff"@
    &&& p.accent@ == "#f06fff"@
    &&& p.surface@ == "#141821"@
    &&& p.background@ == "#090b10"@
    &&& p.text@ == "#f4f6fc"@
    &&& p.success@ == "#3cdda4"@
    &&& p.warning@ == "#ffc45f"@
    &&& p.error@ == "#ff647c"@
    &&& p.custom@.len() == 0
}

impl Default for ProjectPalette {
    fn default() -> (p: Self)
        ensures
            is_default_palette(p),
    {
        ProjectPalette {
            primary: String::from_str("#7c5cff"),
            secondary: String::from_str("#35cfff"),
            accent: String::from_str("#f06fff"),
            surface: String::from_str("#141821"),
            background: String::from_str("#090b10"),
            text: String::from_str("#f4f6fc"),
            success: String::from_str("#3cdda4"),
            warning: String::from_str("#ffc45f"),
            error: String::from_str("#ff647c"),
            custom: Vec::new(),
        }
    }
}

/// A design surface of a fixed size; `width` and `height` are single-precision
/// bit patterns.
pub struct Artboard {
    pub id: u128,
    pub name: String,
    pub width: u32,
    pub height: u32,
    pub components: Vec<CanvasComponent>,
}

impl Artboard {
    /// An empty artboard with a fresh id.
    pub fn new(name: &str, width: u32, height: u32) -> (a: Self)
        ensures
            a.name@ == name@,
            a.width == width,
            a.height == height,
            a.components@.len() == 0,
            is_random_uuid(a.id),
    {
        Artboard { id: random_uuid(), name: String::from_str(name), width, height, components: Vec::new() }
    }

    /// A 390x844 phone artboard.
    pub fn mobile(name: &str) -> (a: Self)
        ensures
            a.name@ == name@,
            a.width == 0x43c3_0000u32,
            a.height == 0x4453_0000u32,
            a.components@.len() == 0,
            is_random_uuid(a.id),
    {
        Artboard::new(name, 0x43c3_0000u32, 0x4453_0000u32)
    }

    /// A 1440x900 desktop artboard.
    pub fn desktop(name: &str) -> (a: Self)
        ensures
            a.name@ == name@,
            a.width == 0x44b4_0000u32,
            a.height == 0x4461_0000u32,
            a.components@.len() == 0,
            is_random_uuid(a.id),
    {
        Artboard::new(name, 0x44b4_0000u32, 0x4461_0000u32)
    }
}

/// A point in time: whole seconds since the Unix epoch and the nanoseconds
/// past them.
#[derive(Debug, Clone, Copy, PartialEq, Eq, Structural)]
pub struct Timestamp {
    pub secs: i64,
    pub nanos: u32,
}

/// Calls `chrono::Utc::now()` and returns its seconds and nanoseconds.
/// Nothing is claimed of the value, which is the clock's.
#[verifier::external_body]
fn utc_now() -> (t: Timestamp) {
    let now = chrono::Utc::now();
    Timestamp { secs: now.timestamp(), nanos: now.timestamp_subsec_nanos() }
}

/// A design project.
pub struct Project {
    pub id: ProjectId,
    pub name: String,
    pub description: String,
    pub palette: ProjectPalette,
    pub artboards: Vec<Artboard>,
    pub created_at: Timestamp,
    pub updated_at: Timestamp,
}

impl Project {
    /// A project with one "Mobile" phone artboard that holds a "Primary
    /// Button" at (100, 200), 160x48; created and updated now.
    pub fn new(name: &str) -> (p: Self)
        ensures
            p.name@ == name@,
            p.description@.len() == 0,
            is_default_palette(p.palette),
            p.artboards@.len() == 1,
            p.artboards@[0].name@ == "Mobile"@,
            p.artboards@[0].width == 0x43c3_0000u32,
            p.artboards@[0].height == 0x4453_0000u32,
            p.artboards@[0].components@.len() == 1,
            p.artboards@[0].components@[0].name@ == "Primary Button"@,
            p.artboards@[0].components@[0].kind == ComponentKind::Button,
            p.artboards@[0].components@[0].bounds == (Bounds {
                x: 0x42c8_0000u32,
                y: 0x4348_0000u32,
                width: 0x4320_0000u32,
                height: 0x4240_0000u32,
            }),
            p.artboards@[0].components@[0].visible,
            !p.artboards@[0].components@[0].locked,
            p.artboards@[0].components@[0].rotation == 0,
            p.artboards@[0].components@[0].children@.len() == 0,
            is_default_style(p.artboards@[0].components@[0].style),
            p.created_at == p.updated_at,
            is_random_uuid(p.id.0),
    {
        let now = utc_now();
        let mut artboard = Artboard::mobile("Mobile");
        let button = CanvasComponent::new(
            ComponentKind::Button,
            "Primary Button",
            Bounds::new(0x42c8_0000u32, 0x4348_0000u32, 0x4320_0000u32, 0x4240_0000u32),
        );
        artboard.components.push(button);
        let mut artboards: Vec<Artboard> = Vec::new();
        artboards.push(artboard);
        Project {
            id: ProjectId::new(),
            name: String::from_str(name),
            description: String::new(),
            palette: ProjectPalette::default(),
            artboards,
            created_at: now,
            updated_at: now,
        }
    }
}

/// Domain errors. `Serialization` carries the serializer's message.
#[derive(Debug, Clone)]
pub enum YkError {
    ComponentNotFound(ComponentId),
    ProjectNotFound(ProjectId),
    InvalidPlacement { reason: String },
    Serialization(String),
    Storage(String),
}

/// How much of the interface is shown.
#[derive(Debug, Clone, Copy, PartialEq, Eq, Structural)]
pub enum DisclosureLevel {
    Guided,
    Standard,
    Expert,
}

impl Default for DisclosureLevel {
    fn default() -> (r: Self)
        ensures
            r == DisclosureLevel::Guided,
    {
        DisclosureLevel::Guided
    }
}

/// Pan and zoom of the canvas, as single-precision bit patterns.
#[derive(Debug, Clone, Copy, PartialEq, Eq, Structural)]
pub struct ViewportTransform {
    pub translate_x: u32,
    pub translate_y: u32,
    pub scale: u32,
}

impl ViewportTransform {
    /// Smallest scale, 0.25, as a bit pattern.
    pub const MIN_SCALE: u32 = 0x3e80_0000u32;

    /// Largest scale, 20.0, as a bit pattern.
    pub const MAX_SCALE: u32 = 0x41a0_0000u32;
}

impl Default for ViewportTransform {
    /// No pan, scale 1.0.
    fn default() -> (v: Self)
        ensures
            v == (ViewportTransform { translate_x: 0, translate_y: 0, scale: F32_ONE_BITS }),
    {
        ViewportTransform { translate_x: 0, translate_y: 0, scale: F32_ONE_BITS }
    }
}

/// The state of a touch or pointer gesture; coordinates and factors are
/// single-precision bit patterns.
#[derive(Debug, Clone, Copy, PartialEq, Eq, Structural)]
pub enum GesturePhase {
    Idle,
    DragPending { origin_x: u32, origin_y: u32 },
    Dragging { current_x: u32, current_y: u32 },
    Pinching { scale_delta: u32, center_x: u32, center_y: u32 },
}

impl Default for GesturePhase {
    fn default() -> (g: Self)
        ensures
            g == GesturePhase::Idle,
    {
        GesturePhase::Idle
    }
}

/// The resize handles of a selection, in order around the box from the top
/// left corner: horizontal and vertical position in percent (single-precision
/// bit patterns of 0, 50 or 100) and the CSS cursor shown over the handle.
pub open spec fn handle_table() -> Seq<(u32, u32, Seq<char>)> {
    seq![
        (0u32, 0u32, "nwse-resize"@),
        (0x4248_0000u32, 0u32, "ns-resize"@),
        (0x42c8_0000u32, 0u32, "nesw-resize"@),
        (0x42c8_0000u32, 0x4248_0000u32, "ew-resize"@),
        (0x42c8_0000u32, 0x42c8_0000u32, "nwse-resize"@),
        (0x4248_0000u32, 0x42c8_0000u32, "ns-resize"@),
        (0u32, 0x42c8_0000u32, "nesw-resize"@),
        (0u32, 0x4248_0000u32, "ew-resize"@),
    ]
}

/// The resize handles of a selection (see `handle_table`).
pub fn corner_positions() -> (r: Vec<(u32, u32, &'static str)>)
    ensures
        r@.map_values(|h: (u32, u32, &'static str)| (h.0, h.1, h.2@)) == handle_table(),
{
    let r: Vec<(u32, u32, &'static str)> = vec![
        (0u32, 0u32, "nwse-resize"),
        (0x4248_0000u32, 0u32, "ns-resize"),
        (0x42c8_0000u32, 0u32, "nesw-resize"),
        (0x42c8_0000u32, 0x4248_0000u32, "ew-resize"),
        (0x42c8_0000u32, 0x42c8_0000u32, "nwse-resize"),
        (0x4248_0000u32, 0x42c8_0000u32, "ns-resize"),
        (0u32, 0x42c8_0000u32, "nesw-resize"),
        (0u32, 0x4248_0000u32, "ew-resize"),
    ];
    assert(r@.map_values(|h: (u32, u32, &'static str)| (h.0, h.1, h.2@)) =~= handle_table());
    r
}

} // verus!
