//! State of the free-form canvas editor: placed elements, selection, snapshot
//! history with a cursor, panels and theme. Lengths and the zoom factor are
//! IEEE-754 double-precision bit patterns.
use vstd::prelude::*;

use crate::ids::{is_random_uuid, random_uuid, uuid_hyphenated, uuid_to_string};
use crate::text::push_char;
use crate::text::text_eq;

verus! {

/// Which device frame the canvas previews.
#[derive(Debug, Clone, Copy, PartialEq, Eq, Structural)]
pub enum DeviceMode {
    Mobile,
    Tablet,
    Desktop,
}

impl Default for DeviceMode {
    fn default() -> (r: Self)
        ensures
            r == DeviceMode::Desktop,
    {
        DeviceMode::Desktop
    }
}

/// Visibility of a side panel.
#[derive(Debug, Clone, Copy, PartialEq, Eq, Structural)]
pub enum PanelState {
    Expanded,
    Collapsed,
    Hidden,
}

impl PanelState {
    /// The state after the panel's toggle: an expanded panel collapses, any
    /// other expands.
    pub fn toggled(self) -> (r: Self)
        ensures
            r == (if self == PanelState::Expanded {
                PanelState::Collapsed
            } else {
                PanelState::Expanded
            }),
    {
        match self {
            PanelState::Expanded => PanelState::Collapsed,
            _ => PanelState::Expanded,
        }
    }
}

impl Default for PanelState {
    fn default() -> (r: Self)
        ensures
            r == PanelState::Expanded,
    {
        PanelState::Expanded
    }
}

/// The pointer tool in use.
#[derive(Debug, Clone, Copy, PartialEq, Eq, Structural)]
pub enum ActiveTool {
    Select,
    Hand,
}

impl Default for ActiveTool {
    fn default() -> (r: Self)
        ensures
            r == ActiveTool::Select,
    {
        ActiveTool::Select
    }
}

/// The bit pattern of the double-precision value 1.0.
pub const F64_ONE_BITS: u64 = 0x3ff0_0000_0000_0000u64;

/// Zoom and pan of the canvas, each a double-precision bit pattern.
#[derive(Debug, Clone, Copy, PartialEq, Eq, Structural)]
pub struct CanvasTransform {
    pub zoom: u64,
    pub offset_x: u64,
    pub offset_y: u64,
}

impl CanvasTransform {
    /// Smallest zoom factor, 0.1, as a bit pattern.
    pub const ZOOM_MIN: u64 = 0x3fb9_9999_9999_999au64;

    /// Largest zoom factor, 8.0, as a bit pattern.
    pub const ZOOM_MAX: u64 = 0x4020_0000_0000_0000u64;
}

impl Default for CanvasTransform {
    /// Zoom 1.0, no offset.
    fn default() -> (r: Self)
        ensures
            r == (CanvasTransform { zoom: F64_ONE_BITS, offset_x: 0, offset_y: 0 }),
    {
        CanvasTransform { zoom: F64_ONE_BITS, offset_x: 0, offset_y: 0 }
    }
}

/// What can be placed on the canvas.
#[derive(Debug, Clone, Copy, PartialEq, Eq, Structural)]
pub enum ComponentKind {
    Button,
    TextBlock,
    Image,
    Container,
    Input,
    Divider,
    Spacer,
    NavigationBar,
    Card,
    List,
    Form,
    Modal,
}

/// The display name of a component kind.
pub open spec fn component_label(k: ComponentKind) -> Seq<char> {
    match k {
        ComponentKind::Button => "Button"@,
        ComponentKind::TextBlock => "Text"@,
        ComponentKind::Image => "Image"@,
        ComponentKind::Container => "Container"@,
        ComponentKind::Input => "Input"@,
        ComponentKind::Divider => "Divider"@,
        ComponentKind::Spacer => "Spacer"@,
        ComponentKind::NavigationBar => "Nav Bar"@,
        ComponentKind::Card => "Card"@,
        ComponentKind::List => "List"@,
        ComponentKind::Form => "Form"@,
        ComponentKind::Modal => "Modal"@,
    }
}

/// The palette group of a component kind.
pub open spec fn component_category(k: ComponentKind) -> Seq<char> {
    match k {
        ComponentKind::Button | ComponentKind::Input => "Controls"@,
        ComponentKind::TextBlock => "Typography"@,
        ComponentKind::Image | ComponentKind::Card => "Media"@,
        ComponentKind::Container | ComponentKind::Divider | ComponentKind::Spacer => "Layout"@,
        ComponentKind::NavigationBar => "Navigation"@,
        ComponentKind::List | ComponentKind::Form | ComponentKind::Modal => "Forms"@,
    }
}

/// The SVG path of a component kind's icon.
pub open spec fn component_icon_path(k: ComponentKind) -> Seq<char> {
    match k {
        ComponentKind::Button => "M3 10h14v4H3z M5 10V6h10v4"@,
        ComponentKind::TextBlock => "M3 5h18M3 10h12M3 15h18M3 20h9"@,
        ComponentKind::Image => "M3 3h18v18H3z M3 15l5-5 4 4 3-3 5 5"@,
        ComponentKind::Container => "M3 3h18v18H3z"@,
        ComponentKind::Input => "M3 8h18v8H3z M7 12h2"@,
        ComponentKind::Divider => "M3 12h18"@,
        ComponentKind::Spacer => "M12 3v18M3 12h18"@,
        ComponentKind::NavigationBar => "M3 4h18v4H3z M6 6h.01M10 6h.01M14 6h.01"@,
        ComponentKind::Card => "M3 5h18v14H3z M3 9h18"@,
        ComponentKind::List => "M3 6h.01M7 6h10M3 12h.01M7 12h10M3 18h.01M7 18h10"@,
        ComponentKind::Form => "M3 3h18v18H3z M7 8h10M7 12h10M7 16h6"@,
        ComponentKind::Modal => "M5 3h14v18H5z M3 7h18M3 17h18"@,
    }
}

impl ComponentKind {
    pub fn label(&self) -> (r: &'static str)
        ensures
            r@ == component_label(*self),
    {
        match self {
            ComponentKind::Button => "Button",
            ComponentKind::TextBlock => "Text",
            ComponentKind::Image => "Image",
            ComponentKind::Container => "Container",
            ComponentKind::Input => "Input",
            ComponentKind::Divider => "Divider",
            ComponentKind::Spacer => "Spacer",
            ComponentKind::NavigationBar => "Nav Bar",
            ComponentKind::Card => "Card",
            ComponentKind::List => "List",
            ComponentKind::Form => "Form",
            ComponentKind::Modal => "Modal",
        }
    }

    pub fn category(&self) -> (r: &'static str)
        ensures
            r@ == component_category(*self),
    {
        match self {
            ComponentKind::Button | ComponentKind::Input => "Controls",
            ComponentKind::TextBlock => "Typography",
            ComponentKind::Image | ComponentKind::Card => "Media",
            ComponentKind::Container | ComponentKind::Divider | ComponentKind::Spacer => "Layout",
            ComponentKind::NavigationBar => "Navigation",
            ComponentKind::List | ComponentKind::Form | ComponentKind::Modal => "Forms",
        }
    }

    pub fn icon_path(&self) -> (r: &'static str)
        ensures
            r@ == component_icon_path(*self),
    {
        match self {
            ComponentKind::Button => "M3 10h14v4H3z M5 10V6h10v4",
            ComponentKind::TextBlock => "M3 5h18M3 10h12M3 15h18M3 20h9",
            ComponentKind::Image => "M3 3h18v18H3z M3 15l5-5 4 4 3-3 5 5",
            ComponentKind::Container => "M3 3h18v18H3z",
            ComponentKind::Input => "M3 8h18v8H3z M7 12h2",
            ComponentKind::Divider => "M3 12h18",
            ComponentKind::Spacer => "M12 3v18M3 12h18",
            ComponentKind::NavigationBar => "M3 4h18v4H3z M6 6h.01M10 6h.01M14 6h.01",
            ComponentKind::Card => "M3 5h18v14H3z M3 9h18",
            ComponentKind::List => "M3 6h.01M7 6h10M3 12h.01M7 12h10M3 18h.01M7 18h10",
            ComponentKind::Form => "M3 3h18v18H3z M7 8h10M7 12h10M7 16h6",
            ComponentKind::Modal => "M5 3h14v18H5z M3 7h18M3 17h18",
        }
    }
}

/// The default (width, height) of a placed component, as double-precision bit
/// patterns: Button 120x40, Text 200x40, Image 240x160, Container 320x240,
/// Input 200x40, Divider 240x1, Spacer 120x24, Nav Bar 375x56, Card 280x180,
/// List 280x160, Form 320x280, Modal 360x480.
pub open spec fn default_size(k: ComponentKind) -> (u64, u64) {
    match k {
        ComponentKind::Button => (0x405e_0000_0000_0000u64, 0x4044_0000_0000_0000u64),
        ComponentKind::TextBlock => (0x4069_0000_0000_0000u64, 0x4044_0000_0000_0000u64),
        ComponentKind::Image => (0x406e_0000_0000_0000u64, 0x4064_0000_0000_0000u64),
        ComponentKind::Container => (0x4074_0000_0000_0000u64, 0x406e_0000_0000_0000u64),
        ComponentKind::Input => (0x4069_0000_0000_0000u64, 0x4044_0000_0000_0000u64),
        ComponentKind::Divider => (0x406e_0000_0000_0000u64, 0x3ff0_0000_0000_0000u64),
        ComponentKind::Spacer => (0x405e_0000_0000_0000u64, 0x4038_0000_0000_0000u64),
        ComponentKind::NavigationBar => (0x4077_7000_0000_0000u64, 0x404c_0000_0000_0000u64),
        ComponentKind::Card => (0x4071_8000_0000_0000u64, 0x4066_8000_0000_0000u64),
        ComponentKind::List => (0x4071_8000_0000_0000u64, 0x4064_0000_0000_0000u64),
        ComponentKind::Form => (0x4074_0000_0000_0000u64, 0x4071_8000_0000_0000u64),
        ComponentKind::Modal => (0x4076_8000_0000_0000u64, 0x407e_0000_0000_0000u64),
    }
}

/// The groups of the component palette, in order: a name and its kinds.
pub open spec fn category_table() -> Seq<(Seq<char>, Seq<ComponentKind>)> {
    seq![
        ("Controls"@, seq![ComponentKind::Button, ComponentKind::Input]),
        ("Typography"@, seq![ComponentKind::TextBlock]),
        ("Layout"@, seq![ComponentKind::Container, ComponentKind::Divider, ComponentKind::Spacer]),
        ("Media"@, seq![ComponentKind::Image, ComponentKind::Card]),
        ("Navigation"@, seq![ComponentKind::NavigationBar]),
        ("Forms"@, seq![ComponentKind::List, ComponentKind::Form, ComponentKind::Modal]),
    ]
}

/// The groups of the component palette (see `category_table`).
pub fn all_categories() -> (r: Vec<(&'static str, Vec<ComponentKind>)>)
    ensures
        r@.len() == category_table().len(),
        forall|i: int| 0 <= i < r@.len() ==> (#[trigger] r@[i]).0@ == category_table()[i].0 && r@[i].1@
            == category_table()[i].1,
{
    let mut r: Vec<(&'static str, Vec<ComponentKind>)> = Vec::new();
    r.push(("Controls", vec![ComponentKind::Button, ComponentKind::Input]));
    r.push(("Typography", vec![ComponentKind::TextBlock]));
    r.push(("Layout", vec![ComponentKind::Container, ComponentKind::Divider, ComponentKind::Spacer]));
    r.push(("Media", vec![ComponentKind::Image, ComponentKind::Card]));
    r.push(("Navigation", vec![ComponentKind::NavigationBar]));
    r.push(("Forms", vec![ComponentKind::List, ComponentKind::Form, ComponentKind::Modal]));
    assert(r@[0].1@ =~= seq![ComponentKind::Button, ComponentKind::Input]);
    assert(r@[1].1@ =~= seq![ComponentKind::TextBlock]);
    assert(r@[2].1@ =~= seq![ComponentKind::Container, ComponentKind::Divider, ComponentKind::Spacer]);
    assert(r@[3].1@ =~= seq![ComponentKind::Image, ComponentKind::Card]);
    assert(r@[4].1@ =~= seq![ComponentKind::NavigationBar]);
    assert(r@[5].1@ =~= seq![ComponentKind::List, ComponentKind::Form, ComponentKind::Modal]);
    r
}

/// The inline style that previews a kind on the canvas.
pub open spec fn preview_style(k: ComponentKind) -> Seq<char> {
    match k {
        ComponentKind::Button => "background:var(--color-brand-primary);border-radius:var(--radius-md);"@,
        ComponentKind::TextBlock => "border-bottom:2px solid var(--color-border-default);"@,
        ComponentKind::Image => "background:var(--color-surface-sunken);border:1px dashed var(--color-border-default);"@,
        ComponentKind::Container => "border:1px dashed var(--color-brand-primary);border-radius:var(--radius-md);"@,
        ComponentKind::Input => "background:var(--color-surface-sunken);border:1px solid var(--color-border-default);border-radius:var(--radius-sm);"@,
        ComponentKind::Divider => "background:var(--color-border-default);height:1px;"@,
        ComponentKind::Spacer => "background:repeating-linear-gradient(45deg,var(--color-border-subtle) 0,var(--color-border-subtle) 1px,transparent 0,transparent 50%) 0 0/8px 8px;"@,
        ComponentKind::NavigationBar => "background:var(--color-surface);border-bottom:1px solid var(--color-border-subtle);"@,
        ComponentKind::Card => "background:var(--color-surface-raised);border-radius:var(--radius-lg);box-shadow:var(--shadow-sm);"@,
        ComponentKind::List => "background:var(--color-surface);border:1px solid var(--color-border-subtle);border-radius:var(--radius-md);"@,
        ComponentKind::Form => "background:var(--color-surface-sunken);border:1px solid var(--color-border-default);border-radius:var(--radius-md);"@,
        ComponentKind::Modal => "background:var(--color-surface-raised);border-radius:var(--radius-xl);box-shadow:var(--shadow-lg);"@,
    }
}

/// The inline style that previews a kind on the canvas.
pub fn element_preview_style(kind: &ComponentKind) -> (r: &'static str)
    ensures
        r@ == preview_style(*kind),
{
    match kind {
        ComponentKind::Button => "background:var(--color-brand-primary);border-radius:var(--radius-md);",
        ComponentKind::TextBlock => "border-bottom:2px solid var(--color-border-default);",
        ComponentKind::Image => "background:var(--color-surface-sunken);border:1px dashed var(--color-border-default);",
        ComponentKind::Container => "border:1px dashed var(--color-brand-primary);border-radius:var(--radius-md);",
        ComponentKind::Input => "background:var(--color-surface-sunken);border:1px solid var(--color-border-default);border-radius:var(--radius-sm);",
        ComponentKind::Divider => "background:var(--color-border-default);height:1px;",
        ComponentKind::Spacer => "background:repeating-linear-gradient(45deg,var(--color-border-subtle) 0,var(--color-border-subtle) 1px,transparent 0,transparent 50%) 0 0/8px 8px;",
        ComponentKind::NavigationBar => "background:var(--color-surface);border-bottom:1px solid var(--color-border-subtle);",
        ComponentKind::Card => "background:var(--color-surface-raised);border-radius:var(--radius-lg);box-shadow:var(--shadow-sm);",
        ComponentKind::List => "background:var(--color-surface);border:1px solid var(--color-border-subtle);border-radius:var(--radius-md);",
        ComponentKind::Form => "background:var(--color-surface-sunken);border:1px solid var(--color-border-default);border-radius:var(--radius-md);",
        ComponentKind::Modal => "background:var(--color-surface-raised);border-radius:var(--radius-xl);box-shadow:var(--shadow-lg);",
    }
}

/// An element placed on the canvas. `x`, `y`, `width` and `height` are
/// double-precision bit patterns.
#[derive(Debug)]
pub struct CanvasElement {
    pub id: u128,
    pub kind: ComponentKind,
    pub x: u64,
    pub y: u64,
    pub width: u64,
    pub height: u64,
    pub label: String,
    pub z_index: i32,
}

impl Clone for CanvasElement {
    fn clone(&self) -> (r: Self)
        ensures
            r == *self,
    {
        CanvasElement {
            id: self.id,
            kind: self.kind,
            x: self.x,
            y: self.y,
            width: self.width,
            height: self.height,
            label: self.label.clone(),
            z_index: self.z_index,
        }
    }
}

impl CanvasElement {
    /// A new element of a kind at (`x`, `y`), with that kind's default size and
    /// label, a fresh random id, at z-index 0.
    pub fn new(kind: ComponentKind, x: u64, y: u64) -> (e: Self)
        ensures
            e.kind == kind,
            e.x == x,
            e.y == y,
            (e.width, e.height) == default_size(kind),
            e.label@ == component_label(kind),
            e.z_index == 0,
            is_random_uuid(e.id),
    {
        let (w, h): (u64, u64) = match kind {
            ComponentKind::Button => (0x405e_0000_0000_0000u64, 0x4044_0000_0000_0000u64),
            ComponentKind::TextBlock => (0x4069_0000_0000_0000u64, 0x4044_0000_0000_0000u64),
            ComponentKind::Image => (0x406e_0000_0000_0000u64, 0x4064_0000_0000_0000u64),
            ComponentKind::Container => (0x4074_0000_0000_0000u64, 0x406e_0000_0000_0000u64),
            ComponentKind::Input => (0x4069_0000_0000_0000u64, 0x4044_0000_0000_0000u64),
            ComponentKind::Divider => (0x406e_0000_0000_0000u64, 0x3ff0_0000_0000_0000u64),
            ComponentKind::Spacer => (0x405e_0000_0000_0000u64, 0x4038_0000_0000_0000u64),
            ComponentKind::NavigationBar => (0x4077_7000_0000_0000u64, 0x404c_0000_0000_0000u64),
            ComponentKind::Card => (0x4071_8000_0000_0000u64, 0x4066_8000_0000_0000u64),
            ComponentKind::List => (0x4071_8000_0000_0000u64, 0x4064_0000_0000_0000u64),
            ComponentKind::Form => (0x4074_0000_0000_0000u64, 0x4071_8000_0000_0000u64),
            ComponentKind::Modal => (0x4076_8000_0000_0000u64, 0x407e_0000_0000_0000u64),
        };
        let label = String::from_str(kind.label());
        CanvasElement { id: random_uuid(), kind, x, y, width: w, height: h, label, z_index: 0 }
    }
}

/// The central editor state. `history` holds snapshots of `elements`;
/// `history_index` points at the one that matches the canvas.
pub struct EditorState {
    pub canvas_transform: CanvasTransform,
    pub panel_left: PanelState,
    pub panel_right: PanelState,
    pub panel_bottom: PanelState,
    pub active_tool: ActiveTool,
    pub device_mode: DeviceMode,
    pub selected_ids: Vec<u128>,
    pub elements: Vec<CanvasElement>,
    pub history: Vec<Vec<CanvasElement>>,
    pub history_index: usize,
    pub is_dragging: bool,
    pub dragging_kind: Option<ComponentKind>,
    pub theme: &'static str,
}

/// Elements whose id is not among `ids`.
pub open spec fn not_selected(ids: Seq<u128>) -> spec_fn(CanvasElement) -> bool {
    |e: CanvasElement| !ids.contains(e.id)
}

/// Ids other than `id`.
pub open spec fn other_than(id: u128) -> spec_fn(u128) -> bool {
    |i: u128| i != id
}

/// A copy of a list of elements.
fn copy_elements(v: &Vec<CanvasElement>) -> (r: Vec<CanvasElement>)
    ensures
        r@ == v@,
{
    let r = v.clone();
    assert(r@ =~= v@);
    r
}

/// The canvas elements, the recorded snapshots and the cursor into them.
pub struct Timeline {
    pub elements: Seq<CanvasElement>,
    pub snapshots: Seq<Seq<CanvasElement>>,
    pub index: int,
}

/// The timeline after recording its elements: snapshots after the cursor are
/// dropped, the elements appended, and the cursor moved onto them.
pub open spec fn recorded_timeline(t: Timeline) -> Timeline {
    let keep = if t.index + 1 < t.snapshots.len() {
        t.index + 1
    } else {
        t.snapshots.len() as int
    };
    Timeline { elements: t.elements, snapshots: t.snapshots.subrange(0, keep).push(t.elements), index: keep }
}

/// The timeline after an undo: the cursor steps back and its snapshot is
/// restored; nothing changes at the first snapshot.
pub open spec fn stepped_back(t: Timeline) -> Timeline {
    if t.index > 0 {
        Timeline { elements: t.snapshots[t.index - 1], snapshots: t.snapshots, index: t.index - 1 }
    } else {
        t
    }
}

/// The timeline after a redo: the cursor steps forward and its snapshot is
/// restored; nothing changes at the last snapshot.
pub open spec fn stepped_forward(t: Timeline) -> Timeline {
    if t.index + 1 < t.snapshots.len() {
        Timeline { elements: t.snapshots[t.index + 1], snapshots: t.snapshots, index: t.index + 1 }
    } else {
        t
    }
}

/// The cursor points at a snapshot, and the canvas shows that snapshot.
pub open spec fn in_step(t: Timeline) -> bool {
    &&& 0 <= t.index < t.snapshots.len()
    &&& t.elements == t.snapshots[t.index]
}

impl EditorState {
    /// The history cursor points at a snapshot.
    pub open spec fn wf(self) -> bool {
        self.history_index < self.history@.len()
    }

    /// The snapshots, as element sequences.
    pub open spec fn snapshots(self) -> Seq<Seq<CanvasElement>> {
        self.history@.map_values(|v: Vec<CanvasElement>| v@)
    }

    /// The elements, snapshots and cursor.
    pub open spec fn timeline(self) -> Timeline {
        Timeline { elements: self.elements@, snapshots: self.snapshots(), index: self.history_index as int }
    }

    /// Fields that only the panel, tool, device, drag and zoom controls change.
    pub open spec fn same_chrome(self, other: Self) -> bool {
        &&& self.canvas_transform == other.canvas_transform
        &&& self.panel_left == other.panel_left
        &&& self.panel_right == other.panel_right
        &&& self.panel_bottom == other.panel_bottom
        &&& self.active_tool == other.active_tool
        &&& self.device_mode == other.device_mode
        &&& self.is_dragging == other.is_dragging
        &&& self.dragging_kind == other.dragging_kind
        &&& self.theme == other.theme
    }

    /// An empty canvas: one empty snapshot, nothing selected, left and right
    /// panels expanded, bottom panel collapsed, select tool, desktop preview,
    /// dark theme.
    pub fn new() -> (s: Self)
        ensures
            s.wf(),
            s.elements@.len() == 0,
            s.timeline() == (Timeline {
                elements: Seq::empty(),
                snapshots: seq![Seq::<CanvasElement>::empty()],
                index: 0,
            }),
            s.history_index == 0,
            s.selected_ids@.len() == 0,
            s.canvas_transform == (CanvasTransform { zoom: F64_ONE_BITS, offset_x: 0, offset_y: 0 }),
            s.panel_left == PanelState::Expanded,
            s.panel_right == PanelState::Expanded,
            s.panel_bottom == PanelState::Collapsed,
            s.active_tool == ActiveTool::Select,
            s.device_mode == DeviceMode::Desktop,
            !s.is_dragging,
            s.dragging_kind.is_none(),
            s.theme@ == "dark"@,
    {
        let elements: Vec<CanvasElement> = Vec::new();
        let snapshot = copy_elements(&elements);
        let mut history: Vec<Vec<CanvasElement>> = Vec::new();
        history.push(snapshot);
        let s = EditorState {
            canvas_transform: CanvasTransform::default(),
            panel_left: PanelState::Expanded,
            panel_right: PanelState::Expanded,
            panel_bottom: PanelState::Collapsed,
            active_tool: ActiveTool::Select,
            device_mode: DeviceMode::Desktop,
            selected_ids: Vec::new(),
            elements,
            history,
            history_index: 0,
            is_dragging: false,
            dragging_kind: None,
            theme: "dark",
        };
        assert(s.snapshots() =~= seq![Seq::<CanvasElement>::empty()]);
        s
    }

    /// Records the current elements: snapshots after the cursor are dropped,
    /// the current elements appended, and the cursor moved onto them.
    pub fn push_to_history(&mut self)
        ensures
            final(self).wf(),
            final(self).timeline() == recorded_timeline(old(self).timeline()),
            final(self).elements == old(self).elements,
            final(self).selected_ids == old(self).selected_ids,
            final(self).same_chrome(*old(self)),
    {
        let snapshot = copy_elements(&self.elements);
        let idx = self.history_index;
        let len = self.history.len();
        if idx < len {
            self.history.truncate(idx + 1);
        }
        let ghost keep = self.history@.len();
        self.history.push(snapshot);
        self.history_index = self.history.len() - 1;
        assert(self.snapshots() =~= old(self).snapshots().subrange(0, keep as int).push(old(self).elements@));
    }

    /// Steps the cursor back and restores that snapshot; nothing at the first
    /// snapshot.
    pub fn undo(&mut self)
        requires
            old(self).history_index <= old(self).history@.len(),
        ensures
            old(self).wf() ==> final(self).wf(),
            final(self).history == old(self).history,
            final(self).selected_ids == old(self).selected_ids,
            final(self).same_chrome(*old(self)),
            final(self).timeline() == stepped_back(old(self).timeline()),
            old(self).history_index == 0 ==> final(self).elements == old(self).elements,
    {
        let idx = self.history_index;
        if idx > 0 {
            let new_idx = idx - 1;
            self.history_index = new_idx;
            let snapshot = copy_elements(&self.history[new_idx]);
            self.elements = snapshot;
        }
    }

    /// Steps the cursor forward and restores that snapshot; nothing at the
    /// last snapshot.
    pub fn redo(&mut self)
        ensures
            old(self).wf() ==> final(self).wf(),
            final(self).history == old(self).history,
            final(self).selected_ids == old(self).selected_ids,
            final(self).same_chrome(*old(self)),
            final(self).timeline() == stepped_forward(old(self).timeline()),
            old(self).history_index + 1 >= old(self).history@.len() ==> final(self).elements
                == old(self).elements,
    {
        let idx = self.history_index;
        let len = self.history.len();
        if len > 0 && idx < len - 1 {
            let new_idx = idx + 1;
            self.history_index = new_idx;
            let snapshot = copy_elements(&self.history[new_idx]);
            self.elements = snapshot;
        }
    }

    /// There is an earlier snapshot.
    pub fn can_undo(&self) -> (r: bool)
        ensures
            r == (self.history_index > 0),
    {
        self.history_index > 0
    }

    /// There is a later snapshot.
    pub fn can_redo(&self) -> (r: bool)
        ensures
            r == (self.history_index + 1 < self.history@.len()),
    {
        let len = self.history.len();
        len > 0 && self.history_index < len - 1
    }

    /// Places a new element of `kind` at (`canvas_x`, `canvas_y`) on top of the
    /// others (its z-index is the former element count) and records the result.
    pub fn drop_component(&mut self, kind: ComponentKind, canvas_x: u64, canvas_y: u64)
        ensures
            final(self).wf(),
            final(self).elements@.len() == old(self).elements@.len() + 1,
            final(self).elements@.subrange(0, old(self).elements@.len() as int) == old(self).elements@,
            ({
                let e = final(self).elements@.last();
                &&& e.kind == kind
                &&& e.x == canvas_x
                &&& e.y == canvas_y
                &&& (e.width, e.height) == default_size(kind)
                &&& e.label@ == component_label(kind)
                &&& e.z_index == old(self).elements@.len() as i32
                &&& is_random_uuid(e.id)
            }),
            final(self).timeline() == recorded_timeline(
                Timeline { elements: final(self).elements@, ..old(self).timeline() },
            ),
            final(self).selected_ids == old(self).selected_ids,
            final(self).same_chrome(*old(self)),
    {
        let mut el = CanvasElement::new(kind, canvas_x, canvas_y);
        let z = self.elements.len() as i32;
        el.z_index = z;
        self.elements.push(el);
        self.push_to_history();
        assert(self.elements@.subrange(0, old(self).elements@.len() as int) =~= old(self).elements@);
    }

    /// Selects `id`: alone, or with `multi` toggled in or out of the selection.
    pub fn select(&mut self, id: u128, multi: bool)
        ensures
            !multi ==> final(self).selected_ids@ == seq![id],
            multi && old(self).selected_ids@.contains(id) ==> final(self).selected_ids@
                == old(self).selected_ids@.filter(other_than(id)),
            multi && !old(self).selected_ids@.contains(id) ==> final(self).selected_ids@
                == old(self).selected_ids@.push(id),
            final(self).elements == old(self).elements,
            final(self).history == old(self).history,
            final(self).history_index == old(self).history_index,
            final(self).same_chrome(*old(self)),
    {
        if multi {
            let mut found = false;
            let mut kept: Vec<u128> = Vec::new();
            let mut i: usize = 0;
            while i < self.selected_ids.len()
                invariant
                    i <= self.selected_ids@.len(),
                    kept@ == self.selected_ids@.take(i as int).filter(other_than(id)),
                    found == self.selected_ids@.take(i as int).contains(id),
                decreases self.selected_ids@.len() - i,
            {
                let x = self.selected_ids[i];
                proof {
                    let t = self.selected_ids@.take(i + 1);
                    assert(t.drop_last() =~= self.selected_ids@.take(i as int));
                    assert(t.last() == x);
                    reveal_with_fuel(Seq::filter, 1);
                    assert(t.filter(other_than(id)) == (if other_than(id)(x) {
                        t.drop_last().filter(other_than(id)).push(x)
                    } else {
                        t.drop_last().filter(other_than(id))
                    }));
                    assert(t.contains(id) == (self.selected_ids@.take(i as int).contains(id) || x == id)) by {
                        if t.contains(id) {
                            let j = choose|j: int| 0 <= j < t.len() && t[j] == id;
                            if j < i {
                                assert(self.selected_ids@.take(i as int)[j] == id);
                            }
                        }
                        if self.selected_ids@.take(i as int).contains(id) {
                            let j = choose|j: int| 0 <= j < i && self.selected_ids@.take(i as int)[j] == id;
                            assert(t[j] == id);
                        }
                        if x == id {
                            assert(t[i as int] == id);
                        }
                    }
                }
                if x == id {
                    found = true;
                } else {
                    kept.push(x);
                }
                i = i + 1;
            }
            assert(self.selected_ids@.take(i as int) =~= self.selected_ids@);
            if found {
                self.selected_ids = kept;
            } else {
                self.selected_ids.push(id);
            }
        } else {
            let mut only: Vec<u128> = Vec::new();
            only.push(id);
            self.selected_ids = only;
            assert(self.selected_ids@ =~= seq![id]);
        }
    }

    /// Clears the selection.
    pub fn clear_selection(&mut self)
        ensures
            final(self).selected_ids@.len() == 0,
            final(self).elements == old(self).elements,
            final(self).history == old(self).history,
            final(self).history_index == old(self).history_index,
            final(self).same_chrome(*old(self)),
    {
        self.selected_ids = Vec::new();
    }

    /// Removes the selected elements, clears the selection and records the
    /// result.
    pub fn delete_selected(&mut self)
        ensures
            final(self).wf(),
            final(self).elements@ == old(self).elements@.filter(not_selected(old(self).selected_ids@)),
            final(self).selected_ids@.len() == 0,
            final(self).timeline() == recorded_timeline(
                Timeline { elements: final(self).elements@, ..old(self).timeline() },
            ),
            final(self).same_chrome(*old(self)),
    {
        let ghost sel = self.selected_ids@;
        let mut kept: Vec<CanvasElement> = Vec::new();
        let mut i: usize = 0;
        while i < self.elements.len()
            invariant
                i <= self.elements@.len(),
                sel == self.selected_ids@,
                kept@ == self.elements@.take(i as int).filter(not_selected(sel)),
            decreases self.elements@.len() - i,
        {
            let e = self.elements[i].clone();
            let mut chosen = false;
            let mut j: usize = 0;
            while j < self.selected_ids.len()
                invariant
                    j <= self.selected_ids@.len(),
                    chosen == self.selected_ids@.take(j as int).contains(e.id),
                decreases self.selected_ids@.len() - j,
            {
                proof {
                    let t = self.selected_ids@.take(j + 1);
                    assert(t.drop_last() =~= self.selected_ids@.take(j as int));
                    assert(t.contains(e.id) == (self.selected_ids@.take(j as int).contains(e.id)
                        || self.selected_ids@[j as int] == e.id)) by {
                        if t.contains(e.id) {
                            let k = choose|k: int| 0 <= k < t.len() && t[k] == e.id;
                            if k < j {
                                assert(self.selected_ids@.take(j as int)[k] == e.id);
                            }
                        }
                        if self.selected_ids@.take(j as int).contains(e.id) {
                            let k = choose|k: int| 0 <= k < j && self.selected_ids@.take(j as int)[k] == e.id;
                            assert(t[k] == e.id);
                        }
                        if self.selected_ids@[j as int] == e.id {
                            assert(t[j as int] == e.id);
                        }
                    }
                }
                if self.selected_ids[j] == e.id {
                    chosen = true;
                }
                j = j + 1;
            }
            assert(self.selected_ids@.take(j as int) =~= self.selected_ids@);
            proof {
                let t = self.elements@.take(i + 1);
                assert(t.drop_last() =~= self.elements@.take(i as int));
                assert(t.last() == e);
                reveal_with_fuel(Seq::filter, 1);
                assert(t.filter(not_selected(sel)) == (if not_selected(sel)(e) {
                    t.drop_last().filter(not_selected(sel)).push(e)
                } else {
                    t.drop_last().filter(not_selected(sel))
                }));
            }
            if !chosen {
                kept.push(e);
            }
            i = i + 1;
        }
        assert(self.elements@.take(i as int) =~= self.elements@);
        self.elements = kept;
        self.selected_ids = Vec::new();
        self.push_to_history();
    }

    /// Switches between the dark and the light theme.
    pub fn toggle_theme(&mut self)
        ensures
            old(self).theme@ == "dark"@ ==> final(self).theme@ == "light"@,
            old(self).theme@ != "dark"@ ==> final(self).theme@ == "dark"@,
            final(self).elements == old(self).elements,
            final(self).selected_ids == old(self).selected_ids,
            final(self).history == old(self).history,
            final(self).history_index == old(self).history_index,
    {
        if text_eq(self.theme, "dark") {
            self.theme = "light";
        } else {
            self.theme = "dark";
        }
    }
}

impl Default for EditorState {
    fn default() -> (s: Self)
        ensures
            s.wf(),
            s.elements@.len() == 0,
            s.history_index == 0,
            s.selected_ids@.len() == 0,
    {
        EditorState::new()
    }
}

/// Redo undoes an undo: stepping back and then forward gives the same
/// elements, snapshots and cursor (at the first snapshot, where the undo does
/// nothing, only when it is also the last).
pub proof fn law_back_then_forward(t: Timeline)
    requires
        in_step(t),
        t.index > 0 || t.index + 1 >= t.snapshots.len(),
    ensures
        stepped_forward(stepped_back(t)) == t,
{
}

/// Undo undoes a redo: stepping forward and then back gives the same
/// elements, snapshots and cursor (at the last snapshot, where the redo does
/// nothing, only when it is also the first).
pub proof fn law_forward_then_back(t: Timeline)
    requires
        in_step(t),
        t.index + 1 < t.snapshots.len() || t.index == 0,
    ensures
        stepped_back(stepped_forward(t)) == t,
{
}

/// Undo reverts a recorded edit: when the canvas showed the snapshot under the
/// cursor, changed its elements to `edited`, and recorded them, an undo brings
/// back the former elements at the former cursor.
pub proof fn law_undo_reverts_edit(t: Timeline, edited: Seq<CanvasElement>)
    requires
        in_step(t),
    ensures
        stepped_back(recorded_timeline(Timeline { elements: edited, ..t })).elements == t.elements,
        stepped_back(recorded_timeline(Timeline { elements: edited, ..t })).index == t.index,
{
}

/// The canvas always shows the snapshot under the cursor: recording, undo and
/// redo keep that.
pub proof fn law_timeline_in_step(t: Timeline)
    requires
        in_step(t),
    ensures
        in_step(recorded_timeline(t)),
        in_step(stepped_back(t)),
        in_step(stepped_forward(t)),
{
}

/// Toggling an unselected id into a multi-selection and out again gives back
/// the selection.
pub proof fn law_toggle_twice_restores(sel: Seq<u128>, id: u128)
    requires
        !sel.contains(id),
    ensures
        sel.push(id).contains(id),
        sel.push(id).filter(other_than(id)) == sel,
{
    assert(sel.push(id)[sel.len() as int] == id);
    reveal_with_fuel(Seq::filter, 1);
    assert(sel.push(id).drop_last() =~= sel);
    lemma_filter_keeps_all(sel, id);
}

proof fn lemma_filter_keeps_all(sel: Seq<u128>, id: u128)
    requires
        !sel.contains(id),
    ensures
        sel.filter(other_than(id)) == sel,
    decreases sel.len(),
{
    reveal_with_fuel(Seq::filter, 1);
    if sel.len() > 0 {
        let t = sel.drop_last();
        assert(!t.contains(id)) by {
            if t.contains(id) {
                let j = choose|j: int| 0 <= j < t.len() && t[j] == id;
                assert(sel[j] == id);
            }
        }
        lemma_filter_keeps_all(t, id);
        assert(sel.last() != id) by {
            assert(sel[sel.len() - 1] == sel.last());
        }
        assert(t.push(sel.last()) =~= sel);
    }
}

/// The short form of an element id the inspector shows: the first group of
/// its UUID text, before the first hyphen.
pub fn short_id(id: u128) -> (s: String)
    ensures
        s@ == uuid_hyphenated(id).subrange(0, 8),
{
    let full = uuid_to_string(id);
    let text = full.as_str();
    let mut s = String::new();
    let mut i: usize = 0;
    proof {
        assert(text@.len() == 36);
    }
    while i < 8
        invariant
            text@ == uuid_hyphenated(id),
            i <= 8,
            s@ == uuid_hyphenated(id).subrange(0, i as int),
        decreases 8 - i,
    {
        let c = text.get_char(i);
        push_char(&mut s, c);
        assert(s@ =~= uuid_hyphenated(id).subrange(0, i + 1));
        i = i + 1;
    }
    s
}

} // verus!
