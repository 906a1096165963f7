//! The component catalogue of the project editor's palette, and its search.
use vstd::prelude::*;

use crate::shared::ComponentKind;
use crate::text::{has_substring, lowercase, matches_query, text_eq, to_lowercase};

verus! {

/// A component offered by the palette.
#[derive(Debug)]
pub struct ComponentEntry {
    pub kind: ComponentKind,
    pub label: &'static str,
    pub category: &'static str,
    pub description: &'static str,
}

impl Clone for ComponentEntry {
    fn clone(&self) -> (r: Self)
        ensures
            r == *self,
    {
        ComponentEntry {
            kind: self.kind.clone(),
            label: self.label,
            category: self.category,
            description: self.description,
        }
    }
}

impl View for ComponentEntry {
    type V = (ComponentKind, Seq<char>, Seq<char>, Seq<char>);

    open spec fn view(&self) -> (ComponentKind, Seq<char>, Seq<char>, Seq<char>) {
        (self.kind, self.label@, self.category@, self.description@)
    }
}

/// The catalogue, in order: kind, label, category and description.
pub open spec fn catalogue_table() -> Seq<(ComponentKind, Seq<char>, Seq<char>, Seq<char>)> {
    seq![
        (ComponentKind::Button, "Button"@, "Basics"@, "Clickable action trigger"@),
        (ComponentKind::Text, "Text"@, "Basics"@, "Paragraph or heading"@),
        (ComponentKind::Image, "Image"@, "Basics"@, "Raster or SVG image"@),
        (ComponentKind::Icon, "Icon"@, "Basics"@, "Scalable icon"@),
        (ComponentKind::Container, "Container"@, "Layout"@, "Block-level wrapper"@),
        (ComponentKind::Row, "Row"@, "Layout"@, "Horizontal flex row"@),
        (ComponentKind::Column, "Column"@, "Layout"@, "Vertical flex column"@),
        (ComponentKind::Grid, "Grid"@, "Layout"@, "CSS grid layout"@),
        (ComponentKind::Input, "Input"@, "Forms"@, "Text input field"@),
        (ComponentKind::Textarea, "Textarea"@, "Forms"@, "Multi-line text area"@),
        (ComponentKind::Select, "Select"@, "Forms"@, "Dropdown select"@),
        (ComponentKind::Toggle, "Toggle"@, "Forms"@, "Boolean toggle switch"@),
        (ComponentKind::Card, "Card"@, "Data"@, "Elevated content card"@),
        (ComponentKind::Table, "Table"@, "Data"@, "Structured data table"@),
        (ComponentKind::Navbar, "Navbar"@, "Navigation"@, "Top navigation bar"@),
    ]
}

/// The views of a list of catalogue entries.
pub open spec fn catalogue_views(s: Seq<ComponentEntry>) -> Seq<(ComponentKind, Seq<char>, Seq<char>, Seq<char>)> {
    s.map_values(|e: ComponentEntry| e@)
}

fn catalogue_entry(
    kind: ComponentKind,
    label: &'static str,
    category: &'static str,
    description: &'static str,
) -> (e: ComponentEntry)
    ensures
        e@ == (kind, label@, category@, description@),
{
    ComponentEntry { kind, label, category, description }
}

/// The catalogue (see `catalogue_table`).
pub fn component_catalogue() -> (r: Vec<ComponentEntry>)
    ensures
        catalogue_views(r@) == catalogue_table(),
{
    let mut r: Vec<ComponentEntry> = Vec::new();
    r.push(catalogue_entry(ComponentKind::Button, "Button", "Basics", "Clickable action trigger"));
    r.push(catalogue_entry(ComponentKind::Text, "Text", "Basics", "Paragraph or heading"));
    r.push(catalogue_entry(ComponentKind::Image, "Image", "Basics", "Raster or SVG image"));
    r.push(catalogue_entry(ComponentKind::Icon, "Icon", "Basics", "Scalable icon"));
    r.push(catalogue_entry(ComponentKind::Container, "Container", "Layout", "Block-level wrapper"));
    r.push(catalogue_entry(ComponentKind::Row, "Row", "Layout", "Horizontal flex row"));
    r.push(catalogue_entry(ComponentKind::Column, "Column", "Layout", "Vertical flex column"));
    r.push(catalogue_entry(ComponentKind::Grid, "Grid", "Layout", "CSS grid layout"));
    r.push(catalogue_entry(ComponentKind::Input, "Input", "Forms", "Text input field"));
    r.push(catalogue_entry(ComponentKind::Textarea, "Textarea", "Forms", "Multi-line text area"));
    r.push(catalogue_entry(ComponentKind::Select, "Select", "Forms", "Dropdown select"));
    r.push(catalogue_entry(ComponentKind::Toggle, "Toggle", "Forms", "Boolean toggle switch"));
    r.push(catalogue_entry(ComponentKind::Card, "Card", "Data", "Elevated content card"));
    r.push(catalogue_entry(ComponentKind::Table, "Table", "Data", "Structured data table"));
    r.push(catalogue_entry(ComponentKind::Navbar, "Navbar", "Navigation", "Top navigation bar"));
    assert(catalogue_views(r@) =~= catalogue_table());
    r
}

/// The category tabs, `All` first.
pub open spec fn category_tabs() -> Seq<Seq<char>> {
    seq!["All"@, "Basics"@, "Layout"@, "Forms"@, "Data"@, "Navigation"@]
}

/// The category tabs (`CATEGORIES`), `All` first.
pub fn categories() -> (r: Vec<&'static str>)
    ensures
        r@.map_values(|s: &'static str| s@) == category_tabs(),
{
    let r: Vec<&'static str> = vec!["All", "Basics", "Layout", "Forms", "Data", "Navigation"];
    assert(r@.map_values(|s: &'static str| s@) =~= category_tabs());
    r
}

/// An entry is listed under the tab `category` for the lowercased query `q`:
/// the tab is `All` or the entry's category, and `q` is empty or occurs in the
/// entry's lowercased label or description.
pub open spec fn listed_for(q: Seq<char>, category: Seq<char>) -> spec_fn(
    (ComponentKind, Seq<char>, Seq<char>, Seq<char>),
) -> bool {
    |e: (ComponentKind, Seq<char>, Seq<char>, Seq<char>)|
        (category == "All"@ || e.2 == category) && (q.len() == 0 || has_substring(lowercase(e.1), q)
            || has_substring(lowercase(e.3), q))
}

/// The entries listed under the tab `category` for a search `query` (see
/// `listed_for`), in order.
pub fn filter_catalogue(entries: &Vec<ComponentEntry>, query: &str, category: &str) -> (r: Vec<ComponentEntry>)
    ensures
        catalogue_views(r@) == catalogue_views(entries@).filter(listed_for(lowercase(query@), category@)),
{
    let q = to_lowercase(query);
    let all = text_eq(category, "All");
    let ghost pred = listed_for(lowercase(query@), category@);
    let mut r: Vec<ComponentEntry> = Vec::new();
    let mut i: usize = 0;
    while i < entries.len()
        invariant
            i <= entries@.len(),
            q@ == lowercase(query@),
            all == (category@ == "All"@),
            pred == listed_for(lowercase(query@), category@),
            catalogue_views(r@) == catalogue_views(entries@.take(i as int)).filter(pred),
        decreases entries@.len() - i,
    {
        let e = &entries[i];
        let matches_cat = all || text_eq(e.category, category);
        let matches_q = matches_query(to_lowercase(e.label).as_str(), q.as_str()) || matches_query(
            to_lowercase(e.description).as_str(),
            q.as_str(),
        );
        proof {
            let t = entries@.take(i + 1);
            assert(t.drop_last() =~= entries@.take(i as int));
            assert(catalogue_views(t).drop_last() =~= catalogue_views(entries@.take(i as int)));
            assert(catalogue_views(t).last() == e@);
            reveal_with_fuel(Seq::filter, 1);
            assert((matches_cat && matches_q) == pred(e@));
        }
        let ghost before = r@;
        if matches_cat && matches_q {
            r.push(e.clone());
            assert(catalogue_views(r@) =~= catalogue_views(before).push(e@));
        }
        i = i + 1;
    }
    assert(entries@.take(i as int) =~= entries@);
    r
}

/// A search lists an entry exactly when it passes both tests: it belongs to
/// the chosen tab (or the tab is `All`), and the lowercased query is empty or
/// occurs in the entry's lowercased label or lowercased description. In
/// particular an entry of the tab whose label holds the query is always
/// listed, and so is one whose description holds it.
pub proof fn law_catalogue_search(
    entries: Seq<(ComponentKind, Seq<char>, Seq<char>, Seq<char>)>,
    query: Seq<char>,
    category: Seq<char>,
    i: int,
)
    requires
        0 <= i < entries.len(),
    ensures
        ({
            let e = entries[i];
            let q = lowercase(query);
            let listed = entries.filter(listed_for(q, category)).contains(e);
            let in_tab = category == "All"@ || e.2 == category;
            &&& in_tab && has_substring(lowercase(e.1), q) ==> listed
            &&& in_tab && has_substring(lowercase(e.3), q) ==> listed
            &&& in_tab && q.len() == 0 ==> listed
            &&& listed ==> in_tab
            &&& listed ==> q.len() == 0 || has_substring(lowercase(e.1), q) || has_substring(lowercase(e.3), q)
        }),
{
    let q = lowercase(query);
    let pred = listed_for(q, category);
    if pred(entries[i]) {
        entries.lemma_filter_contains(pred, i);
    }
    if entries.filter(pred).contains(entries[i]) {
        let j = choose|j: int| 0 <= j < entries.filter(pred).len() && entries.filter(pred)[j] == entries[i];
        entries.lemma_filter_pred(pred, j);
    }
}

/// How a side panel of the project editor is shown.
#[derive(Debug, Clone, Copy, PartialEq, Eq, Structural)]
pub enum PanelState {
    Hidden,
    Collapsed,
    Overlay,
    Docked,
    Pinned,
}

impl Default for PanelState {
    fn default() -> (r: Self)
        ensures
            r == PanelState::Hidden,
    {
        PanelState::Hidden
    }
}

impl PanelState {
    /// The palette's state after the "open palette" action: an overlaid
    /// palette is hidden, any other is overlaid.
    pub fn toggled_overlay(self) -> (r: Self)
        ensures
            r == (if self == PanelState::Overlay {
                PanelState::Hidden
            } else {
                PanelState::Overlay
            }),
    {
        if self == PanelState::Overlay {
            PanelState::Hidden
        } else {
            PanelState::Overlay
        }
    }
}

} // verus!
