//! Save status and the status bar texts.
use vstd::prelude::*;

use crate::document::Document;
use crate::text::{dec_string, dec_text};

verus! {

broadcast use vstd::std_specs::hash::group_hash_axioms;

/// Where the document stands with respect to the server.
#[derive(Debug, Clone)]
pub enum SaveStatus {
    Idle,
    Unsaved,
    Saving,
    Saved,
    Error(String),
}

/// The short state name of a save status.
pub open spec fn status_name(s: SaveStatus) -> Seq<char> {
    match s {
        SaveStatus::Idle => "idle"@,
        SaveStatus::Unsaved => "unsaved"@,
        SaveStatus::Saving => "saving"@,
        SaveStatus::Saved => "saved"@,
        SaveStatus::Error(_) => "error"@,
    }
}

/// The sentence the status bar shows for a save status.
pub open spec fn status_label(s: SaveStatus) -> Seq<char> {
    match s {
        SaveStatus::Idle => "All changes saved"@,
        SaveStatus::Unsaved => "Unsaved changes"@,
        SaveStatus::Saving => "Saving…"@,
        SaveStatus::Saved => "Saved"@,
        SaveStatus::Error(e) => "Error: "@ + e@,
    }
}

impl SaveStatus {
    /// The short state name, as used in the status bar's data attribute.
    pub fn as_str(&self) -> (r: &'static str)
        ensures
            r@ == status_name(*self),
    {
        match self {
            SaveStatus::Idle => "idle",
            SaveStatus::Unsaved => "unsaved",
            SaveStatus::Saving => "saving",
            SaveStatus::Saved => "saved",
            SaveStatus::Error(_) => "error",
        }
    }

    /// The sentence the status bar shows.
    pub fn label(&self) -> (r: String)
        ensures
            r@ == status_label(*self),
    {
        match self {
            SaveStatus::Idle => String::from_str("All changes saved"),
            SaveStatus::Unsaved => String::from_str("Unsaved changes"),
            SaveStatus::Saving => String::from_str("Saving…"),
            SaveStatus::Saved => String::from_str("Saved"),
            SaveStatus::Error(e) => {
                let mut r = String::from_str("Error: ");
                r.append(e.as_str());
                r
            },
        }
    }
}

/// The number of children of the active page's root, or 0.
pub open spec fn active_child_count(doc: Document) -> nat {
    match doc.active_root() {
        Some(root) => if doc.nodes@.contains_key(root.0) {
            doc.nodes@[root.0].children@.len()
        } else {
            0
        },
        None => 0,
    }
}

/// The number of components on the active page: the children of its root.
pub fn component_count(doc: &Document) -> (n: usize)
    ensures
        n == active_child_count(*doc),
{
    match doc.active_page() {
        Some(page) => match doc.node(&page.root_node) {
            Some(root) => root.children.len(),
            None => 0,
        },
        None => 0,
    }
}

/// The status bar's count: `Empty page`, `1 component` or `n components`.
pub open spec fn count_text(n: nat) -> Seq<char> {
    if n == 0 {
        "Empty page"@
    } else if n == 1 {
        dec_text(n) + " component"@
    } else {
        dec_text(n) + " components"@
    }
}

/// The status bar's count text for `n` components.
pub fn count_label(n: u64) -> (r: String)
    ensures
        r@ == count_text(n as nat),
{
    if n == 0 {
        String::from_str("Empty page")
    } else {
        let mut r = dec_string(n as u128);
        if n == 1 {
            r.append(" component");
        } else {
            r.append(" components");
        }
        r
    }
}

/// The tab shown in the editor's left panel.
#[derive(Debug, Clone, Copy, PartialEq, Eq, Structural)]
pub enum LeftTab {
    Components,
    Layers,
}

} // verus!
