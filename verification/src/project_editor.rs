//! The project editor's own state: the project, the artboard being edited,
//! and an undo stack of that artboard's components.
use vstd::prelude::*;

use crate::history::{recorded, MAX_HISTORY};
use crate::shared::{Artboard, CanvasComponent, Project};

verus! {

/// `after` is `before` with the components of artboard `i` replaced by `comps`;
/// unchanged when there is no artboard `i`.
pub open spec fn with_components(
    before: Seq<Artboard>,
    after: Seq<Artboard>,
    i: int,
    comps: Seq<CanvasComponent>,
) -> bool {
    if 0 <= i < before.len() {
        &&& after.len() == before.len()
        &&& forall|j: int| 0 <= j < before.len() && j != i ==> after[j] == before[j]
        &&& after[i].id == before[i].id
        &&& after[i].name == before[i].name
        &&& after[i].width == before[i].width
        &&& after[i].height == before[i].height
        &&& after[i].components@ == comps
    } else {
        after == before
    }
}

/// `after` is `before` but for its artboards.
pub open spec fn same_but_artboards(before: Project, after: Project) -> bool {
    &&& after.id == before.id
    &&& after.name == before.name
    &&& after.description == before.description
    &&& after.palette == before.palette
    &&& after.created_at == before.created_at
    &&& after.updated_at == before.updated_at
}

/// The components shown: those of the active artboard, or none when there is
/// no such artboard.
pub open spec fn shown_components(artboards: Seq<Artboard>, i: int) -> Seq<CanvasComponent> {
    if 0 <= i < artboards.len() {
        artboards[i].components@
    } else {
        Seq::empty()
    }
}

/// The project being edited, the index of the active artboard, and snapshots
/// of its components to undo to (the last is the most recent).
pub struct ProjectEditor {
    pub project: Project,
    pub active_artboard: usize,
    pub history: Vec<Vec<CanvasComponent>>,
}

/// Replaces the components of artboard `i`, if there is one.
fn set_components(artboards: &mut Vec<Artboard>, i: usize, comps: Vec<CanvasComponent>)
    ensures
        with_components(old(artboards)@, final(artboards)@, i as int, comps@),
{
    if i < artboards.len() {
        let mut ab = artboards.remove(i);
        ab.components = comps;
        artboards.insert(i, ab);
    }
}

impl ProjectEditor {
    /// Editing a new project named "My First Project" on its first artboard,
    /// with nothing to undo.
    pub fn new() -> (e: Self)
        ensures
            e.project.name@ == "My First Project"@,
            e.project.artboards@.len() == 1,
            e.project.artboards@[0].name@ == "Mobile"@,
            e.project.artboards@[0].components@.len() == 1,
            e.active_artboard == 0,
            e.history@.len() == 0,
    {
        ProjectEditor { project: Project::new("My First Project"), active_artboard: 0, history: Vec::new() }
    }

    /// The components of the active artboard; none without one.
    pub fn components(&self) -> (r: &[CanvasComponent])
        ensures
            r@ == shown_components(self.project.artboards@, self.active_artboard as int),
    {
        if self.active_artboard < self.project.artboards.len() {
            self.project.artboards[self.active_artboard].components.as_slice()
        } else {
            &[]
        }
    }

    /// Records `snapshot`, the components as they were before an edit: pushed on
    /// the undo stack, the oldest dropped beyond `MAX_HISTORY`.
    pub fn push_history(&mut self, snapshot: Vec<CanvasComponent>)
        ensures
            final(self).history@ == recorded(old(self).history@, snapshot),
            final(self).project == old(self).project,
            final(self).active_artboard == old(self).active_artboard,
    {
        self.history.push(snapshot);
        if self.history.len() > MAX_HISTORY {
            self.history.remove(0);
        }
        assert(self.history@ =~= recorded(old(self).history@, snapshot));
    }

    /// Steps back: the most recent snapshot becomes the components of the
    /// active artboard (if there is one). Nothing happens with nothing to undo.
    pub fn undo(&mut self)
        ensures
            old(self).history@.len() == 0 ==> final(self).history@ == old(self).history@ && final(self).project
                == old(self).project,
            old(self).history@.len() > 0 ==> {
                &&& final(self).history@ == old(self).history@.drop_last()
                &&& with_components(
                    old(self).project.artboards@,
                    final(self).project.artboards@,
                    old(self).active_artboard as int,
                    old(self).history@.last()@,
                )
                &&& same_but_artboards(old(self).project, final(self).project)
            },
            final(self).active_artboard == old(self).active_artboard,
    {
        match self.history.pop() {
            Some(prev) => {
                set_components(&mut self.project.artboards, self.active_artboard, prev);
            },
            None => {},
        }
    }

    /// Inserts a component on the active artboard (if there is one), after
    /// recording `snapshot`, the components as they were.
    pub fn insert_component(&mut self, snapshot: Vec<CanvasComponent>, c: CanvasComponent)
        ensures
            final(self).history@ == recorded(old(self).history@, snapshot),
            with_components(
                old(self).project.artboards@,
                final(self).project.artboards@,
                old(self).active_artboard as int,
                shown_components(old(self).project.artboards@, old(self).active_artboard as int).push(c),
            ),
            same_but_artboards(old(self).project, final(self).project),
            final(self).active_artboard == old(self).active_artboard,
    {
        self.push_history(snapshot);
        let i = self.active_artboard;
        if i < self.project.artboards.len() {
            let mut ab = self.project.artboards.remove(i);
            ab.components.push(c);
            self.project.artboards.insert(i, ab);
        }
    }
}

/// Undo reverts an insertion: when the snapshot recorded was what the active
/// artboard showed, undoing after inserting a component shows the same
/// components as before, and leaves the other artboards as they were.
pub proof fn law_undo_reverts_insert(
    a0: Seq<Artboard>,
    a1: Seq<Artboard>,
    a2: Seq<Artboard>,
    i: int,
    c: CanvasComponent,
)
    requires
        with_components(a0, a1, i, shown_components(a0, i).push(c)),
        with_components(a1, a2, i, shown_components(a0, i)),
    ensures
        shown_components(a2, i) == shown_components(a0, i),
        a2.len() == a0.len(),
        forall|j: int| 0 <= j < a0.len() && j != i ==> a2[j] == a0[j],
{
}

} // verus!
