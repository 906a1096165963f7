//! The document tree: pages, nodes and the operations that edit them.
use std::collections::HashMap;
use vstd::prelude::*;
use vstd::std_specs::iter::IteratorSpec;

use crate::ids::{is_random_uuid, random_uuid, uuid_hyphenated, uuid_to_string, NodeId};
use crate::style::{
    default_layout, kind_label, Alignment, Appearance, Color, Display, FlexDirection, Layout,
    NodeKind, Size, Spacing, Typography, ONE_BITS,
};

verus! {

broadcast use vstd::std_specs::hash::group_hash_axioms;

/// The single-precision bit pattern of 24.0, the padding of a page root.
pub const ROOT_PADDING_BITS: u32 = 0x41c0_0000u32;

/// A single composable node in the document tree.
#[derive(Debug, Clone)]
pub struct Node {
    pub id: NodeId,
    pub kind: NodeKind,
    pub name: String,
    pub children: Vec<NodeId>,
    pub layout: Layout,
    pub appearance: Appearance,
    pub typography: Option<Typography>,
    pub content: Option<String>,
    pub locked: bool,
    pub visible: bool,
}

/// `b` is `a` with possibly different children.
pub open spec fn same_but_children(a: Node, b: Node) -> bool {
    &&& a.id == b.id
    &&& a.kind == b.kind
    &&& a.name == b.name
    &&& a.layout == b.layout
    &&& a.appearance == b.appearance
    &&& a.typography == b.typography
    &&& a.content == b.content
    &&& a.locked == b.locked
    &&& a.visible == b.visible
}

/// A node fresh from `Node::new(kind)`: named after its kind, no children,
/// default layout and appearance, no text, visible and unlocked.
pub open spec fn is_new_node(n: Node, kind: NodeKind) -> bool {
    &&& new_node_shape(n, kind)
    &&& n.content.is_none()
}

/// Everything `Node::new(kind)` sets but the text.
pub open spec fn new_node_shape(n: Node, kind: NodeKind) -> bool {
    &&& n.kind == kind
    &&& n.name@ == kind_label(kind)
    &&& n.children@.len() == 0
    &&& n.layout == default_layout()
    &&& n.appearance.background.is_none()
    &&& n.appearance.border.is_none()
    &&& n.appearance.opacity == ONE_BITS
    &&& n.appearance.shadows@.len() == 0
    &&& n.typography.is_none()
    &&& !n.locked
    &&& n.visible
}

impl Node {
    /// A new node of the given kind with a fresh random id.
    pub fn new(kind: NodeKind) -> (n: Self)
        ensures
            is_new_node(n, kind),
            is_random_uuid(n.id.0),
    {
        let name = String::from_str(kind.label());
        Node {
            id: NodeId::new(),
            kind,
            name,
            children: Vec::new(),
            layout: Layout::default(),
            appearance: Appearance::default(),
            typography: None,
            content: None,
            locked: false,
            visible: true,
        }
    }
}

/// A named page within the site.
#[derive(Debug, Clone)]
pub struct Page {
    pub id: u128,
    pub name: String,
    pub slug: String,
    pub root_node: NodeId,
}

/// The full site document: pages, and every node keyed by the value of its id.
#[derive(Debug, Clone)]
pub struct Document {
    pub id: u128,
    pub name: String,
    pub pages: Vec<Page>,
    pub nodes: HashMap<u128, Node>,
    pub active_page_id: Option<u128>,
}

/// The index of the first page at or after `start` whose id is `pid`.
pub open spec fn find_page(pages: Seq<Page>, pid: u128, start: int) -> Option<int>
    decreases pages.len() - start,
{
    if start < 0 || start >= pages.len() {
        None
    } else if pages[start].id == pid {
        Some(start)
    } else {
        find_page(pages, pid, start + 1)
    }
}

/// What `find_page` returns is a page with that id, and none before it from `start`.
pub proof fn lemma_find_page(pages: Seq<Page>, pid: u128, start: int)
    requires
        0 <= start,
    ensures
        match find_page(pages, pid, start) {
            Some(i) => start <= i < pages.len() && pages[i].id == pid && forall|j: int|
                start <= j < i ==> pages[j].id != pid,
            None => forall|j: int| start <= j < pages.len() ==> pages[j].id != pid,
        },
    decreases pages.len() - start,
{
    if start < pages.len() && pages[start].id != pid {
        lemma_find_page(pages, pid, start + 1);
    }
}

/// The root of a new page: a white section padded by 24px on every side.
pub open spec fn is_page_root(n: Node) -> bool {
    &&& n.kind == NodeKind::Section
    &&& n.name@ == "Page root"@
    &&& n.children@.len() == 0
    &&& n.layout == (Layout {
        padding: Spacing {
            top: ROOT_PADDING_BITS,
            right: ROOT_PADDING_BITS,
            bottom: ROOT_PADDING_BITS,
            left: ROOT_PADDING_BITS,
        },
        ..default_layout()
    })
    &&& n.appearance.background == Some(Color { r: 255, g: 255, b: 255, a: 255 })
    &&& n.appearance.border.is_none()
    &&& n.appearance.opacity == ONE_BITS
    &&& n.appearance.shadows@.len() == 0
    &&& n.typography.is_none()
    &&& n.content.is_none()
    &&& !n.locked
    &&& n.visible
}

/// `after` is `before` with the children of `key` (if present) replaced by `kids`.
pub open spec fn with_children(
    before: Map<u128, Node>,
    after: Map<u128, Node>,
    key: u128,
    kids: Seq<NodeId>,
) -> bool {
    &&& after.dom() == before.dom()
    &&& forall|k: u128| #[trigger] before.contains_key(k) && k != key ==> after[k] == before[k]
    &&& before.contains_key(key) ==> {
        &&& after[key].children@ == kids
        &&& same_but_children(before[key], after[key])
    }
}

/// `node` is stored under its id, then (if `parent` is stored) its id is
/// appended to the children of `parent`.
pub open spec fn appended_under(
    before: Map<u128, Node>,
    after: Map<u128, Node>,
    node: Node,
    parent: u128,
) -> bool {
    let m = before.insert(node.id.0, node);
    with_children(m, after, parent, m[parent].children@.push(node.id))
}

/// `min(index, len)`: where an insertion at `index` into `len` items lands.
pub open spec fn clamp_index(index: int, len: int) -> int {
    if index < len {
        index
    } else {
        len
    }
}

/// `node` is stored under its id, then (if `parent` is stored) its id is
/// inserted among the children of `parent` at `index`, clamped to their count.
pub open spec fn inserted_under(
    before: Map<u128, Node>,
    after: Map<u128, Node>,
    node: Node,
    parent: u128,
    index: int,
) -> bool {
    let m = before.insert(node.id.0, node);
    let kids = m[parent].children@;
    with_children(m, after, parent, kids.insert(clamp_index(index, kids.len() as int), node.id))
}

/// Appends `child` to the children of `key`, if `key` is stored.
fn push_child(nodes: &mut HashMap<u128, Node>, key: u128, child: NodeId)
    ensures
        with_children(old(nodes)@, final(nodes)@, key, old(nodes)@[key].children@.push(child)),
{
    if let Some(mut p) = nodes.remove(&key) {
        p.children.push(child);
        nodes.insert(key, p);
    }
    assert(final(nodes)@.dom() =~= old(nodes)@.dom());
}

/// Inserts `child` among the children of `key` at `index` clamped to their
/// count, if `key` is stored.
fn insert_child(nodes: &mut HashMap<u128, Node>, key: u128, index: usize, child: NodeId)
    ensures
        with_children(
            old(nodes)@,
            final(nodes)@,
            key,
            old(nodes)@[key].children@.insert(
                clamp_index(index as int, old(nodes)@[key].children@.len() as int),
                child,
            ),
        ),
{
    if let Some(mut p) = nodes.remove(&key) {
        let len = p.children.len();
        let at = if index < len {
            index
        } else {
            len
        };
        p.children.insert(at, child);
        nodes.insert(key, p);
    }
    assert(final(nodes)@.dom() =~= old(nodes)@.dom());
}

/// The keys of `nodes`, each once.
pub(crate) fn key_list(nodes: &HashMap<u128, Node>) -> (r: Vec<u128>)
    ensures
        r@.no_duplicates(),
        forall|k: u128| nodes@.contains_key(k) <==> r@.contains(k),
{
    let mut r: Vec<u128> = Vec::new();
    let ghost ks = vstd::std_specs::hash::spec_keys_iter(nodes).remaining();
    for k in it: nodes.keys()
        invariant
            it.seq() == ks,
            r@.len() == it.index(),
            forall|j: int| 0 <= j < it.index() ==> r@[j] == *ks[j],
    {
        r.push(*k);
    }
    assert(r@ =~= ks.unref());
    r
}

/// The predicate "is not `id`".
pub open spec fn not_id(id: NodeId) -> spec_fn(NodeId) -> bool {
    |c: NodeId| c != id
}

/// `kids` without any occurrence of `id`, order kept.
fn without(kids: &Vec<NodeId>, id: NodeId) -> (r: Vec<NodeId>)
    ensures
        r@ == kids@.filter(not_id(id)),
{
    let mut r: Vec<NodeId> = Vec::new();
    let mut i: usize = 0;
    while i < kids.len()
        invariant
            i <= kids@.len(),
            r@ == kids@.take(i as int).filter(not_id(id)),
        decreases kids@.len() - i,
    {
        assert(kids@.take(i + 1).drop_last() =~= kids@.take(i as int));
        assert(kids@.take(i + 1).last() == kids@[i as int]);
        if kids[i].0 != id.0 {
            r.push(kids[i]);
        } else {
            assert(kids@[i as int] == id);
        }
        proof {
            let t = kids@.take(i + 1);
            reveal_with_fuel(Seq::filter, 1);
            assert(t.filter(not_id(id)) == (if not_id(id)(t.last()) {
                t.drop_last().filter(not_id(id)).push(t.last())
            } else {
                t.drop_last().filter(not_id(id))
            }));
        }
        i = i + 1;
    }
    assert(kids@.take(i as int) =~= kids@);
    r
}

/// The index of the first occurrence of `x` in `s` at or after `start`.
pub open spec fn find_first<T>(s: Seq<T>, x: T, start: int) -> Option<int>
    decreases s.len() - start,
{
    if start < 0 || start >= s.len() {
        None
    } else if s[start] == x {
        Some(start)
    } else {
        find_first(s, x, start + 1)
    }
}

/// What `find_first` returns is an occurrence, and the first one from `start`.
pub proof fn lemma_find_first<T>(s: Seq<T>, x: T, start: int)
    requires
        0 <= start,
    ensures
        match find_first(s, x, start) {
            Some(i) => start <= i < s.len() && s[i] == x && forall|j: int| start <= j < i ==> s[j] != x,
            None => forall|j: int| start <= j < s.len() ==> s[j] != x,
        },
    decreases s.len() - start,
{
    if start < s.len() && s[start] != x {
        lemma_find_first(s, x, start + 1);
    }
}

/// The index of the first occurrence of `x` in `kids`.
pub(crate) fn position(kids: &Vec<NodeId>, x: NodeId) -> (r: Option<usize>)
    ensures
        match r {
            Some(i) => find_first(kids@, x, 0) == Some(i as int) && i < kids@.len(),
            None => find_first(kids@, x, 0).is_none(),
        },
        r.is_some() == kids@.contains(x),
{
    let mut i: usize = 0;
    while i < kids.len()
        invariant
            i <= kids@.len(),
            find_first(kids@, x, 0) == find_first(kids@, x, i as int),
        decreases kids@.len() - i,
    {
        if kids[i].0 == x.0 {
            proof { lemma_find_first(kids@, x, 0); }
            return Some(i);
        }
        i = i + 1;
    }
    proof { lemma_find_first(kids@, x, 0); }
    None
}

/// `s` with the items at `i` and `j` exchanged.
pub open spec fn swap_at<T>(s: Seq<T>, i: int, j: int) -> Seq<T> {
    s.update(i, s[j]).update(j, s[i])
}

/// Exchanges the children at `i` and `j` of the stored node `key`.
fn swap_children(nodes: &mut HashMap<u128, Node>, key: u128, i: usize, j: usize)
    requires
        old(nodes)@.contains_key(key),
        i < old(nodes)@[key].children@.len(),
        j < old(nodes)@[key].children@.len(),
    ensures
        with_children(old(nodes)@, final(nodes)@, key, swap_at(old(nodes)@[key].children@, i as int, j as int)),
{
    if let Some(mut p) = nodes.remove(&key) {
        let a = p.children[i];
        let b = p.children[j];
        p.children.set(i, b);
        p.children.set(j, a);
        nodes.insert(key, p);
    }
    assert(final(nodes)@.dom() =~= old(nodes)@.dom());
}

/// `p` is stored and lists `c` among its children.
pub open spec fn is_parent(m: Map<u128, Node>, p: u128, c: NodeId) -> bool {
    m.contains_key(p) && m[p].children@.contains(c)
}

/// Some stored node lists `c` among its children.
pub open spec fn has_parent(m: Map<u128, Node>, c: NodeId) -> bool {
    exists|p: u128| #[trigger] is_parent(m, p, c)
}

/// Direction of a one-step move among siblings.
#[derive(Debug, Clone, Copy, PartialEq, Eq, Structural)]
pub enum SiblingDirection {
    Up,
    Down,
}

/// Why a sibling move was refused.
#[derive(Debug, Clone, Copy, PartialEq, Eq, Structural)]
pub enum MoveError {
    NodeNotFound,
    NoParent,
    AlreadyAtEdge,
}

/// The outcome of moving `child` one step `dir` among the children of its
/// parent `p`: swapped with its neighbour, or refused at the edge.
pub open spec fn moved_among(
    before: Map<u128, Node>,
    after: Map<u128, Node>,
    p: u128,
    child: NodeId,
    dir: SiblingDirection,
    r: Result<(), MoveError>,
) -> bool {
    let kids = before[p].children@;
    match find_first(kids, child, 0) {
        None => false,
        Some(i) => match dir {
            SiblingDirection::Up => if i == 0 {
                r == Err::<(), MoveError>(MoveError::AlreadyAtEdge) && after == before
            } else {
                r == Ok::<(), MoveError>(()) && with_children(before, after, p, swap_at(kids, i - 1, i))
            },
            SiblingDirection::Down => if i + 1 >= kids.len() {
                r == Err::<(), MoveError>(MoveError::AlreadyAtEdge) && after == before
            } else {
                r == Ok::<(), MoveError>(()) && with_children(before, after, p, swap_at(kids, i, i + 1))
            },
        },
    }
}

/// The node `k` of `after` is that of `before` with `id` gone from its children.
pub open spec fn detached(before: Map<u128, Node>, after: Map<u128, Node>, k: u128, id: NodeId) -> bool {
    &&& after[k].children@ == before[k].children@.filter(not_id(id))
    &&& same_but_children(before[k], after[k])
}

/// The fields other than `nodes` are equal.
pub open spec fn same_header(a: Document, b: Document) -> bool {
    &&& a.id == b.id
    &&& a.name == b.name
    &&& a.pages == b.pages
    &&& a.active_page_id == b.active_page_id
}

impl Document {
    /// The index of the active page: the first page whose id is the active id.
    pub open spec fn active_page_index(self) -> Option<int> {
        match self.active_page_id {
            Some(aid) => find_page(self.pages@, aid, 0),
            None => None,
        }
    }

    /// The root node id of the active page.
    pub open spec fn active_root(self) -> Option<NodeId> {
        match self.active_page_index() {
            Some(i) => Some(self.pages@[i].root_node),
            None => None,
        }
    }

    /// A new document with a single blank "Home" page at `/`.
    pub fn new(name: &str) -> (d: Self)
        ensures
            d.name@ == name@,
            d.pages@.len() == 1,
            d.pages@[0].name@ == "Home"@,
            d.pages@[0].slug@ == "/"@,
            d.active_page_id == Some(d.pages@[0].id),
            d.nodes@.dom() == set![d.pages@[0].root_node.0],
            is_page_root(d.nodes@[d.pages@[0].root_node.0]),
            d.nodes@[d.pages@[0].root_node.0].id == d.pages@[0].root_node,
            is_random_uuid(d.id),
            is_random_uuid(d.pages@[0].id),
            is_random_uuid(d.pages@[0].root_node.0),
    {
        let root_id = NodeId::new();
        let page_id = random_uuid();
        let root_node = Node {
            id: root_id,
            kind: NodeKind::Section,
            name: String::from_str("Page root"),
            children: Vec::new(),
            layout: Layout {
                display: Display::Flex,
                direction: FlexDirection::Column,
                align_items: Alignment::Start,
                justify_content: Alignment::Start,
                gap: 0,
                padding: Spacing::all(ROOT_PADDING_BITS),
                margin: Spacing::zero(),
                width: Size::Fill,
                height: Size::Auto,
            },
            appearance: Appearance {
                background: Some(Color::white()),
                border: None,
                opacity: ONE_BITS,
                shadows: Vec::new(),
            },
            typography: None,
            content: None,
            locked: false,
            visible: true,
        };
        let page = Page {
            id: page_id,
            name: String::from_str("Home"),
            slug: String::from_str("/"),
            root_node: root_id,
        };
        let mut nodes: HashMap<u128, Node> = HashMap::new();
        nodes.insert(root_id.0, root_node);
        let pages = vec![page];
        let d = Document {
            id: random_uuid(),
            name: String::from_str(name),
            pages,
            nodes,
            active_page_id: Some(page_id),
        };
        assert(d.nodes@.dom() =~= set![root_id.0]);
        d
    }

    /// The document id as hyphenated lowercase UUID text.
    pub fn id_string(&self) -> (s: String)
        ensures
            s@ == uuid_hyphenated(self.id),
    {
        uuid_to_string(self.id)
    }

    /// The index of the active page, found by a scan from the front.
    fn active_index(&self) -> (r: Option<usize>)
        ensures
            match r {
                Some(i) => self.active_page_index() == Some(i as int) && i < self.pages@.len(),
                None => self.active_page_index().is_none(),
            },
    {
        match self.active_page_id {
            None => None,
            Some(aid) => {
                let mut i: usize = 0;
                while i < self.pages.len()
                    invariant
                        i <= self.pages@.len(),
                        self.active_page_id == Some(aid),
                        find_page(self.pages@, aid, 0) == find_page(self.pages@, aid, i as int),
                    decreases self.pages@.len() - i,
                {
                    if self.pages[i].id == aid {
                        proof { lemma_find_page(self.pages@, aid, 0); }
                        return Some(i);
                    }
                    i = i + 1;
                }
                None
            },
        }
    }

    /// The active page, if the active id names one.
    pub fn active_page(&self) -> (r: Option<&Page>)
        ensures
            self.active_page_index() matches Some(i) ==> 0 <= i < self.pages@.len(),
            match self.active_page_index() {
                Some(i) => r == Some(&self.pages@[i]),
                None => r.is_none(),
            },
    {
        match self.active_index() {
            Some(i) => Some(&self.pages[i]),
            None => None,
        }
    }

    /// The root node id of the active page.
    fn active_root_id(&self) -> (r: Option<NodeId>)
        ensures
            r == self.active_root(),
    {
        match self.active_index() {
            Some(i) => Some(self.pages[i].root_node),
            None => None,
        }
    }

    /// The node with the given id.
    pub fn node(&self, id: &NodeId) -> (r: Option<&Node>)
        ensures
            match r {
                Some(n) => self.nodes@.contains_key(id.0) && *n == self.nodes@[id.0],
                None => !self.nodes@.contains_key(id.0),
            },
    {
        self.nodes.get(&id.0)
    }
}

impl Default for Document {
    /// `Document::new("Untitled Site")`.
    fn default() -> (d: Self)
        ensures
            d.name@ == "Untitled Site"@,
            d.pages@.len() == 1,
            d.pages@[0].name@ == "Home"@,
            d.pages@[0].slug@ == "/"@,
            d.active_page_id == Some(d.pages@[0].id),
            d.nodes@.dom() == set![d.pages@[0].root_node.0],
            is_page_root(d.nodes@[d.pages@[0].root_node.0]),
            d.nodes@[d.pages@[0].root_node.0].id == d.pages@[0].root_node,
            is_random_uuid(d.id),
            is_random_uuid(d.pages@[0].id),
            is_random_uuid(d.pages@[0].root_node.0),
    {
        Document::new("Untitled Site")
    }
}

impl Document {
    /// Inserts `node` and appends it to the children of the active page's root.
    /// With no active page, the node is stored but attached nowhere.
    pub fn insert_node(&mut self, node: Node) -> (r: NodeId)
        ensures
            r == node.id,
            same_header(*old(self), *final(self)),
            match old(self).active_root() {
                Some(root) => appended_under(old(self).nodes@, final(self).nodes@, node, root.0),
                None => final(self).nodes@ == old(self).nodes@.insert(node.id.0, node),
            },
    {
        let id = node.id;
        let parent_id = self.active_root_id();
        self.nodes.insert(id.0, node);
        if let Some(pid) = parent_id {
            push_child(&mut self.nodes, pid.0, id);
        }
        id
    }

    /// Inserts `node` and appends it to the children of `parent_id`.
    pub fn insert_node_into(&mut self, node: Node, parent_id: NodeId) -> (r: NodeId)
        ensures
            r == node.id,
            same_header(*old(self), *final(self)),
            appended_under(old(self).nodes@, final(self).nodes@, node, parent_id.0),
    {
        let id = node.id;
        self.nodes.insert(id.0, node);
        push_child(&mut self.nodes, parent_id.0, id);
        id
    }

    /// Inserts `node` into `parent_id`'s children at position `index`, clamped
    /// to the number of children.
    pub fn insert_at(&mut self, node: Node, parent_id: NodeId, index: usize) -> (r: NodeId)
        ensures
            r == node.id,
            same_header(*old(self), *final(self)),
            inserted_under(old(self).nodes@, final(self).nodes@, node, parent_id.0, index as int),
    {
        let id = node.id;
        self.nodes.insert(id.0, node);
        insert_child(&mut self.nodes, parent_id.0, index, id);
        id
    }
}

impl Document {
    /// Removes a node: detaches it from every parent, then drops it from the
    /// map. Its own children are left in the map, unattached.
    pub fn remove_node(&mut self, id: NodeId)
        ensures
            same_header(*old(self), *final(self)),
            final(self).nodes@.dom() == old(self).nodes@.dom().remove(id.0),
            forall|k: u128| #[trigger] final(self).nodes@.contains_key(k) ==> detached(
                old(self).nodes@,
                final(self).nodes@,
                k,
                id,
            ),
    {
        let keys = key_list(&self.nodes);
        let ghost start = self.nodes@;
        let mut i: usize = 0;
        while i < keys.len()
            invariant
                i <= keys@.len(),
                keys@.no_duplicates(),
                forall|k: u128| start.contains_key(k) <==> keys@.contains(k),
                self.nodes@.dom() == start.dom(),
                forall|j: int| 0 <= j < i ==> detached(start, self.nodes@, #[trigger] keys@[j], id),
                forall|j: int| i <= j < keys@.len() ==> self.nodes@[#[trigger] keys@[j]] == start[keys@[j]],
                same_header(*old(self), *self),
                start == old(self).nodes@,
            decreases keys@.len() - i,
        {
            let k = keys[i];
            if let Some(mut n) = self.nodes.remove(&k) {
                let kept = without(&n.children, id);
                n.children = kept;
                self.nodes.insert(k, n);
            }
            assert(self.nodes@.dom() =~= start.dom());
            i = i + 1;
        }
        assert forall|k: u128| #[trigger] self.nodes@.contains_key(k) implies detached(start, self.nodes@, k, id) by {
            assert(keys@.contains(k));
            let j = choose|j: int| 0 <= j < keys@.len() && keys@[j] == k;
            assert(detached(start, self.nodes@, keys@[j], id));
        }
        self.nodes.remove(&id.0);
    }

    /// Sets the text of a stored node; nothing happens for an id not stored.
    pub fn set_content(&mut self, id: NodeId, text: String)
        ensures
            same_header(*old(self), *final(self)),
            old(self).nodes@.contains_key(id.0) ==> final(self).nodes@ == old(self).nodes@.insert(
                id.0,
                Node { content: Some(text), ..old(self).nodes@[id.0] },
            ),
            !old(self).nodes@.contains_key(id.0) ==> final(self).nodes@ == old(self).nodes@,
    {
        if let Some(mut n) = self.nodes.remove(&id.0) {
            n.content = Some(text);
            self.nodes.insert(id.0, n);
        }
    }

    /// Sets the flex direction of a stored node; nothing happens for an id not
    /// stored.
    pub fn set_direction(&mut self, id: NodeId, direction: FlexDirection)
        ensures
            same_header(*old(self), *final(self)),
            old(self).nodes@.contains_key(id.0) ==> final(self).nodes@ == old(self).nodes@.insert(
                id.0,
                Node { layout: Layout { direction, ..old(self).nodes@[id.0].layout }, ..old(self).nodes@[id.0] },
            ),
            !old(self).nodes@.contains_key(id.0) ==> final(self).nodes@ == old(self).nodes@,
    {
        if let Some(mut n) = self.nodes.remove(&id.0) {
            n.layout.direction = direction;
            self.nodes.insert(id.0, n);
        }
    }

    /// Sets the gap (a single-precision bit pattern) of a stored node; nothing
    /// happens for an id not stored.
    pub fn set_gap(&mut self, id: NodeId, gap: u32)
        ensures
            same_header(*old(self), *final(self)),
            old(self).nodes@.contains_key(id.0) ==> final(self).nodes@ == old(self).nodes@.insert(
                id.0,
                Node { layout: Layout { gap, ..old(self).nodes@[id.0].layout }, ..old(self).nodes@[id.0] },
            ),
            !old(self).nodes@.contains_key(id.0) ==> final(self).nodes@ == old(self).nodes@,
    {
        if let Some(mut n) = self.nodes.remove(&id.0) {
            n.layout.gap = gap;
            self.nodes.insert(id.0, n);
        }
    }

    /// Sets the opacity (a single-precision bit pattern) of a stored node;
    /// nothing happens for an id not stored.
    pub fn set_opacity(&mut self, id: NodeId, opacity: u32)
        ensures
            same_header(*old(self), *final(self)),
            old(self).nodes@.contains_key(id.0) ==> final(self).nodes@ == old(self).nodes@.insert(
                id.0,
                Node {
                    appearance: Appearance { opacity, ..old(self).nodes@[id.0].appearance },
                    ..old(self).nodes@[id.0]
                },
            ),
            !old(self).nodes@.contains_key(id.0) ==> final(self).nodes@ == old(self).nodes@,
    {
        if let Some(mut n) = self.nodes.remove(&id.0) {
            n.appearance.opacity = opacity;
            self.nodes.insert(id.0, n);
        }
    }

    /// A node whose children list `child`, if any does.
    pub fn parent_of(&self, child: NodeId) -> (r: Option<NodeId>)
        ensures
            match r {
                Some(p) => is_parent(self.nodes@, p.0, child),
                None => !has_parent(self.nodes@, child),
            },
    {
        let keys = key_list(&self.nodes);
        let mut i: usize = 0;
        while i < keys.len()
            invariant
                i <= keys@.len(),
                forall|k: u128| self.nodes@.contains_key(k) <==> keys@.contains(k),
                forall|j: int| 0 <= j < i ==> !is_parent(self.nodes@, #[trigger] keys@[j], child),
            decreases keys@.len() - i,
        {
            let k = keys[i];
            match self.nodes.get(&k) {
                Some(n) => {
                    if position(&n.children, child).is_some() {
                        return Some(NodeId(k));
                    }
                },
                None => {},
            }
            i = i + 1;
        }
        assert forall|p: u128| !is_parent(self.nodes@, p, child) by {
            if self.nodes@.contains_key(p) {
                assert(keys@.contains(p));
                let j = choose|j: int| 0 <= j < keys@.len() && keys@[j] == p;
                assert(!is_parent(self.nodes@, keys@[j], child));
            }
        }
        None
    }

    /// Swaps a node one position up or down among its parent's children.
    pub fn move_sibling(&mut self, child: NodeId, direction: SiblingDirection) -> (r: Result<(), MoveError>)
        ensures
            same_header(*old(self), *final(self)),
            !has_parent(old(self).nodes@, child) ==> r == Err::<(), MoveError>(MoveError::NoParent)
                && final(self).nodes@ == old(self).nodes@,
            has_parent(old(self).nodes@, child) ==> exists|p: u128|
                #[trigger] is_parent(old(self).nodes@, p, child)
                && moved_among(old(self).nodes@, final(self).nodes@, p, child, direction, r),
    {
        let pid = match self.parent_of(child) {
            Some(p) => p,
            None => return Err(MoveError::NoParent),
        };
        let ghost before = self.nodes@;
        let (idx, len) = match self.nodes.get(&pid.0) {
            Some(parent) => {
                let len = parent.children.len();
                match position(&parent.children, child) {
                    Some(i) => (i, len),
                    None => return Err(MoveError::NodeNotFound),
                }
            },
            None => return Err(MoveError::NodeNotFound),
        };
        let r = match direction {
            SiblingDirection::Up => {
                if idx == 0 {
                    Err(MoveError::AlreadyAtEdge)
                } else {
                    swap_children(&mut self.nodes, pid.0, idx - 1, idx);
                    Ok(())
                }
            },
            SiblingDirection::Down => {
                if idx + 1 >= len {
                    Err(MoveError::AlreadyAtEdge)
                } else {
                    swap_children(&mut self.nodes, pid.0, idx, idx + 1);
                    Ok(())
                }
            },
        };
        assert(is_parent(before, pid.0, child));
        assert(moved_among(before, self.nodes@, pid.0, child, direction, r));
        r
    }
}

/// The two node maps hold the same ids, and under each id equal nodes (their
/// children lists equal as sequences).
pub open spec fn same_nodes(a: Map<u128, Node>, b: Map<u128, Node>) -> bool {
    &&& a.dom() == b.dom()
    &&& forall|k: u128| #[trigger] a.contains_key(k) ==> same_but_children(a[k], b[k]) && a[k].children@
        == b[k].children@
}

/// After inserting `node` under another node `parent`, the node is stored
/// under its id, the parent (if stored) lists it last among its children, and
/// every other node is as it was.
pub proof fn law_insert_then_lookup(before: Map<u128, Node>, after: Map<u128, Node>, node: Node, parent: u128)
    requires
        appended_under(before, after, node, parent),
        node.id.0 != parent,
    ensures
        after.contains_key(node.id.0),
        after[node.id.0] == node,
        before.contains_key(parent) ==> after[parent].children@ == before[parent].children@.push(node.id),
        forall|k: u128| #[trigger] before.contains_key(k) && k != parent && k != node.id.0 ==> after[k] == before[k],
{
    let m = before.insert(node.id.0, node);
    assert forall|k: u128| #[trigger] before.contains_key(k) && k != parent && k != node.id.0 implies after[k]
        == before[k] by {
        assert(m.contains_key(k));
        assert(m[k] == before[k]);
    }
}

/// A node inserted under a stored parent, when no node listed it before and it
/// does not list itself, has exactly that parent: `parent_of` finds it.
pub proof fn law_insert_gives_parent(before: Map<u128, Node>, after: Map<u128, Node>, node: Node, parent: u128)
    requires
        appended_under(before, after, node, parent),
        before.contains_key(parent),
        node.id.0 != parent,
        !has_parent(before, node.id),
        !node.children@.contains(node.id),
    ensures
        is_parent(after, parent, node.id),
        forall|q: u128| #[trigger] is_parent(after, q, node.id) ==> q == parent,
{
    let kids = before[parent].children@.push(node.id);
    assert(kids[kids.len() - 1] == node.id);
    assert forall|q: u128| #[trigger] is_parent(after, q, node.id) implies q == parent by {
        if q != parent {
            if q == node.id.0 {
                assert(after[q] == node);
            } else {
                assert(after[q] == before[q]);
                assert(is_parent(before, q, node.id));
            }
        }
    }
}

/// After `remove_node(id)`, no node is stored under `id` and no stored node
/// lists `id` among its children.
pub proof fn law_remove_detaches(before: Map<u128, Node>, after: Map<u128, Node>, id: NodeId)
    requires
        after.dom() == before.dom().remove(id.0),
        forall|k: u128| #[trigger] after.contains_key(k) ==> detached(before, after, k, id),
    ensures
        !after.contains_key(id.0),
        !has_parent(after, id),
{
    assert forall|p: u128| !is_parent(after, p, id) by {
        if after.contains_key(p) {
            assert(detached(before, after, p, id));
            let kids = before[p].children@;
            if after[p].children@.contains(id) {
                let j = choose|j: int| 0 <= j < kids.filter(not_id(id)).len() && kids.filter(not_id(id))[j] == id;
                kids.lemma_filter_pred(not_id(id), j);
            }
        }
    }
}

/// Moving a node up and then down among its parent's children succeeds and
/// gives back the same nodes.
pub proof fn law_move_up_then_down(
    a: Map<u128, Node>,
    b: Map<u128, Node>,
    c: Map<u128, Node>,
    p: u128,
    child: NodeId,
    r: Result<(), MoveError>,
)
    requires
        a.contains_key(p),
        moved_among(a, b, p, child, SiblingDirection::Up, Ok(())),
        moved_among(b, c, p, child, SiblingDirection::Down, r),
    ensures
        r == Ok::<(), MoveError>(()),
        same_nodes(a, c),
{
    let kids = a[p].children@;
    lemma_find_first(kids, child, 0);
    let i = find_first(kids, child, 0)->0;
    let bk = b[p].children@;
    assert(bk == swap_at(kids, i - 1, i));
    assert(find_first(bk, child, 0) == Some(i - 1)) by {
        lemma_find_first(bk, child, 0);
        assert(bk[i - 1] == child);
        assert forall|j: int| 0 <= j < i - 1 implies bk[j] != child by {
            assert(bk[j] == kids[j]);
        }
    }
    assert(swap_at(bk, i - 1, i) =~= kids);
}

/// Moving a node down and then up among its parent's children succeeds and
/// gives back the same nodes, unless the node is also listed right after its
/// first place.
pub proof fn law_move_down_then_up(
    a: Map<u128, Node>,
    b: Map<u128, Node>,
    c: Map<u128, Node>,
    p: u128,
    child: NodeId,
    r: Result<(), MoveError>,
)
    requires
        a.contains_key(p),
        moved_among(a, b, p, child, SiblingDirection::Down, Ok(())),
        moved_among(b, c, p, child, SiblingDirection::Up, r),
        forall|i: int|
            find_first(a[p].children@, child, 0) == Some(i) && i + 1 < a[p].children@.len() ==> a[p].children@[i
                + 1] != child,
    ensures
        r == Ok::<(), MoveError>(()),
        same_nodes(a, c),
{
    let kids = a[p].children@;
    lemma_find_first(kids, child, 0);
    let i = find_first(kids, child, 0)->0;
    let bk = b[p].children@;
    assert(bk == swap_at(kids, i, i + 1));
    assert(find_first(bk, child, 0) == Some(i + 1)) by {
        lemma_find_first(bk, child, 0);
        assert(bk[i + 1] == child);
        assert forall|j: int| 0 <= j < i + 1 implies bk[j] != child by {
            if j < i {
                assert(bk[j] == kids[j]);
            } else {
                assert(bk[j] == kids[i + 1]);
            }
        }
    }
    assert(swap_at(bk, i, i + 1) =~= kids);
}

/// Whether a move succeeds is decided by the node's place among the children
/// of its parent `p`: up unless it is the first, down unless it is the last.
pub proof fn law_move_succeeds_off_edge(
    a: Map<u128, Node>,
    b: Map<u128, Node>,
    p: u128,
    child: NodeId,
    dir: SiblingDirection,
    r: Result<(), MoveError>,
)
    requires
        is_parent(a, p, child),
        moved_among(a, b, p, child, dir, r),
    ensures
        index_of_child(a, p, child) >= 0,
        dir == SiblingDirection::Up ==> (r is Ok <==> index_of_child(a, p, child) > 0),
        dir == SiblingDirection::Down ==> (r is Ok <==> index_of_child(a, p, child) + 1 < a[p].children@.len()),
        r is Err ==> r == Err::<(), MoveError>(MoveError::AlreadyAtEdge) && b == a,
{
    lemma_find_first(a[p].children@, child, 0);
}

/// `child`'s first position among the children of `p`, or -1.
pub open spec fn index_of_child(nodes: Map<u128, Node>, p: u128, child: NodeId) -> int {
    match find_first(nodes[p].children@, child, 0) {
        Some(i) => i,
        None => -1,
    }
}

/// Inserting at a position before the end of a stored parent's children puts
/// the node at exactly that position: the children before it stay in front,
/// those from that position on move one step back, and there is one child
/// more.
pub proof fn law_insert_at_position(
    before: Map<u128, Node>,
    after: Map<u128, Node>,
    node: Node,
    parent: u128,
    index: int,
)
    requires
        inserted_under(before, after, node, parent, index),
        before.insert(node.id.0, node).contains_key(parent),
        0 <= index < before.insert(node.id.0, node)[parent].children@.len(),
    ensures
        ({
            let kids = before.insert(node.id.0, node)[parent].children@;
            let now = after[parent].children@;
            &&& now.len() == kids.len() + 1
            &&& now[index] == node.id
            &&& forall|j: int| 0 <= j < index ==> #[trigger] now[j] == kids[j]
            &&& forall|j: int| index < j <= kids.len() ==> #[trigger] now[j] == kids[j - 1]
        }),
{
}

/// Inserting at a position at or past the end of the parent's children is
/// appending: `insert_at` then does what `insert_node_into` does.
pub proof fn law_insert_at_end_appends(
    before: Map<u128, Node>,
    after: Map<u128, Node>,
    node: Node,
    parent: u128,
    index: int,
)
    requires
        inserted_under(before, after, node, parent, index),
        index >= before.insert(node.id.0, node)[parent].children@.len(),
    ensures
        appended_under(before, after, node, parent),
{
    let kids = before.insert(node.id.0, node)[parent].children@;
    assert(kids.insert(kids.len() as int, node.id) =~= kids.push(node.id));
}

} // verus!
