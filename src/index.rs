use vstd::prelude::*;
use vstd::multiset::Multiset;
use rstar::RTree;
use rstar::primitives::{GeomWithData, Rectangle};

verus! {

/// What the tree holds: a rectangle and, as data, a handle and a priority.
type Item = GeomWithData<Rectangle<[i64; 2]>, (u64, i64)>;

/// The R-tree that holds the entries. Only the wrappers below touch it.
#[verifier::external_body]
pub struct Tree {
    tree: RTree<Item>,
}

/// Every corner that enters the tree lies within this distance of the origin
/// on each axis. The tree's insertion heuristics compute areas and squared
/// distances in `i64`; with corners this bounded they cannot overflow.
pub const CORNER_LIMIT: i64 = 100_000_000;

/// An entry of the index: a widget's rectangle (bounds inclusive), its
/// priority and its handle.
#[derive(Clone, Copy, Debug, PartialEq, Eq, Structural)]
pub struct Rect {
    pub min_x: i64,
    pub min_y: i64,
    pub max_x: i64,
    pub max_y: i64,
    pub priority: i64,
    pub handle: u64,
}

/// An entry as a plain tuple, the form in which the tree's contents are named.
pub type Tup = (i64, i64, i64, i64, i64, u64);

pub open spec fn tup(r: Rect) -> Tup {
    (r.min_x, r.min_y, r.max_x, r.max_y, r.priority, r.handle)
}

pub open spec fn tup_contains(t: Tup, x: i64, y: i64) -> bool {
    t.0 <= x && x <= t.2 && t.1 <= y && y <= t.3
}

/// No entry of `m` holds `(x, y)`.
pub open spec fn none_at(m: Multiset<Tup>, x: i64, y: i64) -> bool {
    forall|e: Tup| #[trigger] m.count(e) > 0 ==> !tup_contains(e, x, y)
}

/// Some entry of `m` with handle `h` holds `(x, y)`, and no entry that holds
/// `(x, y)` has a higher priority.
pub open spec fn is_topmost(m: Multiset<Tup>, h: u64, x: i64, y: i64) -> bool {
    exists|e: Tup|
        #![trigger m.count(e)]
        m.count(e) > 0 && tup_contains(e, x, y) && e.5 == h
        && (forall|f: Tup| #[trigger] m.count(f) > 0 && tup_contains(f, x, y) ==> f.4 <= e.4)
}

impl Rect {
    pub open spec fn well_formed(self) -> bool {
        self.min_x <= self.max_x && self.min_y <= self.max_y
    }

    /// Each corner lies within `CORNER_LIMIT` of the origin on each axis.
    pub open spec fn bounded(self) -> bool {
        -CORNER_LIMIT <= self.min_x && self.max_x <= CORNER_LIMIT
            && -CORNER_LIMIT <= self.min_y && self.max_y <= CORNER_LIMIT
    }

    pub open spec fn contains_spec(self, x: i64, y: i64) -> bool {
        tup_contains(tup(self), x, y)
    }

    /// Whether the point `(x, y)` lies in the rectangle, boundary included.
    pub fn contains_point(&self, x: i64, y: i64) -> (r: bool)
        ensures
            r == self.contains_spec(x, y),
    {
        self.min_x <= x && x <= self.max_x && self.min_y <= y && y <= self.max_y
    }
}

/// The entries that a tree holds, with their multiplicities.
pub uninterp spec fn tree_entries(t: Tree) -> Multiset<Tup>;

/// Relies on `RTree::new`: a new tree is empty.
#[verifier::external_body]
fn tree_new() -> (r: Tree)
    ensures
        tree_entries(r) =~= Multiset::<Tup>::empty(),
{
    Tree { tree: RTree::new() }
}

/// Relies on `RTree::insert`: the element is added, once more if present.
/// `Rectangle::from_corners` keeps well-formed corners as they are. Its
/// heuristics do arithmetic on the corners of this and the elements already
/// held, all of which came in here bounded, so none of it overflows.
#[verifier::external_body]
fn tree_insert(t: &mut Tree, e: Rect)
    requires
        e.well_formed(),
        e.bounded(),
    ensures
        tree_entries(*final(t)) == tree_entries(*old(t)).insert(tup(e)),
{
    let rect = Rectangle::from_corners([e.min_x, e.min_y], [e.max_x, e.max_y]);
    t.tree.insert(GeomWithData::new(rect, (e.handle, e.priority)));
}

/// Relies on `RTree::remove`: one element equal to the given one is removed
/// and returned, if there is one; equal elements share their envelope.
#[verifier::external_body]
fn tree_remove(t: &mut Tree, e: Rect) -> (r: bool)
    requires
        e.well_formed(),
    ensures
        r == (tree_entries(*old(t)).count(tup(e)) > 0),
        tree_entries(*final(t)) == tree_entries(*old(t)).remove(tup(e)),
{
    let rect = Rectangle::from_corners([e.min_x, e.min_y], [e.max_x, e.max_y]);
    t.tree.remove(&GeomWithData::new(rect, (e.handle, e.priority))).is_some()
}

/// Relies on `RTree::locate_all_at_point`: it yields every element whose
/// rectangle holds the point, boundary included, and no other.
#[verifier::external_body]
fn tree_locate_all_at_point(t: &Tree, x: i64, y: i64) -> (r: Vec<Rect>)
    ensures
        forall|i: int|
            0 <= i < r@.len() ==> tree_entries(*t).count(#[trigger] tup(r@[i])) > 0
                && tup_contains(tup(r@[i]), x, y),
        forall|e: Tup|
            tree_entries(*t).count(e) > 0 && tup_contains(e, x, y) ==> exists|i: int|
                0 <= i < r@.len() && tup(#[trigger] r@[i]) == e,
{
    t.tree.locate_all_at_point(&[x, y]).map(|g| {
        let l = g.geom().lower();
        let u = g.geom().upper();
        Rect { min_x: l[0], min_y: l[1], max_x: u[0], max_y: u[1], priority: g.data.1, handle: g.data.0 }
    }).collect()
}

/// Relies on `RTree::size`: the number of elements held, counted with
/// multiplicity.
#[verifier::external_body]
fn tree_size(t: &Tree) -> (r: usize)
    ensures
        r == tree_entries(*t).len(),
{
    t.tree.size()
}

/// A bounding-box index over the widgets, answering which one is on top at a
/// point.
pub struct SpatialIndex {
    tree: Tree,
}

impl SpatialIndex {
    /// The entries held, with their multiplicities.
    pub closed spec fn entries(&self) -> Multiset<Tup> {
        tree_entries(self.tree)
    }

    /// An index with no entry.
    pub fn new() -> (r: SpatialIndex)
        ensures
            r.entries() =~= Multiset::<Tup>::empty(),
    {
        SpatialIndex { tree: tree_new() }
    }

    /// The number of entries held.
    pub fn len(&self) -> (r: usize)
        ensures
            r == self.entries().len(),
    {
        tree_size(&self.tree)
    }

    /// Adds an entry.
    pub fn insert(&mut self, e: Rect)
        requires
            e.well_formed(),
            e.bounded(),
        ensures
            final(self).entries() == old(self).entries().insert(tup(e)),
    {
        tree_insert(&mut self.tree, e);
    }

    /// Removes one entry equal to `e`; does nothing where there is none.
    /// Returns whether one was removed.
    pub fn remove(&mut self, e: Rect) -> (r: bool)
        requires
            e.well_formed(),
        ensures
            r == (old(self).entries().count(tup(e)) > 0),
            final(self).entries() == old(self).entries().remove(tup(e)),
    {
        tree_remove(&mut self.tree, e)
    }

    /// The handle of the entry of highest priority whose rectangle holds
    /// `(x, y)`; of equal priorities, the first met wins.
    pub fn query_topmost_at(&self, x: i64, y: i64) -> (r: Option<u64>)
        ensures
            r.is_none() <==> none_at(self.entries(), x, y),
            r.is_some() ==> is_topmost(self.entries(), r.unwrap(), x, y),
    {
        let found = tree_locate_all_at_point(&self.tree, x, y);
        if found.len() == 0 {
            assert forall|e: Tup| #[trigger] self.entries().count(e) > 0 implies !tup_contains(e, x, y) by {
                if tup_contains(e, x, y) {
                    let i = choose|i: int| 0 <= i < found@.len() && tup(#[trigger] found@[i]) == e;
                }
            }
            return None;
        }
        let mut best: usize = 0;
        let mut i: usize = 1;
        while i < found.len()
            invariant
                0 <= best < i <= found@.len(),
                forall|j: int| 0 <= j < i ==> #[trigger] found@[j].priority <= found@[best as int].priority,
            decreases found@.len() - i,
        {
            if found[i].priority > found[best].priority {
                best = i;
            }
            i = i + 1;
        }
        let b = found[best];
        assert(self.entries().count(tup(found@[best as int])) > 0);
        assert forall|f: Tup| #[trigger] self.entries().count(f) > 0 && tup_contains(f, x, y) implies f.4 <= b.priority by {
            let j = choose|j: int| 0 <= j < found@.len() && tup(#[trigger] found@[j]) == f;
            assert(found@[j].priority <= found@[best as int].priority);
        }
        Some(b.handle)
    }
}

/// Of two entries that hold a point, with distinct priorities, and no other
/// entry holding it, the one of higher priority is the topmost.
pub proof fn lemma_max_priority(m: Multiset<Tup>, e1: Tup, e2: Tup, h: u64, x: i64, y: i64)
    requires
        m.count(e1) > 0,
        m.count(e2) > 0,
        tup_contains(e1, x, y),
        tup_contains(e2, x, y),
        e1.4 < e2.4,
        forall|f: Tup| #[trigger] m.count(f) > 0 && tup_contains(f, x, y) ==> f == e1 || f == e2,
        is_topmost(m, h, x, y),
    ensures
        h == e2.5,
{
    let e = choose|e: Tup|
        #![trigger m.count(e)]
        m.count(e) > 0 && tup_contains(e, x, y) && e.5 == h
        && (forall|f: Tup| #[trigger] m.count(f) > 0 && tup_contains(f, x, y) ==> f.4 <= e.4);
    assert(m.count(e2) > 0 && tup_contains(e2, x, y));
}

} // verus!
