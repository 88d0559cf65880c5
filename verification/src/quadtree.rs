//! Point quadtree over integer coordinates.
//!
//! A node keeps up to `capacity` points of its own. Once it is full it splits
//! its rectangle into four quadrants and hands every further point to the
//! first quadrant, in the order north-east, north-west, south-east,
//! south-west, whose rectangle contains the point. Rectangles are closed on
//! all four sides, so neighbouring quadrants share their common edge.
//!
//! What a tree holds and how it grows is laid down by `Shape`, the tree as a
//! plain value: a `QuadTree` always has a shape, and every operation says
//! what it does to that shape.

use vstd::prelude::*;
use vstd::seq_lib::*;
use crate::sequences::{lemma_insert_after, lemma_insert_in_join};

verus! {

/// Axis-aligned rectangle with corner `(x, y)`, width `w` and height `h`.
/// It covers the closed region `[x, x + w] x [y, y + h]`.
#[derive(Debug, Clone, Copy, PartialEq, Eq, Structural)]
pub struct Rect {
    pub x: i64,
    pub y: i64,
    pub w: i64,
    pub h: i64,
}

impl Rect {
    /// The extents are not negative and the far corner is representable.
    pub open spec fn valid(self) -> bool {
        &&& 0 <= self.w
        &&& 0 <= self.h
        &&& self.x + self.w <= i64::MAX
        &&& self.y + self.h <= i64::MAX
    }

    /// The point `(px, py)` lies in the rectangle, edges included.
    pub open spec fn contains(self, px: int, py: int) -> bool {
        &&& self.x <= px <= self.x + self.w
        &&& self.y <= py <= self.y + self.h
    }

    /// The two rectangles share at least one point.
    pub open spec fn intersects(self, other: Rect) -> bool {
        !(self.x > other.x + other.w || self.x + self.w < other.x || self.y > other.y + other.h
            || self.y + self.h < other.y)
    }

    /// Quadrant with the larger `x` and the smaller `y`. Where the width is
    /// odd, the eastern quadrants are the wider ones, and where the height
    /// is odd, the southern quadrants are the higher ones.
    pub open spec fn north_east(self) -> Rect {
        Rect {
            x: (self.x + self.w / 2) as i64,
            y: self.y,
            w: (self.w - self.w / 2) as i64,
            h: (self.h / 2) as i64,
        }
    }

    /// Quadrant with the smaller `x` and the smaller `y`.
    pub open spec fn north_west(self) -> Rect {
        Rect { x: self.x, y: self.y, w: (self.w / 2) as i64, h: (self.h / 2) as i64 }
    }

    /// Quadrant with the larger `x` and the larger `y`.
    pub open spec fn south_east(self) -> Rect {
        Rect {
            x: (self.x + self.w / 2) as i64,
            y: (self.y + self.h / 2) as i64,
            w: (self.w - self.w / 2) as i64,
            h: (self.h - self.h / 2) as i64,
        }
    }

    /// Quadrant with the smaller `x` and the larger `y`.
    pub open spec fn south_west(self) -> Rect {
        Rect {
            x: self.x,
            y: (self.y + self.h / 2) as i64,
            w: (self.w / 2) as i64,
            h: (self.h - self.h / 2) as i64,
        }
    }

    /// The zero-area rectangle that holds the single point `(x, y)`.
    pub open spec fn point(x: i64, y: i64) -> Rect {
        Rect { x, y, w: 0, h: 0 }
    }

    pub fn new(x: i64, y: i64, w: i64, h: i64) -> (r: Rect)
        ensures
            r == (Rect { x, y, w, h }),
    {
        Rect { x, y, w, h }
    }
}

/// The four quadrants of a valid rectangle are valid, lie inside it and
/// together cover it.
pub proof fn lemma_quadrants_cover(r: Rect)
    requires
        r.valid(),
    ensures
        r.north_east().valid(),
        r.north_west().valid(),
        r.south_east().valid(),
        r.south_west().valid(),
        forall|px: int, py: int| #[trigger]
            r.contains(px, py) <==> (r.north_east().contains(px, py) || r.north_west().contains(
                px,
                py,
            ) || r.south_east().contains(px, py) || r.south_west().contains(px, py)),
{
}

/// A point kept in the tree: its coordinates and the grid indices of the
/// terrain cell it stands for.
#[derive(Debug, Clone, Copy, PartialEq, Eq, Structural)]
pub struct QuadTreeItem {
    pub x: i64,
    pub y: i64,
    pub tx: usize,
    pub ty: usize,
}

/// Predicate met by the points that lie in `range`.
pub open spec fn in_range(range: Rect) -> spec_fn(QuadTreeItem) -> bool {
    |p: QuadTreeItem| range.contains(p.x as int, p.y as int)
}

/// The points of `items` that lie in `range`, in the order of `items`.
pub open spec fn within(items: Seq<QuadTreeItem>, range: Rect) -> Seq<QuadTreeItem> {
    items.filter(in_range(range))
}

/// A tree as a plain value: the rectangle and the capacity of its root, the
/// points that the root keeps itself, in the order of their arrival, and
/// the four subtrees if the root has split.
pub struct Shape {
    pub boundary: Rect,
    pub capacity: nat,
    pub items: Seq<QuadTreeItem>,
    pub quadrants: Option<Box<Quadrants>>,
}

/// The four subtrees of a node that has split.
pub struct Quadrants {
    pub north_east: Shape,
    pub north_west: Shape,
    pub south_east: Shape,
    pub south_west: Shape,
}

impl Quadrants {
    /// The four empty quadrants of a node over `boundary` that splits.
    pub open spec fn fresh(boundary: Rect, capacity: nat) -> Quadrants {
        Quadrants {
            north_east: Shape::leaf(boundary.north_east(), capacity),
            north_west: Shape::leaf(boundary.north_west(), capacity),
            south_east: Shape::leaf(boundary.south_east(), capacity),
            south_west: Shape::leaf(boundary.south_west(), capacity),
        }
    }

    /// The quadrants after `item` has been offered to them in turn: the
    /// first whose rectangle contains the point has it inserted, and the
    /// others stay as they are.
    pub open spec fn offered(self, item: QuadTreeItem) -> Quadrants
        decreases self, 0nat,
    {
        if self.north_east.takes(item) {
            Quadrants { north_east: self.north_east.inserted(item), ..self }
        } else if self.north_west.takes(item) {
            Quadrants { north_west: self.north_west.inserted(item), ..self }
        } else if self.south_east.takes(item) {
            Quadrants { south_east: self.south_east.inserted(item), ..self }
        } else {
            Quadrants { south_west: self.south_west.inserted(item), ..self }
        }
    }

    /// The points of the four subtrees, north-east first, then north-west,
    /// south-east and south-west.
    pub open spec fn contents(self) -> Seq<QuadTreeItem>
        decreases self, 0nat,
    {
        self.north_east.contents() + self.north_west.contents() + self.south_east.contents()
            + self.south_west.contents()
    }

    /// Index in `contents()` at which `offered` places `item`.
    pub open spec fn slot(self, item: QuadTreeItem) -> int
        decreases self, 0nat,
    {
        if self.north_east.takes(item) {
            self.north_east.slot(item)
        } else if self.north_west.takes(item) {
            self.north_east.contents().len() + self.north_west.slot(item)
        } else if self.south_east.takes(item) {
            self.north_east.contents().len() + self.north_west.contents().len()
                + self.south_east.slot(item)
        } else {
            self.north_east.contents().len() + self.north_west.contents().len()
                + self.south_east.contents().len() + self.south_west.slot(item)
        }
    }

    /// The quadrants are well-formed trees of the given capacity over the
    /// quadrants of `boundary`.
    pub open spec fn wf(self, boundary: Rect, capacity: nat) -> bool
        decreases self, 0nat,
    {
        &&& self.north_east.boundary == boundary.north_east()
        &&& self.north_west.boundary == boundary.north_west()
        &&& self.south_east.boundary == boundary.south_east()
        &&& self.south_west.boundary == boundary.south_west()
        &&& self.north_east.capacity == capacity
        &&& self.north_west.capacity == capacity
        &&& self.south_east.capacity == capacity
        &&& self.south_west.capacity == capacity
        &&& self.north_east.wf()
        &&& self.north_west.wf()
        &&& self.south_east.wf()
        &&& self.south_west.wf()
    }

    /// Number of splits in the four subtrees.
    pub open spec fn height(self) -> nat
        decreases self, 0nat,
    {
        self.north_east.height() + self.north_west.height() + self.south_east.height()
            + self.south_west.height()
    }

    /// Bound on the nodes an insertion into the quadrants has to visit.
    pub open spec fn descent(self) -> nat {
        self.north_east.descent() + self.north_west.descent() + self.south_east.descent()
            + self.south_west.descent()
    }
}

impl Shape {
    /// The empty tree over `boundary`.
    pub open spec fn leaf(boundary: Rect, capacity: nat) -> Shape {
        Shape { boundary, capacity, items: Seq::empty(), quadrants: None }
    }

    /// The rectangle of the root contains the point.
    pub open spec fn takes(self, item: QuadTreeItem) -> bool {
        self.boundary.contains(item.x as int, item.y as int)
    }

    /// The root keeps as many points as it can.
    pub open spec fn full(self) -> bool {
        self.items.len() >= self.capacity
    }

    /// The tree with `item` added to the points that the root keeps.
    pub open spec fn with(self, item: QuadTreeItem) -> Shape {
        Shape { items: self.items.push(item), ..self }
    }

    /// Every point of the tree: those that the root keeps, then those of
    /// the north-east, north-west, south-east and south-west subtrees. This
    /// is the order in which a query visits them.
    pub open spec fn contents(self) -> Seq<QuadTreeItem>
        decreases self, 1nat,
    {
        match self.quadrants {
            None => self.items,
            Some(quadrants) => self.items + quadrants.contents(),
        }
    }

    /// The tree after the insertion of `item`. A point outside the root's
    /// rectangle changes nothing. While the root has room it keeps the
    /// point itself. A full root that has not split yet splits, and a full
    /// root offers the point to its quadrants.
    pub open spec fn inserted(self, item: QuadTreeItem) -> Shape
        decreases self, 1nat,
    {
        if !self.takes(item) {
            self
        } else if !self.full() {
            self.with(item)
        } else {
            match self.quadrants {
                None => Shape {
                    quadrants: Some(
                        Box::new(Quadrants::fresh(self.boundary, self.capacity).seeded(item)),
                    ),
                    ..self
                },
                Some(quadrants) => Shape {
                    quadrants: Some(Box::new(quadrants.offered(item))),
                    ..self
                },
            }
        }
    }

    /// Index in `contents()` at which `inserted` places `item`.
    pub open spec fn slot(self, item: QuadTreeItem) -> int
        decreases self, 1nat,
    {
        if !self.full() {
            self.items.len() as int
        } else {
            match self.quadrants {
                None => self.items.len() as int,
                Some(quadrants) => self.items.len() + quadrants.slot(item),
            }
        }
    }

    /// Invariant of a tree: every node can keep at least one point, keeps
    /// no more than its capacity and only points of its own rectangle, and
    /// a node that has split is full and has well-formed quadrants of its
    /// own capacity.
    pub open spec fn wf(self) -> bool
        decreases self, 1nat,
    {
        &&& self.capacity >= 1
        &&& self.boundary.valid()
        &&& self.items.len() <= self.capacity
        &&& forall|i: int| 0 <= i < self.items.len() ==> self.takes(#[trigger] self.items[i])
        &&& match self.quadrants {
            None => true,
            Some(quadrants) => self.full() && quadrants.wf(self.boundary, self.capacity),
        }
    }

    /// Number of splits in the tree.
    pub open spec fn height(self) -> nat
        decreases self, 1nat,
    {
        match self.quadrants {
            None => 0,
            Some(quadrants) => 1 + quadrants.height(),
        }
    }

    /// Bound on the nodes an insertion into the tree has to visit.
    pub open spec fn descent(self) -> nat {
        4 * self.height() + if self.full() {
            1nat
        } else {
            0nat
        }
    }

    /// Bound on the nodes an insertion below the root has to visit.
    pub open spec fn descent_below(self) -> nat {
        match self.quadrants {
            None => 0,
            Some(quadrants) => quadrants.descent(),
        }
    }
}

impl Quadrants {
    /// Empty quadrants after `item` has been offered to them in turn: the
    /// first whose rectangle contains the point keeps it.
    pub open spec fn seeded(self, item: QuadTreeItem) -> Quadrants {
        if self.north_east.takes(item) {
            Quadrants { north_east: self.north_east.with(item), ..self }
        } else if self.north_west.takes(item) {
            Quadrants { north_west: self.north_west.with(item), ..self }
        } else if self.south_east.takes(item) {
            Quadrants { south_east: self.south_east.with(item), ..self }
        } else if self.south_west.takes(item) {
            Quadrants { south_west: self.south_west.with(item), ..self }
        } else {
            self
        }
    }
}

/// An empty tree over a valid rectangle is well-formed, and so are the four
/// empty quadrants of a node that splits. To offer a point to empty
/// quadrants is to let the first whose rectangle contains it keep it.
pub proof fn lemma_leaf(boundary: Rect, capacity: nat, item: QuadTreeItem)
    requires
        boundary.valid(),
        capacity >= 1,
    ensures
        Shape::leaf(boundary, capacity).wf(),
        Shape::leaf(boundary, capacity).contents() == Seq::<QuadTreeItem>::empty(),
        Quadrants::fresh(boundary, capacity).wf(boundary, capacity),
        Quadrants::fresh(boundary, capacity).contents() == Seq::<QuadTreeItem>::empty(),
        Quadrants::fresh(boundary, capacity).descent() == 0,
        Quadrants::fresh(boundary, capacity).slot(item) == 0,
        boundary.contains(item.x as int, item.y as int) ==> Quadrants::fresh(
            boundary,
            capacity,
        ).offered(item) == Quadrants::fresh(boundary, capacity).seeded(item),
{
    lemma_quadrants_cover(boundary);
    assert(Quadrants::fresh(boundary, capacity).contents() =~= Seq::<QuadTreeItem>::empty());
}

/// What an insertion does to a well-formed tree. The tree stays well-formed
/// over the same rectangle. A point outside the rectangle leaves it as it
/// is. A point inside is added once, at the index `slot`, and the points
/// that were there keep their order.
pub proof fn lemma_inserted(shape: Shape, item: QuadTreeItem)
    requires
        shape.wf(),
    ensures
        shape.inserted(item).wf(),
        shape.inserted(item).boundary == shape.boundary,
        shape.inserted(item).capacity == shape.capacity,
        !shape.takes(item) ==> shape.inserted(item) == shape,
        shape.takes(item) ==> 0 <= shape.slot(item) <= shape.contents().len(),
        shape.takes(item) ==> shape.inserted(item).contents() == shape.contents().insert(
            shape.slot(item),
            item,
        ),
    decreases shape, 1nat,
{
    if shape.takes(item) {
        if !shape.full() {
            assert(shape.with(item).contents() =~= shape.contents().insert(
                shape.items.len() as int,
                item,
            ));
        } else {
            lemma_quadrants_cover(shape.boundary);
            match shape.quadrants {
                None => {
                    let seeded = Quadrants::fresh(shape.boundary, shape.capacity).seeded(item);
                    assert(seeded.wf(shape.boundary, shape.capacity));
                    assert(seeded.contents() =~= seq![item]);
                    lemma_insert_after(shape.items, Seq::empty(), 0, item);
                    assert(Seq::<QuadTreeItem>::empty().insert(0, item) =~= seq![item]);
                    assert(shape.items + Seq::<QuadTreeItem>::empty() =~= shape.items);
                },
                Some(quadrants) => {
                    lemma_offered(*quadrants, shape.boundary, shape.capacity, item);
                    lemma_insert_after(
                        shape.items,
                        quadrants.contents(),
                        quadrants.slot(item),
                        item,
                    );
                },
            }
        }
    }
}

/// What an offer does to the well-formed quadrants of a node whose
/// rectangle contains the point: the quadrants stay well-formed, and the
/// point is added once, at the index `slot`.
pub proof fn lemma_offered(quadrants: Quadrants, boundary: Rect, capacity: nat, item: QuadTreeItem)
    requires
        boundary.valid(),
        boundary.contains(item.x as int, item.y as int),
        quadrants.wf(boundary, capacity),
    ensures
        quadrants.offered(item).wf(boundary, capacity),
        0 <= quadrants.slot(item) <= quadrants.contents().len(),
        quadrants.offered(item).contents() == quadrants.contents().insert(
            quadrants.slot(item),
            item,
        ),
    decreases quadrants, 0nat,
{
    lemma_quadrants_cover(boundary);
    let ne = quadrants.north_east;
    let nw = quadrants.north_west;
    let se = quadrants.south_east;
    let sw = quadrants.south_west;
    let k = if ne.takes(item) {
        lemma_inserted(ne, item);
        ne.slot(item)
    } else if nw.takes(item) {
        lemma_inserted(nw, item);
        nw.slot(item)
    } else if se.takes(item) {
        lemma_inserted(se, item);
        se.slot(item)
    } else {
        lemma_inserted(sw, item);
        sw.slot(item)
    };
    lemma_insert_in_join(ne.contents(), nw.contents(), se.contents(), sw.contents(), k, item);
}

/// Every point of a well-formed tree lies in the rectangle of its root.
pub proof fn lemma_contents_inside(shape: Shape)
    requires
        shape.wf(),
    ensures
        forall|i: int|
            0 <= i < shape.contents().len() ==> shape.takes(#[trigger] shape.contents()[i]),
    decreases shape,
{
    match shape.quadrants {
        None => {},
        Some(quadrants) => {
            lemma_quadrants_cover(shape.boundary);
            let ne = quadrants.north_east;
            let nw = quadrants.north_west;
            let se = quadrants.south_east;
            let sw = quadrants.south_west;
            lemma_contents_inside(ne);
            lemma_contents_inside(nw);
            lemma_contents_inside(se);
            lemma_contents_inside(sw);
            assert forall|i: int| 0 <= i < shape.contents().len() implies shape.takes(
                #[trigger] shape.contents()[i],
            ) by {
                let a0 = shape.items.len() as int;
                let a1 = a0 + ne.contents().len();
                let a2 = a1 + nw.contents().len();
                let a3 = a2 + se.contents().len();
                if i < a0 {
                    assert(shape.contents()[i] == shape.items[i]);
                } else if i < a1 {
                    assert(shape.contents()[i] == ne.contents()[i - a0]);
                    assert(ne.takes(ne.contents()[i - a0]));
                } else if i < a2 {
                    assert(shape.contents()[i] == nw.contents()[i - a1]);
                    assert(nw.takes(nw.contents()[i - a1]));
                } else if i < a3 {
                    assert(shape.contents()[i] == se.contents()[i - a2]);
                    assert(se.takes(se.contents()[i - a2]));
                } else {
                    assert(shape.contents()[i] == sw.contents()[i - a3]);
                    assert(sw.takes(sw.contents()[i - a3]));
                }
            }
        },
    }
}

/// One node of the tree with the subtree below it.
pub struct QuadTreeNode {
    boundary: Rect,
    capacity: usize,
    items: Vec<QuadTreeItem>,
    divided: bool,
    northeast: Option<Box<QuadTreeNode>>,
    northwest: Option<Box<QuadTreeNode>>,
    southeast: Option<Box<QuadTreeNode>>,
    southwest: Option<Box<QuadTreeNode>>,
}

impl QuadTreeNode {
    spec fn shape_of(child: Option<Box<QuadTreeNode>>) -> Shape
        decreases child,
    {
        match child {
            Some(node) => node.shape(),
            None => Shape::leaf(Rect { x: 0, y: 0, w: 0, h: 0 }, 0),
        }
    }

    /// The subtree as a plain value.
    pub closed spec fn shape(self) -> Shape
        decreases self,
    {
        Shape {
            boundary: self.boundary,
            capacity: self.capacity as nat,
            items: self.items@,
            quadrants: if self.divided {
                Some(
                    Box::new(
                        Quadrants {
                            north_east: Self::shape_of(self.northeast),
                            north_west: Self::shape_of(self.northwest),
                            south_east: Self::shape_of(self.southeast),
                            south_west: Self::shape_of(self.southwest),
                        },
                    ),
                )
            } else {
                None
            },
        }
    }

    spec fn linked_of(child: Option<Box<QuadTreeNode>>) -> bool
        decreases child,
    {
        match child {
            Some(node) => node.linked(),
            None => false,
        }
    }

    /// A node that has split has all four subtrees, and a node that has not
    /// has none.
    spec fn linked(self) -> bool
        decreases self,
    {
        if self.divided {
            &&& Self::linked_of(self.northeast)
            &&& Self::linked_of(self.northwest)
            &&& Self::linked_of(self.southeast)
            &&& Self::linked_of(self.southwest)
        } else {
            &&& self.northeast is None
            &&& self.northwest is None
            &&& self.southeast is None
            &&& self.southwest is None
        }
    }

    /// Invariant of a subtree: its shape is well-formed, and it is stored as
    /// its shape says.
    pub closed spec fn wf(self) -> bool {
        self.linked() && self.shape().wf()
    }

    /// An empty leaf over `boundary`.
    pub fn new(boundary: Rect, capacity: usize) -> (node: QuadTreeNode)
        requires
            boundary.valid(),
            capacity >= 1,
        ensures
            node.wf(),
            node.shape().wf(),
            node.shape() == Shape::leaf(boundary, capacity as nat),
    {
        QuadTreeNode {
            boundary,
            capacity,
            items: Vec::new(),
            divided: false,
            northeast: None,
            northwest: None,
            southeast: None,
            southwest: None,
        }
    }

    fn contains_point(rect: &Rect, x: i64, y: i64) -> (inside: bool)
        ensures
            inside == rect.contains(x as int, y as int),
    {
        let px: i128 = x as i128;
        let py: i128 = y as i128;
        px >= rect.x as i128 && px <= rect.x as i128 + rect.w as i128 && py >= rect.y as i128 && py
            <= rect.y as i128 + rect.h as i128
    }

    fn intersects(a: &Rect, b: &Rect) -> (meet: bool)
        ensures
            meet == a.intersects(*b),
    {
        !(a.x as i128 > b.x as i128 + b.w as i128 || (a.x as i128 + a.w as i128) < b.x as i128
            || a.y as i128 > b.y as i128 + b.h as i128 || (a.y as i128 + a.h as i128)
            < b.y as i128)
    }

    fn subdivide(&mut self)
        requires
            old(self).wf(),
            old(self).shape().quadrants is None,
            old(self).shape().full(),
        ensures
            final(self).wf(),
            final(self).shape() == (Shape {
                quadrants: Some(
                    Box::new(
                        Quadrants::fresh(old(self).shape().boundary, old(self).shape().capacity),
                    ),
                ),
                ..old(self).shape()
            }),
    {
        let x = self.boundary.x;
        let y = self.boundary.y;
        let w = self.boundary.w / 2;
        let h = self.boundary.h / 2;
        let ew = self.boundary.w - w;
        let sh = self.boundary.h - h;
        let capacity = self.capacity;
        self.northeast = Some(Box::new(QuadTreeNode::new(Rect::new(x + w, y, ew, h), capacity)));
        self.northwest = Some(Box::new(QuadTreeNode::new(Rect::new(x, y, w, h), capacity)));
        self.southeast = Some(Box::new(QuadTreeNode::new(Rect::new(x + w, y + h, ew, sh), capacity)));
        self.southwest = Some(Box::new(QuadTreeNode::new(Rect::new(x, y + h, w, sh), capacity)));
        self.divided = true;
    }

    /// Adds `item` to the subtree unless it lies outside the node's
    /// rectangle, and says whether it has added it.
    pub fn insert(&mut self, item: QuadTreeItem) -> (inserted: bool)
        requires
            old(self).wf(),
        ensures
            final(self).wf(),
            final(self).shape().wf(),
            final(self).shape() == old(self).shape().inserted(item),
            inserted == old(self).shape().takes(item),
            !inserted ==> *final(self) == *old(self),
        decreases old(self).shape().descent(), 0nat,
    {
        proof {
            lemma_inserted(self.shape(), item);
        }
        if !Self::contains_point(&self.boundary, item.x, item.y) {
            return false;
        }
        if self.items.len() < self.capacity {
            self.items.push(item);
            return true;
        }
        if !self.divided {
            self.subdivide();
        }
        self.insert_below(item);
        true
    }

    /// Offers `item` to the quadrants in turn, north-east first, then
    /// north-west, south-east and south-west, until one takes it.
    fn insert_below(&mut self, item: QuadTreeItem)
        requires
            old(self).wf(),
            old(self).shape().quadrants is Some,
            old(self).shape().takes(item),
        ensures
            final(self).linked(),
            final(self).shape() == (Shape {
                quadrants: Some(Box::new(old(self).shape().quadrants.unwrap().offered(item))),
                ..old(self).shape()
            }),
        decreases old(self).shape().descent_below(), 2nat,
    {
        if self.insert_into_quadrant(0, item) {
            return ;
        }
        if self.insert_into_quadrant(1, item) {
            return ;
        }
        if self.insert_into_quadrant(2, item) {
            return ;
        }
        self.insert_into_quadrant(3, item);
    }

    /// Quadrant number `which` of `quadrants`, counted in the order in which
    /// an insertion tries them.
    spec fn quadrant(quadrants: Quadrants, which: int) -> Shape {
        if which == 0 {
            quadrants.north_east
        } else if which == 1 {
            quadrants.north_west
        } else if which == 2 {
            quadrants.south_east
        } else {
            quadrants.south_west
        }
    }

    /// `quadrants` with `shape` for quadrant number `which`.
    spec fn replaced(quadrants: Quadrants, which: int, shape: Shape) -> Quadrants {
        if which == 0 {
            Quadrants { north_east: shape, ..quadrants }
        } else if which == 1 {
            Quadrants { north_west: shape, ..quadrants }
        } else if which == 2 {
            Quadrants { south_east: shape, ..quadrants }
        } else {
            Quadrants { south_west: shape, ..quadrants }
        }
    }

    /// Offers `item` to quadrant number `which`, which takes it if its
    /// rectangle contains the point.
    fn insert_into_quadrant(&mut self, which: u8, item: QuadTreeItem) -> (placed: bool)
        requires
            old(self).wf(),
            old(self).shape().quadrants is Some,
            which <= 3,
        ensures
            final(self).wf(),
            placed == Self::quadrant(*old(self).shape().quadrants.unwrap(), which as int).takes(
                item,
            ),
            final(self).shape() == (Shape {
                quadrants: Some(
                    Box::new(
                        Self::replaced(
                            *old(self).shape().quadrants.unwrap(),
                            which as int,
                            Self::quadrant(
                                *old(self).shape().quadrants.unwrap(),
                                which as int,
                            ).inserted(item),
                        ),
                    ),
                ),
                ..old(self).shape()
            }),
            !placed ==> *final(self) == *old(self),
        decreases old(self).shape().descent_below(), 1nat,
    {
        let placed = if which == 0 {
            match &mut self.northeast {
                Some(node) => node.insert(item),
                None => false,
            }
        } else if which == 1 {
            match &mut self.northwest {
                Some(node) => node.insert(item),
                None => false,
            }
        } else if which == 2 {
            match &mut self.southeast {
                Some(node) => node.insert(item),
                None => false,
            }
        } else {
            match &mut self.southwest {
                Some(node) => node.insert(item),
                None => false,
            }
        };
        proof {
            let before = *old(self).shape().quadrants.unwrap();
            lemma_inserted(Self::quadrant(before, which as int), item);
        }
        placed
    }

    /// Appends to `found` every point of the subtree that lies in `range`,
    /// in the order in which the subtree holds them.
    pub fn query(&self, range: &Rect, found: &mut Vec<QuadTreeItem>)
        requires
            self.wf(),
        ensures
            final(found)@ == old(found)@ + within(self.shape().contents(), *range),
        decreases self,
    {
        let ghost before = found@;
        let ghost shape = self.shape();
        if !Self::intersects(&self.boundary, range) {
            proof {
                lemma_contents_inside(shape);
                shape.contents().lemma_all_neg_filter_empty(in_range(*range));
            }
            return ;
        }
        let mut i: usize = 0;
        while i < self.items.len()
            invariant
                i <= self.items@.len(),
                found@ == before + within(self.items@.take(i as int), *range),
            decreases self.items@.len() - i,
        {
            let item = self.items[i];
            let ghost seen = self.items@.take(i as int);
            if Self::contains_point(range, item.x, item.y) {
                found.push(item);
            }
            proof {
                assert(self.items@.take(i + 1) =~= seen.push(item));
                seen.lemma_filter_push(item, in_range(*range));
            }
            i += 1;
        }
        proof {
            assert(self.items@.take(i as int) =~= self.items@);
        }
        if self.divided {
            match &self.northeast {
                Some(ne) => ne.query(range, found),
                None => {},
            }
            match &self.northwest {
                Some(nw) => nw.query(range, found),
                None => {},
            }
            match &self.southeast {
                Some(se) => se.query(range, found),
                None => {},
            }
            match &self.southwest {
                Some(sw) => sw.query(range, found),
                None => {},
            }
            proof {
                let p = in_range(*range);
                let quadrants = *shape.quadrants.unwrap();
                let ne = quadrants.north_east.contents();
                let nw = quadrants.north_west.contents();
                let se = quadrants.south_east.contents();
                let sw = quadrants.south_west.contents();
                Seq::filter_distributes_over_add(self.items@, ne + nw + se + sw, p);
                Seq::filter_distributes_over_add(ne + nw + se, sw, p);
                Seq::filter_distributes_over_add(ne + nw, se, p);
                Seq::filter_distributes_over_add(ne, nw, p);
            }
        }
    }
}

/// A quadtree: the root node and everything below it.
pub struct QuadTree {
    pub root: QuadTreeNode,
}

impl View for QuadTree {
    type V = Shape;

    /// The tree as a plain value.
    open spec fn view(&self) -> Shape {
        self.root.shape()
    }
}

impl QuadTree {
    /// Invariant of the tree.
    pub open spec fn wf(self) -> bool {
        self.root.wf()
    }

    /// An empty tree over `boundary` whose nodes keep `capacity` points
    /// each.
    pub fn new(boundary: Rect, capacity: usize) -> (tree: QuadTree)
        requires
            boundary.valid(),
            capacity >= 1,
        ensures
            tree.wf(),
            tree@.wf(),
            tree@ == Shape::leaf(boundary, capacity as nat),
    {
        QuadTree { root: QuadTreeNode::new(boundary, capacity) }
    }

    /// Adds `item` if it lies in the tree's rectangle and leaves the tree as
    /// it is otherwise.
    pub fn insert(&mut self, item: QuadTreeItem)
        requires
            old(self).wf(),
        ensures
            final(self).wf(),
            final(self)@.wf(),
            final(self)@ == old(self)@.inserted(item),
            !old(self)@.takes(item) ==> *final(self) == *old(self),
    {
        self.root.insert(item);
    }

    /// The points of the tree that lie in `range`, edges included, in the
    /// order in which the tree holds them.
    pub fn query(&self, range: Rect) -> (found: Vec<QuadTreeItem>)
        requires
            self.wf(),
        ensures
            found@ == within(self@.contents(), range),
    {
        let mut found = Vec::new();
        self.root.query(&range, &mut found);
        found
    }
}

/// A point that has been inserted into a tree whose rectangle contains it
/// is found by a query for the point itself, the rectangle of no area at
/// its coordinates: the query returns it, whatever else it returns.
pub proof fn lemma_inserted_point_is_found(tree: Shape, item: QuadTreeItem)
    requires
        tree.wf(),
        tree.takes(item),
    ensures
        within(tree.inserted(item).contents(), Rect::point(item.x, item.y)).contains(item),
{
    lemma_inserted(tree, item);
    let k = tree.slot(item);
    tree.inserted(item).contents().lemma_filter_contains(
        in_range(Rect::point(item.x, item.y)),
        k,
    );
}

/// No query for a point outside the rectangle of a tree returns anything,
/// whatever has been inserted into the tree, and inserting such a point
/// changes nothing.
pub proof fn lemma_outside_point_is_never_found(tree: Shape, item: QuadTreeItem)
    requires
        tree.wf(),
        !tree.takes(item),
    ensures
        tree.inserted(item) == tree,
        within(tree.contents(), Rect::point(item.x, item.y)) == Seq::<QuadTreeItem>::empty(),
{
    lemma_contents_inside(tree);
    tree.contents().lemma_all_neg_filter_empty(in_range(Rect::point(item.x, item.y)));
}

} // verus!
