//! Sierpinski triangle: midpoint subdivision to a fixed depth, and the
//! outline of every node of the resulting tree.
use vstd::prelude::*;

verus! {

/// Integer pixel coordinates.
#[derive(Clone, Copy, Debug, PartialEq, Eq, Structural)]
pub struct Point {
    pub x: u32,
    pub y: u32,
}

impl Point {
    pub fn new(x: u32, y: u32) -> (r: Point)
        ensures
            r.x == x,
            r.y == y,
    {
        Point { x, y }
    }
}

/// Midpoint of two points, each coordinate rounded down.
pub open spec fn midpoint(p: Point, q: Point) -> Point {
    Point { x: ((p.x + q.x) / 2) as u32, y: ((p.y + q.y) / 2) as u32 }
}

/// The corners of the child triangle that keeps corner `a` of `(a, b, c)`.
pub open spec fn corner_child(a: Point, b: Point, c: Point) -> (Point, Point, Point) {
    (a, midpoint(a, b), midpoint(a, c))
}

fn half_sum(p: u32, q: u32) -> (r: u32)
    ensures
        r == (p + q) / 2,
{
    ((p as u64 + q as u64) / 2) as u32
}

fn mid(p: Point, q: Point) -> (r: Point)
    ensures
        r == midpoint(p, q),
{
    Point::new(half_sum(p.x, q.x), half_sum(p.y, q.y))
}

/// A triangle with its child triangles.
#[derive(Debug)]
pub struct Triangle {
    pub elements: Vec<Triangle>,
    pub a: Point,
    pub b: Point,
    pub c: Point,
}

/// `t` is the midpoint subdivision of its own corners, `levels` levels deep:
/// no children at level zero, otherwise the three corner children in the
/// order `a`, `b`, `c`, each subdivided one level less.
pub open spec fn subdivided(t: Triangle, levels: nat) -> bool
    decreases levels,
{
    if levels == 0 {
        t.elements@.len() == 0
    } else {
        &&& t.elements@.len() == 3
        &&& t.elements@[0].corners() == corner_child(t.a, t.b, t.c)
        &&& t.elements@[1].corners() == corner_child(t.b, t.c, t.a)
        &&& t.elements@[2].corners() == corner_child(t.c, t.a, t.b)
        &&& subdivided(t.elements@[0], (levels - 1) as nat)
        &&& subdivided(t.elements@[1], (levels - 1) as nat)
        &&& subdivided(t.elements@[2], (levels - 1) as nat)
    }
}

/// Number of levels below a node at `current_depth` when subdividing to `max_depth`.
pub open spec fn levels_below(current_depth: i32, max_depth: i32) -> nat {
    if current_depth < max_depth {
        (max_depth - current_depth) as nat
    } else {
        0
    }
}

/// The closed outlines of a tree, one `(a, b, c)` per node, in pre-order.
pub open spec fn outline(t: Triangle) -> Seq<(Point, Point, Point)>
    decreases t, t.elements@.len() + 1,
{
    seq![t.corners()] + outline_upto(t, t.elements@.len())
}

/// The outlines of the first `k` children of `t`, in order.
pub open spec fn outline_upto(t: Triangle, k: nat) -> Seq<(Point, Point, Point)>
    decreases t, k,
{
    if k == 0 || k > t.elements@.len() {
        seq![]
    } else {
        outline_upto(t, (k - 1) as nat) + outline(t.elements@[k - 1])
    }
}

/// Number of nodes of a tree.
pub open spec fn count_nodes(t: Triangle) -> nat {
    outline(t).len()
}

/// Number of leaves (nodes without children) of a tree.
pub open spec fn count_leaves(t: Triangle) -> nat
    decreases t, t.elements@.len() + 1,
{
    if t.elements@.len() == 0 {
        1
    } else {
        leaves_upto(t, t.elements@.len())
    }
}

/// Number of leaves under the first `k` children of `t`.
pub open spec fn leaves_upto(t: Triangle, k: nat) -> nat
    decreases t, k,
{
    if k == 0 || k > t.elements@.len() {
        0
    } else {
        leaves_upto(t, (k - 1) as nat) + count_leaves(t.elements@[k - 1])
    }
}

pub open spec fn pow3(n: nat) -> nat
    decreases n,
{
    if n == 0 {
        1
    } else {
        3 * pow3((n - 1) as nat)
    }
}

/// A subdivision `levels` deep has `3^levels` leaves and
/// `(3^(levels+1) - 1) / 2` nodes.
pub proof fn lemma_subdivision_counts(t: Triangle, levels: nat)
    requires
        subdivided(t, levels),
    ensures
        count_leaves(t) == pow3(levels),
        count_nodes(t) == (pow3(levels + 1) - 1) / 2,
        2 * count_nodes(t) + 1 == pow3(levels + 1),
    decreases levels,
{
    if levels > 0 {
        let l = (levels - 1) as nat;
        let e = t.elements@;
        lemma_subdivision_counts(e[0], l);
        lemma_subdivision_counts(e[1], l);
        lemma_subdivision_counts(e[2], l);
        assert(leaves_upto(t, 0) == 0);
        assert(leaves_upto(t, 1) == count_leaves(e[0]));
        assert(outline_upto(t, 0) == Seq::<(Point, Point, Point)>::empty());
        assert(leaves_upto(t, 2) == count_leaves(e[0]) + count_leaves(e[1]));
        assert(leaves_upto(t, 3) == count_leaves(e[0]) + count_leaves(e[1]) + count_leaves(e[2]));
        assert(outline_upto(t, 1) == outline(e[0]));
        assert(outline_upto(t, 2) == outline(e[0]) + outline(e[1]));
        assert(outline_upto(t, 3) == outline(e[0]) + outline(e[1]) + outline(e[2]));
        assert(count_nodes(t) == 1 + count_nodes(e[0]) + count_nodes(e[1]) + count_nodes(e[2]));
        assert(pow3(levels + 1) == 3 * pow3(levels));
    } else {
        assert(outline_upto(t, 0) == Seq::<(Point, Point, Point)>::empty());
        assert(outline(t).len() == 1);
        assert(pow3(1) == 3 * pow3(0));
    }
}

impl Triangle {
    pub open spec fn corners(self) -> (Point, Point, Point) {
        (self.a, self.b, self.c)
    }

    /// A triangle without children.
    pub fn new(a: Point, b: Point, c: Point) -> (r: Triangle)
        ensures
            r.corners() == (a, b, c),
            r.elements@.len() == 0,
    {
        Triangle { a, b, c, elements: Vec::new() }
    }

    /// The child of `(a, b, c)` that keeps corner `a`: its other corners are
    /// the midpoints of the edges `ab` and `ac`.
    pub fn get_sub_point(a: Point, b: Point, c: Point) -> (r: Triangle)
        ensures
            r.corners() == corner_child(a, b, c),
            r.elements@.len() == 0,
    {
        Triangle { a, b: mid(a, b), c: mid(a, c), elements: Vec::new() }
    }

    /// This triangle's corners, subdivided from `current_depth` down to
    /// `max_depth`; any children it had are dropped.
    pub fn generate(self, current_depth: i32, max_depth: i32) -> (r: Triangle)
        ensures
            r.corners() == self.corners(),
            subdivided(r, levels_below(current_depth, max_depth)),
        decreases max_depth - current_depth,
    {
        let mut elements: Vec<Triangle> = Vec::new();
        if current_depth < max_depth {
            let next = current_depth + 1;
            let first = Triangle::get_sub_point(self.a, self.b, self.c).generate(next, max_depth);
            let second = Triangle::get_sub_point(self.b, self.c, self.a).generate(next, max_depth);
            let third = Triangle::get_sub_point(self.c, self.a, self.b).generate(next, max_depth);
            elements.push(first);
            elements.push(second);
            elements.push(third);
        }
        Triangle { a: self.a, b: self.b, c: self.c, elements }
    }

    /// Appends the outline of every node of this tree, in pre-order.
    fn push_paths(&self, out: &mut Vec<(Point, Point, Point)>)
        ensures
            final(out)@ == old(out)@ + outline(*self),
        decreases self,
    {
        out.push((self.a, self.b, self.c));
        let n = self.elements.len();
        let mut i: usize = 0;
        while i < n
            invariant
                n == self.elements@.len(),
                i <= n,
                out@ == old(out)@ + seq![self.corners()] + outline_upto(*self, i as nat),
            decreases n - i,
        {
            let child = &self.elements[i];
            let ghost before = out@;
            child.push_paths(out);
            assert(outline_upto(*self, (i + 1) as nat) == outline_upto(*self, i as nat) + outline(*child));
            assert(out@ == before + outline(*child));
            i = i + 1;
        }
        assert(outline(*self) == seq![self.corners()] + outline_upto(*self, n as nat));
    }

    /// The closed outline `(a, b, c)` of every node of this tree, internal
    /// nodes included, in pre-order.
    pub fn paths(&self) -> (r: Vec<(Point, Point, Point)>)
        ensures
            r@ == outline(*self),
    {
        let mut out: Vec<(Point, Point, Point)> = Vec::new();
        self.push_paths(&mut out);
        assert(out@ =~= outline(*self));
        out
    }
}

/// Corners of the root triangle for a canvas `pixel_width` wide.
pub open spec fn root_triangle_corners(pixel_width: u32) -> (Point, Point, Point) {
    (
        Point { x: pixel_width / 2, y: 0 },
        Point { x: 0, y: pixel_width },
        Point { x: pixel_width, y: pixel_width },
    )
}

/// The root triangle for a square canvas `pixel_width` wide: apex at the
/// middle of the top edge, base along the bottom edge.
pub fn root_triangle(pixel_width: u32) -> (r: Triangle)
    ensures
        r.corners() == root_triangle_corners(pixel_width),
        r.elements@.len() == 0,
{
    let a = Point::new(pixel_width / 2, 0);
    let b = Point::new(0, pixel_width);
    let c = Point::new(pixel_width, pixel_width);
    Triangle::new(a, b, c)
}

/// The root triangle for a canvas `pixel_width` wide, subdivided `depth`
/// levels (none where `depth` is not positive).
pub fn sierpinski_tree(pixel_width: u32, depth: i32) -> (r: Triangle)
    ensures
        r.corners() == root_triangle_corners(pixel_width),
        subdivided(r, levels_below(0, depth)),
        count_leaves(r) == pow3(levels_below(0, depth)),
        count_nodes(r) == (pow3(levels_below(0, depth) + 1) - 1) / 2,
{
    let t = root_triangle(pixel_width).generate(0, depth);
    proof {
        lemma_subdivision_counts(t, levels_below(0, depth));
    }
    t
}

} // verus!
