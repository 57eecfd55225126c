//! Points, bounding boxes and the center of an intersection's footprint.
use vstd::prelude::*;

verus! {

/// A point in map space, in centimetres from the map's top-left corner.
#[derive(Clone, Copy, Debug, PartialEq, Eq, Structural)]
pub struct Pt {
    pub x: u64,
    pub y: u64,
}

/// An axis-aligned bounding box in map space.
#[derive(Clone, Copy, Debug, PartialEq, Eq, Structural)]
pub struct Bounds {
    pub min_x: u64,
    pub min_y: u64,
    pub max_x: u64,
    pub max_y: u64,
}

pub open spec fn sum_x(pts: Seq<Pt>) -> int
    decreases pts.len(),
{
    if pts.len() == 0 { 0 } else { sum_x(pts.drop_last()) + pts.last().x }
}

pub open spec fn sum_y(pts: Seq<Pt>) -> int
    decreases pts.len(),
{
    if pts.len() == 0 { 0 } else { sum_y(pts.drop_last()) + pts.last().y }
}

/// The vertices of a closed ring, without the closing copy of the first one.
pub open spec fn open_ring(ring: Seq<Pt>) -> Seq<Pt> {
    ring.drop_last()
}

/// The average of a non-empty list of points, rounded down.
pub open spec fn average(pts: Seq<Pt>) -> Pt
    recommends
        pts.len() > 0,
{
    Pt { x: (sum_x(pts) / pts.len() as int) as u64, y: (sum_y(pts) / pts.len() as int) as u64 }
}

/// The smallest box holding every point of `pts`.
pub open spec fn is_bounds_of(b: Bounds, pts: Seq<Pt>) -> bool {
    &&& forall|j: int|
        0 <= j < pts.len() ==> b.min_x <= #[trigger] pts[j].x <= b.max_x && b.min_y <= pts[j].y
            <= b.max_y
    &&& exists|j: int| 0 <= j < pts.len() && #[trigger] pts[j].x == b.min_x
    &&& exists|j: int| 0 <= j < pts.len() && #[trigger] pts[j].y == b.min_y
    &&& exists|j: int| 0 <= j < pts.len() && #[trigger] pts[j].x == b.max_x
    &&& exists|j: int| 0 <= j < pts.len() && #[trigger] pts[j].y == b.max_y
}

proof fn lemma_sum_bound(pts: Seq<Pt>)
    ensures
        0 <= sum_x(pts) <= pts.len() * u64::MAX,
        0 <= sum_y(pts) <= pts.len() * u64::MAX,
    decreases pts.len(),
{
    if pts.len() > 0 {
        lemma_sum_bound(pts.drop_last());
        assert((pts.len() - 1) * u64::MAX + u64::MAX == pts.len() * u64::MAX) by (nonlinear_arith);
    }
}

/// The average of the points, rounded down.
pub fn center(pts: &Vec<Pt>) -> (r: Pt)
    requires
        pts@.len() > 0,
    ensures
        r == average(pts@),
{
    let mut sx: u128 = 0;
    let mut sy: u128 = 0;
    let mut k: usize = 0;
    while k < pts.len()
        invariant
            k <= pts@.len(),
            sx == sum_x(pts@.subrange(0, k as int)),
            sy == sum_y(pts@.subrange(0, k as int)),
        decreases pts@.len() - k,
    {
        proof {
            let s = pts@.subrange(0, k as int + 1);
            assert(s.drop_last() =~= pts@.subrange(0, k as int));
            lemma_sum_bound(s);
            assert(s.len() * u64::MAX <= u64::MAX * u64::MAX + u64::MAX) by (nonlinear_arith)
                requires s.len() <= u64::MAX + 1;
        }
        sx = sx + pts[k].x as u128;
        sy = sy + pts[k].y as u128;
        k = k + 1;
    }
    assert(pts@.subrange(0, k as int) =~= pts@);
    let n = pts.len() as u128;
    proof {
        lemma_sum_bound(pts@);
        assert((sx as int) / (n as int) <= u64::MAX) by (nonlinear_arith)
            requires sx <= n * u64::MAX, n > 0;
        assert((sy as int) / (n as int) <= u64::MAX) by (nonlinear_arith)
            requires sy <= n * u64::MAX, n > 0;
    }
    Pt { x: (sx / n) as u64, y: (sy / n) as u64 }
}

/// The center of a closed ring: the average of its vertices, each counted
/// once (the closing copy of the first vertex is left out).
pub fn ring_center(ring: &Vec<Pt>) -> (r: Pt)
    requires
        ring@.len() >= 2,
    ensures
        r == average(open_ring(ring@)),
{
    let mut pts = ring.clone();
    pts.pop();
    assert(pts@ =~= open_ring(ring@));
    center(&pts)
}

/// The bounding box of a non-empty list of points.
pub fn bounds_of(pts: &Vec<Pt>) -> (r: Bounds)
    requires
        pts@.len() > 0,
    ensures
        is_bounds_of(r, pts@),
{
    let mut b = Bounds { min_x: pts[0].x, min_y: pts[0].y, max_x: pts[0].x, max_y: pts[0].y };
    let mut k: usize = 1;
    assert(pts@.subrange(0, 1)[0] == pts@[0]);
    while k < pts.len()
        invariant
            1 <= k <= pts@.len(),
            is_bounds_of(b, pts@.subrange(0, k as int)),
        decreases pts@.len() - k,
    {
        let p = pts[k];
        let ghost old_b = b;
        let ghost s = pts@.subrange(0, k as int);
        let ghost t = pts@.subrange(0, k as int + 1);
        assert forall|j: int| 0 <= j < k implies t[j] == #[trigger] s[j] by {}
        if p.x < b.min_x { b.min_x = p.x; }
        if p.y < b.min_y { b.min_y = p.y; }
        if p.x > b.max_x { b.max_x = p.x; }
        if p.y > b.max_y { b.max_y = p.y; }
        proof {
            assert(t[k as int] == p);
            if b.min_x == old_b.min_x {
                let j = choose|j: int| 0 <= j < s.len() && #[trigger] s[j].x == old_b.min_x;
                assert(t[j].x == b.min_x);
            } else {
                assert(t[k as int].x == b.min_x);
            }
            if b.min_y == old_b.min_y {
                let j = choose|j: int| 0 <= j < s.len() && #[trigger] s[j].y == old_b.min_y;
                assert(t[j].y == b.min_y);
            } else {
                assert(t[k as int].y == b.min_y);
            }
            if b.max_x == old_b.max_x {
                let j = choose|j: int| 0 <= j < s.len() && #[trigger] s[j].x == old_b.max_x;
                assert(t[j].x == b.max_x);
            } else {
                assert(t[k as int].x == b.max_x);
            }
            if b.max_y == old_b.max_y {
                let j = choose|j: int| 0 <= j < s.len() && #[trigger] s[j].y == old_b.max_y;
                assert(t[j].y == b.max_y);
            } else {
                assert(t[k as int].y == b.max_y);
            }
            assert forall|j: int| 0 <= j < t.len() implies b.min_x <= #[trigger] t[j].x <= b.max_x
                && b.min_y <= t[j].y <= b.max_y by {
                if j < k {
                    assert(s[j] == t[j]);
                    assert(old_b.min_x <= s[j].x <= old_b.max_x && old_b.min_y <= s[j].y
                        <= old_b.max_y);
                }
            }
        }
        k = k + 1;
    }
    assert(pts@.subrange(0, k as int) =~= pts@);
    b
}

/// The horizontal ray from `p` towards growing `x` crosses the edge from `a`
/// to `b` (an edge is taken to hold its lower end and not its upper one).
pub open spec fn crosses(a: Pt, b: Pt, p: Pt) -> bool {
    let lhs = (p.x - a.x) * (b.y - a.y);
    let rhs = (p.y - a.y) * (b.x - a.x);
    &&& (a.y > p.y) != (b.y > p.y)
    &&& if b.y > a.y { lhs < rhs } else { lhs > rhs }
}

/// How many of the first `n` edges of `ring` the ray from `p` crosses.
pub open spec fn crossings(ring: Seq<Pt>, p: Pt, n: nat) -> nat
    decreases n,
{
    if n == 0 {
        0
    } else {
        let k = n - 1;
        crossings(ring, p, k as nat) + if crosses(ring[k], ring[k + 1], p) { 1nat } else { 0nat }
    }
}

/// `p` lies inside the closed ring: the ray from it crosses an odd number of
/// the ring's edges.
pub open spec fn inside_ring(ring: Seq<Pt>, p: Pt) -> bool {
    ring.len() >= 2 && crossings(ring, p, (ring.len() - 1) as nat) % 2 == 1
}

/// Every coordinate of `pts` fits in an `i64`.
pub open spec fn fits_i64(pts: Seq<Pt>) -> bool {
    forall|j: int| 0 <= j < pts.len() ==> #[trigger] pts[j].x <= i64::MAX && pts[j].y <= i64::MAX
}

fn edge_crossed(a: Pt, b: Pt, p: Pt) -> (r: bool)
    requires
        a.x <= i64::MAX && a.y <= i64::MAX,
        b.x <= i64::MAX && b.y <= i64::MAX,
        p.x <= i64::MAX && p.y <= i64::MAX,
    ensures
        r == crosses(a, b, p),
{
    if (a.y > p.y) == (b.y > p.y) {
        return false;
    }
    let dx: i128 = p.x as i128 - a.x as i128;
    let ey: i128 = b.y as i128 - a.y as i128;
    let dy: i128 = p.y as i128 - a.y as i128;
    let ex: i128 = b.x as i128 - a.x as i128;
    proof {
        let m: int = i64::MAX as int + 1;
        assert(-m <= dx <= m && -m <= ey <= m && -m <= dy <= m && -m <= ex <= m);
        assert(-(m * m) <= dx * ey <= m * m) by (nonlinear_arith)
            requires -m <= dx <= m, -m <= ey <= m;
        assert(-(m * m) <= dy * ex <= m * m) by (nonlinear_arith)
            requires -m <= dy <= m, -m <= ex <= m;
        assert(m * m == 0x4000_0000_0000_0000_0000_0000_0000_0000);
    }
    let lhs = dx * ey;
    let rhs = dy * ex;
    if b.y > a.y { lhs < rhs } else { lhs > rhs }
}

/// Whether `p` lies inside the closed ring `ring`.
pub fn ring_contains(ring: &Vec<Pt>, p: Pt) -> (r: bool)
    requires
        fits_i64(ring@),
        p.x <= i64::MAX && p.y <= i64::MAX,
    ensures
        r == inside_ring(ring@, p),
{
    if ring.len() < 2 {
        return false;
    }
    let mut count: usize = 0;
    let edges: usize = ring.len() - 1;
    let mut k: usize = 0;
    while k < edges
        invariant
            ring@.len() >= 2,
            edges == ring@.len() - 1,
            k <= edges,
            fits_i64(ring@),
            p.x <= i64::MAX && p.y <= i64::MAX,
            count <= k,
            count % 2 == crossings(ring@, p, k as nat) % 2,
        decreases ring@.len() - k,
    {
        let a = ring[k];
        let b = ring[k + 1];
        assert(ring@[k as int].x <= i64::MAX && ring@[k as int + 1].x <= i64::MAX);
        if edge_crossed(a, b, p) {
            count = count + 1;
        }
        k = k + 1;
    }
    count % 2 == 1
}

/// The center of a closed ring counts the repeated closing vertex once: for
/// `[a, b, c, a]` it is the average of `a, b, c`.
pub proof fn law_center_skips_closing_vertex(a: Pt, b: Pt, c: Pt)
    ensures
        average(open_ring(seq![a, b, c, a])) == average(seq![a, b, c]),
{
    assert(open_ring(seq![a, b, c, a]) =~= seq![a, b, c]);
}

} // verus!
