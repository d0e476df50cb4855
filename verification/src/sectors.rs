//! Sectors and the volumes of airspace they are made of: their identifiers, and the
//! lateral border of a volume as a closed ring of points.
//!
//! A volume's border is put together from the border lines of its extension file
//! sector: each line is cut into the segments between its neighbouring points, the
//! points quantized to whole micro-degrees, and the segments are walked as one
//! closed ring that passes along each of them once.
use vstd::prelude::*;

use geo::Winding;

use crate::ese::{runway_id_views, sector_line_views, string_views, RunwayIdentifier, Sector as EseSector, SectorV as EseSectorV};
use crate::sct::Coordinate;
use crate::lookup::{first_index, lemma_first_index, lemma_first_index_extend};
use crate::sct_items::{joins, Point, Segment};
use crate::text::str_eq;

verus! {

/// The identifier of a sector.
#[derive(Clone, Debug, PartialEq, Eq, Hash, PartialOrd, Ord)]
pub struct SectorId(pub String);

impl SectorId {
    /// The identifier's text.
    pub fn as_str(&self) -> (r: &str)
        ensures
            r@ == self.0@,
    {
        self.0.as_str()
    }
}

impl From<String> for SectorId {
    fn from(id: String) -> (r: Self) {
        SectorId(id)
    }
}

impl vstd::std_specs::convert::FromSpecImpl<String> for SectorId {
    open spec fn obeys_from_spec() -> bool {
        true
    }

    open spec fn from_spec(v: String) -> Self {
        SectorId(v)
    }
}

/// The identifier of a volume of airspace.
#[derive(Clone, Debug, PartialEq, Eq, Hash, PartialOrd, Ord)]
pub struct VolumeId(pub String);

impl VolumeId {
    /// The identifier's text.
    pub fn as_str(&self) -> (r: &str)
        ensures
            r@ == self.0@,
    {
        self.0.as_str()
    }
}

impl From<String> for VolumeId {
    fn from(id: String) -> (r: Self) {
        VolumeId(id)
    }
}

impl vstd::std_specs::convert::FromSpecImpl<String> for VolumeId {
    open spec fn obeys_from_spec() -> bool {
        true
    }

    open spec fn from_spec(v: String) -> Self {
        VolumeId(v)
    }
}

// ---------------------------------------------------------------------------
// Borders

/// Thousandths of a second of arc as millionths of a degree, rounded to the nearest
/// one, halves away from zero.
pub open spec fn micro_degrees(mas: int) -> int {
    if mas >= 0 {
        (mas * 5 + 9) / 18
    } else {
        -((-mas * 5 + 9) / 18)
    }
}

/// A coordinate quantized to whole micro-degrees: longitude first, then latitude.
pub open spec fn vertex_of(c: Coordinate) -> Point {
    (micro_degrees(c.lng as int) as i64, micro_degrees(c.lat as int) as i64)
}

/// Quantizes thousandths of a second of arc to micro-degrees (see [`micro_degrees`]).
fn micro_degrees_exec(mas: i64) -> (r: i64)
    ensures
        r as int == micro_degrees(mas as int),
{
    let m = mas as i128;
    let r = if m >= 0 {
        (m * 5 + 9) / 18
    } else {
        -((-m * 5 + 9) / 18)
    };
    r as i64
}

/// Quantizes a coordinate (see [`vertex_of`]).
pub fn vertex(c: Coordinate) -> (r: Point)
    ensures
        r == vertex_of(c),
{
    (micro_degrees_exec(c.lng), micro_degrees_exec(c.lat))
}

/// The segments between the neighbouring points of a line.
pub open spec fn line_segments(ps: Seq<Coordinate>) -> Seq<Segment>
    decreases ps.len(),
{
    if ps.len() < 2 {
        seq![]
    } else {
        line_segments(ps.drop_last()).push((vertex_of(ps[ps.len() - 2]), vertex_of(ps.last())))
    }
}

/// The segments of border lines, line after line.
pub open spec fn border_segments(lines: Seq<Seq<Coordinate>>) -> Seq<Segment>
    decreases lines.len(),
{
    if lines.len() == 0 {
        seq![]
    } else {
        border_segments(lines.drop_last()) + line_segments(lines.last())
    }
}

/// How many segment ends lie at point `v`.
pub open spec fn degree(segs: Seq<Segment>, v: Point) -> int
    decreases segs.len(),
{
    if segs.len() == 0 {
        0
    } else {
        degree(segs.drop_last(), v) + (if segs.last().0 == v { 1int } else { 0int }) + (if segs.last().1 == v {
            1int
        } else {
            0int
        })
    }
}

/// Whether an even number of segment ends lies at every end point.
pub open spec fn all_even(segs: Seq<Segment>) -> bool {
    forall|i: int|
        0 <= i < segs.len() ==> degree(segs, #[trigger] segs[i].0) % 2 == 0 && degree(segs, segs[i].1)
            % 2 == 0
}

/// Whether `perm` gives each step `i` of `ring` its own segment, whose ends are the
/// two points of the step.
pub open spec fn step_assignment(ring: Seq<Point>, segs: Seq<Segment>, perm: Seq<int>) -> bool {
    &&& perm.len() == segs.len()
    &&& forall|i: int|
        0 <= i < perm.len() ==> 0 <= #[trigger] perm[i] < segs.len() && joins(
            segs[perm[i]],
            ring[i],
            ring[i + 1],
        )
    &&& forall|i: int, j: int| 0 <= i < j < perm.len() ==> perm[i] != perm[j]
}

/// Whether `ring` is a closed walk that passes along each segment exactly once.
pub open spec fn is_euler_ring(ring: Seq<Point>, segs: Seq<Segment>) -> bool {
    &&& ring.len() == segs.len() + 1
    &&& ring[0] == ring.last()
    &&& exists|perm: Seq<int>| step_assignment(ring, segs, perm)
}

/// Whether there are segments, an even number of segment ends at every end point,
/// and a closed ring along each segment once.
pub open spec fn has_ring(segs: Seq<Segment>) -> bool {
    &&& segs.len() > 0
    &&& all_even(segs)
    &&& exists|ring: Seq<Point>| is_euler_ring(ring, segs)
}

/// Whether two points are equal.
fn same_point(a: Point, b: Point) -> (r: bool)
    ensures
        r == (a == b),
{
    a.0 == b.0 && a.1 == b.1
}

/// The segments of a sector's border lines (see [`border_segments`]).
fn segments_of(lines: &Vec<crate::ese::SectorLine>) -> (r: Vec<Segment>)
    ensures
        r@ == border_segments(sector_line_views(lines@)),
{
    let ghost lv = sector_line_views(lines@);
    let mut r: Vec<Segment> = Vec::new();
    let mut i: usize = 0;
    proof {
        assert(lv.take(0) =~= Seq::<Seq<Coordinate>>::empty());
    }
    while i < lines.len()
        invariant
            i <= lines@.len(),
            lv == sector_line_views(lines@),
            r@ == border_segments(lv.take(i as int)),
        decreases lines@.len() - i,
    {
        let ps = &lines[i].points;
        let ghost base = r@;
        proof {
            assert(lv.take(i + 1).drop_last() =~= lv.take(i as int));
            assert(lv.take(i + 1).last() == ps@);
        }
        if ps.len() >= 2 {
            let mut k: usize = 1;
            proof {
                assert(line_segments(ps@.take(1)) =~= Seq::<Segment>::empty());
                assert(r@ =~= base + line_segments(ps@.take(1)));
            }
            while k < ps.len()
                invariant
                    1 <= k <= ps@.len(),
                    r@ == base + line_segments(ps@.take(k as int)),
                decreases ps@.len() - k,
            {
                let a = vertex(ps[k - 1]);
                let b = vertex(ps[k]);
                r.push((a, b));
                proof {
                    let t = ps@.take(k + 1);
                    assert(t.drop_last() =~= ps@.take(k as int));
                    assert(t[t.len() - 2] == ps@[k - 1]);
                    assert(r@ =~= base + line_segments(t));
                }
                k = k + 1;
            }
            proof {
                assert(ps@.take(ps@.len() as int) =~= ps@);
            }
        } else {
            proof {
                assert(line_segments(ps@) =~= Seq::<Segment>::empty());
                assert(r@ =~= base + line_segments(ps@));
            }
        }
        proof {
            assert(r@ =~= border_segments(lv.take(i + 1)));
        }
        i = i + 1;
    }
    proof {
        assert(lv.take(lines@.len() as int) =~= lv);
    }
    r
}

/// Whether `degree(segs, v)` is odd, counted with a flag that flips at each end.
fn degree_is_odd(segs: &Vec<Segment>, v: Point) -> (r: bool)
    ensures
        r == (degree(segs@, v) % 2 == 1),
{
    let mut odd = false;
    let mut i: usize = 0;
    proof {
        assert(segs@.take(0) =~= Seq::<Segment>::empty());
    }
    while i < segs.len()
        invariant
            i <= segs@.len(),
            odd == (degree(segs@.take(i as int), v) % 2 == 1),
        decreases segs@.len() - i,
    {
        proof {
            assert(segs@.take(i + 1).drop_last() =~= segs@.take(i as int));
        }
        if same_point(segs[i].0, v) {
            odd = !odd;
        }
        if same_point(segs[i].1, v) {
            odd = !odd;
        }
        i = i + 1;
    }
    proof {
        assert(segs@.take(segs@.len() as int) =~= segs@);
    }
    odd
}

/// Whether every end point has an even number of segment ends (see [`all_even`]).
fn all_even_exec(segs: &Vec<Segment>) -> (r: bool)
    ensures
        r == all_even(segs@),
{
    let mut i: usize = 0;
    while i < segs.len()
        invariant
            i <= segs@.len(),
            forall|k: int|
                0 <= k < i ==> degree(segs@, #[trigger] segs@[k].0) % 2 == 0 && degree(segs@, segs@[k].1)
                    % 2 == 0,
        decreases segs@.len() - i,
    {
        let odd0 = degree_is_odd(segs, segs[i].0);
        let odd1 = degree_is_odd(segs, segs[i].1);
        if odd0 || odd1 {
            return false;
        }
        proof {
            assert(degree(segs@, segs@[i as int].0) % 2 == 0);
            assert(degree(segs@, segs@[i as int].1) % 2 == 0);
            assert forall|k: int| 0 <= k < i + 1 implies degree(segs@, #[trigger] segs@[k].0) % 2 == 0
                && degree(segs@, segs@[k].1) % 2 == 0 by {
                if k < i {
                    assert(degree(segs@, segs@[k].0) % 2 == 0);
                }
            }
        }
        i = i + 1;
    }
    true
}

/// How many ends of segment `s` lie at `v`.
pub open spec fn ends(s: Segment, v: Point) -> int {
    (if s.0 == v { 1int } else { 0int }) + (if s.1 == v { 1int } else { 0int })
}

/// How many ends of those of the first `k` segments not yet used lie at `v`.
pub open spec fn free_degree(segs: Seq<Segment>, used: Seq<bool>, v: Point, k: int) -> int
    decreases k,
{
    if k <= 0 {
        0
    } else {
        free_degree(segs, used, v, k - 1) + (if used[k - 1] { 0int } else { ends(segs[k - 1], v) })
    }
}

/// Whether `ring` is a walk whose step `i` passes along segment `perm[i]`, no
/// segment twice.
pub open spec fn segment_walk(ring: Seq<Point>, segs: Seq<Segment>, perm: Seq<int>) -> bool {
    &&& ring.len() == perm.len() + 1
    &&& forall|i: int|
        0 <= i < perm.len() ==> 0 <= #[trigger] perm[i] < segs.len() && joins(
            segs[perm[i]],
            ring[i],
            ring[i + 1],
        )
    &&& perm.no_duplicates()
}

/// Using segment `j` takes its ends away from the free degrees.
proof fn lemma_free_degree_use(segs: Seq<Segment>, used: Seq<bool>, j: int, v: Point, k: int)
    requires
        0 <= j < used.len(),
        !used[j],
        k <= used.len(),
    ensures
        free_degree(segs, used.update(j, true), v, k) == free_degree(segs, used, v, k) - (if j < k {
            ends(segs[j], v)
        } else {
            0int
        }),
    decreases k,
{
    if k > 0 {
        lemma_free_degree_use(segs, used, j, v, k - 1);
    }
}

/// With no free segment ending at `v`, the free degree of `v` is 0.
proof fn lemma_free_degree_zero(segs: Seq<Segment>, used: Seq<bool>, v: Point, k: int)
    requires
        k <= used.len(),
        forall|i: int| 0 <= i < k ==> used[i] || (segs[i].0 != v && segs[i].1 != v),
    ensures
        free_degree(segs, used, v, k) == 0,
    decreases k,
{
    if k > 0 {
        lemma_free_degree_zero(segs, used, v, k - 1);
    }
}

/// With nothing used, the free degree is the degree.
proof fn lemma_free_degree_unused(segs: Seq<Segment>, used: Seq<bool>, v: Point, k: int)
    requires
        0 <= k <= segs.len(),
        used.len() == segs.len(),
        forall|i: int| 0 <= i < used.len() ==> !#[trigger] used[i],
    ensures
        free_degree(segs, used, v, k) == degree(segs.take(k), v),
    decreases k,
{
    if k > 0 {
        lemma_free_degree_unused(segs, used, v, k - 1);
        assert(segs.take(k).drop_last() =~= segs.take(k - 1));
    }
}

/// A point that no segment ends at has degree 0.
proof fn lemma_degree_zero(segs: Seq<Segment>, v: Point)
    requires
        forall|i: int| 0 <= i < segs.len() ==> segs[i].0 != v && segs[i].1 != v,
    ensures
        degree(segs, v) == 0,
    decreases segs.len(),
{
    if segs.len() > 0 {
        lemma_degree_zero(segs.drop_last(), v);
    }
}

/// Where every end point has an even degree, every point has.
proof fn lemma_even_everywhere(segs: Seq<Segment>, v: Point)
    requires
        all_even(segs),
    ensures
        degree(segs, v) % 2 == 0,
{
    if exists|i: int| 0 <= i < segs.len() && (segs[i].0 == v || segs[i].1 == v) {
        let i = choose|i: int| 0 <= i < segs.len() && (segs[i].0 == v || segs[i].1 == v);
        assert(degree(segs, segs[i].0) % 2 == 0 && degree(segs, segs[i].1) % 2 == 0);
    } else {
        lemma_degree_zero(segs, v);
    }
}

/// Distinct indices below `n` are at most `n`; `n` of them are all of them, and
/// all of them are `n`.
proof fn lemma_distinct_indices(s: Seq<int>, n: int)
    requires
        0 <= n,
        s.no_duplicates(),
        forall|i: int| 0 <= i < s.len() ==> 0 <= #[trigger] s[i] < n,
    ensures
        s.len() <= n,
        s.len() == n ==> forall|k: int| 0 <= k < n ==> s.contains(k),
        (forall|k: int| 0 <= k < n ==> s.contains(k)) ==> s.len() == n,
{
    broadcast use vstd::seq_lib::group_seq_properties;
    s.unique_seq_to_set();
    vstd::set_lib::lemma_int_range(0, n);
    let range = vstd::set_lib::set_int_range(0, n);
    assert forall|x: int| s.to_set().contains(x) implies range.contains(x) by {
        assert(s.contains(x));
        let i = choose|i: int| 0 <= i < s.len() && s[i] == x;
        assert(0 <= s[i] < n);
    }
    assert(s.to_set().subset_of(range));
    vstd::set_lib::lemma_len_subset(s.to_set(), range);
    if s.len() == n {
        vstd::set_lib::lemma_subset_equality(s.to_set(), range);
        assert forall|k: int| 0 <= k < n implies s.contains(k) by {
            assert(range.contains(k));
            assert(s.to_set().contains(k));
        }
    }
    if forall|k: int| 0 <= k < n ==> s.contains(k) {
        assert(range.subset_of(s.to_set()));
        vstd::set_lib::lemma_len_subset(range, s.to_set());
    }
}

/// Between a true entry `a` and a later false entry `c`, some true entry is followed by a
/// false one.
proof fn lemma_switch_between(b: Seq<bool>, a: int, c: int)
    requires
        0 <= a < c < b.len(),
        b[a],
        !b[c],
    ensures
        exists|t: int| a <= t < c && #[trigger] b[t] && !b[t + 1],
    decreases c - a,
{
    if b[a + 1] {
        lemma_switch_between(b, a + 1, c);
    } else {
        assert(b[a] && !b[a + 1]);
    }
}

/// The step after step `t` of a ring of `n` steps.
pub open spec fn next_step(t: int, n: int) -> int {
    if t + 1 < n {
        t + 1
    } else {
        0
    }
}

/// Around a ring with a true and a false entry, some true entry is followed by a
/// false one.
proof fn lemma_switch_around(b: Seq<bool>, t0: int, t1: int)
    requires
        0 <= t0 < b.len(),
        0 <= t1 < b.len(),
        b[t0],
        !b[t1],
    ensures
        exists|t: int| 0 <= t < b.len() && b[t] && !b[next_step(t, b.len() as int)],
{
    let n = b.len() as int;
    if t0 < t1 {
        lemma_switch_between(b, t0, t1);
        let t = choose|t: int| t0 <= t < t1 && #[trigger] b[t] && !b[t + 1];
        assert(next_step(t, n) == t + 1);
    } else if !b[n - 1] {
        lemma_switch_between(b, t0, n - 1);
        let t = choose|t: int| t0 <= t < n - 1 && #[trigger] b[t] && !b[t + 1];
        assert(next_step(t, n) == t + 1);
    } else if !b[0] {
        assert(next_step(n - 1, n) == 0);
    } else {
        lemma_switch_between(b, 0, t1);
        let t = choose|t: int| 0 <= t < t1 && #[trigger] b[t] && !b[t + 1];
        assert(next_step(t, n) == t + 1);
    }
}

/// Where some closed ring passes along every segment once, a walk that reaches no
/// point with a free segment has used them all: else, going round that ring, a
/// used segment is followed by a free one, and the point between them is on the
/// walk.
proof fn lemma_all_used(
    ring: Seq<Point>,
    segs: Seq<Segment>,
    perm: Seq<int>,
    used: Seq<bool>,
    er: Seq<Point>,
)
    requires
        segment_walk(ring, segs, perm),
        perm.len() >= 1,
        used.len() == segs.len(),
        forall|k: int| 0 <= k < segs.len() ==> (used[k] <==> perm.contains(k)),
        forall|q: int, k: int|
            0 <= q < ring.len() && 0 <= k < segs.len() && !used[k] ==> ends(
                #[trigger] segs[k],
                #[trigger] ring[q],
            ) == 0,
        is_euler_ring(er, segs),
    ensures
        forall|k: int| 0 <= k < segs.len() ==> used[k],
{
    let n = segs.len() as int;
    let ep = choose|ep: Seq<int>| step_assignment(er, segs, ep);
    assert(ep.no_duplicates());
    lemma_distinct_indices(ep, n);
    if exists|k: int| 0 <= k < n && !used[k] {
        let k1 = choose|k: int| 0 <= k < n && !used[k];
        assert(ep.contains(k1));
        let t1 = choose|t: int| 0 <= t < ep.len() && ep[t] == k1;
        assert(0 <= perm[0] < n);
        assert(ep.contains(perm[0]));
        let t0 = choose|t: int| 0 <= t < ep.len() && ep[t] == perm[0];
        assert(perm.contains(perm[0]));
        let b = Seq::new(n as nat, |t: int| used[ep[t]]);
        lemma_switch_around(b, t0, t1);
        let t = choose|t: int| 0 <= t < b.len() && b[t] && !b[next_step(t, b.len() as int)];
        let t2 = next_step(t, n);
        let v = er[t + 1];
        assert(v == er[t2]);
        assert(joins(segs[ep[t]], er[t], er[t + 1]));
        assert(joins(segs[ep[t2]], er[t2], er[t2 + 1]));
        assert(used[ep[t]]);
        assert(perm.contains(ep[t]));
        let i = choose|i: int| 0 <= i < perm.len() && perm[i] == ep[t];
        assert(joins(segs[perm[i]], ring[i], ring[i + 1]));
        assert(!used[ep[t2]]);
        if v == ring[i] {
            assert(ends(segs[ep[t2]], ring[i]) == 0);
        } else {
            assert(ends(segs[ep[t2]], ring[i + 1]) == 0);
        }
    }
}

/// Splicing a closed walk `sub` from point `p` of a closed walk `ring` into it
/// gives a closed walk along the segments of both.
proof fn lemma_splice(
    ring: Seq<Point>,
    perm: Seq<int>,
    sub: Seq<Point>,
    subperm: Seq<int>,
    segs: Seq<Segment>,
    p: int,
)
    requires
        segment_walk(ring, segs, perm),
        segment_walk(sub, segs, subperm),
        0 <= p < ring.len(),
        sub[0] == ring[p],
        sub.last() == ring[p],
        ring[0] == ring.last(),
        forall|a: int, b: int| 0 <= a < perm.len() && 0 <= b < subperm.len() ==> perm[a] != subperm[b],
    ensures
        ({
            let nr = ring.subrange(0, p) + sub + ring.subrange(p + 1, ring.len() as int);
            let np = perm.subrange(0, p) + subperm + perm.subrange(p, perm.len() as int);
            &&& segment_walk(nr, segs, np)
            &&& nr[0] == ring[0]
            &&& nr[0] == nr.last()
            &&& forall|q: int| 0 <= q <= p ==> nr[q] == ring[q]
            &&& forall|x: int| np.contains(x) <==> perm.contains(x) || subperm.contains(x)
        }),
{
    let nr = ring.subrange(0, p) + sub + ring.subrange(p + 1, ring.len() as int);
    let p1 = perm.subrange(0, p);
    let p2 = perm.subrange(p, perm.len() as int);
    let np = p1 + subperm + p2;
    let l = sub.len() as int;
    assert(nr.len() == np.len() + 1);
    assert forall|q: int| 0 <= q < nr.len() implies #[trigger] nr[q] == (if q < p {
        ring[q]
    } else if q < p + l {
        sub[q - p]
    } else {
        ring[q - l + 1]
    }) by {}
    assert forall|i: int| 0 <= i < np.len() implies #[trigger] np[i] == (if i < p {
        perm[i]
    } else if i < p + l - 1 {
        subperm[i - p]
    } else {
        perm[i - l + 1]
    }) by {}
    assert forall|i: int| 0 <= i < np.len() implies 0 <= #[trigger] np[i] < segs.len() && joins(
        segs[np[i]],
        nr[i],
        nr[i + 1],
    ) by {
        if i < p {
            assert(nr[i] == ring[i]);
            if i + 1 < p {
                assert(nr[i + 1] == ring[i + 1]);
            } else {
                assert(nr[i + 1] == sub[0]);
            }
        } else if i < p + l - 1 {
            assert(nr[i] == sub[i - p]);
            assert(nr[i + 1] == sub[i - p + 1]);
        } else {
            let m = i - (p + l - 1);
            assert(np[i] == perm[p + m]);
            if m == 0 {
                assert(nr[i] == sub[l - 1]);
            } else {
                assert(nr[i] == ring[p + m]);
            }
            assert(nr[i + 1] == ring[p + m + 1]);
        }
    }
    assert(p1.no_duplicates());
    assert(p2.no_duplicates());
    vstd::seq_lib::lemma_no_dup_in_concat(p1, subperm);
    assert forall|a: int, b: int| 0 <= a < (p1 + subperm).len() && 0 <= b < p2.len() implies (p1
        + subperm)[a] != p2[b] by {
        if a < p1.len() {
            assert(p1[a] == perm[a]);
            assert(p2[b] == perm[p + b]);
        } else {
            assert((p1 + subperm)[a] == subperm[a - p1.len()]);
            assert(p2[b] == perm[p + b]);
        }
    }
    vstd::seq_lib::lemma_no_dup_in_concat(p1 + subperm, p2);
    assert forall|x: int| np.contains(x) implies perm.contains(x) || subperm.contains(x) by {
        let i = choose|i: int| 0 <= i < np.len() && np[i] == x;
        if i < p {
            assert(perm[i] == x);
        } else if i < p + l - 1 {
            assert(subperm[i - p] == x);
        } else {
            assert(perm[i - l + 1] == x);
        }
    }
    assert forall|x: int| perm.contains(x) || subperm.contains(x) implies np.contains(x) by {
        if perm.contains(x) {
            let i = choose|i: int| 0 <= i < perm.len() && perm[i] == x;
            if i < p {
                assert(np[i] == x);
            } else {
                assert(np[i + l - 1] == x);
            }
        } else {
            let i = choose|i: int| 0 <= i < subperm.len() && subperm[i] == x;
            assert(np[i + p] == x);
        }
    }
    assert(nr[0] == ring[0]);
    if p + 1 < ring.len() {
        assert(nr.last() == ring.last());
    } else {
        assert(nr.last() == sub.last());
    }
}

/// The unused segment at point `v` that comes last, if any.
fn unused_at(segs: &Vec<Segment>, used: &Vec<bool>, v: Point) -> (r: Option<usize>)
    requires
        used@.len() == segs@.len(),
    ensures
        match r {
            Some(j) => j < segs@.len() && !used@[j as int] && (segs@[j as int].0 == v || segs@[j as int].1
                == v) && forall|k: int|
                j < k < segs@.len() ==> used@[k] || (segs@[k].0 != v && segs@[k].1 != v),
            None => forall|k: int|
                0 <= k < segs@.len() ==> used@[k] || (segs@[k].0 != v && segs@[k].1 != v),
        },
{
    let mut j = segs.len();
    while j > 0
        invariant
            j <= segs@.len(),
            used@.len() == segs@.len(),
            forall|k: int| j <= k < segs@.len() ==> used@[k] || (segs@[k].0 != v && segs@[k].1 != v),
        decreases j,
    {
        j = j - 1;
        if !used[j] && (same_point(segs[j].0, v) || same_point(segs[j].1, v)) {
            return Some(j);
        }
    }
    None
}

/// Walks from `u` along free segments, the first of them `j0`, until it is back at
/// `u` with no free segment left there; marks the segments used. Where every
/// point has an even free degree, the walk cannot stop anywhere else: at any other
/// point it has used an odd number of that point's segments. Gives the walk and,
/// as a ghost, the segment of each of its steps.
fn closed_walk(segs: &Vec<Segment>, used: &mut Vec<bool>, u: Point, j0: usize) -> (r: (
    Vec<Point>,
    Ghost<Seq<int>>,
))
    requires
        old(used)@.len() == segs@.len(),
        j0 < segs@.len(),
        !old(used)@[j0 as int],
        segs@[j0 as int].0 == u || segs@[j0 as int].1 == u,
        forall|v: Point| #[trigger] free_degree(segs@, old(used)@, v, segs@.len() as int) % 2 == 0,
    ensures
        final(used)@.len() == segs@.len(),
        segment_walk(r.0@, segs@, r.1@),
        r.1@.len() >= 1,
        r.0@[0] == u,
        r.0@.last() == u,
        forall|k: int|
            0 <= k < segs@.len() ==> (#[trigger] final(used)@[k] <==> old(used)@[k] || r.1@.contains(k)),
        forall|i: int| 0 <= i < r.1@.len() ==> !old(used)@[#[trigger] r.1@[i]],
        forall|v: Point| #[trigger] free_degree(segs@, final(used)@, v, segs@.len() as int) % 2 == 0,
{
    let ghost n = segs@.len() as int;
    let ghost start = used@;
    let mut sub: Vec<Point> = Vec::new();
    sub.push(u);
    let ghost mut subperm: Seq<int> = seq![];
    let mut cur = u;
    let mut j = j0;
    let mut done = false;
    while !done
        invariant
            n == segs@.len(),
            used@.len() == n,
            segment_walk(sub@, segs@, subperm),
            subperm.len() <= n,
            sub@[0] == u,
            sub@.last() == cur,
            forall|k: int| 0 <= k < n ==> (#[trigger] used@[k] <==> start[k] || subperm.contains(k)),
            forall|i: int| 0 <= i < subperm.len() ==> !start[#[trigger] subperm[i]],
            !done ==> j < n && !used@[j as int] && (segs@[j as int].0 == cur || segs@[j as int].1
                == cur),
            done ==> cur == u && subperm.len() >= 1,
            forall|v: Point| #[trigger]
                free_degree(segs@, used@, v, n) % 2 == (if cur != u && (v == u || v == cur) {
                    1int
                } else {
                    0int
                }),
        decreases n - subperm.len(),
    {
        let ghost before = used@;
        let ghost old_cur = cur;
        let x = if same_point(segs[j].0, cur) {
            segs[j].1
        } else {
            segs[j].0
        };
        used.set(j, true);
        proof {
            assert(used@ == before.update(j as int, true));
            assert(!subperm.contains(j as int));
            let ghost old_subperm = subperm;
            subperm = subperm.push(j as int);
            assert forall|v: Point| #[trigger]
                free_degree(segs@, used@, v, n) % 2 == (if x != u && (v == u || v == x) {
                    1int
                } else {
                    0int
                }) by {
                lemma_free_degree_use(segs@, before, j as int, v, n);
                assert(ends(segs@[j as int], v) == (if v == old_cur { 1int } else { 0int }) + (if v
                    == x { 1int } else { 0int }));
                assert(free_degree(segs@, before, v, n) % 2 == (if old_cur != u && (v == u || v
                    == old_cur) { 1int } else { 0int }));
            }
            assert forall|k: int| 0 <= k < n implies (used@[k] <==> start[k] || subperm.contains(k)) by {
                if k == j {
                    assert(subperm[subperm.len() - 1] == k);
                } else {
                    if old_subperm.contains(k) {
                        let i = choose|i: int| 0 <= i < old_subperm.len() && old_subperm[i] == k;
                        assert(subperm[i] == k);
                    }
                    if subperm.contains(k) {
                        let i = choose|i: int| 0 <= i < subperm.len() && subperm[i] == k;
                        assert(i < old_subperm.len());
                        assert(old_subperm[i] == k);
                    }
                }
            }
            assert(!start[j as int]);
            assert forall|i: int| 0 <= i < subperm.len() implies !start[#[trigger] subperm[i]] by {
                if i < old_subperm.len() {
                    assert(subperm[i] == old_subperm[i]);
                }
            }
            assert forall|a: int, b: int|
                0 <= a < subperm.len() && 0 <= b < subperm.len() && a != b implies subperm[a]
                != subperm[b] by {
                if a < old_subperm.len() && b < old_subperm.len() {
                    assert(old_subperm[a] != old_subperm[b]);
                } else if a < old_subperm.len() {
                    assert(old_subperm.contains(subperm[a]));
                } else if b < old_subperm.len() {
                    assert(old_subperm.contains(subperm[b]));
                }
            }
            assert forall|i: int| 0 <= i < subperm.len() implies 0 <= #[trigger] subperm[i] < n
                && joins(segs@[subperm[i]], sub@.push(x)[i], sub@.push(x)[i + 1]) by {
                if i < old_subperm.len() {
                    assert(subperm[i] == old_subperm[i]);
                    assert(sub@.push(x)[i] == sub@[i]);
                    assert(sub@.push(x)[i + 1] == sub@[i + 1]);
                } else {
                    assert(sub@.push(x)[i] == old_cur);
                }
            }
            lemma_distinct_indices(subperm, n);
        }
        sub.push(x);
        cur = x;
        match unused_at(segs, used, cur) {
            Some(k) => {
                j = k;
            },
            None => {
                proof {
                    lemma_free_degree_zero(segs@, used@, cur, n);
                    assert(free_degree(segs@, used@, cur, n) % 2 == 0);
                }
                done = true;
            },
        }
    }
    (sub, Ghost(subperm))
}

/// Walks the segments as one closed ring (Hierholzer's way): from the first
/// segment's first point, goes along the ring built so far, and at each point
/// with a free segment walks a closed walk of free segments from there (see
/// [`closed_walk`]) and splices it in. The result is a closed walk from the first
/// segment's first point along distinct segments; where some closed ring passes
/// along every segment once, it does too.
fn hierholzer(segs: &Vec<Segment>) -> (ring: Vec<Point>)
    requires
        segs@.len() > 0,
        all_even(segs@),
    ensures
        ring@.len() >= 1,
        ring@[0] == segs@[0].0,
        ring@[0] == ring@.last(),
        exists|perm: Seq<int>| segment_walk(ring@, segs@, perm),
        (exists|er: Seq<Point>| is_euler_ring(er, segs@)) ==> is_euler_ring(ring@, segs@),
{
    let n = segs.len();
    let mut used: Vec<bool> = Vec::new();
    let mut i: usize = 0;
    while i < n
        invariant
            i <= n,
            n == segs@.len(),
            used@.len() == i,
            forall|k: int| 0 <= k < i ==> !#[trigger] used@[k],
        decreases n - i,
    {
        used.push(false);
        i = i + 1;
    }
    proof {
        assert forall|v: Point| #[trigger] free_degree(segs@, used@, v, n as int) % 2 == 0 by {
            lemma_free_degree_unused(segs@, used@, v, n as int);
            assert(segs@.take(n as int) =~= segs@);
            lemma_even_everywhere(segs@, v);
        }
    }
    let ghost mut perm: Seq<int> = seq![];
    let mut ring: Vec<Point> = Vec::new();
    ring.push(segs[0].0);
    let mut p: usize = 0;
    while p < ring.len()
        invariant
            n == segs@.len(),
            n > 0,
            used@.len() == n,
            ring@.len() >= 1,
            p <= ring@.len(),
            ring@[0] == segs@[0].0,
            ring@[0] == ring@.last(),
            segment_walk(ring@, segs@, perm),
            perm.len() <= n,
            p > 0 ==> perm.len() >= 1,
            forall|k: int| 0 <= k < n ==> (#[trigger] used@[k] <==> perm.contains(k)),
            forall|v: Point| #[trigger] free_degree(segs@, used@, v, n as int) % 2 == 0,
            forall|q: int, k: int|
                0 <= q < p && 0 <= k < n && !used@[k] ==> ends(#[trigger] segs@[k], #[trigger] ring@[q])
                    == 0,
        decreases n - perm.len(), ring@.len() - p,
    {
        let u = ring[p];
        match unused_at(segs, &used, u) {
            None => {
                proof {
                    if perm.len() == 0 {
                        assert(!used@[0]);
                        assert(p == 0);
                        assert(segs@[0].0 == u);
                    }
                    assert forall|q: int, k: int|
                        0 <= q < p + 1 && 0 <= k < n && !used@[k] implies ends(
                        #[trigger] segs@[k],
                        #[trigger] ring@[q],
                    ) == 0 by {
                        if q == p {
                            assert(ring@[q] == u);
                        }
                    }
                }
                p = p + 1;
            },
            Some(j) => {
                let ghost old_used = used@;
                let ghost old_ring = ring@;
                let ghost old_perm = perm;
                let (mut sub, Ghost(subperm)) = closed_walk(segs, &mut used, u, j);
                let ghost sub_points = sub@;
                proof {
                    assert forall|a: int, b: int|
                        0 <= a < perm.len() && 0 <= b < subperm.len() implies perm[a]
                        != subperm[b] by {
                        assert(!old_used[subperm[b]]);
                        assert(0 <= perm[a] < n);
                        assert(perm.contains(perm[a]));
                    }
                    lemma_splice(ring@, perm, sub@, subperm, segs@, p as int);
                    perm = perm.subrange(0, p as int) + subperm + perm.subrange(
                        p as int,
                        perm.len() as int,
                    );
                    lemma_distinct_indices(perm, n as int);
                    assert forall|k: int| 0 <= k < n implies (#[trigger] used@[k] <==> perm.contains(k)) by {
                        assert(old_used[k] <==> old_perm.contains(k));
                    }
                }
                let mut tail = ring.split_off(p + 1);
                ring.pop();
                ring.append(&mut sub);
                ring.append(&mut tail);
                proof {
                    assert(ring@ =~= old_ring.subrange(0, p as int) + sub_points + old_ring.subrange(
                        p as int + 1,
                        old_ring.len() as int,
                    ));
                    assert forall|q: int, k: int|
                        0 <= q < p && 0 <= k < n && !used@[k] implies ends(
                        #[trigger] segs@[k],
                        #[trigger] ring@[q],
                    ) == 0 by {
                        assert(ring@[q] == old_ring[q]);
                        assert(!old_used[k]);
                    }
                }
            },
        }
    }
    proof {
        if exists|er: Seq<Point>| is_euler_ring(er, segs@) {
            let er = choose|er: Seq<Point>| is_euler_ring(er, segs@);
            lemma_all_used(ring@, segs@, perm, used@, er);
            assert forall|k: int| 0 <= k < n implies perm.contains(k) by {
                assert(used@[k]);
            }
            lemma_distinct_indices(perm, n as int);
            assert forall|a: int, b: int| 0 <= a < b < perm.len() implies perm[a] != perm[b] by {}
            assert(step_assignment(ring@, segs@, perm));
        }
    }
    ring
}

/// Checks that `ring` is a closed walk along each segment exactly once (see
/// [`is_euler_ring`]), giving each step the first segment still free that joins its
/// two points. That choice never blocks a later step: segments that join the same
/// two points can stand in for one another.
fn check_euler_ring(ring: &Vec<Point>, segs: &Vec<Segment>) -> (ok: bool)
    ensures
        ok == is_euler_ring(ring@, segs@),
{
    let n = segs.len();
    if ring.len() == 0 || ring.len() - 1 != n || !same_point(ring[0], ring[n]) {
        return false;
    }
    let mut taken: Vec<bool> = Vec::new();
    let mut i: usize = 0;
    while i < n
        invariant
            i <= n,
            n == segs@.len(),
            taken@.len() == i,
            forall|k: int| 0 <= k < i ==> !#[trigger] taken@[k],
        decreases n - i,
    {
        taken.push(false);
        i = i + 1;
    }
    let ghost mut perm: Seq<int> = seq![];
    let mut step: usize = 0;
    proof {
        if is_euler_ring(ring@, segs@) {
            let q = choose|q: Seq<int>| step_assignment(ring@, segs@, q);
            assert(q.subrange(0, 0) =~= perm);
        }
    }
    while step < n
        invariant
            step <= n,
            n == segs@.len(),
            ring@.len() == n + 1,
            ring@[0] == ring@.last(),
            taken@.len() == n,
            perm.len() == step,
            forall|k: int|
                0 <= k < step ==> 0 <= #[trigger] perm[k] < n && joins(
                    segs@[perm[k]],
                    ring@[k],
                    ring@[k + 1],
                ),
            forall|x: int| 0 <= x < n ==> (taken@[x] <==> perm.contains(x)),
            forall|a: int, b: int| 0 <= a < b < step ==> perm[a] != perm[b],
            is_euler_ring(ring@, segs@) ==> exists|q: Seq<int>|
                step_assignment(ring@, segs@, q) && #[trigger] q.subrange(0, step as int) == perm,
        decreases n - step,
    {
        let a = ring[step];
        let b = ring[step + 1];
        let mut j: usize = 0;
        let mut found = false;
        while j < n && !found
            invariant
                j <= n,
                n == segs@.len(),
                step < n,
                ring@.len() == n + 1,
                taken@.len() == n,
                a == ring@[step as int],
                b == ring@[step + 1],
                found ==> j < n && !taken@[j as int] && joins(segs@[j as int], a, b),
                !found ==> forall|k: int| 0 <= k < j ==> taken@[k] || !joins(#[trigger] segs@[k], a, b),
            decreases n - j + (if found { 0int } else { 1int }),
        {
            if !taken[j] && ((same_point(segs[j].0, a) && same_point(segs[j].1, b)) || (same_point(
                segs[j].0,
                b,
            ) && same_point(segs[j].1, a))) {
                found = true;
            } else {
                j = j + 1;
            }
        }
        if !found {
            proof {
                if is_euler_ring(ring@, segs@) {
                    let q = choose|q: Seq<int>|
                        step_assignment(ring@, segs@, q) && #[trigger] q.subrange(0, step as int) == perm;
                    let x = q[step as int];
                    assert(joins(segs@[x], a, b));
                    assert(0 <= x < n);
                    if taken@[x] {
                        assert(perm.contains(x));
                        let k = choose|k: int| 0 <= k < perm.len() && perm[k] == x;
                        assert(q[k] == q.subrange(0, step as int)[k]);
                        assert(q[k] == x);
                    }
                    assert(false);
                }
            }
            return false;
        }
        let ghost old_taken = taken@;
        let ghost old_perm = perm;
        proof {
            assert(!perm.contains(j as int));
            if is_euler_ring(ring@, segs@) {
                let q = choose|q: Seq<int>|
                    step_assignment(ring@, segs@, q) && #[trigger] q.subrange(0, step as int) == perm;
                let s = step as int;
                let qs = q[s];
                let q2 = if qs == j as int {
                    q
                } else if exists|m: int| s < m < n && q[m] == j as int {
                    let m = choose|m: int| s < m < n && q[m] == j as int;
                    q.update(s, j as int).update(m, qs)
                } else {
                    q.update(s, j as int)
                };
                assert forall|k: int| 0 <= k < s implies q[k] == perm[k] by {
                    assert(q.subrange(0, s)[k] == q[k]);
                }
                assert forall|k: int| 0 <= k < s implies q[k] != j as int by {
                    assert(perm[k] == q[k]);
                    if q[k] == j as int {
                        assert(perm.contains(j as int));
                    }
                }
                assert(step_assignment(ring@, segs@, q2));
                assert(q2.subrange(0, s + 1) =~= perm.push(j as int));
            }
        }
        taken.set(j, true);
        proof {
            perm = perm.push(j as int);
            assert forall|x: int| 0 <= x < n implies (taken@[x] <==> perm.contains(x)) by {
                if x == j {
                    assert(perm[step as int] == x);
                } else {
                    if old_perm.contains(x) {
                        let i = choose|i: int| 0 <= i < old_perm.len() && old_perm[i] == x;
                        assert(perm[i] == x);
                    }
                    if perm.contains(x) {
                        let i = choose|i: int| 0 <= i < perm.len() && perm[i] == x;
                        assert(old_perm[i] == x);
                    }
                }
            }
            assert forall|x: int, y: int| 0 <= x < y < step + 1 implies perm[x] != perm[y] by {
                if y == step {
                    assert(old_perm.contains(perm[x]));
                }
            }
        }
        step = step + 1;
    }
    proof {
        assert(perm.no_duplicates());
        assert(step_assignment(ring@, segs@, perm));
    }
    true
}

/// A closed ring along every segment once, from the first segment's first point:
/// there is one exactly where there are segments, every point has an even number
/// of segment ends, and some closed ring passes along every segment once.
pub fn euler_ring(segs: &Vec<Segment>) -> (r: Option<Vec<Point>>)
    ensures
        r matches Some(ring) ==> is_euler_ring(ring@, segs@) && ring@[0] == segs@[0].0,
        r is Some <==> has_ring(segs@),
{
    if segs.len() == 0 || !all_even_exec(segs) {
        return None;
    }
    let ring = hierholzer(segs);
    if check_euler_ring(&ring, segs) {
        Some(ring)
    } else {
        None
    }
}

/// The lateral border of an extension file sector: its border lines walked as one
/// closed ring (see [`euler_ring`] and the module's documentation).
pub fn polygon_from_ese(sector: &EseSector) -> (r: Option<Vec<Point>>)
    ensures
        r matches Some(ring) ==> is_euler_ring(ring@, border_segments(sector@.border)) && ring@[0]
            == border_segments(sector@.border)[0].0,
        r is Some <==> has_ring(border_segments(sector@.border)),
{
    let segs = segments_of(&sector.border);
    euler_ring(&segs)
}

// ---------------------------------------------------------------------------
// Volumes

/// The bound on quantized coordinates: any coordinate quantizes within it.
pub open spec fn bounded(p: Point) -> bool {
    -3_000_000_000_000_000_000 <= p.0 <= 3_000_000_000_000_000_000 && -3_000_000_000_000_000_000
        <= p.1 <= 3_000_000_000_000_000_000
}

/// Every quantized coordinate lies within the bound.
pub proof fn lemma_vertex_bounded(c: Coordinate)
    ensures
        bounded(vertex_of(c)),
{
}

/// The segments of border lines end at quantized coordinates.
proof fn lemma_border_segments_bounded(lines: Seq<Seq<Coordinate>>)
    ensures
        forall|i: int|
            0 <= i < border_segments(lines).len() ==> bounded(#[trigger] border_segments(lines)[i].0)
                && bounded(border_segments(lines)[i].1),
    decreases lines.len(),
{
    if lines.len() > 0 {
        lemma_border_segments_bounded(lines.drop_last());
        lemma_line_segments_bounded(lines.last());
        let a = border_segments(lines.drop_last());
        let b = line_segments(lines.last());
        assert forall|i: int| 0 <= i < border_segments(lines).len() implies bounded(
            #[trigger] border_segments(lines)[i].0,
        ) && bounded(border_segments(lines)[i].1) by {
            if i < a.len() {
                assert(border_segments(lines)[i] == a[i]);
            } else {
                assert(border_segments(lines)[i] == b[i - a.len()]);
            }
        }
    }
}

proof fn lemma_line_segments_bounded(ps: Seq<Coordinate>)
    ensures
        forall|i: int|
            0 <= i < line_segments(ps).len() ==> bounded(#[trigger] line_segments(ps)[i].0) && bounded(
                line_segments(ps)[i].1,
            ),
    decreases ps.len(),
{
    if ps.len() >= 2 {
        lemma_line_segments_bounded(ps.drop_last());
        lemma_vertex_bounded(ps[ps.len() - 2]);
        lemma_vertex_bounded(ps.last());
        let a = line_segments(ps.drop_last());
        assert forall|i: int| 0 <= i < line_segments(ps).len() implies bounded(
            #[trigger] line_segments(ps)[i].0,
        ) && bounded(line_segments(ps)[i].1) by {
            if i < a.len() {
                assert(line_segments(ps)[i] == a[i]);
            }
        }
    }
}

/// The points of a ring along segments whose ends are within the bound are within
/// it too.
proof fn lemma_ring_bounded(ring: Seq<Point>, segs: Seq<Segment>)
    requires
        is_euler_ring(ring, segs),
        segs.len() > 0,
        forall|i: int| 0 <= i < segs.len() ==> bounded(#[trigger] segs[i].0) && bounded(segs[i].1),
    ensures
        forall|i: int| 0 <= i < ring.len() ==> bounded(#[trigger] ring[i]),
{
    let perm = choose|perm: Seq<int>| step_assignment(ring, segs, perm);
    assert forall|i: int| 0 <= i < ring.len() implies bounded(#[trigger] ring[i]) by {
        if i < segs.len() {
            assert(0 <= perm[i] < segs.len());
            assert(joins(segs[perm[i]], ring[i], ring[i + 1]));
            assert(bounded(segs[perm[i]].0) && bounded(segs[perm[i]].1));
        } else {
            assert(ring[i] == ring[0]);
            assert(0 <= perm[0] < segs.len());
            assert(joins(segs[perm[0]], ring[0], ring[1]));
            assert(bounded(segs[perm[0]].0) && bounded(segs[perm[0]].1));
        }
    }
}

/// What geo's `make_ccw_winding` makes of a ring of points.
pub uninterp spec fn ccw_wound(ring: Seq<Point>) -> Seq<Point>;

/// Winds a ring counter-clockwise with geo's `Winding::make_ccw_winding` on a
/// `LineString<i128>` (x the first coordinate, y the second). Claimed of geo: the
/// points are kept, or reversed (where geo finds the ring wound clockwise). Within
/// the bound, geo's orientation test on 128-bit integers does not overflow.
#[verifier::external_body]
fn make_ccw_winding(ring: Vec<Point>) -> (r: Vec<Point>)
    requires
        forall|i: int| 0 <= i < ring@.len() ==> bounded(#[trigger] ring@[i]),
    ensures
        r@ == ccw_wound(ring@),
        r@ == ring@ || r@ == ring@.reverse(),
{
    let mut ls: geo::LineString<i128> = ring.iter().map(|p| geo::Coord { x: p.0 as i128, y: p.1 as i128 }).collect();
    ls.make_ccw_winding();
    ls.0.iter().map(|c| (c.x as i64, c.y as i64)).collect()
}

/// A volume of airspace: its levels and its lateral border, wound
/// counter-clockwise.
#[derive(Debug)]
pub struct Volume {
    pub id: VolumeId,
    pub lower_level: u32,
    pub upper_level: u32,
    pub lateral_border: Vec<Point>,
}

pub struct VolumeV {
    pub id: Seq<char>,
    pub lower_level: u32,
    pub upper_level: u32,
    pub lateral_border: Seq<Point>,
}

impl View for Volume {
    type V = VolumeV;

    open spec fn view(&self) -> VolumeV {
        VolumeV {
            id: self.id.0@,
            lower_level: self.lower_level,
            upper_level: self.upper_level,
            lateral_border: self.lateral_border@,
        }
    }
}

impl Volume {
    /// A volume, its border wound counter-clockwise (see [`make_ccw_winding`]).
    pub fn new(id: VolumeId, lower_level: u32, upper_level: u32, lateral_border: Vec<Point>) -> (v:
        Volume)
        requires
            forall|i: int| 0 <= i < lateral_border@.len() ==> bounded(#[trigger] lateral_border@[i]),
        ensures
            v.id == id,
            v.lower_level == lower_level,
            v.upper_level == upper_level,
            v.lateral_border@ == ccw_wound(lateral_border@),
    {
        Volume { id, lower_level, upper_level, lateral_border: make_ccw_winding(lateral_border) }
    }
}

// ---------------------------------------------------------------------------
// Sectors

/// A sector: the volumes that the same positions own, in the same order, under the
/// same runway filter, with the airports of all its volumes.
#[derive(Debug)]
pub struct Sector {
    pub id: SectorId,
    pub position_priority: Vec<String>,
    pub runway_filter: Vec<Vec<RunwayIdentifier>>,
    pub volumes: Vec<VolumeId>,
    pub departure_aerodromes: Vec<String>,
    pub arrival_aerodromes: Vec<String>,
}

pub struct SectorV {
    pub id: Seq<char>,
    pub position_priority: Seq<Seq<char>>,
    pub runway_filter: Seq<Seq<(Seq<char>, Seq<char>)>>,
    pub volumes: Seq<Seq<char>>,
    pub departure_aerodromes: Seq<Seq<char>>,
    pub arrival_aerodromes: Seq<Seq<char>>,
}

impl View for Sector {
    type V = SectorV;

    open spec fn view(&self) -> SectorV {
        SectorV {
            id: self.id.0@,
            position_priority: string_views(self.position_priority@),
            runway_filter: self.runway_filter@.map_values(|f: Vec<RunwayIdentifier>| runway_id_views(f@)),
            volumes: self.volumes@.map_values(|v: VolumeId| v.0@),
            departure_aerodromes: string_views(self.departure_aerodromes@),
            arrival_aerodromes: string_views(self.arrival_aerodromes@),
        }
    }
}

/// The sectors of an adaptation.
#[derive(Debug)]
pub struct Sectors(pub Vec<Sector>);

pub open spec fn sector_views(v: Seq<Sector>) -> Seq<SectorV> {
    v.map_values(|s: Sector| s@)
}

pub open spec fn volume_views(v: Seq<Volume>) -> Seq<VolumeV> {
    v.map_values(|x: Volume| x@)
}

/// `acc` with the items of `items` that it does not hold yet, in order.
pub open spec fn add_new(acc: Seq<Seq<char>>, items: Seq<Seq<char>>) -> Seq<Seq<char>>
    decreases items.len(),
{
    if items.len() == 0 {
        acc
    } else {
        let a = add_new(acc, items.drop_last());
        if a.contains(items.last()) {
            a
        } else {
            a.push(items.last())
        }
    }
}

/// Whether no later extension file sector has the id of sector `i` (of sectors
/// with the same id, the last counts).
pub open spec fn last_of_id(ss: Seq<EseSectorV>, i: int) -> bool {
    forall|j: int| i < j < ss.len() ==> #[trigger] ss[j].id != ss[i].id
}

/// Whether a sector groups the volumes of the same owners and runway filter as `s`.
pub open spec fn same_key(g: SectorV, s: EseSectorV) -> bool {
    g.position_priority == s.owner_priority && g.runway_filter == seq![s.runway_filter]
}

/// The sectors once the volume of extension file sector `s` is added to the one
/// of its owners and runway filter, or to a new one.
pub open spec fn add_volume(gs: Seq<SectorV>, s: EseSectorV) -> Seq<SectorV> {
    match first_index(gs.len() as int, |g: int| same_key(gs[g], s)) {
        Some(g) => gs.update(
            g,
            SectorV {
                volumes: gs[g].volumes.push(s.id),
                departure_aerodromes: add_new(gs[g].departure_aerodromes, s.departure_airports),
                arrival_aerodromes: add_new(gs[g].arrival_aerodromes, s.arrival_airports),
                ..gs[g]
            },
        ),
        None => gs.push(
            SectorV {
                id: s.id,
                position_priority: s.owner_priority,
                runway_filter: seq![s.runway_filter],
                volumes: seq![s.id],
                departure_aerodromes: add_new(seq![], s.departure_airports),
                arrival_aerodromes: add_new(seq![], s.arrival_airports),
            },
        ),
    }
}

/// The volumes and sectors that the first `k` extension file sectors give, with
/// `rings[i]` the border of sector `i` where it has one: each sector that is the
/// last of its id and has a border gives a volume, and joins the sector of its
/// owners and runway filter.
pub open spec fn sectors_upto(ss: Seq<EseSectorV>, rings: Seq<Option<Seq<Point>>>, k: int) -> (
    Seq<VolumeV>,
    Seq<SectorV>,
)
    decreases k,
{
    if k <= 0 {
        (seq![], seq![])
    } else {
        let (vs, gs) = sectors_upto(ss, rings, k - 1);
        let i = k - 1;
        let s = ss[i];
        if last_of_id(ss, i) && rings[i] is Some {
            (
                vs.push(
                    VolumeV {
                        id: s.id,
                        lower_level: s.bottom,
                        upper_level: s.top,
                        lateral_border: ccw_wound(rings[i]->0),
                    },
                ),
                add_volume(gs, s),
            )
        } else {
            (vs, gs)
        }
    }
}

/// Whether two lists of strings hold the same texts.
fn strings_eq(a: &Vec<String>, b: &Vec<String>) -> (r: bool)
    ensures
        r == (string_views(a@) == string_views(b@)),
{
    if a.len() != b.len() {
        proof {
            assert(string_views(a@).len() != string_views(b@).len());
        }
        return false;
    }
    let mut i: usize = 0;
    while i < a.len()
        invariant
            i <= a@.len(),
            a@.len() == b@.len(),
            forall|k: int| 0 <= k < i ==> #[trigger] a@[k]@ == b@[k]@,
        decreases a@.len() - i,
    {
        if !str_eq(a[i].as_str(), b[i].as_str()) {
            proof {
                assert(string_views(a@)[i as int] != string_views(b@)[i as int]);
            }
            return false;
        }
        i = i + 1;
    }
    proof {
        assert(string_views(a@) =~= string_views(b@));
    }
    true
}

/// Whether two runway filters are the same.
fn runway_ids_eq(a: &Vec<RunwayIdentifier>, b: &Vec<RunwayIdentifier>) -> (r: bool)
    ensures
        r == (runway_id_views(a@) == runway_id_views(b@)),
{
    if a.len() != b.len() {
        proof {
            assert(runway_id_views(a@).len() != runway_id_views(b@).len());
        }
        return false;
    }
    let mut i: usize = 0;
    while i < a.len()
        invariant
            i <= a@.len(),
            a@.len() == b@.len(),
            forall|k: int| 0 <= k < i ==> #[trigger] a@[k]@ == b@[k]@,
        decreases a@.len() - i,
    {
        if !str_eq(a[i].icao.as_str(), b[i].icao.as_str()) || !str_eq(
            a[i].designator.as_str(),
            b[i].designator.as_str(),
        ) {
            proof {
                assert(runway_id_views(a@)[i as int] != runway_id_views(b@)[i as int]);
            }
            return false;
        }
        i = i + 1;
    }
    proof {
        assert(runway_id_views(a@) =~= runway_id_views(b@));
    }
    true
}

/// Whether a list of strings holds a text.
fn holds_string(v: &Vec<String>, x: &String) -> (r: bool)
    ensures
        r == string_views(v@).contains(x@),
{
    let mut i: usize = 0;
    while i < v.len()
        invariant
            i <= v@.len(),
            forall|k: int| 0 <= k < i ==> #[trigger] v@[k]@ != x@,
        decreases v@.len() - i,
    {
        if str_eq(v[i].as_str(), x.as_str()) {
            proof {
                assert(string_views(v@)[i as int] == x@);
            }
            return true;
        }
        i = i + 1;
    }
    proof {
        assert forall|k: int| 0 <= k < string_views(v@).len() implies string_views(v@)[k] != x@ by {
            assert(string_views(v@)[k] == v@[k]@);
        }
    }
    false
}

/// Adds the texts of `items` that `acc` does not hold yet (see [`add_new`]).
fn add_new_exec(acc: &mut Vec<String>, items: &Vec<String>)
    ensures
        string_views(final(acc)@) == add_new(string_views(old(acc)@), string_views(items@)),
{
    let ghost base = string_views(acc@);
    let ghost iv = string_views(items@);
    let mut i: usize = 0;
    proof {
        assert(iv.take(0) =~= Seq::<Seq<char>>::empty());
    }
    while i < items.len()
        invariant
            i <= items@.len(),
            iv == string_views(items@),
            string_views(acc@) == add_new(base, iv.take(i as int)),
        decreases items@.len() - i,
    {
        proof {
            assert(iv.take(i + 1).drop_last() =~= iv.take(i as int));
            assert(iv.take(i + 1).last() == items@[i as int]@);
        }
        if !holds_string(acc, &items[i]) {
            let ghost before = string_views(acc@);
            acc.push(items[i].clone());
            proof {
                assert(string_views(acc@) =~= before.push(items@[i as int]@));
            }
        }
        i = i + 1;
    }
    proof {
        assert(iv.take(items@.len() as int) =~= iv);
    }
}

/// Whether extension file sector `i` is the last of its id (see [`last_of_id`]).
fn is_last_of_id(ss: &Vec<EseSector>, i: usize) -> (r: bool)
    requires
        i < ss@.len(),
    ensures
        r == last_of_id(crate::ese::sector_views(ss@), i as int),
{
    let ghost sv = crate::ese::sector_views(ss@);
    let n = ss.len();
    let mut j = i + 1;
    while j < ss.len()
        invariant
            i < j <= ss@.len(),
            sv == crate::ese::sector_views(ss@),
            forall|k: int| i < k < j ==> #[trigger] sv[k].id != sv[i as int].id,
        decreases ss@.len() - j,
    {
        if str_eq(ss[j].id.as_str(), ss[i].id.as_str()) {
            proof {
                assert(sv[j as int].id == sv[i as int].id);
            }
            return false;
        }
        j = j + 1;
    }
    true
}

/// Whether sector `g` groups the volumes of the same key as `s` (see [`same_key`]).
fn same_key_exec(g: &Sector, s: &EseSector) -> (r: bool)
    ensures
        r == same_key(g@, s@),
{
    if !strings_eq(&g.position_priority, &s.owner_priority) {
        return false;
    }
    if g.runway_filter.len() != 1 {
        proof {
            assert(g@.runway_filter.len() != 1);
        }
        return false;
    }
    let r = runway_ids_eq(&g.runway_filter[0], &s.runway_filter);
    proof {
        if r {
            assert(g@.runway_filter =~= seq![s@.runway_filter]);
        } else {
            assert(g@.runway_filter[0] != s@.runway_filter);
        }
    }
    r
}

fn copy_runway_filter(v: &Vec<RunwayIdentifier>) -> (r: Vec<RunwayIdentifier>)
    ensures
        runway_id_views(r@) == runway_id_views(v@),
{
    let mut r: Vec<RunwayIdentifier> = Vec::new();
    let mut i: usize = 0;
    while i < v.len()
        invariant
            i <= v@.len(),
            runway_id_views(r@) == runway_id_views(v@).take(i as int),
        decreases v@.len() - i,
    {
        let ghost before = runway_id_views(r@);
        r.push(RunwayIdentifier { icao: v[i].icao.clone(), designator: v[i].designator.clone() });
        proof {
            assert(runway_id_views(r@) =~= before.push(v@[i as int]@));
            assert(runway_id_views(r@) =~= runway_id_views(v@).take(i + 1));
        }
        i = i + 1;
    }
    proof {
        assert(runway_id_views(v@).take(v@.len() as int) =~= runway_id_views(v@));
    }
    r
}

fn copy_strings(v: &Vec<String>) -> (r: Vec<String>)
    ensures
        string_views(r@) == string_views(v@),
{
    let mut out: Vec<String> = Vec::new();
    let mut i: usize = 0;
    while i < v.len()
        invariant
            i <= v@.len(),
            string_views(out@) == string_views(v@).take(i as int),
        decreases v@.len() - i,
    {
        let ghost before = string_views(out@);
        out.push(v[i].clone());
        proof {
            assert(string_views(out@) =~= before.push(v@[i as int]@));
            assert(string_views(out@) =~= string_views(v@).take(i + 1));
        }
        i = i + 1;
    }
    proof {
        assert(string_views(v@).take(v@.len() as int) =~= string_views(v@));
    }
    out
}

/// Adds the volume of extension file sector `s` to its sector (see [`add_volume`]).
fn add_volume_exec(gs: &mut Vec<Sector>, s: &EseSector)
    ensures
        sector_views(final(gs)@) == add_volume(sector_views(old(gs)@), s@),
{
    let ghost gv = sector_views(gs@);
    let ghost p = |g: int| same_key(gv[g], s@);
    let mut g: usize = 0;
    while g < gs.len()
        invariant
            g <= gs@.len(),
            gs@ == old(gs)@,
            gv == sector_views(gs@),
            p == (|x: int| same_key(gv[x], s@)),
            forall|k: int| 0 <= k < g ==> !#[trigger] p(k),
        decreases gs@.len() - g,
    {
        if same_key_exec(&gs[g], s) {
            proof {
                assert(p(g as int));
                lemma_first_index(g as int, p);
                assert(first_index(g + 1, p) == Some(g as int));
                assert(gv.len() == gs@.len());
                lemma_first_index_extend(g + 1, gv.len() as int, p);
                assert(first_index(gv.len() as int, |x: int| same_key(gv[x], s@)) == Some(g as int));
            }
            let ghost old_g = gv[g as int];
            let ghost old_gs = gs@;
            let mut target = gs.remove(g);
            let ghost vols = target.volumes@.map_values(|v: VolumeId| v.0@);
            target.volumes.push(VolumeId(s.id.clone()));
            add_new_exec(&mut target.departure_aerodromes, &s.departure_airports);
            add_new_exec(&mut target.arrival_aerodromes, &s.arrival_airports);
            proof {
                assert(target.volumes@.map_values(|v: VolumeId| v.0@) =~= vols.push(s@.id));
            }
            gs.insert(g, target);
            proof {
                assert forall|x: int| 0 <= x < gs@.len() && x != g implies #[trigger] gs@[x] == old_gs[x] by {}
                assert(sector_views(gs@) =~= gv.update(
                    g as int,
                    SectorV {
                        volumes: old_g.volumes.push(s@.id),
                        departure_aerodromes: add_new(old_g.departure_aerodromes, s@.departure_airports),
                        arrival_aerodromes: add_new(old_g.arrival_aerodromes, s@.arrival_airports),
                        ..old_g
                    },
                ));
            }
            return;
        }
        g = g + 1;
    }
    proof {
        lemma_first_index(gs@.len() as int, p);
        assert(first_index(gs@.len() as int, p) is None) by {
            if let Some(x) = first_index(gs@.len() as int, p) {
                assert(p(x));
            }
        }
    }
    let mut departure: Vec<String> = Vec::new();
    let mut arrival: Vec<String> = Vec::new();
    proof {
        assert(string_views(departure@) =~= Seq::<Seq<char>>::empty());
        assert(string_views(arrival@) =~= Seq::<Seq<char>>::empty());
    }
    add_new_exec(&mut departure, &s.departure_airports);
    add_new_exec(&mut arrival, &s.arrival_airports);
    let mut filters: Vec<Vec<RunwayIdentifier>> = Vec::new();
    filters.push(copy_runway_filter(&s.runway_filter));
    let mut volumes: Vec<VolumeId> = Vec::new();
    volumes.push(VolumeId(s.id.clone()));
    let sector = Sector {
        id: SectorId(s.id.clone()),
        position_priority: copy_strings(&s.owner_priority),
        runway_filter: filters,
        volumes,
        departure_aerodromes: departure,
        arrival_aerodromes: arrival,
    };
    let ghost sv = sector@;
    gs.push(sector);
    proof {
        assert(sv.runway_filter =~= seq![s@.runway_filter]);
        assert(sv.volumes =~= seq![s@.id]);
        assert(sector_views(gs@) =~= gv.push(sv));
    }
}

/// Volumes and sectors built from the sectors of an extension file: each sector's
/// border walked as one ring where its border lines allow one (an Euler ring of
/// them), none where a point is met an odd number of times or there are no border
/// lines, and the sectors grouped (see [`sectors_upto`]).
pub open spec fn built_from_ese(
    ese_sectors: Seq<crate::ese::SectorV>,
    volumes: Seq<VolumeV>,
    sectors: Seq<SectorV>,
) -> bool {
    exists|rings: Seq<Option<Seq<Point>>>|
        {
            &&& rings.len() == ese_sectors.len()
            &&& forall|i: int|
                0 <= i < rings.len() ==> (#[trigger] rings[i] matches Some(ring) ==> is_euler_ring(
                    ring,
                    border_segments(ese_sectors[i].border),
                ))
            &&& forall|i: int|
                0 <= i < rings.len() ==> (#[trigger] rings[i] is Some <==> has_ring(
                    border_segments(ese_sectors[i].border),
                ))
            &&& (volumes, sectors) == sectors_upto(ese_sectors, rings, ese_sectors.len() as int)
        }
}

impl Sectors {
    /// The volumes and sectors of an extension file's sectors, given the border of
    /// each (see [`sectors_upto`]).
    pub fn from_ese_with_borders(ese: &crate::ese::Ese, rings: &Vec<Option<Vec<Point>>>) -> (r: (
        Vec<Volume>,
        Sectors,
    ))
        requires
            rings@.len() == ese.sectors@.len(),
            forall|i: int, k: int|
                0 <= i < rings@.len() && rings@[i] is Some && 0 <= k < rings@[i]->0@.len() ==> bounded(
                    #[trigger] rings@[i]->0@[k],
                ),
        ensures
            (volume_views(r.0@), sector_views((r.1).0@)) == sectors_upto(
                crate::ese::sector_views(ese.sectors@),
                rings@.map_values(|o: Option<Vec<Point>>| match o {
                    Some(v) => Some(v@),
                    None => None,
                }),
                ese.sectors@.len() as int,
            ),
    {
        let ghost ss = crate::ese::sector_views(ese.sectors@);
        let ghost rs = rings@.map_values(|o: Option<Vec<Point>>| match o {
            Some(v) => Some(v@),
            None => None,
        });
        let mut volumes: Vec<Volume> = Vec::new();
        let mut sectors: Vec<Sector> = Vec::new();
        let mut i: usize = 0;
        proof {
            assert(volume_views(volumes@) =~= Seq::<VolumeV>::empty());
            assert(sector_views(sectors@) =~= Seq::<SectorV>::empty());
        }
        while i < ese.sectors.len()
            invariant
                i <= ese.sectors@.len(),
                rings@.len() == ese.sectors@.len(),
                ss == crate::ese::sector_views(ese.sectors@),
                rs == rings@.map_values(|o: Option<Vec<Point>>| match o {
                    Some(v) => Some(v@),
                    None => None,
                }),
                forall|x: int, k: int|
                    0 <= x < rings@.len() && rings@[x] is Some && 0 <= k < rings@[x]->0@.len() ==> bounded(
                        #[trigger] rings@[x]->0@[k],
                    ),
                (volume_views(volumes@), sector_views(sectors@)) == sectors_upto(ss, rs, i as int),
            decreases ese.sectors@.len() - i,
        {
            let s = &ese.sectors[i];
            proof {
                assert(ss[i as int] == s@);
            }
            if is_last_of_id(&ese.sectors, i) {
                match &rings[i] {
                    Some(ring) => {
                        let mut border: Vec<Point> = Vec::new();
                        let mut k: usize = 0;
                        while k < ring.len()
                            invariant
                                k <= ring@.len(),
                                border@ == ring@.take(k as int),
                            decreases ring@.len() - k,
                        {
                            border.push(ring[k]);
                            k = k + 1;
                            proof {
                                assert(border@ =~= ring@.take(k as int));
                            }
                        }
                        proof {
                            assert(ring@.take(ring@.len() as int) =~= ring@);
                            assert(rings@[i as int] == Some(*ring));
                            assert forall|k: int| 0 <= k < border@.len() implies bounded(#[trigger] border@[k]) by {
                                assert(border@[k] == rings@[i as int]->0@[k]);
                            }
                            assert(rs[i as int] == Some(ring@));
                        }
                        let ghost before_v = volume_views(volumes@);
                        let v = Volume::new(VolumeId(s.id.clone()), s.bottom, s.top, border);
                        let ghost vv = v@;
                        volumes.push(v);
                        add_volume_exec(&mut sectors, s);
                        proof {
                            assert(volume_views(volumes@) =~= before_v.push(vv));
                        }
                    },
                    None => {
                        proof {
                            assert(rs[i as int] is None);
                        }
                    },
                }
            }
            i = i + 1;
        }
        (volumes, Sectors(sectors))
    }

    /// The volumes and sectors of an extension file: each sector's border lines
    /// walked as one ring (see [`polygon_from_ese`]), sectors without such a
    /// border left out, and the rest grouped (see [`sectors_upto`]).
    pub fn from_ese(ese: &crate::ese::Ese) -> (r: (Vec<Volume>, Sectors))
        ensures
            built_from_ese(crate::ese::sector_views(ese.sectors@), volume_views(r.0@), sector_views((r.1).0@)),
    {
        let mut rings: Vec<Option<Vec<Point>>> = Vec::new();
        let mut i: usize = 0;
        while i < ese.sectors.len()
            invariant
                i <= ese.sectors@.len(),
                rings@.len() == i,
                forall|x: int|
                    0 <= x < i ==> (#[trigger] rings@[x] matches Some(ring) ==> is_euler_ring(
                        ring@,
                        border_segments(ese.sectors@[x]@.border),
                    ) && border_segments(ese.sectors@[x]@.border).len() > 0),
                forall|x: int|
                    0 <= x < i ==> (#[trigger] rings@[x] is Some <==> has_ring(
                        border_segments(ese.sectors@[x]@.border),
                    )),
                forall|x: int, k: int|
                    0 <= x < rings@.len() && rings@[x] is Some && 0 <= k < rings@[x]->0@.len() ==> bounded(
                        #[trigger] rings@[x]->0@[k],
                    ),
            decreases ese.sectors@.len() - i,
        {
            let p = polygon_from_ese(&ese.sectors[i]);
            proof {
                if p is Some {
                    let segs = border_segments(ese.sectors@[i as int]@.border);
                    lemma_border_segments_bounded(ese.sectors@[i as int]@.border);
                    lemma_ring_bounded(p->0@, segs);
                }
            }
            rings.push(p);
            i = i + 1;
        }
        let r = Self::from_ese_with_borders(ese, &rings);
        proof {
            let rs = rings@.map_values(|o: Option<Vec<Point>>| match o {
                Some(v) => Some(v@),
                None => None,
            });
            assert forall|x: int| 0 <= x < rs.len() && #[trigger] rs[x] is Some implies is_euler_ring(
                rs[x]->0,
                border_segments(ese.sectors@[x]@.border),
            ) by {
                assert(rs[x] == match rings@[x] {
                    Some(v) => Some(v@),
                    None => None,
                });
            }
            assert forall|x: int| 0 <= x < rs.len() implies (#[trigger] rs[x] is Some <==> has_ring(
                border_segments(ese.sectors@[x]@.border),
            )) by {
                assert(rs[x] == match rings@[x] {
                    Some(v) => Some(v@),
                    None => None,
                });
            }
        }
        r
    }

    /// The id of the sector that volume `vol` belongs to.
    pub fn find_id_by_volume(&self, vol: &VolumeId) -> (r: Option<&SectorId>)
        ensures
            match first_index(self.0@.len() as int, |g: int| self.0@[g]@.volumes.contains(vol.0@)) {
                Some(g) => r == Some(&self.0@[g].id),
                None => r is None,
            },
    {
        let ghost p = |g: int| self.0@[g]@.volumes.contains(vol.0@);
        let mut g: usize = 0;
        while g < self.0.len()
            invariant
                g <= self.0@.len(),
                p == (|x: int| self.0@[x]@.volumes.contains(vol.0@)),
                forall|k: int| 0 <= k < g ==> !#[trigger] p(k),
            decreases self.0@.len() - g,
        {
            let vs = &self.0[g].volumes;
            let mut k: usize = 0;
            while k < vs.len()
                invariant
                    k <= vs@.len(),
                    g < self.0@.len(),
                    p == (|x: int| self.0@[x]@.volumes.contains(vol.0@)),
                    forall|j: int| 0 <= j < g ==> !#[trigger] p(j),
                    *vs == self.0@[g as int].volumes,
                    forall|j: int| 0 <= j < k ==> #[trigger] vs@[j].0@ != vol.0@,
                decreases vs@.len() - k,
            {
                if str_eq(vs[k].0.as_str(), vol.0.as_str()) {
                    proof {
                        assert(self.0@[g as int]@.volumes == vs@.map_values(|v: VolumeId| v.0@));
                        assert(self.0@[g as int]@.volumes[k as int] == vs@[k as int].0@);
                        assert(self.0@[g as int]@.volumes[k as int] == vol.0@);
                        assert(self.0@[g as int]@.volumes.contains(vol.0@));
                        assert(p(g as int));
                        lemma_first_index(g as int, p);
                        assert(first_index(g + 1, p) == Some(g as int));
                        lemma_first_index_extend(g + 1, self.0@.len() as int, p);
                    }
                    return Some(&self.0[g].id);
                }
                k = k + 1;
            }
            proof {
                assert(!p(g as int)) by {
                    assert forall|j: int| 0 <= j < self.0@[g as int]@.volumes.len() implies self.0@[g as int]@.volumes[j]
                        != vol.0@ by {
                        assert(self.0@[g as int]@.volumes[j] == vs@[j].0@);
                    }
                }
            }
            g = g + 1;
        }
        proof {
            lemma_first_index(self.0@.len() as int, p);
        }
        None
    }
}

} // verus!
