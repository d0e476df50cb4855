//! The drawable items of a sector file: procedures, airspace outlines and ground
//! drawings as coloured line strings, airways as line strings, and filled regions.
//!
//! Points are coordinates quantized to whole micro-degrees (see
//! [`crate::sectors::vertex_of`]); a location given by name lies where the
//! adaptation's places put it (see [`crate::locations::designated`]), and a
//! location that lies nowhere known is left out.
//!
//! Each line segment of a procedure, outline or drawing becomes one coloured line
//! string, of its two points (one where they coincide), coloured by the colour that
//! its colour name gives, else by the map's SID colour. The segments of one airway
//! are chained, where they share end points, into as few strings as the walk finds;
//! a segment of an airway is drawn from its start point to that same point.
use vstd::prelude::*;

use crate::colours::{named_colour, topsky_default, Colour, Colours};
use crate::locations::{designated, Locations, LocationsV};
use crate::sct::{
    group_views, region_views, Airway, AirwayV, Line, LineGroup, LineGroupV, LineV, Location,
    LocationV, Region, RegionV, Sct, SctV,
};
use crate::sectors::vertex;
use crate::text::str_eq;
use crate::sectors::vertex_of;

verus! {

/// A quantized point.
pub type Point = (i64, i64);

/// A segment from its first point to its second.
pub type Segment = (Point, Point);

/// The segments at point `p`, in order: each segment once for each of its end points
/// that is `p`.
pub open spec fn touching(lines: Seq<Segment>, p: Point) -> Seq<Segment>
    decreases lines.len(),
{
    if lines.len() == 0 {
        seq![]
    } else {
        let l = lines.last();
        let here = touching(lines.drop_last(), p);
        let here = if l.0 == p {
            here.push(l)
        } else {
            here
        };
        if l.1 == p {
            here.push(l)
        } else {
            here
        }
    }
}

/// The first segment of `ls` not yet visited.
pub open spec fn first_unvisited(ls: Seq<Segment>, visited: Seq<Segment>) -> Option<Segment>
    decreases ls.len(),
{
    if ls.len() == 0 {
        None
    } else if !visited.contains(ls[0]) {
        Some(ls[0])
    } else {
        first_unvisited(ls.drop_first(), visited)
    }
}

/// The walk from point `p`: repeatedly along the first unvisited segment at the
/// current point to its other end, marking it visited, for at most `steps` segments.
/// Gives the points passed, `p` first, and the segments visited afterwards.
pub open spec fn walk(lines: Seq<Segment>, p: Point, visited: Seq<Segment>, steps: nat) -> (
    Seq<Point>,
    Seq<Segment>,
)
    decreases steps,
{
    if steps == 0 {
        (seq![p], visited)
    } else {
        match first_unvisited(touching(lines, p), visited) {
            None => (seq![p], visited),
            Some(l) => {
                let q = if l.0 == p {
                    l.1
                } else {
                    l.0
                };
                let (rest, v) = walk(lines, q, visited.push(l), (steps - 1) as nat);
                (seq![p] + rest, v)
            },
        }
    }
}

/// The line strings of the first `n` segments: each segment not yet visited is
/// marked visited and starts a walk from its first point.
pub open spec fn strings_upto(lines: Seq<Segment>, n: int) -> (Seq<Seq<Point>>, Seq<Segment>)
    decreases n,
{
    if n <= 0 {
        (seq![], seq![])
    } else {
        let (acc, visited) = strings_upto(lines, n - 1);
        let l = lines[n - 1];
        if visited.contains(l) {
            (acc, visited)
        } else {
            let (s, v) = walk(lines, l.0, visited.push(l), lines.len());
            (acc.push(s), v)
        }
    }
}

/// The line strings of an airway's segments.
pub open spec fn airway_strings(lines: Seq<Segment>) -> Seq<Seq<Point>> {
    strings_upto(lines, lines.len() as int).0
}

/// Whether `v` holds `l`.
fn holds(v: &Vec<Segment>, l: Segment) -> (r: bool)
    ensures
        r == v@.contains(l),
{
    let mut i: usize = 0;
    while i < v.len()
        invariant
            i <= v@.len(),
            forall|k: int| 0 <= k < i ==> v@[k] != l,
        decreases v@.len() - i,
    {
        let x = v[i];
        if x.0.0 == l.0.0 && x.0.1 == l.0.1 && x.1.0 == l.1.0 && x.1.1 == l.1.1 {
            proof {
                assert(v@[i as int] == l);
            }
            return true;
        }
        i = i + 1;
    }
    false
}

/// The segments at a point (see [`touching`]).
fn touching_exec(lines: &Vec<Segment>, p: Point) -> (r: Vec<Segment>)
    ensures
        r@ == touching(lines@, p),
{
    let mut r: Vec<Segment> = Vec::new();
    let mut i: usize = 0;
    proof {
        assert(lines@.take(0) =~= Seq::<Segment>::empty());
    }
    while i < lines.len()
        invariant
            i <= lines@.len(),
            r@ == touching(lines@.take(i as int), p),
        decreases lines@.len() - i,
    {
        let l = lines[i];
        proof {
            assert(lines@.take(i + 1).drop_last() =~= lines@.take(i as int));
            assert(lines@.take(i + 1).last() == l);
        }
        if l.0.0 == p.0 && l.0.1 == p.1 {
            r.push(l);
        }
        if l.1.0 == p.0 && l.1.1 == p.1 {
            r.push(l);
        }
        i = i + 1;
    }
    proof {
        assert(lines@.take(lines@.len() as int) =~= lines@);
    }
    r
}

/// The first segment not yet visited (see [`first_unvisited`]).
fn first_unvisited_exec(ls: &Vec<Segment>, visited: &Vec<Segment>) -> (r: Option<Segment>)
    ensures
        r == first_unvisited(ls@, visited@),
{
    let mut i: usize = 0;
    proof {
        assert(ls@.skip(0) =~= ls@);
    }
    while i < ls.len()
        invariant
            i <= ls@.len(),
            first_unvisited(ls@, visited@) == first_unvisited(ls@.skip(i as int), visited@),
        decreases ls@.len() - i,
    {
        proof {
            assert(ls@.skip(i as int)[0] == ls@[i as int]);
            assert(ls@.skip(i as int).drop_first() =~= ls@.skip(i + 1));
        }
        if !holds(visited, ls[i]) {
            return Some(ls[i]);
        }
        i = i + 1;
    }
    None
}

/// Walks from a point (see [`walk`]), adding the segments passed to `visited`.
fn walk_exec(lines: &Vec<Segment>, p: Point, visited: &mut Vec<Segment>, steps: usize) -> (r: Vec<
    Point,
>)
    ensures
        (r@, final(visited)@) == walk(lines@, p, old(visited)@, steps as nat),
    decreases steps,
{
    if steps == 0 {
        let mut r: Vec<Point> = Vec::new();
        r.push(p);
        proof {
            assert(r@ =~= seq![p]);
        }
        return r;
    }
    let at = touching_exec(lines, p);
    match first_unvisited_exec(&at, visited) {
        None => {
            let mut r: Vec<Point> = Vec::new();
            r.push(p);
            proof {
                assert(r@ =~= seq![p]);
            }
            r
        },
        Some(l) => {
            let q = if l.0.0 == p.0 && l.0.1 == p.1 {
                l.1
            } else {
                l.0
            };
            proof {
                assert((l.0 == p) == (l.0.0 == p.0 && l.0.1 == p.1));
            }
            visited.push(l);
            let rest = walk_exec(lines, q, visited, steps - 1);
            let mut r: Vec<Point> = Vec::new();
            r.push(p);
            let mut i: usize = 0;
            while i < rest.len()
                invariant
                    i <= rest@.len(),
                    r@ == seq![p] + rest@.take(i as int),
                decreases rest@.len() - i,
            {
                r.push(rest[i]);
                proof {
                    assert(rest@.take(i + 1) =~= rest@.take(i as int).push(rest@[i as int]));
                    assert(r@ =~= seq![p] + rest@.take(i + 1));
                }
                i = i + 1;
            }
            proof {
                assert(rest@.take(rest@.len() as int) =~= rest@);
            }
            r
        },
    }
}

/// Chains an airway's segments into line strings (see [`airway_strings`]): each
/// segment not yet passed starts a string at its first point, which then follows,
/// point by point, the first segment not yet passed at the current point. A walk
/// takes at most as many segments as there are.
pub fn airway_to_multi_line_string(lines: &Vec<Segment>) -> (r: Vec<Vec<Point>>)
    ensures
        r@.map_values(|s: Vec<Point>| s@) == airway_strings(lines@),
{
    let mut acc: Vec<Vec<Point>> = Vec::new();
    let mut visited: Vec<Segment> = Vec::new();
    let mut i: usize = 0;
    proof {
        assert(acc@.map_values(|s: Vec<Point>| s@) =~= Seq::<Seq<Point>>::empty());
    }
    while i < lines.len()
        invariant
            i <= lines@.len(),
            (acc@.map_values(|s: Vec<Point>| s@), visited@) == strings_upto(lines@, i as int),
        decreases lines@.len() - i,
    {
        let l = lines[i];
        if !holds(&visited, l) {
            visited.push(l);
            let ghost before = acc@.map_values(|s: Vec<Point>| s@);
            let s = walk_exec(lines, l.0, &mut visited, lines.len());
            acc.push(s);
            proof {
                assert(acc@.map_values(|s: Vec<Point>| s@) =~= before.push(s@));
            }
        }
        i = i + 1;
    }
    acc
}

/// Whether points `a` and `b` are the two ends of segment `l`, in either order.
pub open spec fn joins(l: Segment, a: Point, b: Point) -> bool {
    (l.0 == a && l.1 == b) || (l.0 == b && l.1 == a)
}

/// Whether points `i` and `i + 1` of `s` are the ends of a segment of `lines`.
pub open spec fn step_on_segment(lines: Seq<Segment>, s: Seq<Point>, i: int) -> bool {
    exists|l: Segment| #[trigger] lines.contains(l) && joins(l, s[i], s[i + 1])
}

/// Whether each two neighbouring points of `s` are the ends of a segment of `lines`.
pub open spec fn follows_segments(lines: Seq<Segment>, s: Seq<Point>) -> bool {
    forall|i: int| 0 <= i < s.len() - 1 ==> #[trigger] step_on_segment(lines, s, i)
}

proof fn lemma_touching(lines: Seq<Segment>, p: Point, l: Segment)
    requires
        touching(lines, p).contains(l),
    ensures
        lines.contains(l),
        l.0 == p || l.1 == p,
    decreases lines.len(),
{
    if lines.len() > 0 {
        let last = lines.last();
        let t0 = touching(lines.drop_last(), p);
        if t0.contains(l) {
            lemma_touching(lines.drop_last(), p, l);
            let k = choose|k: int| 0 <= k < lines.drop_last().len() && lines.drop_last()[k] == l;
            assert(lines[k] == l);
        } else {
            assert(l == last);
            assert(lines[lines.len() - 1] == l);
        }
    }
}

proof fn lemma_first_unvisited(ls: Seq<Segment>, visited: Seq<Segment>)
    ensures
        first_unvisited(ls, visited) matches Some(l) ==> ls.contains(l) && !visited.contains(l),
    decreases ls.len(),
{
    if ls.len() > 0 && visited.contains(ls[0]) {
        lemma_first_unvisited(ls.drop_first(), visited);
        if first_unvisited(ls.drop_first(), visited) is Some {
            let l = first_unvisited(ls.drop_first(), visited).unwrap();
            let k = choose|k: int| 0 <= k < ls.drop_first().len() && ls.drop_first()[k] == l;
            assert(ls[k + 1] == l);
        }
    } else if ls.len() > 0 {
        assert(ls[0] == ls[0]);
    }
}

proof fn lemma_walk_follows(lines: Seq<Segment>, p: Point, visited: Seq<Segment>, steps: nat)
    ensures
        walk(lines, p, visited, steps).0.len() > 0,
        walk(lines, p, visited, steps).0[0] == p,
        follows_segments(lines, walk(lines, p, visited, steps).0),
    decreases steps,
{
    if steps > 0 {
        let t = touching(lines, p);
        match first_unvisited(t, visited) {
            None => {
                let s = seq![p];
                assert forall|i: int| 0 <= i < s.len() - 1 implies #[trigger] step_on_segment(
                    lines,
                    s,
                    i,
                ) by {}
            },
            Some(l) => {
                lemma_first_unvisited(t, visited);
                lemma_touching(lines, p, l);
                let q = if l.0 == p {
                    l.1
                } else {
                    l.0
                };
                lemma_walk_follows(lines, q, visited.push(l), (steps - 1) as nat);
                let rest = walk(lines, q, visited.push(l), (steps - 1) as nat).0;
                let s = seq![p] + rest;
                assert forall|i: int| 0 <= i < s.len() - 1 implies #[trigger] step_on_segment(
                    lines,
                    s,
                    i,
                ) by {
                    if i == 0 {
                        assert(s[1] == rest[0]);
                        assert(joins(l, s[0], s[1]));
                        assert(lines.contains(l));
                    } else {
                        assert(s[i] == rest[i - 1] && s[i + 1] == rest[i]);
                        assert(step_on_segment(lines, rest, i - 1));
                        let m = choose|m: Segment| #[trigger] lines.contains(m) && joins(m, rest[i - 1], rest[i]);
                        assert(lines.contains(m) && joins(m, s[i], s[i + 1]));
                    }
                }
            },
        }
    } else {
        let s = seq![p];
        assert forall|i: int| 0 <= i < s.len() - 1 implies #[trigger] step_on_segment(lines, s, i) by {}
    }
}

/// Each line string of an airway starts at the first point of one of its segments,
/// and each two neighbouring points of it are the ends of one of its segments.
pub proof fn lemma_strings_follow_segments(lines: Seq<Segment>, n: int)
    requires
        0 <= n <= lines.len(),
    ensures
        forall|k: int|
            0 <= k < strings_upto(lines, n).0.len() ==> {
                let s = #[trigger] strings_upto(lines, n).0[k];
                &&& s.len() > 0
                &&& exists|j: int| 0 <= j < lines.len() && lines[j].0 == s[0]
                &&& follows_segments(lines, s)
            },
    decreases n,
{
    if n > 0 {
        lemma_strings_follow_segments(lines, n - 1);
        let (acc, visited) = strings_upto(lines, n - 1);
        let l = lines[n - 1];
        if !visited.contains(l) {
            lemma_walk_follows(lines, l.0, visited.push(l), lines.len());
            let s = walk(lines, l.0, visited.push(l), lines.len()).0;
            let all = acc.push(s);
            assert forall|k: int| 0 <= k < all.len() implies {
                let t = #[trigger] all[k];
                &&& t.len() > 0
                &&& exists|j: int| 0 <= j < lines.len() && lines[j].0 == t[0]
                &&& follows_segments(lines, t)
            } by {
                if k < acc.len() {
                    assert(all[k] == acc[k]);
                } else {
                    assert(all[k] == s);
                    assert(lines[n - 1].0 == s[0]);
                }
            }
        }
    }
}

// ---------------------------------------------------------------------------
// Items of a sector file

/// Where a location lies, quantized.
pub open spec fn location_point(l: LocationsV, loc: LocationV) -> Option<Point> {
    match loc {
        LocationV::Coordinate(c) => Some(vertex_of(c)),
        LocationV::Fix(n) => match designated(l, n) {
            Some(f) => Some(vertex_of(f.coordinate)),
            None => None,
        },
    }
}

/// The points of a segment that lie somewhere known; a repeated point once.
pub open spec fn segment_string(l: LocationsV, line: LineV) -> Seq<Point> {
    match (location_point(l, line.start), location_point(l, line.end)) {
        (Some(a), Some(b)) => if a == b {
            seq![a]
        } else {
            seq![a, b]
        },
        (Some(a), None) => seq![a],
        (None, Some(b)) => seq![b],
        (None, None) => seq![],
    }
}

/// The colour that a colour name gives (see [`Colours::get`]).
pub open spec fn colour_lookup(colours: Colours, coopans: bool, name: Seq<char>) -> Option<Colour> {
    match named_colour(colours.named(), name) {
        Some(c) => Some(c),
        None => topsky_default(coopans, name),
    }
}

/// The colour of a segment: its colour name's, else the map's SID colour.
pub open spec fn line_colour(colours: Colours, coopans: bool, name: Option<Seq<char>>) -> Colour {
    match name {
        Some(n) => match colour_lookup(colours, coopans, n) {
            Some(c) => c,
            None => colours.map.sid,
        },
        None => colours.map.sid,
    }
}

/// Line strings of one colour.
#[derive(Debug)]
pub struct ColouredLines {
    pub colour: Colour,
    pub lines: Vec<Vec<Point>>,
}

pub struct ColouredLinesV {
    pub colour: Colour,
    pub lines: Seq<Seq<Point>>,
}

pub open spec fn strings_view(v: Seq<Vec<Point>>) -> Seq<Seq<Point>> {
    v.map_values(|s: Vec<Point>| s@)
}

impl View for ColouredLines {
    type V = ColouredLinesV;

    open spec fn view(&self) -> ColouredLinesV {
        ColouredLinesV { colour: self.colour, lines: strings_view(self.lines@) }
    }
}

/// The coloured line strings of an entry's segments, each named by the entry.
pub open spec fn lines_items(
    l: LocationsV,
    colours: Colours,
    coopans: bool,
    name: Seq<char>,
    lines: Seq<LineV>,
) -> Seq<(Seq<char>, ColouredLinesV)>
    decreases lines.len(),
{
    if lines.len() == 0 {
        seq![]
    } else {
        let r = lines_items(l, colours, coopans, name, lines.drop_last());
        let s = segment_string(l, lines.last());
        if s.len() == 0 {
            r
        } else {
            r.push(
                (
                    name,
                    ColouredLinesV { colour: line_colour(colours, coopans, lines.last().colour), lines: seq![s] },
                ),
            )
        }
    }
}

/// The coloured line strings of the entries of a section, entry after entry.
pub open spec fn group_items(
    l: LocationsV,
    colours: Colours,
    coopans: bool,
    gs: Seq<LineGroupV>,
) -> Seq<(Seq<char>, ColouredLinesV)>
    decreases gs.len(),
{
    if gs.len() == 0 {
        seq![]
    } else {
        group_items(l, colours, coopans, gs.drop_last()) + lines_items(
            l,
            colours,
            coopans,
            gs.last().name,
            gs.last().lines,
        )
    }
}

/// Airway segments grouped by airway, airways in the order they first appear.
pub open spec fn airway_groups(ws: Seq<AirwayV>) -> Seq<(Seq<char>, Seq<AirwayV>)>
    decreases ws.len(),
{
    if ws.len() == 0 {
        seq![]
    } else {
        let g = airway_groups(ws.drop_last());
        let w = ws.last();
        match crate::lookup::first_index(g.len() as int, |i: int| g[i].0 == w.designator) {
            Some(i) => g.update(i, (g[i].0, g[i].1.push(w))),
            None => g.push((w.designator, seq![w])),
        }
    }
}

/// The segments that an airway's segments are drawn as: from each start point that
/// lies somewhere known to that same point.
pub open spec fn airway_segments(l: LocationsV, ws: Seq<AirwayV>) -> Seq<Segment>
    decreases ws.len(),
{
    if ws.len() == 0 {
        seq![]
    } else {
        let r = airway_segments(l, ws.drop_last());
        match location_point(l, ws.last().start) {
            Some(p) => r.push((p, p)),
            None => r,
        }
    }
}

/// The line strings of each airway.
pub open spec fn airway_items(l: LocationsV, ws: Seq<AirwayV>) -> Seq<(Seq<char>, Seq<Seq<Point>>)> {
    airway_groups(ws).map_values(
        |g: (Seq<char>, Seq<AirwayV>)| (g.0, airway_strings(airway_segments(l, g.1))),
    )
}

/// Where a location lies, quantized (see [`location_point`]).
fn location_point_exec(l: &Locations, loc: &Location) -> (r: Option<Point>)
    ensures
        r == location_point(l@, loc@),
{
    match l.convert_location(loc) {
        Some(c) => Some(vertex(c)),
        None => None,
    }
}

/// The points of a segment (see [`segment_string`]).
fn segment_string_exec(l: &Locations, line: &Line) -> (r: Vec<Point>)
    ensures
        r@ == segment_string(l@, line@),
{
    let a = location_point_exec(l, &line.start);
    let b = location_point_exec(l, &line.end);
    let mut r: Vec<Point> = Vec::new();
    match (a, b) {
        (Some(a), Some(b)) => {
            r.push(a);
            if !(a.0 == b.0 && a.1 == b.1) {
                r.push(b);
            }
        },
        (Some(a), None) => r.push(a),
        (None, Some(b)) => r.push(b),
        (None, None) => {},
    }
    proof {
        assert(r@ =~= segment_string(l@, line@));
    }
    r
}

/// The colour of a segment (see [`line_colour`]).
fn line_colour_exec(colours: &Colours, coopans: bool, name: &Option<String>) -> (r: Colour)
    ensures
        r == line_colour(*colours, coopans, crate::sct::opt_view(*name)),
{
    match name {
        Some(n) => match colours.get(n.as_str(), coopans) {
            Some(c) => c,
            None => colours.map.sid,
        },
        None => colours.map.sid,
    }
}

pub open spec fn item_views(v: Seq<(String, ColouredLines)>) -> Seq<(Seq<char>, ColouredLinesV)> {
    v.map_values(|e: (String, ColouredLines)| (e.0@, e.1@))
}

/// Adds the coloured line strings of an entry's segments (see [`lines_items`]).
fn add_lines_items(
    out: &mut Vec<(String, ColouredLines)>,
    l: &Locations,
    colours: &Colours,
    coopans: bool,
    name: &String,
    lines: &Vec<Line>,
)
    ensures
        item_views(final(out)@) == item_views(old(out)@) + lines_items(
            l@,
            *colours,
            coopans,
            name@,
            crate::sct::line_views(lines@),
        ),
{
    let ghost base = item_views(out@);
    let ghost lv = crate::sct::line_views(lines@);
    let mut i: usize = 0;
    proof {
        assert(lv.take(0) =~= Seq::<LineV>::empty());
        assert(item_views(out@) =~= base + lines_items(l@, *colours, coopans, name@, lv.take(0)));
    }
    while i < lines.len()
        invariant
            i <= lines@.len(),
            lv == crate::sct::line_views(lines@),
            item_views(out@) == base + lines_items(l@, *colours, coopans, name@, lv.take(i as int)),
        decreases lines@.len() - i,
    {
        proof {
            assert(lv.take(i + 1).drop_last() =~= lv.take(i as int));
            assert(lv.take(i + 1).last() == lines@[i as int]@);
        }
        let s = segment_string_exec(l, &lines[i]);
        if s.len() > 0 {
            let colour = line_colour_exec(colours, coopans, &lines[i].colour);
            let mut strings: Vec<Vec<Point>> = Vec::new();
            let ghost sv = s@;
            strings.push(s);
            let ghost before = item_views(out@);
            out.push((name.clone(), ColouredLines { colour, lines: strings }));
            proof {
                assert(strings_view(strings@) =~= seq![sv]);
                assert(item_views(out@) =~= before.push(
                    (name@, ColouredLinesV { colour, lines: seq![sv] }),
                ));
            }
        }
        i = i + 1;
    }
    proof {
        assert(lv.take(lines@.len() as int) =~= lv);
    }
}

/// The coloured line strings of a section's entries (see [`group_items`]).
fn group_items_exec(l: &Locations, colours: &Colours, coopans: bool, gs: &Vec<LineGroup>) -> (r: Vec<
    (String, ColouredLines),
>)
    ensures
        item_views(r@) == group_items(l@, *colours, coopans, group_views(gs@)),
{
    let ghost gv = group_views(gs@);
    let mut r: Vec<(String, ColouredLines)> = Vec::new();
    let mut i: usize = 0;
    proof {
        assert(gv.take(0) =~= Seq::<LineGroupV>::empty());
        assert(item_views(r@) =~= Seq::<(Seq<char>, ColouredLinesV)>::empty());
    }
    while i < gs.len()
        invariant
            i <= gs@.len(),
            gv == group_views(gs@),
            item_views(r@) == group_items(l@, *colours, coopans, gv.take(i as int)),
        decreases gs@.len() - i,
    {
        proof {
            assert(gv.take(i + 1).drop_last() =~= gv.take(i as int));
            assert(gv.take(i + 1).last() == gs@[i as int]@);
        }
        add_lines_items(&mut r, l, colours, coopans, &gs[i].name, &gs[i].lines);
        i = i + 1;
    }
    proof {
        assert(gv.take(gs@.len() as int) =~= gv);
    }
    r
}

/// Airway segments grouped by index, as the segments they stand for.
pub open spec fn index_groups_view(gs: Seq<(String, Vec<usize>)>, ws: Seq<AirwayV>) -> Seq<
    (Seq<char>, Seq<AirwayV>),
> {
    gs.map_values(|g: (String, Vec<usize>)| (g.0@, g.1@.map_values(|i: usize| ws[i as int])))
}

/// Groups airway segments by airway (see [`airway_groups`]), by index.
fn airway_groups_exec(ws: &Vec<Airway>) -> (r: Vec<(String, Vec<usize>)>)
    ensures
        index_groups_view(r@, crate::sct::airway_views(ws@)) == airway_groups(crate::sct::airway_views(ws@)),
        forall|g: int, k: int| 0 <= g < r@.len() && 0 <= k < r@[g].1@.len() ==> #[trigger] r@[g].1@[k] < ws@.len(),
{
    let ghost wv = crate::sct::airway_views(ws@);
    let mut r: Vec<(String, Vec<usize>)> = Vec::new();
    let mut i: usize = 0;
    proof {
        assert(wv.take(0) =~= Seq::<AirwayV>::empty());
        assert(index_groups_view(r@, wv) =~= Seq::<(Seq<char>, Seq<AirwayV>)>::empty());
    }
    while i < ws.len()
        invariant
            i <= ws@.len(),
            wv == crate::sct::airway_views(ws@),
            index_groups_view(r@, wv) == airway_groups(wv.take(i as int)),
            forall|g: int, k: int| 0 <= g < r@.len() && 0 <= k < r@[g].1@.len() ==> #[trigger] r@[g].1@[k] < i,
        decreases ws@.len() - i,
    {
        let ghost gv = index_groups_view(r@, wv);
        let ghost w = wv[i as int];
        let ghost p = |j: int| gv[j].0 == w.designator;
        proof {
            assert(wv.take(i + 1).drop_last() =~= wv.take(i as int));
            assert(wv.take(i + 1).last() == w);
            assert(w == ws@[i as int]@);
        }
        let mut j: usize = 0;
        let mut found = false;
        while j < r.len() && !found
            invariant
                j <= r@.len(),
                i < ws@.len(),
                gv == index_groups_view(r@, wv),
                p == (|j: int| gv[j].0 == w.designator),
                w.designator == ws@[i as int].designator@,
                forall|k: int| 0 <= k < j ==> !#[trigger] p(k),
                found ==> j < r@.len() && p(j as int),
            decreases r@.len() - j + (if found { 0int } else { 1int }),
        {
            if str_eq(r[j].0.as_str(), ws[i].designator.as_str()) {
                found = true;
            } else {
                j = j + 1;
            }
        }
        if found {
            proof {
                crate::lookup::lemma_first_index(j as int, p);
                assert(crate::lookup::first_index(j + 1, p) == Some(j as int));
                crate::lookup::lemma_first_index_extend(j + 1, gv.len() as int, p);
            }
            let ghost old_r = r@;
            let mut g = r.remove(j);
            g.1.push(i);
            r.insert(j, g);
            proof {
                assert(index_groups_view(r@, wv) =~= gv.update(j as int, (gv[j as int].0, gv[j as int].1.push(w)))) by {
                    assert forall|x: int| 0 <= x < r@.len() implies #[trigger] index_groups_view(r@, wv)[x]
                        == gv.update(j as int, (gv[j as int].0, gv[j as int].1.push(w)))[x] by {
                        if x == j {
                            assert(r@[x].1@ =~= old_r[x].1@.push(i));
                            assert(r@[x].1@.map_values(|k: usize| wv[k as int]) =~= old_r[x].1@.map_values(
                                |k: usize| wv[k as int],
                            ).push(w));
                        } else {
                            assert(r@[x] == old_r[x]);
                        }
                    }
                }
                assert forall|g: int, k: int| 0 <= g < r@.len() && 0 <= k < r@[g].1@.len() implies #[trigger] r@[g].1@[k]
                    < i + 1 by {
                    if g == j {
                        if k < old_r[g].1@.len() {
                            assert(r@[g].1@[k] == old_r[g].1@[k]);
                        }
                    } else {
                        assert(r@[g] == old_r[g]);
                    }
                }
            }
        } else {
            proof {
                crate::lookup::lemma_first_index(gv.len() as int, p);
                assert(crate::lookup::first_index(gv.len() as int, p) is None) by {
                    if let Some(x) = crate::lookup::first_index(gv.len() as int, p) {
                        assert(p(x));
                    }
                }
            }
            let ghost old_r = r@;
            let mut idxs: Vec<usize> = Vec::new();
            idxs.push(i);
            r.push((ws[i].designator.clone(), idxs));
            proof {
                assert(idxs@.map_values(|k: usize| wv[k as int]) =~= seq![w]);
                assert(index_groups_view(r@, wv) =~= gv.push((w.designator, seq![w])));
                assert forall|g: int, k: int| 0 <= g < r@.len() && 0 <= k < r@[g].1@.len() implies #[trigger] r@[g].1@[k]
                    < i + 1 by {
                    if g < old_r.len() {
                        assert(r@[g] == old_r[g]);
                    }
                }
            }
        }
        i = i + 1;
    }
    proof {
        assert(wv.take(ws@.len() as int) =~= wv);
    }
    r
}

/// The line strings of the airway made of the segments at `idxs` (see
/// [`airway_items`]).
fn airway_strings_exec(l: &Locations, ws: &Vec<Airway>, idxs: &Vec<usize>) -> (r: Vec<Vec<Point>>)
    requires
        forall|k: int| 0 <= k < idxs@.len() ==> #[trigger] idxs@[k] < ws@.len(),
    ensures
        strings_view(r@) == airway_strings(
            airway_segments(l@, idxs@.map_values(|i: usize| crate::sct::airway_views(ws@)[i as int])),
        ),
{
    let ghost gw = idxs@.map_values(|i: usize| crate::sct::airway_views(ws@)[i as int]);
    let mut segs: Vec<Segment> = Vec::new();
    let mut k: usize = 0;
    proof {
        assert(gw.take(0) =~= Seq::<AirwayV>::empty());
    }
    while k < idxs.len()
        invariant
            k <= idxs@.len(),
            gw == idxs@.map_values(|i: usize| crate::sct::airway_views(ws@)[i as int]),
            forall|x: int| 0 <= x < idxs@.len() ==> #[trigger] idxs@[x] < ws@.len(),
            segs@ == airway_segments(l@, gw.take(k as int)),
        decreases idxs@.len() - k,
    {
        let w = &ws[idxs[k]];
        proof {
            assert(gw.take(k + 1).drop_last() =~= gw.take(k as int));
            assert(gw.take(k + 1).last() == w@);
        }
        match location_point_exec(l, &w.start) {
            Some(p) => segs.push((p, p)),
            None => {},
        }
        k = k + 1;
    }
    proof {
        assert(gw.take(idxs@.len() as int) =~= gw);
    }
    let r = airway_to_multi_line_string(&segs);
    proof {
        assert(strings_view(r@) =~= r@.map_values(|s: Vec<Point>| s@));
    }
    r
}

/// The drawable items of a sector file, each list in the order the file gives them
/// (see the module's documentation).
#[derive(Debug)]
pub struct SctItems {
    pub sids: Vec<(String, ColouredLines)>,
    pub stars: Vec<(String, ColouredLines)>,
    pub high_airways: Vec<(String, Vec<Vec<Point>>)>,
    pub low_airways: Vec<(String, Vec<Vec<Point>>)>,
    pub artccs_high: Vec<(String, ColouredLines)>,
    pub artccs: Vec<(String, ColouredLines)>,
    pub artccs_low: Vec<(String, ColouredLines)>,
    pub geo: Vec<(String, ColouredLines)>,
    pub regions: Vec<(String, Region)>,
}

pub open spec fn airway_item_views(v: Seq<(String, Vec<Vec<Point>>)>) -> Seq<(Seq<char>, Seq<Seq<Point>>)> {
    v.map_values(|e: (String, Vec<Vec<Point>>)| (e.0@, strings_view(e.1@)))
}

pub open spec fn region_item_views(v: Seq<(String, Region)>) -> Seq<(Seq<char>, RegionV)> {
    v.map_values(|e: (String, Region)| (e.0@, e.1@))
}

/// The airways' line strings (see [`airway_items`]).
fn airway_items_exec(l: &Locations, ws: &Vec<Airway>) -> (r: Vec<(String, Vec<Vec<Point>>)>)
    ensures
        airway_item_views(r@) == airway_items(l@, crate::sct::airway_views(ws@)),
{
    let groups = airway_groups_exec(ws);
    let ghost wv = crate::sct::airway_views(ws@);
    let ghost gv = index_groups_view(groups@, wv);
    let ghost target = airway_items(l@, wv);
    let mut r: Vec<(String, Vec<Vec<Point>>)> = Vec::new();
    let mut g: usize = 0;
    while g < groups.len()
        invariant
            g <= groups@.len(),
            gv == index_groups_view(groups@, wv),
            gv == airway_groups(wv),
            wv == crate::sct::airway_views(ws@),
            target == airway_items(l@, wv),
            forall|x: int, k: int| 0 <= x < groups@.len() && 0 <= k < groups@[x].1@.len() ==> #[trigger] groups@[x].1@[k] < ws@.len(),
            airway_item_views(r@) == target.take(g as int),
        decreases groups@.len() - g,
    {
        proof {
            assert forall|k: int| 0 <= k < groups@[g as int].1@.len() implies #[trigger] groups@[g as int].1@[k] < ws@.len() by {
                assert(groups@[g as int].1@[k] == groups@[g as int].1@[k]);
            }
        }
        let strings = airway_strings_exec(l, ws, &groups[g].1);
        let ghost before = airway_item_views(r@);
        r.push((groups[g].0.clone(), strings));
        proof {
            let ix = groups@[g as int].1@;
            assert(gv[g as int] == (groups@[g as int].0@, ix.map_values(|i: usize| wv[i as int])));
            assert(ix.map_values(|i: usize| wv[i as int]) =~= ix.map_values(
                |i: usize| crate::sct::airway_views(ws@)[i as int],
            ));
            assert(airway_item_views(r@) =~= before.push(target[g as int]));
            assert(airway_item_views(r@) =~= target.take(g + 1));
        }
        g = g + 1;
    }
    proof {
        assert(target.take(groups@.len() as int) =~= target);
    }
    r
}

/// The drawable items of a sector file, as values.
pub struct SctItemsV {
    pub sids: Seq<(Seq<char>, ColouredLinesV)>,
    pub stars: Seq<(Seq<char>, ColouredLinesV)>,
    pub high_airways: Seq<(Seq<char>, Seq<Seq<Point>>)>,
    pub low_airways: Seq<(Seq<char>, Seq<Seq<Point>>)>,
    pub artccs_high: Seq<(Seq<char>, ColouredLinesV)>,
    pub artccs: Seq<(Seq<char>, ColouredLinesV)>,
    pub artccs_low: Seq<(Seq<char>, ColouredLinesV)>,
    pub geo: Seq<(Seq<char>, ColouredLinesV)>,
    pub regions: Seq<(Seq<char>, RegionV)>,
}

impl View for SctItems {
    type V = SctItemsV;

    open spec fn view(&self) -> SctItemsV {
        SctItemsV {
            sids: item_views(self.sids@),
            stars: item_views(self.stars@),
            high_airways: airway_item_views(self.high_airways@),
            low_airways: airway_item_views(self.low_airways@),
            artccs_high: item_views(self.artccs_high@),
            artccs: item_views(self.artccs@),
            artccs_low: item_views(self.artccs_low@),
            geo: item_views(self.geo@),
            regions: region_item_views(self.regions@),
        }
    }
}

/// The drawable items of a sector file (see the module's documentation).
pub open spec fn sct_items(sct: SctV, l: LocationsV, colours: Colours, coopans: bool) -> SctItemsV {
    SctItemsV {
        sids: group_items(l, colours, coopans, sct.sids),
        stars: group_items(l, colours, coopans, sct.stars),
        high_airways: airway_items(l, sct.high_airways),
        low_airways: airway_items(l, sct.low_airways),
        artccs_high: group_items(l, colours, coopans, sct.artccs_high),
        artccs: group_items(l, colours, coopans, sct.artccs),
        artccs_low: group_items(l, colours, coopans, sct.artccs_low),
        geo: group_items(l, colours, coopans, sct.geo),
        regions: sct.regions.map_values(|r: RegionV| (r.name, r)),
    }
}

impl SctItems {
    /// The drawable items of a sector file: names resolved among `locations`,
    /// colours looked up in `colours` (with TopSky's COOPANS defaults where
    /// `coopans`).
    pub fn from_sct(sct: &Sct, locations: &Locations, colours: &Colours, coopans: bool) -> (r: SctItems)
        ensures
            r@ == sct_items(sct@, locations@, *colours, coopans),
    {
        let ghost rv = region_views(sct.regions@);
        let mut regions: Vec<(String, Region)> = Vec::new();
        let mut i: usize = 0;
        while i < sct.regions.len()
            invariant
                i <= sct.regions@.len(),
                rv == region_views(sct.regions@),
                region_item_views(regions@) == rv.map_values(|r: RegionV| (r.name, r)).take(i as int),
            decreases sct.regions@.len() - i,
        {
            let x = &sct.regions[i];
            let mut polygon: Vec<crate::sct::Coordinate> = Vec::new();
            let mut k: usize = 0;
            while k < x.polygon.len()
                invariant
                    k <= x.polygon@.len(),
                    polygon@ == x.polygon@.take(k as int),
                decreases x.polygon@.len() - k,
            {
                polygon.push(x.polygon[k]);
                k = k + 1;
                proof {
                    assert(polygon@ =~= x.polygon@.take(k as int));
                }
            }
            proof {
                assert(x.polygon@.take(x.polygon@.len() as int) =~= x.polygon@);
            }
            let copy = Region { name: x.name.clone(), colour_name: x.colour_name.clone(), polygon };
            let ghost before = region_item_views(regions@);
            let ghost cv = copy@;
            regions.push((x.name.clone(), copy));
            proof {
                assert(rv[i as int] == x@);
                assert(cv == x@);
                assert(region_item_views(regions@) =~= before.push((x@.name, x@)));
                assert(region_item_views(regions@) =~= rv.map_values(|r: RegionV| (r.name, r)).take(i + 1));
            }
            i = i + 1;
        }
        proof {
            assert(rv.map_values(|r: RegionV| (r.name, r)).take(sct.regions@.len() as int) =~= rv.map_values(
                |r: RegionV| (r.name, r),
            ));
        }
        SctItems {
            sids: group_items_exec(locations, colours, coopans, &sct.sids),
            stars: group_items_exec(locations, colours, coopans, &sct.stars),
            high_airways: airway_items_exec(locations, &sct.high_airways),
            low_airways: airway_items_exec(locations, &sct.low_airways),
            artccs_high: group_items_exec(locations, colours, coopans, &sct.artccs_high),
            artccs: group_items_exec(locations, colours, coopans, &sct.artccs),
            artccs_low: group_items_exec(locations, colours, coopans, &sct.artccs_low),
            geo: group_items_exec(locations, colours, coopans, &sct.geo),
            regions,
        }
    }
}

} // verus!
