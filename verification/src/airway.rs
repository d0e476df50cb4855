//! EuroScope's airway.txt: for each fix of each airway, its neighbours along the
//! airway, read into an [`AirwayGraph`].
//!
//! Each line has sixteen tab-separated fields (each without surrounding blanks):
//! the fix's name, latitude and longitude, a code that is not read, the airway's
//! name and type (`H`, `L`, `B` or empty), then the previous and the next neighbour,
//! each as name, latitude, longitude, minimum level and direction flag. A neighbour
//! whose name is empty is absent. A minimum level is a whole number; anything else
//! leaves it unset. The direction flag `Y` marks the segment as valid in that
//! direction. Coordinates are decimal degrees, quantized to micro-degrees (see
//! [`crate::decimal`]). Empty lines and lines starting with `;` are passed over;
//! any other line makes the file invalid.
//!
//! For each present neighbour the segment from the fix to it is recorded, both ways
//! (see [`AirwayGraph::insert_or_update_segment`]); the airway's type is not kept.
use vstd::prelude::*;

use crate::airways::{
    built_from, lemma_built_from_empty, lemma_built_step, lemma_link_recorded_stable, link_recorded,
    AirwayFix, AirwayGraph, AirwayType, Fix, SegmentRecord, grows,
};
use crate::decimal::{micro_value, parse_micro};
use crate::text::{chars_are, lines_of, lines_spec, string_from_chars, tab_fields, tab_fields_of,
    trim_spec, unsigned_parse_spec, views};

verus! {

/// Reads the lines of airway.txt.
pub struct AirwayParser;

/// Why airway.txt could not be read.
#[derive(Debug, PartialEq, Eq, Structural)]
pub enum AirwayError {
    /// The line with this number, counted from one, is invalid.
    Parse { line: usize },
}

/// A neighbour of a fix on an airway.
pub struct NeighbourV {
    pub name: Seq<char>,
    pub position: (i64, i64),
    pub minimum_level: Option<u32>,
    pub valid_direction: bool,
}

/// What an airway.txt line states.
pub struct AirwayLineV {
    pub fix: Seq<char>,
    pub position: (i64, i64),
    pub airway: Seq<char>,
    pub previous: Option<NeighbourV>,
    pub next: Option<NeighbourV>,
}

/// A position from latitude and longitude fields: (longitude, latitude).
pub open spec fn position_of(lat: Seq<char>, lon: Seq<char>) -> Option<(i64, i64)> {
    match (micro_value(lat), micro_value(lon)) {
        (Some(y), Some(x)) => Some((x as i64, y as i64)),
        _ => None,
    }
}

/// The neighbour given by the five fields from `at`: absent when its name is empty.
pub open spec fn neighbour_of(f: Seq<Seq<char>>, at: int) -> Result<Option<NeighbourV>, ()> {
    if f[at].len() == 0 {
        Ok(None)
    } else {
        match position_of(f[at + 1], f[at + 2]) {
            None => Err(()),
            Some(p) => Ok(
                Some(
                    NeighbourV {
                        name: f[at],
                        position: p,
                        minimum_level: match unsigned_parse_spec(f[at + 3], 10, 0xffff_ffff) {
                            Some(n) => Some(n as u32),
                            None => None,
                        },
                        valid_direction: f[at + 4] == "Y"@,
                    },
                ),
            ),
        }
    }
}

/// Whether a field names an airway type.
pub open spec fn airway_type_field(t: Seq<char>) -> bool {
    t == "H"@ || t == "L"@ || t == "B"@ || t.len() == 0
}

/// What an airway.txt line states: nothing for an empty or comment line, an error
/// for a line of another form.
pub open spec fn airway_line(l: Seq<char>) -> Result<Option<AirwayLineV>, ()> {
    let t = trim_spec(l);
    if t.len() == 0 || t[0] == ';' {
        Ok(None)
    } else {
        let f = tab_fields(l);
        if f.len() != 16 || !airway_type_field(f[5]) {
            Err(())
        } else {
            match (position_of(f[1], f[2]), neighbour_of(f, 6), neighbour_of(f, 11)) {
                (Some(p), Ok(prev), Ok(next)) => Ok(
                    Some(
                        AirwayLineV {
                            fix: f[0],
                            position: p,
                            airway: f[4],
                            previous: prev,
                            next: next,
                        },
                    ),
                ),
                _ => Err(()),
            }
        }
    }
}

/// The lines read so far, or the index of the first invalid one.
pub open spec fn airway_lines(lines: Seq<Seq<char>>) -> Result<Seq<AirwayLineV>, nat>
    decreases lines.len(),
{
    if lines.len() == 0 {
        Ok(seq![])
    } else {
        match airway_lines(lines.drop_last()) {
            Err(i) => Err(i),
            Ok(ls) => match airway_line(lines.last()) {
                Err(()) => Err((lines.len() - 1) as nat),
                Ok(None) => Ok(ls),
                Ok(Some(x)) => Ok(ls.push(x)),
            },
        }
    }
}

/// Whether the segment between a line's fix and its neighbour is recorded (trivially
/// so for an absent neighbour).
pub open spec fn neighbour_recorded(g: AirwayGraph, l: AirwayLineV, n: Option<NeighbourV>) -> bool {
    match n {
        Some(n) => link_recorded(g, l.airway, l.fix, l.position, n.name, n.position),
        None => true,
    }
}

/// Whether both segments of a line are recorded.
pub open spec fn line_recorded(g: AirwayGraph, l: AirwayLineV) -> bool {
    neighbour_recorded(g, l, l.previous) && neighbour_recorded(g, l, l.next)
}

/// The record of the segment from a line's fix to a neighbour: the neighbour's
/// direction flag and minimum level, no maximum level, the type unknown (none for
/// an absent neighbour).
pub open spec fn neighbour_records(l: AirwayLineV, n: Option<NeighbourV>) -> Seq<SegmentRecord> {
    match n {
        Some(n) => seq![
            SegmentRecord {
                airway: l.airway,
                from_fix: l.fix,
                from_position: l.position,
                to_fix: n.name,
                to_position: n.position,
                valid_direction: n.valid_direction,
                minimum_level: n.minimum_level,
                maximum_level: None,
                airway_type: AirwayType::Unknown,
            },
        ],
        None => seq![],
    }
}

/// The records of lines, line after line: each line's previous neighbour, then its
/// next.
pub open spec fn line_records(ls: Seq<AirwayLineV>) -> Seq<SegmentRecord>
    decreases ls.len(),
{
    if ls.len() == 0 {
        seq![]
    } else {
        line_records(ls.drop_last()) + neighbour_records(ls.last(), ls.last().previous)
            + neighbour_records(ls.last(), ls.last().next)
    }
}

/// An exec neighbour.
struct Neighbour {
    name: Vec<char>,
    position: (i64, i64),
    minimum_level: Option<u32>,
    valid_direction: bool,
}

/// An exec airway line.
struct AirwayLine {
    fix: Vec<char>,
    position: (i64, i64),
    airway: Vec<char>,
    previous: Option<Neighbour>,
    next: Option<Neighbour>,
}

spec fn neighbour_view(n: Option<Neighbour>) -> Option<NeighbourV> {
    match n {
        Some(n) => Some(
            NeighbourV {
                name: n.name@,
                position: n.position,
                minimum_level: n.minimum_level,
                valid_direction: n.valid_direction,
            },
        ),
        None => None,
    }
}

spec fn line_view(l: AirwayLine) -> AirwayLineV {
    AirwayLineV {
        fix: l.fix@,
        position: l.position,
        airway: l.airway@,
        previous: neighbour_view(l.previous),
        next: neighbour_view(l.next),
    }
}

/// Reads a position from latitude and longitude fields.
fn read_position(lat: &[char], lon: &[char]) -> (r: Option<(i64, i64)>)
    ensures
        r == position_of(lat@, lon@),
{
    match (parse_micro(lat), parse_micro(lon)) {
        (Some(y), Some(x)) => Some((x, y)),
        _ => None,
    }
}

/// Reads the neighbour of the five fields from `at`.
fn read_neighbour(f: &Vec<Vec<char>>, at: usize) -> (r: Result<Option<Neighbour>, ()>)
    requires
        at <= 11,
        at + 5 <= f@.len(),
    ensures
        match neighbour_of(views(f@), at as int) {
            Ok(n) => r matches Ok(x) && neighbour_view(x) == n,
            Err(()) => r is Err,
        },
{
    proof {
        assert(views(f@)[at as int] == f@[at as int]@);
        assert(views(f@)[at + 1] == f@[at + 1]@);
        assert(views(f@)[at + 2] == f@[at + 2]@);
        assert(views(f@)[at + 3] == f@[at + 3]@);
        assert(views(f@)[at + 4] == f@[at + 4]@);
    }
    if f[at].len() == 0 {
        return Ok(None);
    }
    match read_position(&f[at + 1], &f[at + 2]) {
        None => Err(()),
        Some(p) => {
            proof {
                crate::text::lemma_unsigned_text_value_nonneg(f@[at + 3]@, 10);
            }
            let level = match crate::text::parse_unsigned(&f[at + 3], 10, 0xffff_ffff) {
                Some(n) => Some(n as u32),
                None => None,
            };
            let name = crate::text::copy_range(&f[at], 0, f[at].len());
            proof {
                assert(name@ =~= f@[at as int]@);
            }
            Ok(
                Some(
                    Neighbour {
                        name,
                        position: p,
                        minimum_level: level,
                        valid_direction: chars_are(&f[at + 4], "Y"),
                    },
                ),
            )
        },
    }
}

impl AirwayParser {
    /// Reads one line (see [`airway_line`]).
    fn line(l: &[char]) -> (r: Result<Option<AirwayLine>, ()>)
        ensures
            match airway_line(l@) {
                Ok(None) => r matches Ok(None),
                Ok(Some(x)) => r matches Ok(Some(y)) && line_view(y) == x,
                Err(()) => r is Err,
            },
    {
        let t = crate::text::trim(l);
        if t.len() == 0 || t[0] == ';' {
            return Ok(None);
        }
        let f = tab_fields_of(l);
        if f.len() != 16 {
            return Err(());
        }
        proof {
            assert(views(f@)[5] == f@[5]@);
            assert(views(f@)[0] == f@[0]@);
            assert(views(f@)[1] == f@[1]@);
            assert(views(f@)[2] == f@[2]@);
            assert(views(f@)[4] == f@[4]@);
        }
        if !(chars_are(&f[5], "H") || chars_are(&f[5], "L") || chars_are(&f[5], "B") || f[5].len()
            == 0) {
            return Err(());
        }
        let p = match read_position(&f[1], &f[2]) {
            None => {
                return Err(());
            },
            Some(p) => p,
        };
        let prev = match read_neighbour(&f, 6) {
            Err(()) => {
                return Err(());
            },
            Ok(n) => n,
        };
        let next = match read_neighbour(&f, 11) {
            Err(()) => {
                return Err(());
            },
            Ok(n) => n,
        };
        let fix = crate::text::copy_range(&f[0], 0, f[0].len());
        let airway = crate::text::copy_range(&f[4], 0, f[4].len());
        proof {
            assert(fix@ =~= f@[0]@);
            assert(airway@ =~= f@[4]@);
        }
        Ok(Some(AirwayLine { fix, position: p, airway, previous: prev, next: next }))
    }
}

/// Records the segment from a line's fix to one of its neighbours.
fn record_neighbour(
    g: &mut AirwayGraph,
    l: &AirwayLine,
    n: &Option<Neighbour>,
    Ghost(recs): Ghost<Seq<SegmentRecord>>,
)
    requires
        old(g).wf(),
        built_from(*old(g), recs),
    ensures
        final(g).wf(),
        grows(*final(g), *old(g)),
        neighbour_recorded(*final(g), line_view(*l), neighbour_view(*n)),
        built_from(*final(g), recs + neighbour_records(line_view(*l), neighbour_view(*n))),
{
    let ghost nv = neighbour_view(*n);
    match n {
        None => {
            proof {
                crate::airways::lemma_grows_refl(*g);
                assert(recs + neighbour_records(line_view(*l), nv) =~= recs);
            }
        },
        Some(n) => {
            let airway = string_from_chars(&l.airway);
            let fix = string_from_chars(&l.fix);
            let segment = AirwayFix {
                fix: Fix { designator: string_from_chars(&n.name), coordinate: n.position },
                valid_direction: n.valid_direction,
                minimum_level: n.minimum_level,
            };
            let ghost g0 = *g;
            g.insert_or_update_segment(
                airway.as_str(),
                fix.as_str(),
                l.position,
                &segment,
                AirwayType::Unknown,
            );
            proof {
                let r = crate::airways::segment_record(
                    airway@,
                    fix@,
                    l.position,
                    segment,
                    AirwayType::Unknown,
                );
                lemma_built_step(g0, *g, recs, r);
                assert(recs.push(r) =~= recs + neighbour_records(line_view(*l), nv));
            }
        },
    }
}

/// An invalid line stays the first invalid one however many lines follow.
proof fn lemma_airway_error_persists(lines: Seq<Seq<char>>, k: int)
    requires
        0 <= k <= lines.len(),
        airway_lines(lines.take(k)) is Err,
    ensures
        airway_lines(lines) == airway_lines(lines.take(k)),
    decreases lines.len() - k,
{
    if k < lines.len() {
        assert(lines.take(k + 1).drop_last() =~= lines.take(k));
        lemma_airway_error_persists(lines, k + 1);
    } else {
        assert(lines.take(k) =~= lines);
    }
}

/// Reads airway.txt into an airway graph (see the module's documentation): an
/// invalid line is reported by its number, counted from one; otherwise the graph is
/// exactly that of the lines' segments (see [`line_records`] and
/// [`crate::airways::built_from`]): each recorded both ways, with its direction flag
/// and minimum level, and no other segment.
pub fn parse_airway_txt(content: &[u8]) -> (res: Result<AirwayGraph, AirwayError>)
    ensures
        match airway_lines(lines_spec(crate::file_text(content@))) {
            Ok(ls) => res matches Ok(g) && g.wf() && built_from(g, line_records(ls)) && forall|i: int|
                0 <= i < ls.len() ==> line_recorded(g, #[trigger] ls[i]),
            Err(i) => res == Err::<AirwayGraph, AirwayError>(
                AirwayError::Parse { line: (i + 1) as usize },
            ),
        },
{
    let text = crate::read_to_string(content);
    let chars = crate::text::chars_of(text.as_str());
    let lines = lines_of(chars.as_slice());
    let ghost ls = views(lines@);
    let ghost mut read: Seq<AirwayLineV> = seq![];
    let mut g = AirwayGraph::new();
    let mut i: usize = 0;
    proof {
        assert(ls.take(0) =~= Seq::<Seq<char>>::empty());
        lemma_built_from_empty(g);
    }
    while i < lines.len()
        invariant
            i <= lines@.len(),
            ls == views(lines@),
            ls == lines_spec(crate::file_text(content@)),
            airway_lines(ls.take(i as int)) == Ok::<Seq<AirwayLineV>, nat>(read),
            g.wf(),
            built_from(g, line_records(read)),
            forall|k: int| 0 <= k < read.len() ==> line_recorded(g, #[trigger] read[k]),
        decreases lines@.len() - i,
    {
        proof {
            assert(ls.take(i + 1).drop_last() =~= ls.take(i as int));
            assert(ls.take(i + 1).last() == lines@[i as int]@);
        }
        match AirwayParser::line(lines[i].as_slice()) {
            Err(()) => {
                proof {
                    lemma_airway_error_persists(ls, i + 1);
                }
                return Err(AirwayError::Parse { line: i + 1 });
            },
            Ok(None) => {},
            Ok(Some(l)) => {
                let ghost g0 = g;
                let ghost lv = line_view(l);
                record_neighbour(&mut g, &l, &l.previous, Ghost(line_records(read)));
                let ghost g1 = g;
                record_neighbour(
                    &mut g,
                    &l,
                    &l.next,
                    Ghost(line_records(read) + neighbour_records(lv, lv.previous)),
                );
                proof {
                    let rp = read.push(lv);
                    assert(rp.drop_last() =~= read);
                    assert(rp.last() == lv);
                    assert(line_records(rp) == line_records(read) + neighbour_records(lv, lv.previous)
                        + neighbour_records(lv, lv.next));
                    crate::airways::lemma_grows_trans(g, g1, g0);
                    assert forall|k: int| 0 <= k < read.push(lv).len() implies line_recorded(
                        g,
                        #[trigger] read.push(lv)[k],
                    ) by {
                        let x = read.push(lv)[k];
                        if k < read.len() {
                            assert(x == read[k]);
                            match x.previous {
                                Some(n) => lemma_link_recorded_stable(
                                    g0,
                                    g,
                                    x.airway,
                                    x.fix,
                                    x.position,
                                    n.name,
                                    n.position,
                                ),
                                None => {},
                            }
                            match x.next {
                                Some(n) => lemma_link_recorded_stable(
                                    g0,
                                    g,
                                    x.airway,
                                    x.fix,
                                    x.position,
                                    n.name,
                                    n.position,
                                ),
                                None => {},
                            }
                        } else {
                            match lv.previous {
                                Some(n) => lemma_link_recorded_stable(
                                    g1,
                                    g,
                                    lv.airway,
                                    lv.fix,
                                    lv.position,
                                    n.name,
                                    n.position,
                                ),
                                None => {},
                            }
                        }
                    }
                    read = read.push(lv);
                }
            },
        }
        i = i + 1;
    }
    proof {
        assert(ls.take(lines@.len() as int) =~= ls);
    }
    Ok(g)
}

} // verus!
