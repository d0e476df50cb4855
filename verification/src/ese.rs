//! EuroScope extension files (`.ese`): controller positions, airspace sectors with
//! their borders and coordination agreements, and the routes of departure and
//! arrival procedures.
//!
//! The file is read line by line. A `;` starts a comment that runs to the end of
//! the line; what remains is trimmed, and blank lines are passed over. Fields are
//! separated by colons. `[NAME]` opens a section (the name compared without regard
//! to ASCII case); opening a section again starts its lists afresh. Sections other
//! than those below are passed over; before the first section no other line may
//! stand. Coordinates are written as in sector files (see [`crate::sct`]).
//!
//! * `[POSITIONS]`: `name:callsign:frequency:identifier:middle:prefix:suffix:-:-:
//!   first squawk:last squawk` followed by pairs `latitude:longitude` of
//!   visibility points. The squawk range is kept where both squawks are numbers
//!   below 65536.
//! * `[AIRSPACE]`:
//!   - `SECTORLINE:id` opens a border line, to which `COORD:lat:lon` lines add
//!     points; its `DISPLAY` lines are passed over;
//!   - `SECTOR:id:bottom:top` opens a sector, which the lines `OWNER:...`,
//!     `BORDER:...` (border line ids), `DEPAPT:...`, `ARRAPT:...` and
//!     `ACTIVE:airport:runway` describe; of the first four the first one counts,
//!     and `ALTOWNER` and `GUEST` lines are passed over;
//!   - `COPX` and `FIR_COPX` lines state agreements (see [`crate::agreements`]);
//!   - `CIRCLE_SECTORLINE`, `DISPLAY_SECTORLINE` and `MSAW` lines, and the `COORD`
//!     lines of an `MSAW`, are passed over.
//!
//!   A sector's border is made of the border lines its `BORDER` line names, in
//!   that order; an id that no border line has is left out, and of border lines
//!   with the same id the last counts.
//! * `[SIDSSTARS]`: `SID:airport:runway:name:waypoints` or `STAR:...`, the
//!   waypoints separated by blanks; an empty runway field gives no runway.
//!
//! Any other line makes the file invalid.
use vstd::prelude::*;

use crate::agreements::{agreement_of, agreement_views, Agreement, AgreementV};
use crate::lookup::{last_index, lemma_last_index, lemma_last_index_at};
use crate::sct::{
    blank_words, blank_words_of, coordinate_of, parse_coordinate, same_name, same_name_as,
    Coordinate,
};
use crate::text::{
    before_first, chars_are, str_eq, copy_range, lines_spec, parse_unsigned, split_chars, split_once,
    split_spec, string_from_chars, trim, trim_spec, unsigned_parse_spec, views,
};

verus! {

/// The texts that a list of strings holds.
pub open spec fn string_views(v: Seq<String>) -> Seq<Seq<char>> {
    v.map_values(|s: String| s@)
}

/// Copies a list of words into strings.
fn strings_of(ws: &[Vec<char>]) -> (r: Vec<String>)
    ensures
        string_views(r@) == views(ws@),
{
    let mut r: Vec<String> = Vec::new();
    let mut i: usize = 0;
    while i < ws.len()
        invariant
            i <= ws@.len(),
            string_views(r@) == views(ws@).take(i as int),
        decreases ws@.len() - i,
    {
        let ghost before = string_views(r@);
        let s = string_from_chars(ws[i].as_slice());
        r.push(s);
        proof {
            assert(views(ws@)[i as int] == ws@[i as int]@);
            assert(string_views(r@) =~= before.push(ws@[i as int]@));
            assert(views(ws@).take(i + 1) =~= views(ws@).take(i as int).push(ws@[i as int]@));
        }
        i = i + 1;
    }
    proof {
        assert(views(ws@).take(ws@.len() as int) =~= views(ws@));
    }
    r
}

/// Copies a list of strings.
fn copy_strings(v: &Vec<String>) -> (r: Vec<String>)
    ensures
        string_views(r@) == string_views(v@),
{
    let mut r: Vec<String> = Vec::new();
    let mut i: usize = 0;
    while i < v.len()
        invariant
            i <= v@.len(),
            string_views(r@) == string_views(v@).take(i as int),
        decreases v@.len() - i,
    {
        let ghost before = string_views(r@);
        let c = v[i].clone();
        r.push(c);
        proof {
            assert(string_views(r@) =~= before.push(v@[i as int]@));
            assert(string_views(r@) =~= string_views(v@).take(i + 1));
        }
        i = i + 1;
    }
    proof {
        assert(string_views(v@).take(v@.len() as int) =~= string_views(v@));
    }
    r
}

/// Copies a list of coordinates.
fn copy_points(v: &Vec<Coordinate>) -> (r: Vec<Coordinate>)
    ensures
        r@ == v@,
{
    let mut r: Vec<Coordinate> = Vec::new();
    let mut i: usize = 0;
    while i < v.len()
        invariant
            i <= v@.len(),
            r@ == v@.take(i as int),
        decreases v@.len() - i,
    {
        r.push(v[i]);
        proof {
            assert(r@ =~= v@.take(i + 1));
        }
        i = i + 1;
    }
    proof {
        assert(v@.take(v@.len() as int) =~= v@);
    }
    r
}

// ---------------------------------------------------------------------------
// Positions

/// A controller position.
#[derive(Debug)]
pub struct Position {
    pub name: String,
    pub callsign: String,
    pub frequency: String,
    pub identifier: String,
    pub prefix: String,
    pub middle: String,
    pub suffix: String,
    pub squawk_range: Option<(u16, u16)>,
    pub visibility_points: Vec<Coordinate>,
}

pub struct PositionV {
    pub name: Seq<char>,
    pub callsign: Seq<char>,
    pub frequency: Seq<char>,
    pub identifier: Seq<char>,
    pub prefix: Seq<char>,
    pub middle: Seq<char>,
    pub suffix: Seq<char>,
    pub squawk_range: Option<(u16, u16)>,
    pub visibility_points: Seq<Coordinate>,
}

impl View for Position {
    type V = PositionV;

    open spec fn view(&self) -> PositionV {
        PositionV {
            name: self.name@,
            callsign: self.callsign@,
            frequency: self.frequency@,
            identifier: self.identifier@,
            prefix: self.prefix@,
            middle: self.middle@,
            suffix: self.suffix@,
            squawk_range: self.squawk_range,
            visibility_points: self.visibility_points@,
        }
    }
}

/// The squawk range of two fields: both numbers below 65536.
pub open spec fn squawk_range_of(a: Seq<char>, b: Seq<char>) -> Option<(u16, u16)> {
    match (unsigned_parse_spec(a, 10, 0xffff), unsigned_parse_spec(b, 10, 0xffff)) {
        (Some(x), Some(y)) => Some((x as u16, y as u16)),
        _ => None,
    }
}

/// The visibility points held by the field pairs from field `from` up to `to`.
pub open spec fn points_of(f: Seq<Seq<char>>, from: int, to: int) -> Option<Seq<Coordinate>>
    decreases to - from,
{
    if to - from < 2 {
        Some(seq![])
    } else {
        match (points_of(f, from, to - 2), coordinate_of(f[to - 2], f[to - 1])) {
            (Some(ps), Some(c)) => Some(ps.push(c)),
            _ => None,
        }
    }
}

/// The position that the fields of a `[POSITIONS]` line give.
pub open spec fn position_of(f: Seq<Seq<char>>) -> Option<PositionV> {
    if f.len() >= 11 && (f.len() - 11) % 2 == 0 {
        match points_of(f, 11, f.len() as int) {
            Some(ps) => Some(
                PositionV {
                    name: f[0],
                    callsign: f[1],
                    frequency: f[2],
                    identifier: f[3],
                    middle: f[4],
                    prefix: f[5],
                    suffix: f[6],
                    squawk_range: squawk_range_of(f[9], f[10]),
                    visibility_points: ps,
                },
            ),
            None => None,
        }
    } else {
        None
    }
}

/// Reads the fields of a `[POSITIONS]` line (see [`position_of`]).
fn parse_position(f: &Vec<Vec<char>>) -> (r: Option<Position>)
    ensures
        match position_of(views(f@)) {
            Some(p) => r matches Some(x) && x@ == p,
            None => r is None,
        },
{
    let n = f.len();
    let ghost fv = views(f@);
    if n < 11 || (n - 11) % 2 != 0 {
        return None;
    }
    let mut points: Vec<Coordinate> = Vec::new();
    let mut k: usize = 11;
    proof {
        assert(points_of(fv, 11, 11) == Some(Seq::<Coordinate>::empty()));
    }
    while k < n
        invariant
            11 <= k <= n,
            n == f@.len(),
            fv == views(f@),
            (k - 11) % 2 == 0,
            (n - 11) % 2 == 0,
            points_of(fv, 11, k as int) == Some(points@),
        decreases n - k,
    {
        proof {
            assert(fv[k as int] == f@[k as int]@ && fv[k + 1] == f@[k + 1]@);
        }
        match parse_coordinate(f[k].as_slice(), f[k + 1].as_slice()) {
            Some(c) => {
                points.push(c);
            },
            None => {
                proof {
                    lemma_points_none(fv, k as int, n as int);
                }
                return None;
            },
        }
        k = k + 2;
    }
    proof {
        assert(fv[0] == f@[0]@ && fv[1] == f@[1]@ && fv[2] == f@[2]@ && fv[3] == f@[3]@);
        assert(fv[4] == f@[4]@ && fv[5] == f@[5]@ && fv[6] == f@[6]@);
        assert(fv[9] == f@[9]@ && fv[10] == f@[10]@);
        crate::text::lemma_unsigned_text_value_nonneg(fv[9], 10);
        crate::text::lemma_unsigned_text_value_nonneg(fv[10], 10);
    }
    let a = parse_unsigned(f[9].as_slice(), 10, 0xffff);
    let b = parse_unsigned(f[10].as_slice(), 10, 0xffff);
    let squawk_range = match (a, b) {
        (Some(x), Some(y)) => Some((x as u16, y as u16)),
        _ => None,
    };
    Some(
        Position {
            name: string_from_chars(f[0].as_slice()),
            callsign: string_from_chars(f[1].as_slice()),
            frequency: string_from_chars(f[2].as_slice()),
            identifier: string_from_chars(f[3].as_slice()),
            middle: string_from_chars(f[4].as_slice()),
            prefix: string_from_chars(f[5].as_slice()),
            suffix: string_from_chars(f[6].as_slice()),
            squawk_range,
            visibility_points: points,
        },
    )
}

/// A pair that is no coordinate leaves the points of every longer run unread.
proof fn lemma_points_none(f: Seq<Seq<char>>, k: int, n: int)
    requires
        11 <= k,
        k + 2 <= n,
        (n - k) % 2 == 0,
        coordinate_of(f[k], f[k + 1]) is None,
    ensures
        points_of(f, 11, n) is None,
    decreases n - k,
{
    if n - 2 > k {
        lemma_points_none(f, k, n - 2);
    }
}

// ---------------------------------------------------------------------------
// Airspace

/// A runway that makes a sector active: its airport and designator.
#[derive(Debug)]
pub struct RunwayIdentifier {
    pub icao: String,
    pub designator: String,
}

impl View for RunwayIdentifier {
    type V = (Seq<char>, Seq<char>);

    open spec fn view(&self) -> (Seq<char>, Seq<char>) {
        (self.icao@, self.designator@)
    }
}

pub open spec fn runway_id_views(v: Seq<RunwayIdentifier>) -> Seq<(Seq<char>, Seq<char>)> {
    v.map_values(|r: RunwayIdentifier| r@)
}

/// A sector as its `SECTOR` line and the lines under it describe it.
#[derive(Debug)]
pub struct SectorEntry {
    pub id: String,
    pub bottom: u32,
    pub top: u32,
    pub owner: Option<Vec<String>>,
    pub border: Option<Vec<String>>,
    pub departure: Option<Vec<String>>,
    pub arrival: Option<Vec<String>>,
    pub runway_filter: Vec<RunwayIdentifier>,
}

pub struct SectorEntryV {
    pub id: Seq<char>,
    pub bottom: u32,
    pub top: u32,
    pub owner: Option<Seq<Seq<char>>>,
    pub border: Option<Seq<Seq<char>>>,
    pub departure: Option<Seq<Seq<char>>>,
    pub arrival: Option<Seq<Seq<char>>>,
    pub runway_filter: Seq<(Seq<char>, Seq<char>)>,
}

pub open spec fn opt_strings(o: Option<Vec<String>>) -> Option<Seq<Seq<char>>> {
    match o {
        Some(v) => Some(string_views(v@)),
        None => None,
    }
}

impl View for SectorEntry {
    type V = SectorEntryV;

    open spec fn view(&self) -> SectorEntryV {
        SectorEntryV {
            id: self.id@,
            bottom: self.bottom,
            top: self.top,
            owner: opt_strings(self.owner),
            border: opt_strings(self.border),
            departure: opt_strings(self.departure),
            arrival: opt_strings(self.arrival),
            runway_filter: runway_id_views(self.runway_filter@),
        }
    }
}

/// A border line: its id and points.
#[derive(Debug)]
pub struct BorderLine {
    pub id: String,
    pub points: Vec<Coordinate>,
}

impl View for BorderLine {
    type V = (Seq<char>, Seq<Coordinate>);

    open spec fn view(&self) -> (Seq<char>, Seq<Coordinate>) {
        (self.id@, self.points@)
    }
}

pub open spec fn entry_views(v: Seq<SectorEntry>) -> Seq<SectorEntryV> {
    v.map_values(|e: SectorEntry| e@)
}

pub open spec fn border_line_views(v: Seq<BorderLine>) -> Seq<(Seq<char>, Seq<Coordinate>)> {
    v.map_values(|l: BorderLine| l@)
}

/// What the lines under `[AIRSPACE]` describe, in file order.
pub struct AirspaceV {
    pub sectors: Seq<SectorEntryV>,
    pub lines: Seq<(Seq<char>, Seq<Coordinate>)>,
    pub agreements: Seq<AgreementV>,
}

/// What the following `COORD` and sector lines belong to.
#[derive(Clone, Copy, Debug, PartialEq, Eq, Structural)]
pub enum AirspaceContext {
    Nothing,
    BorderLine,
    Sector,
    Msaw,
}

/// Which of a sector's lists a line sets.
#[derive(Clone, Copy, Debug, PartialEq, Eq, Structural)]
pub enum SectorList {
    Owner,
    Border,
    Departure,
    Arrival,
}

/// The sector with list `which` set to `v`, unless it is set already.
pub open spec fn set_first(e: SectorEntryV, which: SectorList, v: Seq<Seq<char>>) -> SectorEntryV {
    match which {
        SectorList::Owner => if e.owner is None {
            SectorEntryV { owner: Some(v), ..e }
        } else {
            e
        },
        SectorList::Border => if e.border is None {
            SectorEntryV { border: Some(v), ..e }
        } else {
            e
        },
        SectorList::Departure => if e.departure is None {
            SectorEntryV { departure: Some(v), ..e }
        } else {
            e
        },
        SectorList::Arrival => if e.arrival is None {
            SectorEntryV { arrival: Some(v), ..e }
        } else {
            e
        },
    }
}

/// The sector list that a keyword sets.
pub open spec fn sector_list_of(k: Seq<char>) -> Option<SectorList> {
    if k == "OWNER"@ {
        Some(SectorList::Owner)
    } else if k == "BORDER"@ {
        Some(SectorList::Border)
    } else if k == "DEPAPT"@ {
        Some(SectorList::Departure)
    } else if k == "ARRAPT"@ {
        Some(SectorList::Arrival)
    } else {
        None
    }
}

/// What an `[AIRSPACE]` line, trimmed to `t` with fields `f`, does (see the module's
/// documentation); none for an invalid line.
pub open spec fn airspace_line(
    a: AirspaceV,
    ctx: AirspaceContext,
    t: Seq<char>,
    f: Seq<Seq<char>>,
) -> Option<(AirspaceV, AirspaceContext)> {
    let k = f[0];
    if k == "SECTORLINE"@ {
        if f.len() >= 2 {
            Some(
                (
                    AirspaceV { lines: a.lines.push((f[1], seq![])), ..a },
                    AirspaceContext::BorderLine,
                ),
            )
        } else {
            None
        }
    } else if k == "COORD"@ {
        if f.len() == 3 && coordinate_of(f[1], f[2]) is Some {
            let c = coordinate_of(f[1], f[2])->0;
            if ctx == AirspaceContext::BorderLine && a.lines.len() > 0 {
                let l = a.lines.last();
                Some(
                    (
                        AirspaceV { lines: a.lines.update(a.lines.len() - 1, (l.0, l.1.push(c))), ..a },
                        ctx,
                    ),
                )
            } else if ctx == AirspaceContext::Msaw {
                Some((a, ctx))
            } else {
                None
            }
        } else {
            None
        }
    } else if k == "DISPLAY"@ {
        Some((a, ctx))
    } else if k == "CIRCLE_SECTORLINE"@ || k == "DISPLAY_SECTORLINE"@ {
        Some((a, AirspaceContext::Nothing))
    } else if k == "MSAW"@ {
        Some((a, AirspaceContext::Msaw))
    } else if k == "SECTOR"@ {
        if f.len() == 4 {
            match (unsigned_parse_spec(f[2], 10, 0xffff_ffff), unsigned_parse_spec(f[3], 10, 0xffff_ffff)) {
                (Some(b), Some(t)) => Some(
                    (
                        AirspaceV {
                            sectors: a.sectors.push(
                                SectorEntryV {
                                    id: f[1],
                                    bottom: b as u32,
                                    top: t as u32,
                                    owner: None,
                                    border: None,
                                    departure: None,
                                    arrival: None,
                                    runway_filter: seq![],
                                },
                            ),
                            ..a
                        },
                        AirspaceContext::Sector,
                    ),
                ),
                _ => None,
            }
        } else {
            None
        }
    } else if sector_list_of(k) is Some {
        if ctx == AirspaceContext::Sector && a.sectors.len() > 0 {
            Some(
                (
                    AirspaceV {
                        sectors: a.sectors.update(
                            a.sectors.len() - 1,
                            set_first(a.sectors.last(), sector_list_of(k)->0, f.drop_first()),
                        ),
                        ..a
                    },
                    ctx,
                ),
            )
        } else {
            None
        }
    } else if k == "ALTOWNER"@ || k == "GUEST"@ {
        if ctx == AirspaceContext::Sector {
            Some((a, ctx))
        } else {
            None
        }
    } else if k == "ACTIVE"@ {
        if ctx == AirspaceContext::Sector && a.sectors.len() > 0 && f.len() >= 3 {
            let e = a.sectors.last();
            Some(
                (
                    AirspaceV {
                        sectors: a.sectors.update(
                            a.sectors.len() - 1,
                            SectorEntryV { runway_filter: e.runway_filter.push((f[1], f[2])), ..e },
                        ),
                        ..a
                    },
                    ctx,
                ),
            )
        } else {
            None
        }
    } else if k == "COPX"@ || k == "FIR_COPX"@ {
        match agreement_of(t) {
            Some(g) => Some(
                (AirspaceV { agreements: a.agreements.push(g), ..a }, AirspaceContext::Nothing),
            ),
            None => None,
        }
    } else {
        None
    }
}

/// The lines under `[AIRSPACE]`, as read so far.
#[derive(Debug)]
pub struct Airspace {
    pub sectors: Vec<SectorEntry>,
    pub lines: Vec<BorderLine>,
    pub agreements: Vec<Agreement>,
}

impl View for Airspace {
    type V = AirspaceV;

    open spec fn view(&self) -> AirspaceV {
        AirspaceV {
            sectors: entry_views(self.sectors@),
            lines: border_line_views(self.lines@),
            agreements: agreement_views(self.agreements@),
        }
    }
}

/// Finds the sector list that a keyword sets (see [`sector_list_of`]).
fn sector_list_exec(k: &[char]) -> (r: Option<SectorList>)
    ensures
        r == sector_list_of(k@),
{
    if chars_are(k, "OWNER") {
        Some(SectorList::Owner)
    } else if chars_are(k, "BORDER") {
        Some(SectorList::Border)
    } else if chars_are(k, "DEPAPT") {
        Some(SectorList::Departure)
    } else if chars_are(k, "ARRAPT") {
        Some(SectorList::Arrival)
    } else {
        None
    }
}

/// Sets list `which` of a sector to `v` unless it is set (see [`set_first`]).
fn set_first_exec(e: &mut SectorEntry, which: SectorList, v: Vec<String>)
    ensures
        final(e)@ == set_first(old(e)@, which, string_views(v@)),
{
    match which {
        SectorList::Owner => if e.owner.is_none() {
            e.owner = Some(v);
        },
        SectorList::Border => if e.border.is_none() {
            e.border = Some(v);
        },
        SectorList::Departure => if e.departure.is_none() {
            e.departure = Some(v);
        },
        SectorList::Arrival => if e.arrival.is_none() {
            e.arrival = Some(v);
        },
    }
}

/// Under a sector, the lines `OWNER:...`, `BORDER:...`, `DEPAPT:...` and
/// `ARRAPT:...` set the owners, the border lines, the departure airports and the
/// arrival airports of the last sector, in that order of keys, to the fields after
/// the key, where that list is not set yet; the other lists and everything else
/// stay as they were.
pub proof fn lemma_sector_list_lines(a: AirspaceV, t: Seq<char>, f: Seq<Seq<char>>)
    requires
        a.sectors.len() > 0,
        f.len() >= 1,
        f[0] == "OWNER"@ || f[0] == "BORDER"@ || f[0] == "DEPAPT"@ || f[0] == "ARRAPT"@,
    ensures
        airspace_line(a, AirspaceContext::Sector, t, f) matches Some((b, c)) && {
            let e = a.sectors.last();
            let g = b.sectors.last();
            let v = f.drop_first();
            &&& c == AirspaceContext::Sector
            &&& b.lines == a.lines
            &&& b.agreements == a.agreements
            &&& b.sectors.len() == a.sectors.len()
            &&& forall|i: int| 0 <= i < a.sectors.len() - 1 ==> #[trigger] b.sectors[i] == a.sectors[i]
            &&& g.id == e.id && g.runway_filter == e.runway_filter
            &&& g.owner == (if f[0] == "OWNER"@ && e.owner is None { Some(v) } else { e.owner })
            &&& g.border == (if f[0] == "BORDER"@ && e.border is None { Some(v) } else { e.border })
            &&& g.departure == (if f[0] == "DEPAPT"@ && e.departure is None { Some(v) } else { e.departure })
            &&& g.arrival == (if f[0] == "ARRAPT"@ && e.arrival is None { Some(v) } else { e.arrival })
        },
{
    reveal_strlit("SECTORLINE");
    reveal_strlit("COORD");
    reveal_strlit("DISPLAY");
    reveal_strlit("CIRCLE_SECTORLINE");
    reveal_strlit("DISPLAY_SECTORLINE");
    reveal_strlit("MSAW");
    reveal_strlit("SECTOR");
    reveal_strlit("OWNER");
    reveal_strlit("BORDER");
    reveal_strlit("DEPAPT");
    reveal_strlit("ARRAPT");
    assert("BORDER"@[0] != "SECTOR"@[0]);
    assert("DEPAPT"@[0] != "SECTOR"@[0]);
    assert("ARRAPT"@[0] != "SECTOR"@[0]);
    assert("BORDER"@[0] != "DEPAPT"@[0]);
    assert("BORDER"@[0] != "ARRAPT"@[0]);
    assert("DEPAPT"@[0] != "ARRAPT"@[0]);
    assert("OWNER"@[0] != "COORD"@[0]);
    assert("OWNER"@ != "COORD"@);
    assert("BORDER"@ != "SECTOR"@ && "DEPAPT"@ != "SECTOR"@ && "ARRAPT"@ != "SECTOR"@);
    assert("BORDER"@ != "DEPAPT"@ && "BORDER"@ != "ARRAPT"@ && "DEPAPT"@ != "ARRAPT"@);
    if f[0] == "OWNER"@ {
        assert(sector_list_of(f[0]) == Some(SectorList::Owner));
    } else if f[0] == "BORDER"@ {
        assert(sector_list_of(f[0]) == Some(SectorList::Border));
    } else if f[0] == "DEPAPT"@ {
        assert(sector_list_of(f[0]) == Some(SectorList::Departure));
    } else {
        assert(sector_list_of(f[0]) == Some(SectorList::Arrival));
    }
    let e = a.sectors.last();
    let w = sector_list_of(f[0])->0;
    assert(f[0].len() == 5 || f[0].len() == 6);
    assert("SECTORLINE"@.len() == 10 && "COORD"@.len() == 5 && "DISPLAY"@.len() == 7 && "MSAW"@.len() == 4);
    assert("CIRCLE_SECTORLINE"@.len() == 17 && "DISPLAY_SECTORLINE"@.len() == 18 && "SECTOR"@.len() == 6);
    assert(f[0] != "SECTORLINE"@ && f[0] != "DISPLAY"@ && f[0] != "MSAW"@);
    assert(f[0] != "CIRCLE_SECTORLINE"@ && f[0] != "DISPLAY_SECTORLINE"@);
    assert(f[0] != "COORD"@ && f[0] != "SECTOR"@);
    assert(airspace_line(a, AirspaceContext::Sector, t, f) == Some((
        AirspaceV {
            sectors: a.sectors.update(a.sectors.len() - 1, set_first(e, w, f.drop_first())),
            ..a
        },
        AirspaceContext::Sector,
    )));
}

/// Under a sector, the line `ACTIVE:AIRPORT:RUNWAY` adds the runway `RUNWAY` of the
/// airport `AIRPORT` (the airport first) to the runway filter of the last sector,
/// after the runways already there, and changes nothing else.
pub proof fn lemma_active_line(a: AirspaceV, t: Seq<char>, f: Seq<Seq<char>>)
    requires
        a.sectors.len() > 0,
        f.len() >= 3,
        f[0] == "ACTIVE"@,
    ensures
        airspace_line(a, AirspaceContext::Sector, t, f) matches Some((b, c)) && {
            let e = a.sectors.last();
            let g = b.sectors.last();
            &&& c == AirspaceContext::Sector
            &&& b.lines == a.lines
            &&& b.agreements == a.agreements
            &&& b.sectors.len() == a.sectors.len()
            &&& forall|i: int| 0 <= i < a.sectors.len() - 1 ==> #[trigger] b.sectors[i] == a.sectors[i]
            &&& g.runway_filter == e.runway_filter.push((f[1], f[2]))
            &&& g.id == e.id && g.bottom == e.bottom && g.top == e.top
            &&& g.owner == e.owner && g.border == e.border
            &&& g.departure == e.departure && g.arrival == e.arrival
        },
{
    reveal_strlit("SECTORLINE");
    reveal_strlit("COORD");
    reveal_strlit("DISPLAY");
    reveal_strlit("CIRCLE_SECTORLINE");
    reveal_strlit("DISPLAY_SECTORLINE");
    reveal_strlit("MSAW");
    reveal_strlit("SECTOR");
    reveal_strlit("OWNER");
    reveal_strlit("BORDER");
    reveal_strlit("DEPAPT");
    reveal_strlit("ARRAPT");
    reveal_strlit("ALTOWNER");
    reveal_strlit("GUEST");
    reveal_strlit("ACTIVE");
    assert("ACTIVE"@[0] != "SECTOR"@[0]);
    assert("ACTIVE"@[0] != "BORDER"@[0]);
    assert("ACTIVE"@[0] != "DEPAPT"@[0]);
    assert("ACTIVE"@[1] != "ARRAPT"@[1]);
    assert(sector_list_of(f[0]) is None);
}

impl Airspace {
    /// Applies an `[AIRSPACE]` line (see [`airspace_line`]); false where the line is
    /// invalid.
    fn read_line(&mut self, ctx: &mut AirspaceContext, t: &[char], f: &Vec<Vec<char>>) -> (ok: bool)
        requires
            f@.len() >= 1,
            *old(ctx) == AirspaceContext::BorderLine ==> old(self).lines@.len() > 0,
            *old(ctx) == AirspaceContext::Sector ==> old(self).sectors@.len() > 0,
        ensures
            *final(ctx) == AirspaceContext::BorderLine ==> final(self).lines@.len() > 0,
            *final(ctx) == AirspaceContext::Sector ==> final(self).sectors@.len() > 0,
            !ok ==> *final(ctx) == *old(ctx) && final(self).lines@.len() == old(self).lines@.len()
                && final(self).sectors@.len() == old(self).sectors@.len(),
            match airspace_line(old(self)@, *old(ctx), t@, views(f@)) {
                Some((a, c)) => ok && final(self)@ == a && *final(ctx) == c,
                None => !ok,
            },
            // `ACTIVE:AIRPORT:RUNWAY` under a sector adds the runway of that airport to
            // the sector's runway filter, after those already there
            *old(ctx) == AirspaceContext::Sector && f@.len() >= 3 && f@[0]@ == "ACTIVE"@ ==> {
                let s0 = old(self).sectors@;
                let s1 = final(self).sectors@;
                let r0 = s0.last().runway_filter@;
                let r1 = s1.last().runway_filter@;
                &&& ok
                &&& s1.len() == s0.len()
                &&& r1.len() == r0.len() + 1
                &&& r1.last().icao@ == f@[1]@
                &&& r1.last().designator@ == f@[2]@
                &&& forall|i: int| 0 <= i < r0.len() ==> #[trigger] r1[i]@ == r0[i]@
            },
    {
        proof {
            reveal_strlit("SECTORLINE");
            reveal_strlit("COORD");
            reveal_strlit("DISPLAY");
            reveal_strlit("CIRCLE_SECTORLINE");
            reveal_strlit("DISPLAY_SECTORLINE");
            reveal_strlit("MSAW");
            reveal_strlit("SECTOR");
            reveal_strlit("OWNER");
            reveal_strlit("BORDER");
            reveal_strlit("DEPAPT");
            reveal_strlit("ARRAPT");
            reveal_strlit("ALTOWNER");
            reveal_strlit("GUEST");
            reveal_strlit("ACTIVE");
            assert("ACTIVE"@[0] != "SECTOR"@[0]);
            assert("ACTIVE"@ != "SECTOR"@);
            assert("ACTIVE"@[0] != "BORDER"@[0]);
            assert("ACTIVE"@ != "BORDER"@);
            assert("ACTIVE"@[0] != "DEPAPT"@[0]);
            assert("ACTIVE"@ != "DEPAPT"@);
            assert("ACTIVE"@[1] != "ARRAPT"@[1]);
            assert("ACTIVE"@ != "ARRAPT"@);
        }
        let ghost fv = views(f@);
        let n = f.len();
        proof {
            assert(fv[0] == f@[0]@);
        }
        let k = f[0].as_slice();
        if chars_are(k, "SECTORLINE") {
            if n < 2 {
                return false;
            }
            proof {
                assert(fv[1] == f@[1]@);
            }
            let ghost before = border_line_views(self.lines@);
            let id = string_from_chars(f[1].as_slice());
            self.lines.push(BorderLine { id, points: Vec::new() });
            *ctx = AirspaceContext::BorderLine;
            proof {
                assert(border_line_views(self.lines@) =~= before.push((fv[1], seq![])));
            }
            true
        } else if chars_are(k, "COORD") {
            if n != 3 {
                return false;
            }
            proof {
                assert(fv[1] == f@[1]@ && fv[2] == f@[2]@);
            }
            match parse_coordinate(f[1].as_slice(), f[2].as_slice()) {
                None => false,
                Some(c) => {
                    if *ctx == AirspaceContext::BorderLine {
                        let last = self.lines.len() - 1;
                        let ghost before = border_line_views(self.lines@);
                        let l = &mut self.lines[last];
                        l.points.push(c);
                        proof {
                            assert(border_line_views(self.lines@) =~= before.update(
                                last as int,
                                (before.last().0, before.last().1.push(c)),
                            ));
                        }
                        true
                    } else if *ctx == AirspaceContext::Msaw {
                        true
                    } else {
                        false
                    }
                },
            }
        } else if chars_are(k, "DISPLAY") {
            true
        } else if chars_are(k, "CIRCLE_SECTORLINE") || chars_are(k, "DISPLAY_SECTORLINE") {
            *ctx = AirspaceContext::Nothing;
            true
        } else if chars_are(k, "MSAW") {
            *ctx = AirspaceContext::Msaw;
            true
        } else if chars_are(k, "SECTOR") {
            if n != 4 {
                return false;
            }
            proof {
                assert(fv[1] == f@[1]@ && fv[2] == f@[2]@ && fv[3] == f@[3]@);
                crate::text::lemma_unsigned_text_value_nonneg(fv[2], 10);
                crate::text::lemma_unsigned_text_value_nonneg(fv[3], 10);
            }
            let b = parse_unsigned(f[2].as_slice(), 10, 0xffff_ffff);
            let tp = parse_unsigned(f[3].as_slice(), 10, 0xffff_ffff);
            match (b, tp) {
                (Some(b), Some(tp)) => {
                    let ghost before = entry_views(self.sectors@);
                    let id = string_from_chars(f[1].as_slice());
                    let e = SectorEntry {
                        id,
                        bottom: b as u32,
                        top: tp as u32,
                        owner: None,
                        border: None,
                        departure: None,
                        arrival: None,
                        runway_filter: Vec::new(),
                    };
                    proof {
                        assert(runway_id_views(e.runway_filter@) =~= Seq::<(Seq<char>, Seq<char>)>::empty());
                    }
                    let ghost ev = e@;
                    self.sectors.push(e);
                    *ctx = AirspaceContext::Sector;
                    proof {
                        assert(entry_views(self.sectors@) =~= before.push(ev));
                    }
                    true
                },
                _ => false,
            }
        } else if let Some(which) = sector_list_exec(k) {
            if *ctx != AirspaceContext::Sector {
                return false;
            }
            let rest = strings_of(&f.as_slice()[1..n]);
            proof {
                assert(views(f@.subrange(1, n as int)) =~= fv.drop_first());
            }
            let last = self.sectors.len() - 1;
            let ghost before = entry_views(self.sectors@);
            let ghost rv = string_views(rest@);
            let e = &mut self.sectors[last];
            set_first_exec(e, which, rest);
            proof {
                assert(entry_views(self.sectors@) =~= before.update(
                    last as int,
                    set_first(before.last(), which, rv),
                ));
            }
            true
        } else if chars_are(k, "ALTOWNER") || chars_are(k, "GUEST") {
            *ctx == AirspaceContext::Sector
        } else if chars_are(k, "ACTIVE") {
            if *ctx != AirspaceContext::Sector || n < 3 {
                return false;
            }
            proof {
                assert(fv[1] == f@[1]@ && fv[2] == f@[2]@);
            }
            let last = self.sectors.len() - 1;
            let ghost before = entry_views(self.sectors@);
            let rid = RunwayIdentifier {
                icao: string_from_chars(f[1].as_slice()),
                designator: string_from_chars(f[2].as_slice()),
            };
            let ghost rf = runway_id_views(self.sectors@[last as int].runway_filter@);
            let ghost r0 = self.sectors@[last as int].runway_filter@;
            let ghost ridv = rid@;
            let e = &mut self.sectors[last];
            e.runway_filter.push(rid);
            proof {
                assert(self.sectors@.len() == old(self).sectors@.len());
                assert(self.sectors@[last as int].runway_filter@ == r0.push(rid));
                assert(self.sectors@.last() == self.sectors@[last as int]);
                assert(old(self).sectors@.last().runway_filter@ == r0);
                assert(ridv == (fv[1], fv[2]));
                assert(runway_id_views(e.runway_filter@) =~= rf.push((fv[1], fv[2])));
                assert(entry_views(self.sectors@) =~= before.update(
                    last as int,
                    SectorEntryV { runway_filter: rf.push((fv[1], fv[2])), ..before.last() },
                ));
            }
            true
        } else if chars_are(k, "COPX") || chars_are(k, "FIR_COPX") {
            let line = string_from_chars(t);
            match Agreement::parse(line.as_str()) {
                Some(g) => {
                    let ghost before = agreement_views(self.agreements@);
                    let ghost gv = g@;
                    self.agreements.push(g);
                    *ctx = AirspaceContext::Nothing;
                    proof {
                        assert(agreement_views(self.agreements@) =~= before.push(gv));
                    }
                    true
                },
                None => false,
            }
        } else {
            false
        }
    }
}

// ---------------------------------------------------------------------------
// Procedures

/// A departure or arrival procedure: its name, airport, runway and waypoints.
#[derive(Debug)]
pub struct Procedure {
    pub name: String,
    pub airport: String,
    pub runway: Option<String>,
    pub waypoints: Vec<String>,
}

/// A departure procedure.
pub type SID = Procedure;

/// An arrival procedure.
pub type STAR = Procedure;

pub struct ProcedureV {
    pub name: Seq<char>,
    pub airport: Seq<char>,
    pub runway: Option<Seq<char>>,
    pub waypoints: Seq<Seq<char>>,
}

impl View for Procedure {
    type V = ProcedureV;

    open spec fn view(&self) -> ProcedureV {
        ProcedureV {
            name: self.name@,
            airport: self.airport@,
            runway: crate::sct::opt_view(self.runway),
            waypoints: string_views(self.waypoints@),
        }
    }
}

/// A departure or an arrival procedure.
#[derive(Debug)]
pub enum SidStar {
    Sid(SID),
    Star(STAR),
}

pub enum SidStarV {
    Sid(ProcedureV),
    Star(ProcedureV),
}

impl View for SidStar {
    type V = SidStarV;

    open spec fn view(&self) -> SidStarV {
        match self {
            SidStar::Sid(p) => SidStarV::Sid(p@),
            SidStar::Star(p) => SidStarV::Star(p@),
        }
    }
}

pub open spec fn sid_star_views(v: Seq<SidStar>) -> Seq<SidStarV> {
    v.map_values(|s: SidStar| s@)
}

/// The procedure that the fields of a `[SIDSSTARS]` line give.
pub open spec fn sid_star_of(f: Seq<Seq<char>>) -> Option<SidStarV> {
    if f.len() == 5 && (f[0] == "SID"@ || f[0] == "STAR"@) {
        let p = ProcedureV {
            name: f[3],
            airport: f[1],
            runway: if f[2].len() == 0 {
                None
            } else {
                Some(f[2])
            },
            waypoints: blank_words(f[4]),
        };
        Some(
            if f[0] == "SID"@ {
                SidStarV::Sid(p)
            } else {
                SidStarV::Star(p)
            },
        )
    } else {
        None
    }
}

/// Reads the fields of a `[SIDSSTARS]` line (see [`sid_star_of`]).
fn parse_sid_star(f: &Vec<Vec<char>>) -> (r: Option<SidStar>)
    ensures
        match sid_star_of(views(f@)) {
            Some(p) => r matches Some(x) && x@ == p,
            None => r is None,
        },
{
    if f.len() != 5 {
        return None;
    }
    let ghost fv = views(f@);
    proof {
        assert(fv[0] == f@[0]@ && fv[1] == f@[1]@ && fv[2] == f@[2]@ && fv[3] == f@[3]@);
        assert(fv[4] == f@[4]@);
    }
    let is_sid = chars_are(f[0].as_slice(), "SID");
    if !is_sid && !chars_are(f[0].as_slice(), "STAR") {
        return None;
    }
    let ws = blank_words_of(f[4].as_slice());
    let p = Procedure {
        name: string_from_chars(f[3].as_slice()),
        airport: string_from_chars(f[1].as_slice()),
        runway: if f[2].len() == 0 {
            None
        } else {
            Some(string_from_chars(f[2].as_slice()))
        },
        waypoints: strings_of(ws.as_slice()),
    };
    if is_sid {
        Some(SidStar::Sid(p))
    } else {
        Some(SidStar::Star(p))
    }
}

// ---------------------------------------------------------------------------
// The file

/// The section that lines belong to.
#[derive(Clone, Copy, Debug, PartialEq, Eq, Structural)]
pub enum EseSection {
    /// before the first section
    Outside,
    Positions,
    Airspace,
    SidsStars,
    /// a section that is passed over
    Other,
}

/// The section that a header names.
pub open spec fn ese_section_named(n: Seq<char>) -> EseSection {
    if same_name(n, "POSITIONS"@) {
        EseSection::Positions
    } else if same_name(n, "AIRSPACE"@) {
        EseSection::Airspace
    } else if same_name(n, "SIDSSTARS"@) {
        EseSection::SidsStars
    } else {
        EseSection::Other
    }
}

/// Where the reading stands: the open section, and what `[AIRSPACE]` lines belong
/// to.
#[derive(Clone, Copy, Debug, PartialEq, Eq, Structural)]
pub struct EseState {
    pub section: EseSection,
    pub context: AirspaceContext,
}

/// What the lines read so far describe.
pub struct EseReadV {
    pub positions: Seq<PositionV>,
    pub airspace: AirspaceV,
    pub sids_stars: Seq<SidStarV>,
}

/// The contents once section `k` is opened: its lists start afresh.
pub open spec fn ese_opened(v: EseReadV, k: EseSection) -> EseReadV {
    match k {
        EseSection::Positions => EseReadV { positions: seq![], ..v },
        EseSection::Airspace => EseReadV {
            airspace: AirspaceV { sectors: seq![], lines: seq![], agreements: seq![] },
            ..v
        },
        EseSection::SidsStars => EseReadV { sids_stars: seq![], ..v },
        _ => v,
    }
}

/// What one line does; none for an invalid line.
pub open spec fn ese_line(v: EseReadV, st: EseState, line: Seq<char>) -> Option<(EseReadV, EseState)> {
    let t = trim_spec(before_first(line, ';'));
    if t.len() == 0 {
        Some((v, st))
    } else if t.len() >= 2 && t[0] == '[' && t.last() == ']' {
        let k = ese_section_named(t.subrange(1, t.len() - 1));
        Some((ese_opened(v, k), EseState { section: k, context: AirspaceContext::Nothing }))
    } else {
        let f = split_spec(t, ':');
        match st.section {
            EseSection::Outside => None,
            EseSection::Other => Some((v, st)),
            EseSection::Positions => match position_of(f) {
                Some(p) => Some((EseReadV { positions: v.positions.push(p), ..v }, st)),
                None => None,
            },
            EseSection::Airspace => match airspace_line(v.airspace, st.context, t, f) {
                Some((a, c)) => Some((EseReadV { airspace: a, ..v }, EseState { context: c, ..st })),
                None => None,
            },
            EseSection::SidsStars => match sid_star_of(f) {
                Some(p) => Some((EseReadV { sids_stars: v.sids_stars.push(p), ..v }, st)),
                None => None,
            },
        }
    }
}

/// The contents that lines give, or the index of the first invalid line.
pub open spec fn ese_lines(lines: Seq<Seq<char>>) -> Result<(EseReadV, EseState), nat>
    decreases lines.len(),
{
    if lines.len() == 0 {
        Ok(
            (
                EseReadV {
                    positions: seq![],
                    airspace: AirspaceV { sectors: seq![], lines: seq![], agreements: seq![] },
                    sids_stars: seq![],
                },
                EseState { section: EseSection::Outside, context: AirspaceContext::Nothing },
            ),
        )
    } else {
        match ese_lines(lines.drop_last()) {
            Err(i) => Err(i),
            Ok((v, st)) => match ese_line(v, st, lines.last()) {
                Some(next) => Ok(next),
                None => Err((lines.len() - 1) as nat),
            },
        }
    }
}

/// A border line of a sector.
#[derive(Debug)]
pub struct SectorLine {
    pub points: Vec<Coordinate>,
}

/// A sector: its levels, border, owners by priority, airports, and the runways
/// that make it active.
#[derive(Debug)]
pub struct Sector {
    pub id: String,
    pub bottom: u32,
    pub top: u32,
    pub border: Vec<SectorLine>,
    pub owner_priority: Vec<String>,
    pub departure_airports: Vec<String>,
    pub arrival_airports: Vec<String>,
    pub runway_filter: Vec<RunwayIdentifier>,
}

pub struct SectorV {
    pub id: Seq<char>,
    pub bottom: u32,
    pub top: u32,
    pub border: Seq<Seq<Coordinate>>,
    pub owner_priority: Seq<Seq<char>>,
    pub departure_airports: Seq<Seq<char>>,
    pub arrival_airports: Seq<Seq<char>>,
    pub runway_filter: Seq<(Seq<char>, Seq<char>)>,
}

pub open spec fn sector_line_views(v: Seq<SectorLine>) -> Seq<Seq<Coordinate>> {
    v.map_values(|l: SectorLine| l.points@)
}

impl View for Sector {
    type V = SectorV;

    open spec fn view(&self) -> SectorV {
        SectorV {
            id: self.id@,
            bottom: self.bottom,
            top: self.top,
            border: sector_line_views(self.border@),
            owner_priority: string_views(self.owner_priority@),
            departure_airports: string_views(self.departure_airports@),
            arrival_airports: string_views(self.arrival_airports@),
            runway_filter: runway_id_views(self.runway_filter@),
        }
    }
}

/// Border lines with id `id`.
pub open spec fn line_named(lines: Seq<(Seq<char>, Seq<Coordinate>)>, id: Seq<char>) -> spec_fn(
    int,
) -> bool {
    |i: int| lines[i].0 == id
}

/// The points of the border lines that `ids` name, in order: of lines with the same
/// id the last, and nothing for an id that no line has.
pub open spec fn border_of(ids: Seq<Seq<char>>, lines: Seq<(Seq<char>, Seq<Coordinate>)>) -> Seq<
    Seq<Coordinate>,
>
    decreases ids.len(),
{
    if ids.len() == 0 {
        seq![]
    } else {
        let b = border_of(ids.drop_last(), lines);
        match last_index(lines.len() as int, line_named(lines, ids.last())) {
            Some(j) => b.push(lines[j].1),
            None => b,
        }
    }
}

/// A list that a sector's line set, or none.
pub open spec fn or_empty(o: Option<Seq<Seq<char>>>) -> Seq<Seq<char>> {
    match o {
        Some(v) => v,
        None => seq![],
    }
}

/// The sector that a `SECTOR` entry describes, with the border lines it names.
pub open spec fn sector_of(e: SectorEntryV, lines: Seq<(Seq<char>, Seq<Coordinate>)>) -> SectorV {
    SectorV {
        id: e.id,
        bottom: e.bottom,
        top: e.top,
        border: border_of(or_empty(e.border), lines),
        owner_priority: or_empty(e.owner),
        departure_airports: or_empty(e.departure),
        arrival_airports: or_empty(e.arrival),
        runway_filter: e.runway_filter,
    }
}

/// The last border line with id `id`.
fn find_line(lines: &Vec<BorderLine>, id: &String) -> (r: Option<usize>)
    ensures
        r matches Some(x) ==> last_index(lines@.len() as int, line_named(border_line_views(lines@), id@))
            == Some(x as int) && x < lines@.len(),
        r is None ==> last_index(lines@.len() as int, line_named(border_line_views(lines@), id@)) is None,
{
    let ghost lv = border_line_views(lines@);
    let ghost p = line_named(lv, id@);
    let mut i = lines.len();
    while i > 0
        invariant
            i <= lines@.len(),
            lv == border_line_views(lines@),
            p == line_named(lv, id@),
            forall|k: int| i <= k < lines@.len() ==> !#[trigger] p(k),
        decreases i,
    {
        i = i - 1;
        if str_eq(lines[i].id.as_str(), id.as_str()) {
            proof {
                assert(p(i as int));
                lemma_last_index_at(lines@.len() as int, p, i as int);
            }
            return Some(i);
        }
        proof {
            assert(!p(i as int));
        }
    }
    proof {
        crate::lookup::lemma_last_index_none(lines@.len() as int, p);
    }
    None
}

fn copy_opt_strings(o: &Option<Vec<String>>) -> (r: Vec<String>)
    ensures
        string_views(r@) == or_empty(opt_strings(*o)),
{
    match o {
        Some(v) => copy_strings(v),
        None => {
            let r: Vec<String> = Vec::new();
            proof {
                assert(string_views(r@) =~= Seq::<Seq<char>>::empty());
            }
            r
        },
    }
}

fn copy_runway_ids(v: &Vec<RunwayIdentifier>) -> (r: Vec<RunwayIdentifier>)
    ensures
        runway_id_views(r@) == runway_id_views(v@),
{
    let mut r: Vec<RunwayIdentifier> = Vec::new();
    let mut i: usize = 0;
    while i < v.len()
        invariant
            i <= v@.len(),
            runway_id_views(r@) == runway_id_views(v@).take(i as int),
        decreases v@.len() - i,
    {
        let ghost before = runway_id_views(r@);
        let x = RunwayIdentifier { icao: v[i].icao.clone(), designator: v[i].designator.clone() };
        r.push(x);
        proof {
            assert(runway_id_views(r@) =~= before.push(v@[i as int]@));
            assert(runway_id_views(r@) =~= runway_id_views(v@).take(i + 1));
        }
        i = i + 1;
    }
    proof {
        assert(runway_id_views(v@).take(v@.len() as int) =~= runway_id_views(v@));
    }
    r
}

/// Builds the sector that an entry describes (see [`sector_of`]).
fn build_sector(e: &SectorEntry, lines: &Vec<BorderLine>) -> (r: Sector)
    ensures
        r@ == sector_of(e@, border_line_views(lines@)),
{
    let ids = copy_opt_strings(&e.border);
    let ghost lv = border_line_views(lines@);
    let ghost iv = string_views(ids@);
    let mut border: Vec<SectorLine> = Vec::new();
    let mut i: usize = 0;
    proof {
        assert(iv.take(0) =~= Seq::<Seq<char>>::empty());
        assert(sector_line_views(border@) =~= Seq::<Seq<Coordinate>>::empty());
    }
    while i < ids.len()
        invariant
            i <= ids@.len(),
            iv == string_views(ids@),
            lv == border_line_views(lines@),
            sector_line_views(border@) == border_of(iv.take(i as int), lv),
        decreases ids@.len() - i,
    {
        proof {
            assert(iv.take(i + 1).drop_last() =~= iv.take(i as int));
            assert(iv.take(i + 1).last() == ids@[i as int]@);
        }
        proof {
            assert(lv.len() == lines@.len());
            let s = iv.take(i + 1);
            assert(border_of(s, lv) == match last_index(lv.len() as int, line_named(lv, s.last())) {
                Some(j) => border_of(s.drop_last(), lv).push(lv[j].1),
                None => border_of(s.drop_last(), lv),
            });
        }
        match find_line(lines, &ids[i]) {
            Some(j) => {
                let ghost before = sector_line_views(border@);
                let points = copy_points(&lines[j].points);
                border.push(SectorLine { points });
                proof {
                    let s = iv.take(i + 1);
                    assert(last_index(lv.len() as int, line_named(lv, s.last())) == Some(j as int));
                    assert(border_of(s, lv) == border_of(s.drop_last(), lv).push(lv[j as int].1));
                    assert(sector_line_views(border@) =~= before.push(lv[j as int].1));
                    assert(sector_line_views(border@) == border_of(iv.take(i + 1), lv));
                }
            },
            None => {
                assert(sector_line_views(border@) == border_of(iv.take(i + 1), lv));
            },
        }
        i = i + 1;
    }
    proof {
        assert(iv.take(ids@.len() as int) =~= iv);
    }
    Sector {
        id: e.id.clone(),
        bottom: e.bottom,
        top: e.top,
        border,
        owner_priority: copy_opt_strings(&e.owner),
        departure_airports: copy_opt_strings(&e.departure),
        arrival_airports: copy_opt_strings(&e.arrival),
        runway_filter: copy_runway_ids(&e.runway_filter),
    }
}

/// The contents of an extension file, as values.
pub struct EseV {
    pub positions: Seq<PositionV>,
    pub sectors: Seq<SectorV>,
    pub agreements: Seq<AgreementV>,
    pub sids_stars: Seq<SidStarV>,
}

/// The contents that the lines read describe: each sector with the border lines it
/// names.
pub open spec fn ese_of(v: EseReadV) -> EseV {
    EseV {
        positions: v.positions,
        sectors: v.airspace.sectors.map_values(|e: SectorEntryV| sector_of(e, v.airspace.lines)),
        agreements: v.airspace.agreements,
        sids_stars: v.sids_stars,
    }
}

/// The contents of an extension file's text, or the index of its first invalid
/// line.
pub open spec fn ese_text(text: Seq<char>) -> Result<EseV, nat> {
    match ese_lines(lines_spec(text)) {
        Ok((v, _)) => Ok(ese_of(v)),
        Err(i) => Err(i),
    }
}

pub open spec fn position_views(v: Seq<Position>) -> Seq<PositionV> {
    v.map_values(|p: Position| p@)
}

pub open spec fn sector_views(v: Seq<Sector>) -> Seq<SectorV> {
    v.map_values(|s: Sector| s@)
}

/// An extension file's contents, each list in file order. Of positions with the
/// same identifier, and of sectors with the same id, the last one counts.
#[derive(Debug)]
pub struct Ese {
    pub positions: Vec<Position>,
    pub sectors: Vec<Sector>,
    pub agreements: Vec<Agreement>,
    pub sids_stars: Vec<SidStar>,
}

impl View for Ese {
    type V = EseV;

    open spec fn view(&self) -> EseV {
        EseV {
            positions: position_views(self.positions@),
            sectors: sector_views(self.sectors@),
            agreements: agreement_views(self.agreements@),
            sids_stars: sid_star_views(self.sids_stars@),
        }
    }
}

/// An error while reading an extension file.
#[derive(Debug, PartialEq, Eq, Structural)]
pub enum EseError {
    /// The line with this number, counted from one, is invalid.
    Parse { line: usize },
}

/// The lines of an extension file, as read so far.
pub struct EseReader {
    pub positions: Vec<Position>,
    pub airspace: Airspace,
    pub sids_stars: Vec<SidStar>,
}

impl View for EseReader {
    type V = EseReadV;

    open spec fn view(&self) -> EseReadV {
        EseReadV {
            positions: position_views(self.positions@),
            airspace: self.airspace@,
            sids_stars: sid_star_views(self.sids_stars@),
        }
    }
}

impl EseReader {
    /// Applies one line (see [`ese_line`]); false where the line is invalid.
    fn read_line(&mut self, st: &mut EseState, line: &[char]) -> (ok: bool)
        requires
            old(st).context == AirspaceContext::BorderLine ==> old(self).airspace.lines@.len() > 0,
            old(st).context == AirspaceContext::Sector ==> old(self).airspace.sectors@.len() > 0,
        ensures
            final(st).context == AirspaceContext::BorderLine ==> final(self).airspace.lines@.len() > 0,
            final(st).context == AirspaceContext::Sector ==> final(self).airspace.sectors@.len() > 0,
            match ese_line(old(self)@, *old(st), line@) {
                Some((v, s)) => ok && final(self)@ == v && *final(st) == s,
                None => !ok,
            },
    {
        let (c, _) = split_once(line, ';');
        let t = trim(c.as_slice());
        let tl = t.len();
        if tl == 0 {
            return true;
        }
        if tl >= 2 && t[0] == '[' && t[tl - 1] == ']' {
            let name = copy_range(t.as_slice(), 1, tl - 1);
            let k = if same_name_as(name.as_slice(), "POSITIONS") {
                EseSection::Positions
            } else if same_name_as(name.as_slice(), "AIRSPACE") {
                EseSection::Airspace
            } else if same_name_as(name.as_slice(), "SIDSSTARS") {
                EseSection::SidsStars
            } else {
                EseSection::Other
            };
            match k {
                EseSection::Positions => {
                    self.positions = Vec::new();
                    proof {
                        assert(position_views(self.positions@) =~= Seq::<PositionV>::empty());
                    }
                },
                EseSection::Airspace => {
                    self.airspace = Airspace {
                        sectors: Vec::new(),
                        lines: Vec::new(),
                        agreements: Vec::new(),
                    };
                    proof {
                        assert(entry_views(self.airspace.sectors@) =~= Seq::<SectorEntryV>::empty());
                        assert(border_line_views(self.airspace.lines@) =~= Seq::<
                            (Seq<char>, Seq<Coordinate>),
                        >::empty());
                        assert(agreement_views(self.airspace.agreements@) =~= Seq::<AgreementV>::empty());
                    }
                },
                EseSection::SidsStars => {
                    self.sids_stars = Vec::new();
                    proof {
                        assert(sid_star_views(self.sids_stars@) =~= Seq::<SidStarV>::empty());
                    }
                },
                _ => {},
            }
            *st = EseState { section: k, context: AirspaceContext::Nothing };
            return true;
        }
        let f = split_chars(t.as_slice(), ':');
        proof {
            crate::text::lemma_split_nonempty(t@, ':');
        }
        match st.section {
            EseSection::Outside => false,
            EseSection::Other => true,
            EseSection::Positions => match parse_position(&f) {
                Some(p) => {
                    let ghost before = position_views(self.positions@);
                    let ghost pv = p@;
                    self.positions.push(p);
                    proof {
                        assert(position_views(self.positions@) =~= before.push(pv));
                    }
                    true
                },
                None => false,
            },
            EseSection::Airspace => {
                let mut ctx = st.context;
                let ok = self.airspace.read_line(&mut ctx, t.as_slice(), &f);
                st.context = ctx;
                ok
            },
            EseSection::SidsStars => match parse_sid_star(&f) {
                Some(p) => {
                    let ghost before = sid_star_views(self.sids_stars@);
                    let ghost pv = p@;
                    self.sids_stars.push(p);
                    proof {
                        assert(sid_star_views(self.sids_stars@) =~= before.push(pv));
                    }
                    true
                },
                None => false,
            },
        }
    }
}

/// An invalid line stays the first invalid one however many lines follow.
proof fn lemma_ese_error_persists(lines: Seq<Seq<char>>, k: int)
    requires
        0 <= k <= lines.len(),
        ese_lines(lines.take(k)) is Err,
    ensures
        ese_lines(lines) == ese_lines(lines.take(k)),
    decreases lines.len() - k,
{
    if k < lines.len() {
        assert(lines.take(k + 1).drop_last() =~= lines.take(k));
        lemma_ese_error_persists(lines, k + 1);
    } else {
        assert(lines.take(k) =~= lines);
    }
}

impl Ese {
    /// Reads an extension file (see the module's documentation); an invalid line is
    /// reported by its number, counted from one.
    pub fn parse(content: &[u8]) -> (res: Result<Ese, EseError>)
        ensures
            match ese_text(crate::file_text(content@)) {
                Ok(v) => res matches Ok(e) && e@ == v,
                Err(i) => res == Err::<Ese, EseError>(EseError::Parse { line: (i + 1) as usize }),
            },
    {
        let text = crate::read_to_string(content);
        let chars = crate::text::chars_of(text.as_str());
        let lines = crate::text::lines_of(chars.as_slice());
        let ghost ls = lines_spec(text@);
        let mut r = EseReader {
            positions: Vec::new(),
            airspace: Airspace { sectors: Vec::new(), lines: Vec::new(), agreements: Vec::new() },
            sids_stars: Vec::new(),
        };
        let mut st = EseState { section: EseSection::Outside, context: AirspaceContext::Nothing };
        proof {
            assert(ls.take(0) =~= Seq::<Seq<char>>::empty());
            assert(position_views(r.positions@) =~= Seq::<PositionV>::empty());
            assert(entry_views(r.airspace.sectors@) =~= Seq::<SectorEntryV>::empty());
            assert(border_line_views(r.airspace.lines@) =~= Seq::<(Seq<char>, Seq<Coordinate>)>::empty());
            assert(agreement_views(r.airspace.agreements@) =~= Seq::<AgreementV>::empty());
            assert(sid_star_views(r.sids_stars@) =~= Seq::<SidStarV>::empty());
        }
        let mut i: usize = 0;
        while i < lines.len()
            invariant
                i <= lines@.len(),
                views(lines@) == ls,
                ls == lines_spec(crate::file_text(content@)),
                ese_lines(ls.take(i as int)) == Ok::<(EseReadV, EseState), nat>((r@, st)),
                st.context == AirspaceContext::BorderLine ==> r.airspace.lines@.len() > 0,
                st.context == AirspaceContext::Sector ==> r.airspace.sectors@.len() > 0,
            decreases lines@.len() - i,
        {
            proof {
                assert(ls.take(i + 1).drop_last() =~= ls.take(i as int));
                assert(ls.take(i + 1).last() == lines@[i as int]@);
            }
            if !r.read_line(&mut st, lines[i].as_slice()) {
                proof {
                    lemma_ese_error_persists(ls, i + 1);
                }
                return Err(EseError::Parse { line: i + 1 });
            }
            i = i + 1;
        }
        proof {
            assert(ls.take(lines@.len() as int) =~= ls);
        }
        let ghost rv = r@;
        let mut sectors: Vec<Sector> = Vec::new();
        let mut k: usize = 0;
        while k < r.airspace.sectors.len()
            invariant
                k <= r.airspace.sectors@.len(),
                rv == r@,
                sector_views(sectors@) == ese_of(rv).sectors.take(k as int),
            decreases r.airspace.sectors@.len() - k,
        {
            let ghost before = sector_views(sectors@);
            let s = build_sector(&r.airspace.sectors[k], &r.airspace.lines);
            sectors.push(s);
            proof {
                assert(entry_views(r.airspace.sectors@)[k as int] == r.airspace.sectors@[k as int]@);
                assert(rv.airspace.sectors[k as int] == r.airspace.sectors@[k as int]@);
                assert(ese_of(rv).sectors[k as int] == sector_of(
                    r.airspace.sectors@[k as int]@,
                    rv.airspace.lines,
                ));
                assert(sector_views(sectors@) =~= before.push(ese_of(rv).sectors[k as int]));
                assert(sector_views(sectors@) =~= ese_of(rv).sectors.take(k + 1));
            }
            k = k + 1;
        }
        proof {
            assert(ese_of(rv).sectors.take(r.airspace.sectors@.len() as int) =~= ese_of(rv).sectors);
        }
        let EseReader { positions, airspace, sids_stars } = r;
        Ok(Ese { positions, sectors, agreements: airspace.agreements, sids_stars })
    }
}

/// Positions with identifier `id`.
pub open spec fn position_with(ps: Seq<PositionV>, id: Seq<char>) -> spec_fn(int) -> bool {
    |i: int| ps[i].identifier == id
}

/// Sectors with id `id`.
pub open spec fn sector_with(ss: Seq<SectorV>, id: Seq<char>) -> spec_fn(int) -> bool {
    |i: int| ss[i].id == id
}

impl Ese {
    /// The position with identifier `identifier` (the last one where several have it).
    pub fn position(&self, identifier: &str) -> (r: Option<&Position>)
        ensures
            match last_index(self@.positions.len() as int, position_with(self@.positions, identifier@)) {
                Some(j) => r matches Some(p) && p@ == self@.positions[j],
                None => r is None,
            },
    {
        let ghost pv = self@.positions;
        let ghost p = position_with(pv, identifier@);
        let mut i = self.positions.len();
        while i > 0
            invariant
                i <= self.positions@.len(),
                pv == self@.positions,
                p == position_with(pv, identifier@),
                forall|k: int| i <= k < self.positions@.len() ==> !#[trigger] p(k),
            decreases i,
        {
            i = i - 1;
            if str_eq(self.positions[i].identifier.as_str(), identifier) {
                proof {
                    assert(p(i as int));
                    lemma_last_index_at(self.positions@.len() as int, p, i as int);
                }
                return Some(&self.positions[i]);
            }
            proof {
                assert(!p(i as int));
            }
        }
        proof {
            crate::lookup::lemma_last_index_none(self.positions@.len() as int, p);
        }
        None
    }

    /// The sector with id `id` (the last one where several have it).
    pub fn sector(&self, id: &str) -> (r: Option<&Sector>)
        ensures
            match last_index(self@.sectors.len() as int, sector_with(self@.sectors, id@)) {
                Some(j) => r matches Some(s) && s@ == self@.sectors[j],
                None => r is None,
            },
    {
        let ghost sv = self@.sectors;
        let ghost p = sector_with(sv, id@);
        let mut i = self.sectors.len();
        while i > 0
            invariant
                i <= self.sectors@.len(),
                sv == self@.sectors,
                p == sector_with(sv, id@),
                forall|k: int| i <= k < self.sectors@.len() ==> !#[trigger] p(k),
            decreases i,
        {
            i = i - 1;
            if str_eq(self.sectors[i].id.as_str(), id) {
                proof {
                    assert(p(i as int));
                    lemma_last_index_at(self.sectors@.len() as int, p, i as int);
                }
                return Some(&self.sectors[i]);
            }
            proof {
                assert(!p(i as int));
            }
        }
        proof {
            crate::lookup::lemma_last_index_none(self.sectors@.len() as int, p);
        }
        None
    }
}

} // verus!
