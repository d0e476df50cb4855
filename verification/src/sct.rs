//! EuroScope sector files (`.sct`): the navigation aids, airports, runways,
//! procedures, airspace outlines, region fills and airways of a sector.
//!
//! The file is read line by line. A `;` starts a comment that runs to the end of
//! the line; tabs count as spaces. Blank lines are passed over.
//!
//! * `#define NAME VALUE` defines a colour anywhere in the file: `VALUE` is a
//!   EuroScope colour number; a number outside `0..2^24` defines nothing.
//! * `[NAME]` opens a section; the name is compared without regard to ASCII case.
//!   Opening a section again starts its list afresh. Sections of other names are
//!   passed over, and before the first section only colour definitions may stand.
//! * A coordinate is two words `Hddd.mm.ss.fff`: latitude with `N` or `S`, then
//!   longitude with `E` or `W`; one to three digits of degrees, one or two of
//!   minutes and of seconds, and optionally a point and one to three decimals of a
//!   second. It is kept exactly, in thousandths of a second of arc.
//! * A location is a coordinate, or a fix name written twice (`FIX FIX`).
//! * A line segment is two locations, optionally followed by a colour name.
//!
//! Per section:
//!
//! * `[INFO]`: nine lines in order: name, default callsign, default airport,
//!   latitude and longitude of the centre point, miles per degree of latitude and
//!   of longitude, magnetic variation and scale factor (the last four as decimal
//!   numbers, kept in millionths).
//! * `[VOR]`, `[NDB]`: `ID FREQUENCY LAT LON`. `[FIXES]`: `ID LAT LON`.
//!   `[AIRPORT]`: `ID FREQUENCY LAT LON CLASS`.
//! * `[RUNWAY]`: `DES1 DES2 HDG1 HDG2 LAT1 LON1 LAT2 LON2 AIRPORT`, anything after
//!   the airport being passed over.
//! * `[SID]`, `[STAR]`, `[ARTCC HIGH]`, `[ARTCC]`, `[ARTCC LOW]`, `[GEO]`: a line
//!   that starts at the margin gives a name (its words joined by single spaces)
//!   followed by a line segment; an indented line holds a further segment of the
//!   entry above. Where the last word could be a colour, it is taken as one.
//! * `[REGIONS]`: `REGIONNAME name` opens a region, whose next line gives its colour
//!   and first point; a line at the margin `name... colour LAT LON` opens a region
//!   by itself; indented lines `LAT LON` add points to the region above.
//! * `[HIGH AIRWAY]`, `[LOW AIRWAY]`: `NAME LOCATION LOCATION`.
//!
//! Any other line makes the file invalid.
use vstd::prelude::*;

use crate::colours::{colour_views, euroscope_colour, Colour};
use crate::decimal::{lemma_pow10_9, lemma_pow10_mono, pow10, read_digits};
use crate::decimal::{micro_value, parse_micro};
use crate::text::{
    all_radix_digits, before_first, chars_eq, copy_range, digits_value, parse_i32,
    parse_unsigned, signed_parse_spec, split_chars, split_once, split_spec, string_from_chars,
    trim, trim_spec, unsigned_parse_spec, views, words, words_spec,
};

verus! {

// ---------------------------------------------------------------------------
// Coordinates

/// A position in thousandths of a second of arc, north and east positive.
#[derive(Clone, Copy, Debug, PartialEq, Eq, Structural)]
pub struct Coordinate {
    pub lat: i64,
    pub lng: i64,
}

/// Whether `s` is `lo` to `hi` decimal digits.
pub open spec fn digits_between(s: Seq<char>, lo: int, hi: int) -> bool {
    lo <= s.len() <= hi && all_radix_digits(s, 10)
}

/// Whether `c` names a hemisphere of latitude (`lat`) or of longitude.
pub open spec fn is_hemisphere(c: char, lat: bool) -> bool {
    if lat {
        c == 'N' || c == 'S' || c == 'n' || c == 's'
    } else {
        c == 'E' || c == 'W' || c == 'e' || c == 'w'
    }
}

/// Whether hemisphere `c` is the southern or the western one.
pub open spec fn is_negative_hemisphere(c: char) -> bool {
    c == 'S' || c == 's' || c == 'W' || c == 'w'
}

/// Thousandths of a second that one to three decimals of a second stand for.
pub open spec fn millis_of(f: Seq<char>) -> int {
    digits_value(f, 10) * pow10((3 - f.len()) as nat)
}

/// The value of fields `d.m.s[.f]` in thousandths of a second of arc.
pub open spec fn dms_value(fs: Seq<Seq<char>>) -> int {
    digits_value(fs[0], 10) * 3_600_000 + digits_value(fs[1], 10) * 60_000 + digits_value(
        fs[2],
        10,
    ) * 1000 + if fs.len() == 4 {
        millis_of(fs[3])
    } else {
        0
    }
}

/// Whether fields `d.m.s[.f]` have the digits that a coordinate part allows.
pub open spec fn dms_fields(fs: Seq<Seq<char>>) -> bool {
    &&& fs.len() == 3 || fs.len() == 4
    &&& digits_between(fs[0], 1, 3)
    &&& digits_between(fs[1], 1, 2)
    &&& digits_between(fs[2], 1, 2)
    &&& fs.len() == 4 ==> digits_between(fs[3], 1, 3)
}

/// A latitude (`lat`) or longitude word `Hddd.mm.ss.fff`, in thousandths of a
/// second of arc.
pub open spec fn coordinate_part(w: Seq<char>, lat: bool) -> Option<int> {
    if w.len() == 0 || !is_hemisphere(w[0], lat) {
        None
    } else {
        let fs = split_spec(w.drop_first(), '.');
        if dms_fields(fs) {
            if is_negative_hemisphere(w[0]) {
                Some(-dms_value(fs))
            } else {
                Some(dms_value(fs))
            }
        } else {
            None
        }
    }
}

/// Whether `w` is a latitude or a longitude word.
pub open spec fn is_coordinate_word(w: Seq<char>) -> bool {
    coordinate_part(w, true) is Some || coordinate_part(w, false) is Some
}

/// The coordinate of a latitude word and a longitude word.
pub open spec fn coordinate_of(lat: Seq<char>, lng: Seq<char>) -> Option<Coordinate> {
    match (coordinate_part(lat, true), coordinate_part(lng, false)) {
        (Some(a), Some(b)) => Some(Coordinate { lat: a as i64, lng: b as i64 }),
        _ => None,
    }
}

proof fn lemma_dms_bound(fs: Seq<Seq<char>>)
    requires
        dms_fields(fs),
    ensures
        0 <= dms_value(fs) < 4_000_000_000,
{
    crate::decimal::lemma_digits_bound(fs[0]);
    crate::decimal::lemma_digits_bound(fs[1]);
    crate::decimal::lemma_digits_bound(fs[2]);
    lemma_pow10_mono(fs[0].len(), 3);
    lemma_pow10_mono(fs[1].len(), 2);
    lemma_pow10_mono(fs[2].len(), 2);
    reveal_with_fuel(pow10, 4);
    if fs.len() == 4 {
        crate::decimal::lemma_digits_bound(fs[3]);
        lemma_pow10_mono(fs[3].len(), 3);
        lemma_pow10_mono((3 - fs[3].len()) as nat, 2);
        let d = digits_value(fs[3], 10);
        let p = pow10((3 - fs[3].len()) as nat);
        assert(pow10(fs[3].len()) * p == 1000) by {
            reveal_with_fuel(pow10, 4);
            if fs[3].len() == 1 {
                assert(pow10(1) == 10 && pow10(2) == 100);
            } else if fs[3].len() == 2 {
                assert(pow10(1) == 10 && pow10(2) == 100);
            } else {
                assert(pow10(3) == 1000 && pow10(0) == 1);
            }
        }
        assert(d * p < 1000) by (nonlinear_arith)
            requires
                0 <= d < pow10(fs[3].len()),
                1 <= p,
                pow10(fs[3].len()) * p == 1000,
        {
        }
    }
}

/// Reads a latitude (`lat`) or longitude word (see [`coordinate_part`]).
pub fn parse_coordinate_part(w: &[char], lat: bool) -> (r: Option<i64>)
    ensures
        match coordinate_part(w@, lat) {
            Some(v) => r == Some(v as i64),
            None => r is None,
        },
{
    if w.len() == 0 {
        return None;
    }
    let h = w[0];
    let hemi = if lat {
        h == 'N' || h == 'S' || h == 'n' || h == 's'
    } else {
        h == 'E' || h == 'W' || h == 'e' || h == 'w'
    };
    if !hemi {
        return None;
    }
    let rest = copy_range(w, 1, w.len());
    proof {
        assert(rest@ =~= w@.drop_first());
    }
    let fs = split_chars(rest.as_slice(), '.');
    let ghost fv = views(fs@);
    if fs.len() != 3 && fs.len() != 4 {
        return None;
    }
    proof {
        assert(fs@[0]@ == fv[0] && fs@[1]@ == fv[1] && fs@[2]@ == fv[2]);
    }
    if fs[0].len() < 1 || fs[0].len() > 3 || fs[1].len() < 1 || fs[1].len() > 2 || fs[2].len() < 1
        || fs[2].len() > 2 {
        return None;
    }
    let d = read_digits(fs[0].as_slice(), 0, fs[0].len());
    let m = read_digits(fs[1].as_slice(), 0, fs[1].len());
    let s = read_digits(fs[2].as_slice(), 0, fs[2].len());
    proof {
        assert(fs@[0]@.subrange(0, fs@[0]@.len() as int) =~= fv[0]);
        assert(fs@[1]@.subrange(0, fs@[1]@.len() as int) =~= fv[1]);
        assert(fs@[2]@.subrange(0, fs@[2]@.len() as int) =~= fv[2]);
    }
    let (d, m, s) = match (d, m, s) {
        (Some(d), Some(m), Some(s)) => (d, m, s),
        _ => {
            return None;
        },
    };
    let mut ms: u64 = 0;
    if fs.len() == 4 {
        proof {
            assert(fs@[3]@ == fv[3]);
            assert(fs@[3]@.subrange(0, fs@[3]@.len() as int) =~= fv[3]);
        }
        if fs[3].len() < 1 || fs[3].len() > 3 {
            return None;
        }
        match read_digits(fs[3].as_slice(), 0, fs[3].len()) {
            Some(f) => {
                proof {
                    reveal_with_fuel(pow10, 4);
                    lemma_pow10_mono(fv[3].len(), 3);
                }
                let scale: u64 = if fs[3].len() == 1 {
                    100
                } else if fs[3].len() == 2 {
                    10
                } else {
                    1
                };
                ms = f * scale;
            },
            None => {
                return None;
            },
        }
    }
    proof {
        assert(dms_fields(fv));
        lemma_dms_bound(fv);
        reveal_with_fuel(pow10, 4);
    }
    let mag: u64 = d * 3_600_000 + m * 60_000 + s * 1000 + ms;
    let v = mag as i64;
    if h == 'S' || h == 's' || h == 'W' || h == 'w' {
        Some(-v)
    } else {
        Some(v)
    }
}

/// Reads a coordinate from a latitude word and a longitude word.
pub fn parse_coordinate(lat: &[char], lng: &[char]) -> (r: Option<Coordinate>)
    ensures
        r == coordinate_of(lat@, lng@),
{
    match (parse_coordinate_part(lat, true), parse_coordinate_part(lng, false)) {
        (Some(a), Some(b)) => Some(Coordinate { lat: a, lng: b }),
        _ => None,
    }
}

// ---------------------------------------------------------------------------
// Locations and line segments

/// A point given by its coordinate, or by the name of a fix.
#[derive(Clone, Debug, PartialEq)]
pub enum Location {
    Fix(String),
    Coordinate(Coordinate),
}

/// A location as values.
pub enum LocationV {
    Fix(Seq<char>),
    Coordinate(Coordinate),
}

impl View for Location {
    type V = LocationV;

    open spec fn view(&self) -> LocationV {
        match self {
            Location::Fix(f) => LocationV::Fix(f@),
            Location::Coordinate(c) => LocationV::Coordinate(*c),
        }
    }
}

/// The location that two words give: a coordinate, or a fix name written twice.
pub open spec fn location_of(a: Seq<char>, b: Seq<char>) -> Option<LocationV> {
    match coordinate_of(a, b) {
        Some(c) => Some(LocationV::Coordinate(c)),
        None => if a == b && !is_coordinate_word(a) {
            Some(LocationV::Fix(a))
        } else {
            None
        },
    }
}

/// Reads a location from two words (see [`location_of`]).
pub fn parse_location(a: &[char], b: &[char]) -> (r: Option<Location>)
    ensures
        match location_of(a@, b@) {
            Some(l) => r matches Some(x) && x@ == l,
            None => r is None,
        },
{
    match parse_coordinate(a, b) {
        Some(c) => Some(Location::Coordinate(c)),
        None => {
            if chars_eq(a, b) && parse_coordinate_part(a, true).is_none() && parse_coordinate_part(
                a,
                false,
            ).is_none() {
                Some(Location::Fix(string_from_chars(a)))
            } else {
                None
            }
        },
    }
}

/// A line segment between two locations, with the name of its colour if one is
/// given.
#[derive(Clone, Debug)]
pub struct Line {
    pub start: Location,
    pub end: Location,
    pub colour: Option<String>,
}

/// A line segment as values.
pub struct LineV {
    pub start: LocationV,
    pub end: LocationV,
    pub colour: Option<Seq<char>>,
}

/// The text that an optional string holds.
pub open spec fn opt_view(o: Option<String>) -> Option<Seq<char>> {
    match o {
        Some(s) => Some(s@),
        None => None,
    }
}

impl View for Line {
    type V = LineV;

    open spec fn view(&self) -> LineV {
        LineV { start: self.start@, end: self.end@, colour: opt_view(self.colour) }
    }
}

/// The segment held by the words `ws[k..k + 4]`, coloured by `ws[k + 4]` when
/// `coloured`.
pub open spec fn segment_at(ws: Seq<Seq<char>>, k: int, coloured: bool) -> Option<LineV> {
    match (location_of(ws[k], ws[k + 1]), location_of(ws[k + 2], ws[k + 3])) {
        (Some(a), Some(b)) => Some(
            LineV {
                start: a,
                end: b,
                colour: if coloured {
                    Some(ws[k + 4])
                } else {
                    None
                },
            },
        ),
        _ => None,
    }
}

/// The segment that ends the words `ws`, with the number of words before it, which
/// must be at least `min_lead`: with a colour where the last word can be one (it is
/// no coordinate word and the four words before it are two locations), else
/// without.
pub open spec fn line_tail(ws: Seq<Seq<char>>, min_lead: int) -> Option<(int, LineV)> {
    let n = ws.len() as int;
    if n - 5 >= min_lead && !is_coordinate_word(ws[n - 1]) && segment_at(ws, n - 5, true) is Some {
        Some((n - 5, segment_at(ws, n - 5, true)->0))
    } else if n - 4 >= min_lead && segment_at(ws, n - 4, false) is Some {
        Some((n - 4, segment_at(ws, n - 4, false)->0))
    } else {
        None
    }
}

/// Reads the segment held by `ws[k..k + 4]` (see [`segment_at`]).
fn parse_segment_at(ws: &Vec<Vec<char>>, k: usize, coloured: bool) -> (r: Option<Line>)
    requires
        k + 4 <= ws@.len(),
        coloured ==> k + 5 <= ws@.len(),
    ensures
        match segment_at(views(ws@), k as int, coloured) {
            Some(l) => r matches Some(x) && x@ == l,
            None => r is None,
        },
{
    let ghost wv = views(ws@);
    let n = ws.len();
    assert(k + 4 <= n);
    proof {
        assert(wv[k as int] == ws@[k as int]@ && wv[k + 1] == ws@[k + 1]@);
        assert(wv[k + 2] == ws@[k + 2]@ && wv[k + 3] == ws@[k + 3]@);
    }
    let a = parse_location(ws[k].as_slice(), ws[k + 1].as_slice());
    let b = parse_location(ws[k + 2].as_slice(), ws[k + 3].as_slice());
    match (a, b) {
        (Some(a), Some(b)) => {
            let colour = if coloured {
                proof {
                    assert(wv[k + 4] == ws@[k + 4]@);
                }
                Some(string_from_chars(ws[k + 4].as_slice()))
            } else {
                None
            };
            Some(Line { start: a, end: b, colour })
        },
        _ => None,
    }
}

/// Reads the segment that ends `ws` (see [`line_tail`]).
pub fn parse_line_tail(ws: &Vec<Vec<char>>, min_lead: usize) -> (r: Option<(usize, Line)>)
    ensures
        match line_tail(views(ws@), min_lead as int) {
            Some((k, l)) => r matches Some((j, x)) && j == k && x@ == l,
            None => r is None,
        },
{
    let n = ws.len();
    let ghost wv = views(ws@);
    if n >= 5 && n - 5 >= min_lead {
        proof {
            assert(wv[n - 1] == ws@[n - 1]@);
        }
        let last = ws[n - 1].as_slice();
        if parse_coordinate_part(last, true).is_none() && parse_coordinate_part(last, false).is_none() {
            if let Some(l) = parse_segment_at(ws, n - 5, true) {
                return Some((n - 5, l));
            }
        }
    }
    if n >= 4 && n - 4 >= min_lead {
        if let Some(l) = parse_segment_at(ws, n - 4, false) {
            return Some((n - 4, l));
        }
    }
    None
}

// ---------------------------------------------------------------------------
// Words

/// `s` with every tab turned into a space.
pub open spec fn detab(s: Seq<char>) -> Seq<char> {
    s.map_values(|c: char| if c == '\t' { ' ' } else { c })
}

/// The words of a line, between spaces and tabs.
pub open spec fn blank_words(s: Seq<char>) -> Seq<Seq<char>> {
    words_spec(detab(s))
}

/// Splits a line into its words, between spaces and tabs.
pub fn blank_words_of(s: &[char]) -> (r: Vec<Vec<char>>)
    ensures
        views(r@) == blank_words(s@),
{
    let mut d: Vec<char> = Vec::new();
    let mut i: usize = 0;
    while i < s.len()
        invariant
            i <= s.len(),
            d@ == detab(s@.take(i as int)),
        decreases s.len() - i,
    {
        let c = s[i];
        d.push(if c == '\t' { ' ' } else { c });
        i = i + 1;
        proof {
            assert(d@ =~= detab(s@.take(i as int)));
        }
    }
    proof {
        assert(s@.take(s.len() as int) =~= s@);
    }
    words(d.as_slice())
}

/// Words joined by single spaces.
pub open spec fn join_words(ws: Seq<Seq<char>>) -> Seq<char>
    decreases ws.len(),
{
    if ws.len() == 0 {
        seq![]
    } else if ws.len() == 1 {
        ws[0]
    } else {
        join_words(ws.drop_last()) + seq![' '] + ws.last()
    }
}

/// Joins the first `k` words of `ws` with single spaces.
pub fn join_first_words(ws: &Vec<Vec<char>>, k: usize) -> (r: String)
    requires
        k <= ws@.len(),
    ensures
        r@ == join_words(views(ws@).take(k as int)),
{
    let ghost wv = views(ws@);
    let mut out: Vec<char> = Vec::new();
    let mut i: usize = 0;
    proof {
        assert(wv.take(0) =~= Seq::<Seq<char>>::empty());
    }
    while i < k
        invariant
            i <= k <= ws@.len(),
            wv == views(ws@),
            out@ == join_words(wv.take(i as int)),
        decreases k - i,
    {
        proof {
            assert(wv.take(i + 1).drop_last() =~= wv.take(i as int));
            assert(wv.take(i + 1).last() == ws@[i as int]@);
        }
        if i > 0 {
            out.push(' ');
        }
        let w = &ws[i];
        let mut j: usize = 0;
        let ghost base = out@;
        while j < w.len()
            invariant
                j <= w@.len(),
                out@ == base + w@.take(j as int),
            decreases w@.len() - j,
        {
            out.push(w[j]);
            j = j + 1;
            proof {
                assert(out@ =~= base + w@.take(j as int));
            }
        }
        proof {
            assert(w@.take(w@.len() as int) =~= w@);
            if i == 0 {
                assert(base =~= Seq::<char>::empty());
                assert(out@ =~= w@);
            }
        }
        i = i + 1;
    }
    string_from_chars(out.as_slice())
}

// ---------------------------------------------------------------------------
// Entries

/// An airport: its designator, reference point and airspace class.
#[derive(Debug)]
pub struct Airport {
    pub designator: String,
    pub coordinate: Coordinate,
    pub ctr_airspace: String,
}

pub struct AirportV {
    pub designator: Seq<char>,
    pub coordinate: Coordinate,
    pub ctr_airspace: Seq<char>,
}

impl View for Airport {
    type V = AirportV;

    open spec fn view(&self) -> AirportV {
        AirportV {
            designator: self.designator@,
            coordinate: self.coordinate,
            ctr_airspace: self.ctr_airspace@,
        }
    }
}

/// A named fix.
#[derive(Debug)]
pub struct Fix {
    pub designator: String,
    pub coordinate: Coordinate,
}

pub struct FixV {
    pub designator: Seq<char>,
    pub coordinate: Coordinate,
}

impl View for Fix {
    type V = FixV;

    open spec fn view(&self) -> FixV {
        FixV { designator: self.designator@, coordinate: self.coordinate }
    }
}

/// A radio beacon: its identifier, frequency (as written) and position.
#[derive(Debug)]
pub struct Beacon {
    pub designator: String,
    pub frequency: String,
    pub coordinate: Coordinate,
}

/// A non-directional beacon.
pub type NDB = Beacon;

/// A VHF omnidirectional range.
pub type VOR = Beacon;

pub struct BeaconV {
    pub designator: Seq<char>,
    pub frequency: Seq<char>,
    pub coordinate: Coordinate,
}

impl View for Beacon {
    type V = BeaconV;

    open spec fn view(&self) -> BeaconV {
        BeaconV {
            designator: self.designator@,
            frequency: self.frequency@,
            coordinate: self.coordinate,
        }
    }
}

/// A runway: the designators and headings of its two directions, its two ends, and
/// its airport.
#[derive(Debug)]
pub struct Runway {
    pub designators: (String, String),
    pub headings: (u32, u32),
    pub location: (Coordinate, Coordinate),
    pub aerodrome: String,
}

pub struct RunwayV {
    pub designators: (Seq<char>, Seq<char>),
    pub headings: (u32, u32),
    pub location: (Coordinate, Coordinate),
    pub aerodrome: Seq<char>,
}

impl View for Runway {
    type V = RunwayV;

    open spec fn view(&self) -> RunwayV {
        RunwayV {
            designators: (self.designators.0@, self.designators.1@),
            headings: self.headings,
            location: self.location,
            aerodrome: self.aerodrome@,
        }
    }
}

/// A segment of an airway.
#[derive(Debug)]
pub struct Airway {
    pub designator: String,
    pub start: Location,
    pub end: Location,
}

pub struct AirwayV {
    pub designator: Seq<char>,
    pub start: LocationV,
    pub end: LocationV,
}

impl View for Airway {
    type V = AirwayV;

    open spec fn view(&self) -> AirwayV {
        AirwayV { designator: self.designator@, start: self.start@, end: self.end@ }
    }
}

/// A filled region: its name, the name of its colour, and its outline.
#[derive(Debug)]
pub struct Region {
    pub name: String,
    pub colour_name: String,
    pub polygon: Vec<Coordinate>,
}

pub struct RegionV {
    pub name: Seq<char>,
    pub colour_name: Seq<char>,
    pub polygon: Seq<Coordinate>,
}

impl View for Region {
    type V = RegionV;

    open spec fn view(&self) -> RegionV {
        RegionV { name: self.name@, colour_name: self.colour_name@, polygon: self.polygon@ }
    }
}

/// Named line segments: a procedure, an airspace outline or a ground drawing.
#[derive(Debug)]
pub struct LineGroup {
    pub name: String,
    pub lines: Vec<Line>,
}

/// A departure procedure.
pub type Sid = LineGroup;

/// An arrival procedure.
pub type Star = LineGroup;

/// An airspace outline.
pub type Artcc = LineGroup;

/// A ground or landmark drawing.
pub type Geo = LineGroup;

pub struct LineGroupV {
    pub name: Seq<char>,
    pub lines: Seq<LineV>,
}

pub open spec fn line_views(ls: Seq<Line>) -> Seq<LineV> {
    ls.map_values(|l: Line| l@)
}

impl View for LineGroup {
    type V = LineGroupV;

    open spec fn view(&self) -> LineGroupV {
        LineGroupV { name: self.name@, lines: line_views(self.lines@) }
    }
}

/// The beacon that the words of a `[VOR]` or `[NDB]` line give.
pub open spec fn beacon_of(ws: Seq<Seq<char>>) -> Option<BeaconV> {
    if ws.len() == 4 && coordinate_of(ws[2], ws[3]) is Some {
        Some(
            BeaconV {
                designator: ws[0],
                frequency: ws[1],
                coordinate: coordinate_of(ws[2], ws[3])->0,
            },
        )
    } else {
        None
    }
}

/// The fix that the words of a `[FIXES]` line give.
pub open spec fn fix_of(ws: Seq<Seq<char>>) -> Option<FixV> {
    if ws.len() == 3 && coordinate_of(ws[1], ws[2]) is Some {
        Some(FixV { designator: ws[0], coordinate: coordinate_of(ws[1], ws[2])->0 })
    } else {
        None
    }
}

/// The airport that the words of an `[AIRPORT]` line give.
pub open spec fn airport_of(ws: Seq<Seq<char>>) -> Option<AirportV> {
    if ws.len() == 5 && coordinate_of(ws[2], ws[3]) is Some {
        Some(
            AirportV {
                designator: ws[0],
                coordinate: coordinate_of(ws[2], ws[3])->0,
                ctr_airspace: ws[4],
            },
        )
    } else {
        None
    }
}

/// The runway that the words of a `[RUNWAY]` line give.
pub open spec fn runway_of(ws: Seq<Seq<char>>) -> Option<RunwayV> {
    if ws.len() >= 9 {
        match (
            unsigned_parse_spec(ws[2], 10, 0xffff_ffff),
            unsigned_parse_spec(ws[3], 10, 0xffff_ffff),
            coordinate_of(ws[4], ws[5]),
            coordinate_of(ws[6], ws[7]),
        ) {
            (Some(h1), Some(h2), Some(a), Some(b)) => Some(
                RunwayV {
                    designators: (ws[0], ws[1]),
                    headings: (h1 as u32, h2 as u32),
                    location: (a, b),
                    aerodrome: ws[8],
                },
            ),
            _ => None,
        }
    } else {
        None
    }
}

/// The airway segment that the words of an airway line give.
pub open spec fn airway_of(ws: Seq<Seq<char>>) -> Option<AirwayV> {
    if ws.len() == 5 {
        match (location_of(ws[1], ws[2]), location_of(ws[3], ws[4])) {
            (Some(a), Some(b)) => Some(AirwayV { designator: ws[0], start: a, end: b }),
            _ => None,
        }
    } else {
        None
    }
}

/// Reads a `[VOR]` or `[NDB]` line's words (see [`beacon_of`]).
fn parse_beacon(ws: &Vec<Vec<char>>) -> (r: Option<Beacon>)
    ensures
        match beacon_of(views(ws@)) {
            Some(b) => r matches Some(x) && x@ == b,
            None => r is None,
        },
{
    if ws.len() != 4 {
        return None;
    }
    let ghost wv = views(ws@);
    proof {
        assert(wv[0] == ws@[0]@ && wv[1] == ws@[1]@ && wv[2] == ws@[2]@ && wv[3] == ws@[3]@);
    }
    match parse_coordinate(ws[2].as_slice(), ws[3].as_slice()) {
        Some(c) => Some(
            Beacon {
                designator: string_from_chars(ws[0].as_slice()),
                frequency: string_from_chars(ws[1].as_slice()),
                coordinate: c,
            },
        ),
        None => None,
    }
}

/// Reads a `[FIXES]` line's words (see [`fix_of`]).
fn parse_fix(ws: &Vec<Vec<char>>) -> (r: Option<Fix>)
    ensures
        match fix_of(views(ws@)) {
            Some(f) => r matches Some(x) && x@ == f,
            None => r is None,
        },
{
    if ws.len() != 3 {
        return None;
    }
    let ghost wv = views(ws@);
    proof {
        assert(wv[0] == ws@[0]@ && wv[1] == ws@[1]@ && wv[2] == ws@[2]@);
    }
    match parse_coordinate(ws[1].as_slice(), ws[2].as_slice()) {
        Some(c) => Some(Fix { designator: string_from_chars(ws[0].as_slice()), coordinate: c }),
        None => None,
    }
}

/// Reads an `[AIRPORT]` line's words (see [`airport_of`]).
fn parse_airport(ws: &Vec<Vec<char>>) -> (r: Option<Airport>)
    ensures
        match airport_of(views(ws@)) {
            Some(a) => r matches Some(x) && x@ == a,
            None => r is None,
        },
{
    if ws.len() != 5 {
        return None;
    }
    let ghost wv = views(ws@);
    proof {
        assert(wv[0] == ws@[0]@ && wv[2] == ws@[2]@ && wv[3] == ws@[3]@ && wv[4] == ws@[4]@);
    }
    match parse_coordinate(ws[2].as_slice(), ws[3].as_slice()) {
        Some(c) => Some(
            Airport {
                designator: string_from_chars(ws[0].as_slice()),
                coordinate: c,
                ctr_airspace: string_from_chars(ws[4].as_slice()),
            },
        ),
        None => None,
    }
}

/// Reads a `[RUNWAY]` line's words (see [`runway_of`]).
fn parse_runway(ws: &Vec<Vec<char>>) -> (r: Option<Runway>)
    ensures
        match runway_of(views(ws@)) {
            Some(a) => r matches Some(x) && x@ == a,
            None => r is None,
        },
{
    if ws.len() < 9 {
        return None;
    }
    let ghost wv = views(ws@);
    proof {
        assert(wv[0] == ws@[0]@ && wv[1] == ws@[1]@ && wv[2] == ws@[2]@ && wv[3] == ws@[3]@);
        assert(wv[4] == ws@[4]@ && wv[5] == ws@[5]@ && wv[6] == ws@[6]@ && wv[7] == ws@[7]@);
        assert(wv[8] == ws@[8]@);
        crate::text::lemma_unsigned_text_value_nonneg(wv[2], 10);
        crate::text::lemma_unsigned_text_value_nonneg(wv[3], 10);
    }
    let h1 = parse_unsigned(ws[2].as_slice(), 10, 0xffff_ffff);
    let h2 = parse_unsigned(ws[3].as_slice(), 10, 0xffff_ffff);
    let a = parse_coordinate(ws[4].as_slice(), ws[5].as_slice());
    let b = parse_coordinate(ws[6].as_slice(), ws[7].as_slice());
    match (h1, h2, a, b) {
        (Some(h1), Some(h2), Some(a), Some(b)) => Some(
            Runway {
                designators: (
                    string_from_chars(ws[0].as_slice()),
                    string_from_chars(ws[1].as_slice()),
                ),
                headings: (h1 as u32, h2 as u32),
                location: (a, b),
                aerodrome: string_from_chars(ws[8].as_slice()),
            },
        ),
        _ => None,
    }
}

/// Reads an airway line's words (see [`airway_of`]).
fn parse_airway(ws: &Vec<Vec<char>>) -> (r: Option<Airway>)
    ensures
        match airway_of(views(ws@)) {
            Some(a) => r matches Some(x) && x@ == a,
            None => r is None,
        },
{
    if ws.len() != 5 {
        return None;
    }
    let ghost wv = views(ws@);
    proof {
        assert(wv[0] == ws@[0]@ && wv[1] == ws@[1]@ && wv[2] == ws@[2]@ && wv[3] == ws@[3]@);
        assert(wv[4] == ws@[4]@);
    }
    let a = parse_location(ws[1].as_slice(), ws[2].as_slice());
    let b = parse_location(ws[3].as_slice(), ws[4].as_slice());
    match (a, b) {
        (Some(a), Some(b)) => Some(
            Airway { designator: string_from_chars(ws[0].as_slice()), start: a, end: b },
        ),
        _ => None,
    }
}

// ---------------------------------------------------------------------------
// Named line segments and regions

pub open spec fn group_views(gs: Seq<LineGroup>) -> Seq<LineGroupV> {
    gs.map_values(|g: LineGroup| g@)
}

/// What a line of a section of named line segments does to its entries: an
/// indented line adds its segment to the last entry, a line at the margin opens an
/// entry (see the module's documentation).
pub open spec fn group_step(gs: Seq<LineGroupV>, indented: bool, ws: Seq<Seq<char>>) -> Option<
    Seq<LineGroupV>,
> {
    if indented {
        match line_tail(ws, 0) {
            Some((k, l)) => if k == 0 && gs.len() > 0 {
                Some(
                    gs.update(
                        gs.len() - 1,
                        LineGroupV { name: gs.last().name, lines: gs.last().lines.push(l) },
                    ),
                )
            } else {
                None
            },
            None => None,
        }
    } else {
        match line_tail(ws, 1) {
            Some((k, l)) => Some(gs.push(LineGroupV { name: join_words(ws.take(k)), lines: seq![l] })),
            None => None,
        }
    }
}

/// Applies a line of a section of named line segments (see [`group_step`]); false
/// where the line is invalid.
fn add_group_line(gs: &mut Vec<LineGroup>, indented: bool, ws: &Vec<Vec<char>>) -> (ok: bool)
    ensures
        match group_step(group_views(old(gs)@), indented, views(ws@)) {
            Some(n) => ok && group_views(final(gs)@) == n,
            None => !ok,
        },
{
    let ghost old_v = group_views(gs@);
    if indented {
        match parse_line_tail(ws, 0) {
            Some((k, l)) => {
                if k != 0 || gs.len() == 0 {
                    return false;
                }
                let last = gs.len() - 1;
                let ghost lv = l@;
                let ghost before = line_views(gs@[last as int].lines@);
                let g = &mut gs[last];
                g.lines.push(l);
                proof {
                    assert(line_views(g.lines@) =~= before.push(lv));
                    assert(group_views(gs@) =~= old_v.update(
                        last as int,
                        LineGroupV { name: old_v.last().name, lines: old_v.last().lines.push(lv) },
                    ));
                }
                true
            },
            None => false,
        }
    } else {
        match parse_line_tail(ws, 1) {
            Some((k, l)) => {
                let name = join_first_words(ws, k);
                let ghost lv = l@;
                let mut lines: Vec<Line> = Vec::new();
                lines.push(l);
                gs.push(LineGroup { name, lines });
                proof {
                    assert(line_views(lines@) =~= seq![lv]);
                    assert(group_views(gs@) =~= old_v.push(
                        LineGroupV { name: join_words(views(ws@).take(k as int)), lines: seq![lv] },
                    ));
                }
                true
            },
            None => false,
        }
    }
}

pub open spec fn region_views(rs: Seq<Region>) -> Seq<RegionV> {
    rs.map_values(|r: Region| r@)
}

/// What a `[REGIONS]` line does to the regions, and whether the last region still
/// waits for its colour line afterwards (see the module's documentation).
pub open spec fn region_step(
    rs: Seq<RegionV>,
    awaiting: bool,
    indented: bool,
    ws: Seq<Seq<char>>,
) -> Option<(Seq<RegionV>, bool)> {
    let n = ws.len() as int;
    if indented {
        if n == 2 && coordinate_of(ws[0], ws[1]) is Some && rs.len() > 0 && !awaiting {
            let r = rs.last();
            Some(
                (
                    rs.update(
                        rs.len() - 1,
                        RegionV {
                            name: r.name,
                            colour_name: r.colour_name,
                            polygon: r.polygon.push(coordinate_of(ws[0], ws[1])->0),
                        },
                    ),
                    false,
                ),
            )
        } else {
            None
        }
    } else if n >= 1 && ws[0] == "REGIONNAME"@ {
        if awaiting {
            None
        } else {
            Some(
                (
                    rs.push(
                        RegionV { name: join_words(ws.drop_first()), colour_name: seq![], polygon: seq![] },
                    ),
                    true,
                ),
            )
        }
    } else if awaiting {
        if n == 3 && coordinate_of(ws[1], ws[2]) is Some && rs.len() > 0 {
            Some(
                (
                    rs.update(
                        rs.len() - 1,
                        RegionV {
                            name: rs.last().name,
                            colour_name: ws[0],
                            polygon: seq![coordinate_of(ws[1], ws[2])->0],
                        },
                    ),
                    false,
                ),
            )
        } else {
            None
        }
    } else if n >= 4 && coordinate_of(ws[n - 2], ws[n - 1]) is Some {
        Some(
            (
                rs.push(
                    RegionV {
                        name: join_words(ws.take(n - 3)),
                        colour_name: ws[n - 3],
                        polygon: seq![coordinate_of(ws[n - 2], ws[n - 1])->0],
                    },
                ),
                false,
            ),
        )
    } else {
        None
    }
}

/// Applies a `[REGIONS]` line (see [`region_step`]); false where the line is
/// invalid.
fn add_region_line(rs: &mut Vec<Region>, awaiting: &mut bool, indented: bool, ws: &Vec<Vec<char>>) -> (ok: bool)
    ensures
        match region_step(region_views(old(rs)@), *old(awaiting), indented, views(ws@)) {
            Some((n, a)) => ok && region_views(final(rs)@) == n && *final(awaiting) == a,
            None => !ok,
        },
        !ok ==> final(rs)@ == old(rs)@ && *final(awaiting) == *old(awaiting),
{
    let ghost old_v = region_views(rs@);
    let ghost wv = views(ws@);
    let n = ws.len();
    if indented {
        if n != 2 || rs.len() == 0 || *awaiting {
            return false;
        }
        proof {
            assert(wv[0] == ws@[0]@ && wv[1] == ws@[1]@);
        }
        match parse_coordinate(ws[0].as_slice(), ws[1].as_slice()) {
            Some(c) => {
                let last = rs.len() - 1;
                let r = &mut rs[last];
                r.polygon.push(c);
                *awaiting = false;
                proof {
                    assert(region_views(rs@) =~= old_v.update(
                        last as int,
                        RegionV {
                            name: old_v.last().name,
                            colour_name: old_v.last().colour_name,
                            polygon: old_v.last().polygon.push(c),
                        },
                    ));
                }
                true
            },
            None => false,
        }
    } else if n >= 1 && crate::text::chars_are(ws[0].as_slice(), "REGIONNAME") {
        proof {
            assert(wv[0] == ws@[0]@);
        }
        if *awaiting {
            return false;
        }
        let mut rest: Vec<Vec<char>> = Vec::new();
        let mut i: usize = 1;
        while i < n
            invariant
                1 <= i <= n,
                n == ws@.len(),
                wv == views(ws@),
                views(rest@) == wv.subrange(1, i as int),
            decreases n - i,
        {
            let ghost before = views(rest@);
            rest.push(copy_range(ws[i].as_slice(), 0, ws[i].len()));
            proof {
                assert(ws@[i as int]@.subrange(0, ws@[i as int]@.len() as int) =~= ws@[i as int]@);
                assert(wv[i as int] == ws@[i as int]@);
                assert(views(rest@) =~= before.push(wv[i as int]));
                assert(views(rest@) =~= wv.subrange(1, i + 1));
            }
            i = i + 1;
        }
        let name = join_first_words(&rest, rest.len());
        rs.push(Region { name, colour_name: String::new(), polygon: Vec::new() });
        *awaiting = true;
        proof {
            assert(views(rest@).take(rest@.len() as int) =~= wv.drop_first());
            assert(region_views(rs@) =~= old_v.push(
                RegionV { name: join_words(wv.drop_first()), colour_name: seq![], polygon: seq![] },
            ));
        }
        true
    } else if *awaiting {
        if n != 3 || rs.len() == 0 {
            return false;
        }
        proof {
            assert(wv[0] == ws@[0]@ && wv[1] == ws@[1]@ && wv[2] == ws@[2]@);
        }
        match parse_coordinate(ws[1].as_slice(), ws[2].as_slice()) {
            Some(c) => {
                let last = rs.len() - 1;
                let colour_name = string_from_chars(ws[0].as_slice());
                let r = &mut rs[last];
                r.colour_name = colour_name;
                let mut polygon: Vec<Coordinate> = Vec::new();
                polygon.push(c);
                r.polygon = polygon;
                *awaiting = false;
                proof {
                    assert(region_views(rs@) =~= old_v.update(
                        last as int,
                        RegionV { name: old_v.last().name, colour_name: wv[0], polygon: seq![c] },
                    ));
                }
                true
            },
            None => false,
        }
    } else {
        if n < 4 {
            return false;
        }
        proof {
            assert(wv[n - 2] == ws@[n - 2]@ && wv[n - 1] == ws@[n - 1]@ && wv[n - 3] == ws@[n - 3]@);
        }
        match parse_coordinate(ws[n - 2].as_slice(), ws[n - 1].as_slice()) {
            Some(c) => {
                let name = join_first_words(ws, n - 3);
                let colour_name = string_from_chars(ws[n - 3].as_slice());
                let mut polygon: Vec<Coordinate> = Vec::new();
                polygon.push(c);
                rs.push(Region { name, colour_name, polygon });
                *awaiting = false;
                proof {
                    assert(region_views(rs@) =~= old_v.push(
                        RegionV {
                            name: join_words(wv.take(n - 3)),
                            colour_name: wv[n - 3],
                            polygon: seq![c],
                        },
                    ));
                }
                true
            },
            None => false,
        }
    }
}

// ---------------------------------------------------------------------------
// The `[INFO]` section

/// The sector's description; the four numbers are kept in millionths.
#[derive(Debug)]
pub struct SctInfo {
    pub name: String,
    pub default_callsign: String,
    pub default_airport: String,
    pub centre_point: Coordinate,
    pub miles_per_deg_lat: i64,
    pub miles_per_deg_lng: i64,
    pub magnetic_variation: i64,
    pub scale_factor: i64,
}

pub struct SctInfoV {
    pub name: Seq<char>,
    pub default_callsign: Seq<char>,
    pub default_airport: Seq<char>,
    pub centre_point: Coordinate,
    pub miles_per_deg_lat: i64,
    pub miles_per_deg_lng: i64,
    pub magnetic_variation: i64,
    pub scale_factor: i64,
}

impl View for SctInfo {
    type V = SctInfoV;

    open spec fn view(&self) -> SctInfoV {
        SctInfoV {
            name: self.name@,
            default_callsign: self.default_callsign@,
            default_airport: self.default_airport@,
            centre_point: self.centre_point,
            miles_per_deg_lat: self.miles_per_deg_lat,
            miles_per_deg_lng: self.miles_per_deg_lng,
            magnetic_variation: self.magnetic_variation,
            scale_factor: self.scale_factor,
        }
    }
}

/// The description of a file without an `[INFO]` section: empty texts and zeros.
pub open spec fn default_info() -> SctInfoV {
    SctInfoV {
        name: seq![],
        default_callsign: seq![],
        default_airport: seq![],
        centre_point: Coordinate { lat: 0, lng: 0 },
        miles_per_deg_lat: 0,
        miles_per_deg_lng: 0,
        magnetic_variation: 0,
        scale_factor: 0,
    }
}

impl Default for SctInfo {
    fn default() -> (r: Self)
        ensures
            r@ == default_info(),
    {
        SctInfo {
            name: String::new(),
            default_callsign: String::new(),
            default_airport: String::new(),
            centre_point: Coordinate { lat: 0, lng: 0 },
            miles_per_deg_lat: 0,
            miles_per_deg_lng: 0,
            magnetic_variation: 0,
            scale_factor: 0,
        }
    }
}

/// What line `i` (from zero) of the `[INFO]` section, trimmed to `t`, sets.
pub open spec fn info_step(info: SctInfoV, i: int, t: Seq<char>) -> Option<SctInfoV> {
    if i == 0 {
        Some(SctInfoV { name: t, ..info })
    } else if i == 1 {
        Some(SctInfoV { default_callsign: t, ..info })
    } else if i == 2 {
        Some(SctInfoV { default_airport: t, ..info })
    } else if i == 3 {
        match coordinate_part(t, true) {
            Some(v) => Some(
                SctInfoV { centre_point: Coordinate { lat: v as i64, lng: info.centre_point.lng }, ..info },
            ),
            None => None,
        }
    } else if i == 4 {
        match coordinate_part(t, false) {
            Some(v) => Some(
                SctInfoV { centre_point: Coordinate { lat: info.centre_point.lat, lng: v as i64 }, ..info },
            ),
            None => None,
        }
    } else if 5 <= i <= 8 {
        match micro_value(t) {
            Some(v) => Some(
                if i == 5 {
                    SctInfoV { miles_per_deg_lat: v as i64, ..info }
                } else if i == 6 {
                    SctInfoV { miles_per_deg_lng: v as i64, ..info }
                } else if i == 7 {
                    SctInfoV { magnetic_variation: v as i64, ..info }
                } else {
                    SctInfoV { scale_factor: v as i64, ..info }
                },
            ),
            None => None,
        }
    } else {
        None
    }
}

/// Applies line `i` of the `[INFO]` section (see [`info_step`]); false where the
/// line is invalid.
fn read_info_line(info: &mut SctInfo, i: usize, t: &[char]) -> (ok: bool)
    ensures
        match info_step(old(info)@, i as int, t@) {
            Some(n) => ok && final(info)@ == n,
            None => !ok,
        },
{
    if i == 0 {
        info.name = string_from_chars(t);
        true
    } else if i == 1 {
        info.default_callsign = string_from_chars(t);
        true
    } else if i == 2 {
        info.default_airport = string_from_chars(t);
        true
    } else if i == 3 {
        match parse_coordinate_part(t, true) {
            Some(v) => {
                info.centre_point = Coordinate { lat: v, lng: info.centre_point.lng };
                true
            },
            None => false,
        }
    } else if i == 4 {
        match parse_coordinate_part(t, false) {
            Some(v) => {
                info.centre_point = Coordinate { lat: info.centre_point.lat, lng: v };
                true
            },
            None => false,
        }
    } else if i <= 8 {
        match parse_micro(t) {
            Some(v) => {
                if i == 5 {
                    info.miles_per_deg_lat = v;
                } else if i == 6 {
                    info.miles_per_deg_lng = v;
                } else if i == 7 {
                    info.magnetic_variation = v;
                } else {
                    info.scale_factor = v;
                }
                true
            },
            None => false,
        }
    } else {
        false
    }
}

// ---------------------------------------------------------------------------
// Sections

/// The section that lines belong to.
#[derive(Clone, Copy, Debug, PartialEq, Eq, Structural)]
pub enum SectionKind {
    /// before the first section
    Outside,
    Info,
    Vor,
    Ndb,
    Fixes,
    Airport,
    Runway,
    Sid,
    Star,
    ArtccHigh,
    Artcc,
    ArtccLow,
    Geo,
    Regions,
    HighAirway,
    LowAirway,
    /// a section that is passed over
    Other,
}

/// Whether `c` is `u`, or `u` is an upper-case ASCII letter and `c` its lower case.
pub open spec fn same_letter(c: char, u: char) -> bool {
    c == u || (65 <= u as u32 <= 90 && c as u32 == u as u32 + 32)
}

/// Whether `t` is the upper-case name `u` without regard to ASCII case.
pub open spec fn same_name(t: Seq<char>, u: Seq<char>) -> bool {
    t.len() == u.len() && forall|i: int| 0 <= i < t.len() ==> same_letter(#[trigger] t[i], u[i])
}

/// Compares `t` with the upper-case name `u` without regard to ASCII case.
pub fn same_name_as(t: &[char], u: &str) -> (r: bool)
    ensures
        r == same_name(t@, u@),
{
    let uc = crate::text::chars_of(u);
    if t.len() != uc.len() {
        return false;
    }
    let mut i: usize = 0;
    while i < t.len()
        invariant
            i <= t@.len(),
            t@.len() == uc@.len(),
            uc@ == u@,
            forall|j: int| 0 <= j < i ==> same_letter(#[trigger] t@[j], uc@[j]),
        decreases t@.len() - i,
    {
        let tc = t[i];
        let ucc = uc[i];
        if tc != ucc {
            let c = tc as u32;
            let d = ucc as u32;
            if !(65 <= d && d <= 90 && c == d + 32) {
                return false;
            }
        }
        i = i + 1;
    }
    true
}

/// The section that a header names.
pub open spec fn section_named(n: Seq<char>) -> SectionKind {
    if same_name(n, "INFO"@) {
        SectionKind::Info
    } else if same_name(n, "VOR"@) {
        SectionKind::Vor
    } else if same_name(n, "NDB"@) {
        SectionKind::Ndb
    } else if same_name(n, "FIXES"@) {
        SectionKind::Fixes
    } else if same_name(n, "AIRPORT"@) {
        SectionKind::Airport
    } else if same_name(n, "RUNWAY"@) {
        SectionKind::Runway
    } else if same_name(n, "SID"@) {
        SectionKind::Sid
    } else if same_name(n, "STAR"@) {
        SectionKind::Star
    } else if same_name(n, "ARTCC HIGH"@) {
        SectionKind::ArtccHigh
    } else if same_name(n, "ARTCC"@) {
        SectionKind::Artcc
    } else if same_name(n, "ARTCC LOW"@) {
        SectionKind::ArtccLow
    } else if same_name(n, "GEO"@) {
        SectionKind::Geo
    } else if same_name(n, "REGIONS"@) {
        SectionKind::Regions
    } else if same_name(n, "HIGH AIRWAY"@) {
        SectionKind::HighAirway
    } else if same_name(n, "LOW AIRWAY"@) {
        SectionKind::LowAirway
    } else {
        SectionKind::Other
    }
}

/// Finds the section that a header names (see [`section_named`]).
fn section_named_exec(n: &[char]) -> (k: SectionKind)
    ensures
        k == section_named(n@),
{
    if same_name_as(n, "INFO") {
        SectionKind::Info
    } else if same_name_as(n, "VOR") {
        SectionKind::Vor
    } else if same_name_as(n, "NDB") {
        SectionKind::Ndb
    } else if same_name_as(n, "FIXES") {
        SectionKind::Fixes
    } else if same_name_as(n, "AIRPORT") {
        SectionKind::Airport
    } else if same_name_as(n, "RUNWAY") {
        SectionKind::Runway
    } else if same_name_as(n, "SID") {
        SectionKind::Sid
    } else if same_name_as(n, "STAR") {
        SectionKind::Star
    } else if same_name_as(n, "ARTCC HIGH") {
        SectionKind::ArtccHigh
    } else if same_name_as(n, "ARTCC") {
        SectionKind::Artcc
    } else if same_name_as(n, "ARTCC LOW") {
        SectionKind::ArtccLow
    } else if same_name_as(n, "GEO") {
        SectionKind::Geo
    } else if same_name_as(n, "REGIONS") {
        SectionKind::Regions
    } else if same_name_as(n, "HIGH AIRWAY") {
        SectionKind::HighAirway
    } else if same_name_as(n, "LOW AIRWAY") {
        SectionKind::LowAirway
    } else {
        SectionKind::Other
    }
}

/// The section that a trimmed line `[NAME]` opens.
pub open spec fn header_of(t: Seq<char>) -> Option<SectionKind> {
    if t.len() >= 2 && t[0] == '[' && t.last() == ']' {
        Some(section_named(t.subrange(1, t.len() - 1)))
    } else {
        None
    }
}

// ---------------------------------------------------------------------------
// The file

/// The contents of a sector file, as values.
pub struct SctV {
    pub info: SctInfoV,
    pub colours: Seq<(Seq<char>, Colour)>,
    pub airports: Seq<AirportV>,
    pub fixes: Seq<FixV>,
    pub ndbs: Seq<BeaconV>,
    pub vors: Seq<BeaconV>,
    pub runways: Seq<RunwayV>,
    pub sids: Seq<LineGroupV>,
    pub stars: Seq<LineGroupV>,
    pub artccs_high: Seq<LineGroupV>,
    pub artccs: Seq<LineGroupV>,
    pub artccs_low: Seq<LineGroupV>,
    pub high_airways: Seq<AirwayV>,
    pub low_airways: Seq<AirwayV>,
    pub regions: Seq<RegionV>,
    pub geo: Seq<LineGroupV>,
}

/// The contents before any line is read.
pub open spec fn empty_sct() -> SctV {
    SctV {
        info: default_info(),
        colours: seq![],
        airports: seq![],
        fixes: seq![],
        ndbs: seq![],
        vors: seq![],
        runways: seq![],
        sids: seq![],
        stars: seq![],
        artccs_high: seq![],
        artccs: seq![],
        artccs_low: seq![],
        high_airways: seq![],
        low_airways: seq![],
        regions: seq![],
        geo: seq![],
    }
}

/// The contents once section `k` is opened: its list starts afresh.
pub open spec fn opened(v: SctV, k: SectionKind) -> SctV {
    match k {
        SectionKind::Info => SctV { info: default_info(), ..v },
        SectionKind::Vor => SctV { vors: seq![], ..v },
        SectionKind::Ndb => SctV { ndbs: seq![], ..v },
        SectionKind::Fixes => SctV { fixes: seq![], ..v },
        SectionKind::Airport => SctV { airports: seq![], ..v },
        SectionKind::Runway => SctV { runways: seq![], ..v },
        SectionKind::Sid => SctV { sids: seq![], ..v },
        SectionKind::Star => SctV { stars: seq![], ..v },
        SectionKind::ArtccHigh => SctV { artccs_high: seq![], ..v },
        SectionKind::Artcc => SctV { artccs: seq![], ..v },
        SectionKind::ArtccLow => SctV { artccs_low: seq![], ..v },
        SectionKind::Geo => SctV { geo: seq![], ..v },
        SectionKind::Regions => SctV { regions: seq![], ..v },
        SectionKind::HighAirway => SctV { high_airways: seq![], ..v },
        SectionKind::LowAirway => SctV { low_airways: seq![], ..v },
        _ => v,
    }
}

/// Where the reading stands: the open section, how many `[INFO]` lines were read,
/// and whether the last region waits for its colour line.
#[derive(Clone, Copy, Debug, PartialEq, Eq, Structural)]
pub struct ReadState {
    pub section: SectionKind,
    pub info_line: usize,
    pub awaiting_colour: bool,
}

/// What a line with words `ws`, trimmed to `t`, does within its section.
pub open spec fn section_line(
    v: SctV,
    st: ReadState,
    indented: bool,
    t: Seq<char>,
    ws: Seq<Seq<char>>,
) -> Option<(SctV, ReadState)> {
    match st.section {
        SectionKind::Outside => None,
        SectionKind::Other => Some((v, st)),
        SectionKind::Info => match info_step(v.info, st.info_line as int, t) {
            Some(i) => Some(
                (SctV { info: i, ..v }, ReadState { info_line: (st.info_line + 1) as usize, ..st }),
            ),
            None => None,
        },
        SectionKind::Vor => match beacon_of(ws) {
            Some(b) => Some((SctV { vors: v.vors.push(b), ..v }, st)),
            None => None,
        },
        SectionKind::Ndb => match beacon_of(ws) {
            Some(b) => Some((SctV { ndbs: v.ndbs.push(b), ..v }, st)),
            None => None,
        },
        SectionKind::Fixes => match fix_of(ws) {
            Some(f) => Some((SctV { fixes: v.fixes.push(f), ..v }, st)),
            None => None,
        },
        SectionKind::Airport => match airport_of(ws) {
            Some(a) => Some((SctV { airports: v.airports.push(a), ..v }, st)),
            None => None,
        },
        SectionKind::Runway => match runway_of(ws) {
            Some(r) => Some((SctV { runways: v.runways.push(r), ..v }, st)),
            None => None,
        },
        SectionKind::Sid => match group_step(v.sids, indented, ws) {
            Some(g) => Some((SctV { sids: g, ..v }, st)),
            None => None,
        },
        SectionKind::Star => match group_step(v.stars, indented, ws) {
            Some(g) => Some((SctV { stars: g, ..v }, st)),
            None => None,
        },
        SectionKind::ArtccHigh => match group_step(v.artccs_high, indented, ws) {
            Some(g) => Some((SctV { artccs_high: g, ..v }, st)),
            None => None,
        },
        SectionKind::Artcc => match group_step(v.artccs, indented, ws) {
            Some(g) => Some((SctV { artccs: g, ..v }, st)),
            None => None,
        },
        SectionKind::ArtccLow => match group_step(v.artccs_low, indented, ws) {
            Some(g) => Some((SctV { artccs_low: g, ..v }, st)),
            None => None,
        },
        SectionKind::Geo => match group_step(v.geo, indented, ws) {
            Some(g) => Some((SctV { geo: g, ..v }, st)),
            None => None,
        },
        SectionKind::Regions => match region_step(v.regions, st.awaiting_colour, indented, ws) {
            Some((r, a)) => Some((SctV { regions: r, ..v }, ReadState { awaiting_colour: a, ..st })),
            None => None,
        },
        SectionKind::HighAirway => match airway_of(ws) {
            Some(a) => Some((SctV { high_airways: v.high_airways.push(a), ..v }, st)),
            None => None,
        },
        SectionKind::LowAirway => match airway_of(ws) {
            Some(a) => Some((SctV { low_airways: v.low_airways.push(a), ..v }, st)),
            None => None,
        },
    }
}

/// Whether a line (without its comment) begins with a blank.
pub open spec fn is_indented(c: Seq<char>) -> bool {
    c.len() > 0 && (c[0] == ' ' || c[0] == '\t')
}

/// What one line does: nothing for a blank or comment line, a colour definition,
/// a section header, or a line of the open section; none for an invalid line.
pub open spec fn sct_line(v: SctV, st: ReadState, line: Seq<char>) -> Option<(SctV, ReadState)> {
    let c = before_first(line, ';');
    let ws = blank_words(c);
    if ws.len() == 0 {
        Some((v, st))
    } else if ws[0] == "#define"@ {
        if ws.len() == 3 {
            match signed_parse_spec(ws[2], 0x8000_0000, 0x7fff_ffff) {
                Some(n) => match euroscope_colour(n) {
                    Some(col) => Some((SctV { colours: v.colours.push((ws[1], col)), ..v }, st)),
                    None => Some((v, st)),
                },
                None => None,
            }
        } else {
            None
        }
    } else {
        let t = trim_spec(c);
        match header_of(t) {
            Some(k) => Some(
                (opened(v, k), ReadState { section: k, info_line: 0, awaiting_colour: false }),
            ),
            None => section_line(v, st, is_indented(c), t, ws),
        }
    }
}

/// The state before any line is read.
pub open spec fn initial_state() -> ReadState {
    ReadState { section: SectionKind::Outside, info_line: 0, awaiting_colour: false }
}

/// The contents that lines give, or the index of the first invalid line.
pub open spec fn sct_lines(lines: Seq<Seq<char>>) -> Result<(SctV, ReadState), nat>
    decreases lines.len(),
{
    if lines.len() == 0 {
        Ok((empty_sct(), initial_state()))
    } else {
        match sct_lines(lines.drop_last()) {
            Err(i) => Err(i),
            Ok((v, st)) => match sct_line(v, st, lines.last()) {
                Some(next) => Ok(next),
                None => Err((lines.len() - 1) as nat),
            },
        }
    }
}

/// The contents of a sector file's text, or the index of its first invalid line.
pub open spec fn sct_text(text: Seq<char>) -> Result<SctV, nat> {
    match sct_lines(crate::text::lines_spec(text)) {
        Ok((v, _)) => Ok(v),
        Err(i) => Err(i),
    }
}

/// A sector file's contents, each list in file order. Of colours defined more than
/// once, the last definition counts.
#[derive(Debug)]
pub struct Sct {
    pub info: SctInfo,
    pub colours: Vec<(String, Colour)>,
    pub airports: Vec<Airport>,
    pub fixes: Vec<Fix>,
    pub ndbs: Vec<NDB>,
    pub vors: Vec<VOR>,
    pub runways: Vec<Runway>,
    pub sids: Vec<Sid>,
    pub stars: Vec<Star>,
    pub artccs_high: Vec<Artcc>,
    pub artccs: Vec<Artcc>,
    pub artccs_low: Vec<Artcc>,
    pub high_airways: Vec<Airway>,
    pub low_airways: Vec<Airway>,
    pub regions: Vec<Region>,
    pub geo: Vec<Geo>,
}

pub open spec fn airport_views(s: Seq<Airport>) -> Seq<AirportV> {
    s.map_values(|a: Airport| a@)
}

pub open spec fn fix_views(s: Seq<Fix>) -> Seq<FixV> {
    s.map_values(|a: Fix| a@)
}

pub open spec fn beacon_views(s: Seq<Beacon>) -> Seq<BeaconV> {
    s.map_values(|a: Beacon| a@)
}

pub open spec fn runway_views(s: Seq<Runway>) -> Seq<RunwayV> {
    s.map_values(|a: Runway| a@)
}

pub open spec fn airway_views(s: Seq<Airway>) -> Seq<AirwayV> {
    s.map_values(|a: Airway| a@)
}

impl View for Sct {
    type V = SctV;

    open spec fn view(&self) -> SctV {
        SctV {
            info: self.info@,
            colours: colour_views(self.colours@),
            airports: airport_views(self.airports@),
            fixes: fix_views(self.fixes@),
            ndbs: beacon_views(self.ndbs@),
            vors: beacon_views(self.vors@),
            runways: runway_views(self.runways@),
            sids: group_views(self.sids@),
            stars: group_views(self.stars@),
            artccs_high: group_views(self.artccs_high@),
            artccs: group_views(self.artccs@),
            artccs_low: group_views(self.artccs_low@),
            high_airways: airway_views(self.high_airways@),
            low_airways: airway_views(self.low_airways@),
            regions: region_views(self.regions@),
            geo: group_views(self.geo@),
        }
    }
}

/// An error while reading a sector file.
#[derive(Debug, PartialEq, Eq, Structural)]
pub enum SctError {
    /// The line with this number, counted from one, is invalid.
    Parse { line: usize },
}

/// Pushes a beacon onto a list of beacons.
fn push_beacon(bs: &mut Vec<Beacon>, b: Beacon)
    ensures
        beacon_views(final(bs)@) == beacon_views(old(bs)@).push(b@),
{
    let ghost before = beacon_views(bs@);
    let ghost bv = b@;
    bs.push(b);
    proof {
        assert(beacon_views(bs@) =~= before.push(bv));
    }
}

/// Pushes an airway segment onto a list of segments.
fn push_airway(a: &mut Vec<Airway>, w: Airway)
    ensures
        airway_views(final(a)@) == airway_views(old(a)@).push(w@),
{
    let ghost before = airway_views(a@);
    let ghost wv = w@;
    a.push(w);
    proof {
        assert(airway_views(a@) =~= before.push(wv));
    }
}

impl Sct {
    /// The contents before any line is read.
    fn empty() -> (s: Self)
        ensures
            s@ == empty_sct(),
    {
        let s = Sct {
            info: SctInfo::default(),
            colours: Vec::new(),
            airports: Vec::new(),
            fixes: Vec::new(),
            ndbs: Vec::new(),
            vors: Vec::new(),
            runways: Vec::new(),
            sids: Vec::new(),
            stars: Vec::new(),
            artccs_high: Vec::new(),
            artccs: Vec::new(),
            artccs_low: Vec::new(),
            high_airways: Vec::new(),
            low_airways: Vec::new(),
            regions: Vec::new(),
            geo: Vec::new(),
        };
        proof {
            assert(s@.colours =~= Seq::<(Seq<char>, Colour)>::empty());
            assert(s@.airports =~= Seq::<AirportV>::empty());
            assert(s@.fixes =~= Seq::<FixV>::empty());
            assert(s@.ndbs =~= Seq::<BeaconV>::empty());
            assert(s@.vors =~= Seq::<BeaconV>::empty());
            assert(s@.runways =~= Seq::<RunwayV>::empty());
            assert(s@.sids =~= Seq::<LineGroupV>::empty());
            assert(s@.stars =~= Seq::<LineGroupV>::empty());
            assert(s@.artccs_high =~= Seq::<LineGroupV>::empty());
            assert(s@.artccs =~= Seq::<LineGroupV>::empty());
            assert(s@.artccs_low =~= Seq::<LineGroupV>::empty());
            assert(s@.high_airways =~= Seq::<AirwayV>::empty());
            assert(s@.low_airways =~= Seq::<AirwayV>::empty());
            assert(s@.regions =~= Seq::<RegionV>::empty());
            assert(s@.geo =~= Seq::<LineGroupV>::empty());
        }
        s
    }

    /// Opens section `k`: its list starts afresh (see [`opened`]).
    fn open_section(&mut self, k: SectionKind)
        ensures
            final(self)@ == opened(old(self)@, k),
    {
        match k {
            SectionKind::Info => {
                self.info = SctInfo::default();
            },
            SectionKind::Vor => {
                self.vors = Vec::new();
                proof {
                    assert(beacon_views(self.vors@) =~= Seq::<BeaconV>::empty());
                }
            },
            SectionKind::Ndb => {
                self.ndbs = Vec::new();
                proof {
                    assert(beacon_views(self.ndbs@) =~= Seq::<BeaconV>::empty());
                }
            },
            SectionKind::Fixes => {
                self.fixes = Vec::new();
                proof {
                    assert(fix_views(self.fixes@) =~= Seq::<FixV>::empty());
                }
            },
            SectionKind::Airport => {
                self.airports = Vec::new();
                proof {
                    assert(airport_views(self.airports@) =~= Seq::<AirportV>::empty());
                }
            },
            SectionKind::Runway => {
                self.runways = Vec::new();
                proof {
                    assert(runway_views(self.runways@) =~= Seq::<RunwayV>::empty());
                }
            },
            SectionKind::Sid => {
                self.sids = Vec::new();
                proof {
                    assert(group_views(self.sids@) =~= Seq::<LineGroupV>::empty());
                }
            },
            SectionKind::Star => {
                self.stars = Vec::new();
                proof {
                    assert(group_views(self.stars@) =~= Seq::<LineGroupV>::empty());
                }
            },
            SectionKind::ArtccHigh => {
                self.artccs_high = Vec::new();
                proof {
                    assert(group_views(self.artccs_high@) =~= Seq::<LineGroupV>::empty());
                }
            },
            SectionKind::Artcc => {
                self.artccs = Vec::new();
                proof {
                    assert(group_views(self.artccs@) =~= Seq::<LineGroupV>::empty());
                }
            },
            SectionKind::ArtccLow => {
                self.artccs_low = Vec::new();
                proof {
                    assert(group_views(self.artccs_low@) =~= Seq::<LineGroupV>::empty());
                }
            },
            SectionKind::Geo => {
                self.geo = Vec::new();
                proof {
                    assert(group_views(self.geo@) =~= Seq::<LineGroupV>::empty());
                }
            },
            SectionKind::Regions => {
                self.regions = Vec::new();
                proof {
                    assert(region_views(self.regions@) =~= Seq::<RegionV>::empty());
                }
            },
            SectionKind::HighAirway => {
                self.high_airways = Vec::new();
                proof {
                    assert(airway_views(self.high_airways@) =~= Seq::<AirwayV>::empty());
                }
            },
            SectionKind::LowAirway => {
                self.low_airways = Vec::new();
                proof {
                    assert(airway_views(self.low_airways@) =~= Seq::<AirwayV>::empty());
                }
            },
            _ => {},
        }
    }
}

impl Sct {
    /// Applies a line of the open section (see [`section_line`]); false where the
    /// line is invalid.
    fn read_section_line(
        &mut self,
        st: &mut ReadState,
        indented: bool,
        t: &[char],
        ws: &Vec<Vec<char>>,
    ) -> (ok: bool)
        requires
            old(st).awaiting_colour ==> old(self).regions@.len() > 0,
            old(st).info_line <= 9,
        ensures
            final(st).awaiting_colour ==> final(self).regions@.len() > 0,
            final(st).info_line <= 9,
            match section_line(old(self)@, *old(st), indented, t@, views(ws@)) {
                Some((v, s)) => ok && final(self)@ == v && *final(st) == s,
                None => !ok,
            },
    {
        match st.section {
            SectionKind::Outside => false,
            SectionKind::Other => true,
            SectionKind::Info => {
                if st.info_line >= 9 {
                    return false;
                }
                if read_info_line(&mut self.info, st.info_line, t) {
                    st.info_line = st.info_line + 1;
                    true
                } else {
                    false
                }
            },
            SectionKind::Vor => match parse_beacon(ws) {
                Some(b) => {
                    push_beacon(&mut self.vors, b);
                    true
                },
                None => false,
            },
            SectionKind::Ndb => match parse_beacon(ws) {
                Some(b) => {
                    push_beacon(&mut self.ndbs, b);
                    true
                },
                None => false,
            },
            SectionKind::Fixes => match parse_fix(ws) {
                Some(f) => {
                    let ghost before = fix_views(self.fixes@);
                    let ghost fv = f@;
                    self.fixes.push(f);
                    proof {
                        assert(fix_views(self.fixes@) =~= before.push(fv));
                    }
                    true
                },
                None => false,
            },
            SectionKind::Airport => match parse_airport(ws) {
                Some(a) => {
                    let ghost before = airport_views(self.airports@);
                    let ghost av = a@;
                    self.airports.push(a);
                    proof {
                        assert(airport_views(self.airports@) =~= before.push(av));
                    }
                    true
                },
                None => false,
            },
            SectionKind::Runway => match parse_runway(ws) {
                Some(r) => {
                    let ghost before = runway_views(self.runways@);
                    let ghost rv = r@;
                    self.runways.push(r);
                    proof {
                        assert(runway_views(self.runways@) =~= before.push(rv));
                    }
                    true
                },
                None => false,
            },
            SectionKind::Sid => add_group_line(&mut self.sids, indented, ws),
            SectionKind::Star => add_group_line(&mut self.stars, indented, ws),
            SectionKind::ArtccHigh => add_group_line(&mut self.artccs_high, indented, ws),
            SectionKind::Artcc => add_group_line(&mut self.artccs, indented, ws),
            SectionKind::ArtccLow => add_group_line(&mut self.artccs_low, indented, ws),
            SectionKind::Geo => add_group_line(&mut self.geo, indented, ws),
            SectionKind::Regions => {
                let mut awaiting = st.awaiting_colour;
                let ok = add_region_line(&mut self.regions, &mut awaiting, indented, ws);
                st.awaiting_colour = awaiting;
                proof {
                    if ok && awaiting {
                        assert(region_views(self.regions@).len() > 0);
                    }
                }
                ok
            },
            SectionKind::HighAirway => match parse_airway(ws) {
                Some(a) => {
                    push_airway(&mut self.high_airways, a);
                    true
                },
                None => false,
            },
            SectionKind::LowAirway => match parse_airway(ws) {
                Some(a) => {
                    push_airway(&mut self.low_airways, a);
                    true
                },
                None => false,
            },
        }
    }
}

impl Sct {
    /// Applies one line of the file (see [`sct_line`]); false where the line is
    /// invalid.
    fn read_line(&mut self, st: &mut ReadState, line: &[char]) -> (ok: bool)
        requires
            old(st).awaiting_colour ==> old(self).regions@.len() > 0,
            old(st).info_line <= 9,
        ensures
            final(st).awaiting_colour ==> final(self).regions@.len() > 0,
            final(st).info_line <= 9,
            match sct_line(old(self)@, *old(st), line@) {
                Some((v, s)) => ok && final(self)@ == v && *final(st) == s,
                None => !ok,
            },
    {
        let (c, _) = split_once(line, ';');
        let ws = blank_words_of(c.as_slice());
        let ghost wv = views(ws@);
        if ws.len() == 0 {
            return true;
        }
        proof {
            assert(wv[0] == ws@[0]@);
        }
        if crate::text::chars_are(ws[0].as_slice(), "#define") {
            if ws.len() != 3 {
                return false;
            }
            proof {
                assert(wv[1] == ws@[1]@ && wv[2] == ws@[2]@);
            }
            return match parse_i32(ws[2].as_slice()) {
                None => false,
                Some(n) => match Colour::from_euroscope(n) {
                    Ok(col) => {
                        let ghost before = colour_views(self.colours@);
                        let name = string_from_chars(ws[1].as_slice());
                        self.colours.push((name, col));
                        proof {
                            assert(colour_views(self.colours@) =~= before.push((wv[1], col)));
                        }
                        true
                    },
                    Err(_) => true,
                },
            };
        }
        let t = trim(c.as_slice());
        let tl = t.len();
        if tl >= 2 && t[0] == '[' && t[tl - 1] == ']' {
            let name = copy_range(t.as_slice(), 1, tl - 1);
            let k = section_named_exec(name.as_slice());
            self.open_section(k);
            *st = ReadState { section: k, info_line: 0, awaiting_colour: false };
            return true;
        }
        let indented = c.len() > 0 && (c[0] == ' ' || c[0] == '\t');
        self.read_section_line(st, indented, t.as_slice(), &ws)
    }
}

/// An invalid line stays the first invalid one however many lines follow.
proof fn lemma_sct_error_persists(lines: Seq<Seq<char>>, k: int)
    requires
        0 <= k <= lines.len(),
        sct_lines(lines.take(k)) is Err,
    ensures
        sct_lines(lines) == sct_lines(lines.take(k)),
    decreases lines.len() - k,
{
    if k < lines.len() {
        assert(lines.take(k + 1).drop_last() =~= lines.take(k));
        lemma_sct_error_persists(lines, k + 1);
    } else {
        assert(lines.take(k) =~= lines);
    }
}

impl Sct {
    /// Reads a sector file (see the module's documentation); an invalid line is
    /// reported by its number, counted from one.
    pub fn parse(content: &[u8]) -> (res: Result<Sct, SctError>)
        ensures
            match sct_text(crate::file_text(content@)) {
                Ok(v) => res matches Ok(s) && s@ == v,
                Err(i) => res == Err::<Sct, SctError>(SctError::Parse { line: (i + 1) as usize }),
            },
    {
        let text = crate::read_to_string(content);
        let chars = crate::text::chars_of(text.as_str());
        let lines = crate::text::lines_of(chars.as_slice());
        let ghost ls = crate::text::lines_spec(text@);
        let mut sct = Sct::empty();
        let mut st = ReadState { section: SectionKind::Outside, info_line: 0, awaiting_colour: false };
        proof {
            assert(ls.take(0) =~= Seq::<Seq<char>>::empty());
        }
        let mut i: usize = 0;
        while i < lines.len()
            invariant
                i <= lines@.len(),
                views(lines@) == ls,
                ls == crate::text::lines_spec(crate::file_text(content@)),
                sct_lines(ls.take(i as int)) == Ok::<(SctV, ReadState), nat>((sct@, st)),
                st.awaiting_colour ==> sct.regions@.len() > 0,
                st.info_line <= 9,
            decreases lines@.len() - i,
        {
            proof {
                assert(ls.take(i + 1).drop_last() =~= ls.take(i as int));
                assert(ls.take(i + 1).last() == lines@[i as int]@);
            }
            if !sct.read_line(&mut st, lines[i].as_slice()) {
                proof {
                    lemma_sct_error_persists(ls, i + 1);
                }
                return Err(SctError::Parse { line: i + 1 });
            }
            i = i + 1;
        }
        proof {
            assert(ls.take(lines@.len() as int) =~= ls);
        }
        Ok(sct)
    }
}

// ---------------------------------------------------------------------------
// Copies

fn copy_location(l: &Location) -> (r: Location)
    ensures
        r@ == l@,
{
    match l {
        Location::Fix(f) => Location::Fix(f.clone()),
        Location::Coordinate(c) => Location::Coordinate(*c),
    }
}

fn copy_line(l: &Line) -> (r: Line)
    ensures
        r@ == l@,
{
    Line {
        start: copy_location(&l.start),
        end: copy_location(&l.end),
        colour: crate::agreements::copy_opt(&l.colour),
    }
}

fn copy_group(g: &LineGroup) -> (r: LineGroup)
    ensures
        r@ == g@,
{
    LineGroup { name: g.name.clone(), lines: copy_lines(&g.lines) }
}

fn copy_airport(a: &Airport) -> (r: Airport)
    ensures
        r@ == a@,
{
    Airport { designator: a.designator.clone(), coordinate: a.coordinate, ctr_airspace: a.ctr_airspace.clone() }
}

/// A copy of a fix.
pub fn copy_fix(f: &Fix) -> (r: Fix)
    ensures
        r@ == f@,
{
    Fix { designator: f.designator.clone(), coordinate: f.coordinate }
}

fn copy_beacon(b: &Beacon) -> (r: Beacon)
    ensures
        r@ == b@,
{
    Beacon { designator: b.designator.clone(), frequency: b.frequency.clone(), coordinate: b.coordinate }
}

/// A copy of a runway.
pub fn copy_runway(r: &Runway) -> (o: Runway)
    ensures
        o@ == r@,
{
    Runway {
        designators: (r.designators.0.clone(), r.designators.1.clone()),
        headings: r.headings,
        location: r.location,
        aerodrome: r.aerodrome.clone(),
    }
}

fn copy_airway(a: &Airway) -> (r: Airway)
    ensures
        r@ == a@,
{
    Airway { designator: a.designator.clone(), start: copy_location(&a.start), end: copy_location(&a.end) }
}

fn copy_coordinates(v: &Vec<Coordinate>) -> (r: Vec<Coordinate>)
    ensures
        r@ == v@,
{
    let mut r: Vec<Coordinate> = Vec::new();
    let mut i: usize = 0;
    while i < v.len()
        invariant
            i <= v@.len(),
            r@ == v@.take(i as int),
        decreases v@.len() - i,
    {
        r.push(v[i]);
        proof {
            assert(v@.take(i + 1) =~= v@.take(i as int).push(v@[i as int]));
        }
        i = i + 1;
    }
    proof {
        assert(v@.take(v@.len() as int) =~= v@);
    }
    r
}

fn copy_region(r: &Region) -> (o: Region)
    ensures
        o@ == r@,
{
    Region { name: r.name.clone(), colour_name: r.colour_name.clone(), polygon: copy_coordinates(&r.polygon) }
}

fn copy_airports(v: &Vec<Airport>) -> (r: Vec<Airport>)
    ensures
        airport_views(r@) == airport_views(v@),
{
    let mut r: Vec<Airport> = Vec::new();
    let mut i: usize = 0;
    while i < v.len()
        invariant
            i <= v@.len(),
            airport_views(r@) == airport_views(v@).take(i as int),
        decreases v@.len() - i,
    {
        let x = copy_airport(&v[i]);
        let ghost before = airport_views(r@);
        let ghost xv = x@;
        r.push(x);
        proof {
            assert(airport_views(r@) =~= before.push(xv));
            assert(airport_views(v@).take(i + 1) =~= airport_views(v@).take(i as int).push(airport_views(v@)[i as int]));
        }
        i = i + 1;
    }
    proof {
        assert(airport_views(v@).take(v@.len() as int) =~= airport_views(v@));
    }
    r
}

fn copy_fixes(v: &Vec<Fix>) -> (r: Vec<Fix>)
    ensures
        fix_views(r@) == fix_views(v@),
{
    let mut r: Vec<Fix> = Vec::new();
    let mut i: usize = 0;
    while i < v.len()
        invariant
            i <= v@.len(),
            fix_views(r@) == fix_views(v@).take(i as int),
        decreases v@.len() - i,
    {
        let x = copy_fix(&v[i]);
        let ghost before = fix_views(r@);
        let ghost xv = x@;
        r.push(x);
        proof {
            assert(fix_views(r@) =~= before.push(xv));
            assert(fix_views(v@).take(i + 1) =~= fix_views(v@).take(i as int).push(fix_views(v@)[i as int]));
        }
        i = i + 1;
    }
    proof {
        assert(fix_views(v@).take(v@.len() as int) =~= fix_views(v@));
    }
    r
}

fn copy_beacons(v: &Vec<Beacon>) -> (r: Vec<Beacon>)
    ensures
        beacon_views(r@) == beacon_views(v@),
{
    let mut r: Vec<Beacon> = Vec::new();
    let mut i: usize = 0;
    while i < v.len()
        invariant
            i <= v@.len(),
            beacon_views(r@) == beacon_views(v@).take(i as int),
        decreases v@.len() - i,
    {
        let x = copy_beacon(&v[i]);
        let ghost before = beacon_views(r@);
        let ghost xv = x@;
        r.push(x);
        proof {
            assert(beacon_views(r@) =~= before.push(xv));
            assert(beacon_views(v@).take(i + 1) =~= beacon_views(v@).take(i as int).push(beacon_views(v@)[i as int]));
        }
        i = i + 1;
    }
    proof {
        assert(beacon_views(v@).take(v@.len() as int) =~= beacon_views(v@));
    }
    r
}

fn copy_runways(v: &Vec<Runway>) -> (r: Vec<Runway>)
    ensures
        runway_views(r@) == runway_views(v@),
{
    let mut r: Vec<Runway> = Vec::new();
    let mut i: usize = 0;
    while i < v.len()
        invariant
            i <= v@.len(),
            runway_views(r@) == runway_views(v@).take(i as int),
        decreases v@.len() - i,
    {
        let x = copy_runway(&v[i]);
        let ghost before = runway_views(r@);
        let ghost xv = x@;
        r.push(x);
        proof {
            assert(runway_views(r@) =~= before.push(xv));
            assert(runway_views(v@).take(i + 1) =~= runway_views(v@).take(i as int).push(runway_views(v@)[i as int]));
        }
        i = i + 1;
    }
    proof {
        assert(runway_views(v@).take(v@.len() as int) =~= runway_views(v@));
    }
    r
}

fn copy_groups(v: &Vec<LineGroup>) -> (r: Vec<LineGroup>)
    ensures
        group_views(r@) == group_views(v@),
{
    let mut r: Vec<LineGroup> = Vec::new();
    let mut i: usize = 0;
    while i < v.len()
        invariant
            i <= v@.len(),
            group_views(r@) == group_views(v@).take(i as int),
        decreases v@.len() - i,
    {
        let x = copy_group(&v[i]);
        let ghost before = group_views(r@);
        let ghost xv = x@;
        r.push(x);
        proof {
            assert(group_views(r@) =~= before.push(xv));
            assert(group_views(v@).take(i + 1) =~= group_views(v@).take(i as int).push(group_views(v@)[i as int]));
        }
        i = i + 1;
    }
    proof {
        assert(group_views(v@).take(v@.len() as int) =~= group_views(v@));
    }
    r
}

fn copy_airways(v: &Vec<Airway>) -> (r: Vec<Airway>)
    ensures
        airway_views(r@) == airway_views(v@),
{
    let mut r: Vec<Airway> = Vec::new();
    let mut i: usize = 0;
    while i < v.len()
        invariant
            i <= v@.len(),
            airway_views(r@) == airway_views(v@).take(i as int),
        decreases v@.len() - i,
    {
        let x = copy_airway(&v[i]);
        let ghost before = airway_views(r@);
        let ghost xv = x@;
        r.push(x);
        proof {
            assert(airway_views(r@) =~= before.push(xv));
            assert(airway_views(v@).take(i + 1) =~= airway_views(v@).take(i as int).push(airway_views(v@)[i as int]));
        }
        i = i + 1;
    }
    proof {
        assert(airway_views(v@).take(v@.len() as int) =~= airway_views(v@));
    }
    r
}

fn copy_regions(v: &Vec<Region>) -> (r: Vec<Region>)
    ensures
        region_views(r@) == region_views(v@),
{
    let mut r: Vec<Region> = Vec::new();
    let mut i: usize = 0;
    while i < v.len()
        invariant
            i <= v@.len(),
            region_views(r@) == region_views(v@).take(i as int),
        decreases v@.len() - i,
    {
        let x = copy_region(&v[i]);
        let ghost before = region_views(r@);
        let ghost xv = x@;
        r.push(x);
        proof {
            assert(region_views(r@) =~= before.push(xv));
            assert(region_views(v@).take(i + 1) =~= region_views(v@).take(i as int).push(region_views(v@)[i as int]));
        }
        i = i + 1;
    }
    proof {
        assert(region_views(v@).take(v@.len() as int) =~= region_views(v@));
    }
    r
}

fn copy_lines(v: &Vec<Line>) -> (r: Vec<Line>)
    ensures
        line_views(r@) == line_views(v@),
{
    let mut r: Vec<Line> = Vec::new();
    let mut i: usize = 0;
    while i < v.len()
        invariant
            i <= v@.len(),
            line_views(r@) == line_views(v@).take(i as int),
        decreases v@.len() - i,
    {
        let x = copy_line(&v[i]);
        let ghost before = line_views(r@);
        let ghost xv = x@;
        r.push(x);
        proof {
            assert(line_views(r@) =~= before.push(xv));
            assert(line_views(v@).take(i + 1) =~= line_views(v@).take(i as int).push(line_views(v@)[i as int]));
        }
        i = i + 1;
    }
    proof {
        assert(line_views(v@).take(v@.len() as int) =~= line_views(v@));
    }
    r
}

fn copy_colours(v: &Vec<(String, Colour)>) -> (r: Vec<(String, Colour)>)
    ensures
        colour_views(r@) == colour_views(v@),
{
    let mut r: Vec<(String, Colour)> = Vec::new();
    let mut i: usize = 0;
    while i < v.len()
        invariant
            i <= v@.len(),
            colour_views(r@) == colour_views(v@).take(i as int),
        decreases v@.len() - i,
    {
        let x = (v[i].0.clone(), v[i].1);
        let ghost before = colour_views(r@);
        let ghost xv = (x.0@, x.1);
        r.push(x);
        proof {
            assert(colour_views(r@) =~= before.push(xv));
            assert(colour_views(v@).take(i + 1) =~= colour_views(v@).take(i as int).push(colour_views(v@)[i as int]));
        }
        i = i + 1;
    }
    proof {
        assert(colour_views(v@).take(v@.len() as int) =~= colour_views(v@));
    }
    r
}

impl Sct {
    /// A copy of the sector file.
    pub fn copy(&self) -> (r: Sct)
        ensures
            r@ == self@,
    {
        let i = &self.info;
        let info = SctInfo {
            name: i.name.clone(),
            default_callsign: i.default_callsign.clone(),
            default_airport: i.default_airport.clone(),
            centre_point: i.centre_point,
            miles_per_deg_lat: i.miles_per_deg_lat,
            miles_per_deg_lng: i.miles_per_deg_lng,
            magnetic_variation: i.magnetic_variation,
            scale_factor: i.scale_factor,
        };
        Sct {
            info,
            colours: copy_colours(&self.colours),
            airports: copy_airports(&self.airports),
            fixes: copy_fixes(&self.fixes),
            ndbs: copy_beacons(&self.ndbs),
            vors: copy_beacons(&self.vors),
            runways: copy_runways(&self.runways),
            sids: copy_groups(&self.sids),
            stars: copy_groups(&self.stars),
            artccs_high: copy_groups(&self.artccs_high),
            artccs: copy_groups(&self.artccs),
            artccs_low: copy_groups(&self.artccs_low),
            high_airways: copy_airways(&self.high_airways),
            low_airways: copy_airways(&self.low_airways),
            regions: copy_regions(&self.regions),
            geo: copy_groups(&self.geo),
        }
    }
}

} // verus!
