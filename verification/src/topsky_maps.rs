//! TopSkyMaps.txt: the maps TopSky draws, with the colours, symbols and line styles
//! they use and the sector file maps they replace.
//!
//! The file is read line by line, each line without its surrounding blanks, and
//! split into fields at colons. Empty lines and lines starting with `//` are passed
//! over. At the top level stand:
//!
//! * `MAP:name`, which opens a map; the lines after it are its rules;
//! * `SYMBOLDEF:name`, which opens a symbol; the lines after it are its drawing
//!   rules (see [`crate::topsky_symbols`]);
//! * `COLORDEF:name:r:g:b`, with each component from 0 to 255;
//! * `LINESTYLE:name:brush:hatch:d1:d2...`, with the dash lengths decimal numbers;
//! * `OVERRIDE_SCT_MAP:folder` or `OVERRIDE_SCT_MAP:folder\name`;
//! * `SCTFILEPATH:...`, which is passed over.
//!
//! These last four close an open map or symbol. The rules of a map are:
//!
//! * `FOLDER:name`, `COLOR:name` (with up to two fill colours after it, passed
//!   over), `HIDDEN`, `GLOBAL`, `SCREEN-SPECIFIC`, `COORDLINE`, `COORDPOLY:fill`;
//! * `ASRDATA:*` or `ASRDATA:a,b,...`;
//! * `LAYER:n`, `ZOOM:n`, with decimal numbers;
//! * `FONTSIZE:0` for the default size, or `FONTSIZE:op:n` with `op` one of `=`,
//!   `+`, `-`, `*`;
//! * `STYLE:name` or `STYLE:name:width`;
//! * `ACTIVE:...` and `AND_ACTIVE:...`, when the map is shown: `1`; `SCHED:...`;
//!   `AUP:a,b,...`; `NOTAM:icao:text...`; `AREA:areas` or `AREA:areas:excluded`;
//!   `ID:own:excluded:online:excluded` and `CALLSIGN:` with the same four lists;
//!   `RWY:ARR:runways:DEP:runways` or
//!   `RWY:ARR:runways:excluded:DEP:runways:excluded`; `MAP:op:folder:name` with
//!   `op` `=` (shown with that map) or `!` (shown while it is not). A list is `*`
//!   (no condition) or names separated by commas; a runway is written as the four
//!   letters of its aerodrome followed by its designator;
//! * `LINE:from:to`, `TEXT:at:text`, `SYMBOL:name:at` or
//!   `SYMBOL:name:at:label:dx:dy`, `COORD:at`, where a place is a fix name in one
//!   field or a latitude and a longitude in two, both as decimal degrees or both as
//!   sector file coordinates (`N048.21.03.000`). Decimal degrees are read to a
//!   millionth of a degree and kept, as all coordinates, in thousandths of a second
//!   of arc, rounded to the nearest (halves away from zero). Consecutive `LINE`s
//!   that continue where the last one ended form one polyline;
//! * `CIRCLE`, `FONTSTYLE`, `TEXTALIGN`, `SCTDATA`, `SCTFILEDATA`, which are passed
//!   over.
//!
//! Any other line, a map rule with no map open, and a drawing rule with no symbol
//! open make the file invalid. Decimal numbers other than coordinates are kept in
//! millionths.
use vstd::prelude::*;

use crate::colours::{rgb, Colour};
use crate::decimal::{micro_value, parse_micro};
use crate::ese::string_views;
use crate::maps::{
    Active, ActiveAreas, ActiveIds, ActiveMapOperator, ActiveRunways, ActiveV, Alignment,
    LineStyle, LineStyleV, OverrideSct, Runway, RunwayV,
};
use crate::sct::{coordinate_of, parse_coordinate, Coordinate, Location, LocationV};
use crate::text::{
    chars_are, chars_eq, chars_start_with, copy_range, lines_spec, parse_unsigned, split_chars,
    split_spec, starts_with, string_from_chars, trim, trim_spec, unsigned_parse_spec, views,
};

verus! {

/// A colour definition of TopSkyMaps.txt (`COLORDEF`): a name and a colour.
pub type ColorDef = crate::topsky_settings::ColourDef;

// ---------------------------------------------------------------------------
// Lists

/// A list of names: `*` sets no condition, else the names separated by commas.
pub open spec fn names_of(w: Seq<char>) -> Option<Seq<Seq<char>>> {
    if w == "*"@ {
        None
    } else {
        Some(split_spec(w, ','))
    }
}

/// Copies words into strings.
fn strings_of(ws: &Vec<Vec<char>>) -> (r: Vec<String>)
    ensures
        string_views(r@) == views(ws@),
{
    let mut r: Vec<String> = Vec::new();
    let mut i: usize = 0;
    while i < ws.len()
        invariant
            i <= ws@.len(),
            string_views(r@) == views(ws@).take(i as int),
        decreases ws@.len() - i,
    {
        let s = string_from_chars(ws[i].as_slice());
        let ghost before = string_views(r@);
        r.push(s);
        proof {
            assert(string_views(r@) =~= before.push(s@));
            assert(views(ws@).take(i + 1) =~= views(ws@).take(i as int).push(ws@[i as int]@));
        }
        i = i + 1;
    }
    proof {
        assert(views(ws@).take(ws@.len() as int) =~= views(ws@));
    }
    r
}

/// The names separated by commas in `w`.
fn comma_list(w: &[char]) -> (r: Vec<String>)
    ensures
        string_views(r@) == split_spec(w@, ','),
{
    let parts = split_chars(w, ',');
    strings_of(&parts)
}

/// Reads a list of names (see [`names_of`]).
fn parse_names(w: &[char]) -> (r: Option<Vec<String>>)
    ensures
        crate::maps::names_view(r) == names_of(w@),
{
    if chars_are(w, "*") {
        None
    } else {
        Some(comma_list(w))
    }
}

/// A runway written as the four letters of its aerodrome and its designator.
pub open spec fn runway_of(w: Seq<char>) -> RunwayV {
    RunwayV { icao: w.take(4), designator: w.skip(4) }
}

/// A list of runways: `*` sets no condition; otherwise each runway, separated by
/// commas, must be longer than four characters (outer none: invalid).
pub open spec fn runways_of(w: Seq<char>) -> Option<Option<Seq<RunwayV>>> {
    if w == "*"@ {
        Some(None)
    } else {
        let ws = split_spec(w, ',');
        if forall|k: int| 0 <= k < ws.len() ==> (#[trigger] ws[k]).len() > 4 {
            Some(Some(ws.map_values(|x: Seq<char>| runway_of(x))))
        } else {
            None
        }
    }
}

/// Reads a list of runways (see [`runways_of`]).
fn parse_runways(w: &[char]) -> (r: Option<Option<Vec<Runway>>>)
    ensures
        match runways_of(w@) {
            None => r is None,
            Some(v) => r matches Some(x) && crate::maps::runways_view(x) == v,
        },
{
    if chars_are(w, "*") {
        return Some(None);
    }
    let parts = split_chars(w, ',');
    let ghost ws = split_spec(w@, ',');
    proof {
        assert(views(parts@) == ws);
    }
    let mut out: Vec<Runway> = Vec::new();
    let mut i: usize = 0;
    while i < parts.len()
        invariant
            i <= parts@.len(),
            views(parts@) == ws,
            ws == split_spec(w@, ','),
            w@ != "*"@,
            forall|k: int| 0 <= k < i ==> (#[trigger] ws[k]).len() > 4,
            out@.map_values(|x: Runway| x@) == ws.take(i as int).map_values(
                |x: Seq<char>| runway_of(x),
            ),
        decreases parts@.len() - i,
    {
        let p = parts[i].as_slice();
        proof {
            assert(p@ == ws[i as int]);
        }
        if p.len() <= 4 {
            proof {
                assert(i < ws.len());
                assert(!(ws[i as int].len() > 4));
                assert(w@ != "*"@);
                assert(!(forall|k: int| 0 <= k < ws.len() ==> (#[trigger] ws[k]).len() > 4));
                assert(runways_of(w@) is None);
            }
            return None;
        }
        let icao = string_from_chars(&copy_range(p, 0, 4));
        let designator = string_from_chars(&copy_range(p, 4, p.len()));
        let x = Runway { icao, designator };
        let ghost before = out@.map_values(|x: Runway| x@);
        out.push(x);
        proof {
            assert(x@.icao =~= p@.take(4));
            assert(x@.designator =~= p@.skip(4));
            assert(out@.map_values(|x: Runway| x@) =~= before.push(x@));
            assert(ws.take(i + 1).map_values(|x: Seq<char>| runway_of(x)) =~= ws.take(
                i as int,
            ).map_values(|x: Seq<char>| runway_of(x)).push(runway_of(ws[i as int])));
        }
        i = i + 1;
    }
    proof {
        assert(ws.take(ws.len() as int) =~= ws);
    }
    Some(Some(out))
}

// ---------------------------------------------------------------------------
// When a map is shown

/// The four lists of an `ID` or `CALLSIGN` condition.
pub open spec fn ids_of(fs: Seq<Seq<char>>) -> crate::maps::ActiveIdsV {
    crate::maps::ActiveIdsV {
        own: names_of(fs[1]),
        own_excludes: names_of(fs[2]),
        online: names_of(fs[3]),
        online_excludes: names_of(fs[4]),
    }
}

/// The condition that the fields after `ACTIVE` or `AND_ACTIVE` give (see the
/// module's documentation).
pub open spec fn active_of(fs: Seq<Seq<char>>) -> Option<ActiveV> {
    let n = fs.len();
    if n == 0 {
        None
    } else if n == 1 && fs[0] == "1"@ {
        Some(ActiveV::True)
    } else if fs[0] == "SCHED"@ {
        Some(ActiveV::Schedule)
    } else if fs[0] == "AUP"@ && n == 2 {
        Some(ActiveV::Aup(split_spec(fs[1], ',')))
    } else if fs[0] == "NOTAM"@ && n >= 2 {
        Some(ActiveV::Notam(fs[1], fs.skip(2)))
    } else if fs[0] == "AREA"@ && n == 2 {
        Some(
            ActiveV::Area(
                crate::maps::ActiveAreasV { areas: split_spec(fs[1], ','), area_excludes: None },
            ),
        )
    } else if fs[0] == "AREA"@ && n == 3 {
        Some(
            ActiveV::Area(
                crate::maps::ActiveAreasV {
                    areas: split_spec(fs[1], ','),
                    area_excludes: Some(split_spec(fs[2], ',')),
                },
            ),
        )
    } else if fs[0] == "ID"@ && n == 5 {
        Some(ActiveV::Id(ids_of(fs)))
    } else if fs[0] == "CALLSIGN"@ && n == 5 {
        Some(ActiveV::Callsign(ids_of(fs)))
    } else if fs[0] == "RWY"@ && n == 5 && fs[1] == "ARR"@ && fs[3] == "DEP"@ {
        match (runways_of(fs[2]), runways_of(fs[4])) {
            (Some(a), Some(d)) => Some(
                ActiveV::Runway(
                    crate::maps::ActiveRunwaysV {
                        arrival: a,
                        arrival_excludes: None,
                        departure: d,
                        departure_excludes: None,
                    },
                ),
            ),
            _ => None,
        }
    } else if fs[0] == "RWY"@ && n == 7 && fs[1] == "ARR"@ && fs[4] == "DEP"@ {
        match (runways_of(fs[2]), runways_of(fs[3]), runways_of(fs[5]), runways_of(fs[6])) {
            (Some(a), Some(ae), Some(d), Some(de)) => Some(
                ActiveV::Runway(
                    crate::maps::ActiveRunwaysV {
                        arrival: a,
                        arrival_excludes: ae,
                        departure: d,
                        departure_excludes: de,
                    },
                ),
            ),
            _ => None,
        }
    } else if fs[0] == "MAP"@ && n == 4 && fs[1] == "="@ {
        Some(ActiveV::MapState(ActiveMapOperator::Same, fs[2], fs[3]))
    } else if fs[0] == "MAP"@ && n == 4 && fs[1] == "!"@ {
        Some(ActiveV::MapState(ActiveMapOperator::Opposite, fs[2], fs[3]))
    } else {
        None
    }
}

/// The four lists of an `ID` or `CALLSIGN` condition, read from fields `from + 1`
/// to `from + 4`.
fn parse_ids(fs: &Vec<Vec<char>>, from: usize) -> (r: ActiveIds)
    requires
        from + 5 <= fs@.len(),
    ensures
        r@ == ids_of(views(fs@).skip(from as int)),
{
    let ghost v = views(fs@).skip(from as int);
    let len = fs.len();
    proof {
        assert(from + 5 <= len);
        assert(v[1] == fs@[from + 1]@);
        assert(v[2] == fs@[from + 2]@);
        assert(v[3] == fs@[from + 3]@);
        assert(v[4] == fs@[from + 4]@);
    }
    ActiveIds {
        own: parse_names(fs[from + 1].as_slice()),
        own_excludes: parse_names(fs[from + 2].as_slice()),
        online: parse_names(fs[from + 3].as_slice()),
        online_excludes: parse_names(fs[from + 4].as_slice()),
    }
}

/// Reads the condition of the fields from position `from` on (see [`active_of`]).
fn parse_active(fs: &Vec<Vec<char>>, from: usize) -> (r: Option<Active>)
    requires
        from <= fs@.len(),
    ensures
        match active_of(views(fs@).skip(from as int)) {
            None => r is None,
            Some(a) => r matches Some(x) && x@ == a,
        },
{
    let ghost v = views(fs@).skip(from as int);
    let n = fs.len() - from;
    if n == 0 {
        return None;
    }
    let k = fs[from].as_slice();
    proof {
        assert(k@ == v[0]);
        assert(forall|j: int| 0 <= j < n ==> #[trigger] v[j] == fs@[from + j]@);
    }
    if n == 1 && chars_are(k, "1") {
        return Some(Active::True);
    }
    if chars_are(k, "SCHED") {
        return Some(Active::Schedule);
    }
    if chars_are(k, "AUP") && n == 2 {
        return Some(Active::Aup(comma_list(fs[from + 1].as_slice())));
    }
    if chars_are(k, "NOTAM") && n >= 2 {
        let mut rest: Vec<String> = Vec::new();
        let mut i: usize = from + 2;
        while i < fs.len()
            invariant
                from + 2 <= i <= fs@.len(),
                v == views(fs@).skip(from as int),
                string_views(rest@) == v.skip(2).take(i - from - 2),
            decreases fs@.len() - i,
        {
            let s = string_from_chars(fs[i].as_slice());
            let ghost before = string_views(rest@);
            rest.push(s);
            proof {
                assert(string_views(rest@) =~= before.push(s@));
                assert(v.skip(2).take(i + 1 - from - 2) =~= v.skip(2).take(i - from - 2).push(
                    fs@[i as int]@,
                ));
            }
            i = i + 1;
        }
        proof {
            assert(v.skip(2).take(fs@.len() - from - 2) =~= v.skip(2));
        }
        return Some(Active::Notam(string_from_chars(fs[from + 1].as_slice()), rest));
    }
    if chars_are(k, "AREA") && n == 2 {
        return Some(
            Active::Area(ActiveAreas { areas: comma_list(fs[from + 1].as_slice()), area_excludes: None }),
        );
    }
    if chars_are(k, "AREA") && n == 3 {
        return Some(
            Active::Area(
                ActiveAreas {
                    areas: comma_list(fs[from + 1].as_slice()),
                    area_excludes: Some(comma_list(fs[from + 2].as_slice())),
                },
            ),
        );
    }
    if chars_are(k, "ID") && n == 5 {
        return Some(Active::Id(parse_ids(fs, from)));
    }
    if chars_are(k, "CALLSIGN") && n == 5 {
        return Some(Active::Callsign(parse_ids(fs, from)));
    }
    if chars_are(k, "RWY") && n == 5 && chars_are(fs[from + 1].as_slice(), "ARR") && chars_are(
        fs[from + 3].as_slice(),
        "DEP",
    ) {
        let a = parse_runways(fs[from + 2].as_slice());
        let d = parse_runways(fs[from + 4].as_slice());
        return match (a, d) {
            (Some(a), Some(d)) => Some(
                Active::Runway(
                    ActiveRunways {
                        arrival: a,
                        arrival_excludes: None,
                        departure: d,
                        departure_excludes: None,
                    },
                ),
            ),
            _ => None,
        };
    }
    if chars_are(k, "RWY") && n == 7 && chars_are(fs[from + 1].as_slice(), "ARR") && chars_are(
        fs[from + 4].as_slice(),
        "DEP",
    ) {
        let a = parse_runways(fs[from + 2].as_slice());
        let ae = parse_runways(fs[from + 3].as_slice());
        let d = parse_runways(fs[from + 5].as_slice());
        let de = parse_runways(fs[from + 6].as_slice());
        return match (a, ae, d, de) {
            (Some(a), Some(ae), Some(d), Some(de)) => Some(
                Active::Runway(
                    ActiveRunways {
                        arrival: a,
                        arrival_excludes: ae,
                        departure: d,
                        departure_excludes: de,
                    },
                ),
            ),
            _ => None,
        };
    }
    if chars_are(k, "MAP") && n == 4 && chars_are(fs[from + 1].as_slice(), "=") {
        return Some(
            Active::MapState(
                ActiveMapOperator::Same,
                string_from_chars(fs[from + 2].as_slice()),
                string_from_chars(fs[from + 3].as_slice()),
            ),
        );
    }
    if chars_are(k, "MAP") && n == 4 && chars_are(fs[from + 1].as_slice(), "!") {
        return Some(
            Active::MapState(
                ActiveMapOperator::Opposite,
                string_from_chars(fs[from + 2].as_slice()),
                string_from_chars(fs[from + 3].as_slice()),
            ),
        );
    }
    None
}

// ---------------------------------------------------------------------------
// Places

/// Decimal degrees, given in millionths, in thousandths of a second of arc: times
/// 3.6, rounded to the nearest with halves away from zero.
pub open spec fn micro_degrees_to_mas(v: int) -> int {
    if v >= 0 {
        (v * 36 + 5) / 10
    } else {
        -(((-v) * 36 + 5) / 10)
    }
}

/// The coordinate of a latitude and a longitude field: both in the sector file
/// form, or both decimal degrees.
pub open spec fn topsky_coordinate(lat: Seq<char>, lng: Seq<char>) -> Option<Coordinate> {
    match coordinate_of(lat, lng) {
        Some(c) => Some(c),
        None => match (micro_value(lat), micro_value(lng)) {
            (Some(a), Some(b)) => Some(
                Coordinate {
                    lat: micro_degrees_to_mas(a) as i64,
                    lng: micro_degrees_to_mas(b) as i64,
                },
            ),
            _ => None,
        },
    }
}

fn mas_of_micro_degrees(v: i64) -> (r: i64)
    requires
        -1_000_000_000_000_000 <= v <= 1_000_000_000_000_000,
    ensures
        r == micro_degrees_to_mas(v as int),
{
    if v >= 0 {
        (v * 36 + 5) / 10
    } else {
        -(((-v) * 36 + 5) / 10)
    }
}

/// Reads a coordinate (see [`topsky_coordinate`]).
fn parse_topsky_coordinate(lat: &[char], lng: &[char]) -> (r: Option<Coordinate>)
    ensures
        r == topsky_coordinate(lat@, lng@),
{
    if let Some(c) = parse_coordinate(lat, lng) {
        return Some(c);
    }
    match (parse_micro(lat), parse_micro(lng)) {
        (Some(a), Some(b)) => {
            proof {
                crate::decimal::lemma_micro_value_bound(lat@);
                crate::decimal::lemma_micro_value_bound(lng@);
            }
            Some(Coordinate { lat: mas_of_micro_degrees(a), lng: mas_of_micro_degrees(b) })
        },
        _ => None,
    }
}

/// The place at the start of fields `fs` and how many fields it takes: a
/// coordinate in two fields, else a fix name (not empty) in one.
pub open spec fn lead_location(fs: Seq<Seq<char>>) -> Option<(LocationV, int)> {
    if fs.len() >= 2 && topsky_coordinate(fs[0], fs[1]) is Some {
        Some((LocationV::Coordinate(topsky_coordinate(fs[0], fs[1]).unwrap()), 2))
    } else if fs.len() >= 1 && fs[0].len() > 0 {
        Some((LocationV::Fix(fs[0]), 1))
    } else {
        None
    }
}

/// The place that fields `fs` give exactly.
pub open spec fn location_of(fs: Seq<Seq<char>>) -> Option<LocationV> {
    match lead_location(fs) {
        Some((l, k)) if k == fs.len() => Some(l),
        _ => None,
    }
}

/// Reads the place at the start of the fields from position `from` on (see
/// [`lead_location`]).
fn parse_lead_location(fs: &Vec<Vec<char>>, from: usize) -> (r: Option<(Location, usize)>)
    requires
        from <= fs@.len(),
    ensures
        match lead_location(views(fs@).skip(from as int)) {
            None => r is None,
            Some((l, k)) => r matches Some((x, j)) && x@ == l && j == k,
        },
{
    let ghost v = views(fs@).skip(from as int);
    if fs.len() - from >= 2 {
        proof {
            assert(v[0] == fs@[from as int]@);
            assert(v[1] == fs@[from + 1]@);
        }
        if let Some(c) = parse_topsky_coordinate(fs[from].as_slice(), fs[from + 1].as_slice()) {
            return Some((Location::Coordinate(c), 2));
        }
    }
    if fs.len() - from >= 1 && fs[from].len() > 0 {
        proof {
            assert(v[0] == fs@[from as int]@);
        }
        return Some((Location::Fix(string_from_chars(fs[from].as_slice())), 1));
    }
    None
}

/// Reads the place that the fields from position `from` on give exactly (see
/// [`location_of`]).
fn parse_location(fs: &Vec<Vec<char>>, from: usize) -> (r: Option<Location>)
    requires
        from <= fs@.len(),
    ensures
        match location_of(views(fs@).skip(from as int)) {
            None => r is None,
            Some(l) => r matches Some(x) && x@ == l,
        },
{
    match parse_lead_location(fs, from) {
        Some((l, k)) => {
            if k == fs.len() - from {
                Some(l)
            } else {
                None
            }
        },
        None => None,
    }
}

// ---------------------------------------------------------------------------
// Map rules

/// The label of a map symbol: its text and its offset in millionths of a pixel.
#[derive(Debug, PartialEq)]
pub struct Label {
    pub text: String,
    pub pos: (i64, i64),
}

pub struct LabelV {
    pub text: Seq<char>,
    pub pos: (i64, i64),
}

impl View for Label {
    type V = LabelV;

    open spec fn view(&self) -> LabelV {
        LabelV { text: self.text@, pos: self.pos }
    }
}

/// A symbol drawn at a place, maybe labelled. Alignments are not read from the
/// file, so `label_alignment` is always unset.
#[derive(Debug, PartialEq)]
pub struct MapSymbol {
    pub name: String,
    pub location: Location,
    pub label: Option<Label>,
    pub label_alignment: Option<Alignment>,
}

pub struct MapSymbolV {
    pub name: Seq<char>,
    pub location: LocationV,
    pub label: Option<LabelV>,
    pub label_alignment: Option<Alignment>,
}

impl View for MapSymbol {
    type V = MapSymbolV;

    open spec fn view(&self) -> MapSymbolV {
        MapSymbolV {
            name: self.name@,
            location: self.location@,
            label: match self.label {
                Some(l) => Some(l@),
                None => None,
            },
            label_alignment: self.label_alignment,
        }
    }
}

/// A text written at a place. Alignments are not read from the file, so
/// `alignment` is always unset.
#[derive(Debug, PartialEq)]
pub struct Text {
    pub location: Location,
    pub content: String,
    pub alignment: Option<Alignment>,
}

pub struct TextV {
    pub location: LocationV,
    pub content: Seq<char>,
    pub alignment: Option<Alignment>,
}

impl View for Text {
    type V = TextV;

    open spec fn view(&self) -> TextV {
        TextV { location: self.location@, content: self.content@, alignment: self.alignment }
    }
}

/// How the font size of what follows changes; sizes in millionths.
#[derive(Clone, Copy, Debug, PartialEq, Eq, Structural)]
pub enum FontSize {
    Exact(i64),
    Add(i64),
    Subtract(i64),
    Multiply(i64),
    Default,
}

/// A polyline through places.
#[derive(Debug, PartialEq)]
pub struct MapLine {
    pub points: Vec<Location>,
}

pub open spec fn location_views(v: Seq<Location>) -> Seq<LocationV> {
    v.map_values(|l: Location| l@)
}

pub open spec fn line_views(v: Seq<MapLine>) -> Seq<Seq<LocationV>> {
    v.map_values(|l: MapLine| location_views(l.points@))
}

/// One rule of a map, in file order.
#[derive(Debug, PartialEq)]
pub enum MapRule {
    Folder(String),
    Colour(String),
    AsrData(Option<Vec<String>>),
    Active(Active),
    AndActive(Active),
    Global,
    ScreenSpecific,
    Hidden,
    /// In millionths.
    Layer(i64),
    Symbol(MapSymbol),
    /// In millionths.
    Zoom(i64),
    FontSize(FontSize),
    LineStyle(LineStyle),
    Line(Vec<MapLine>),
    Text(Text),
    CoordPoly(String),
    CoordLine,
    Coord(Location),
}

pub enum MapRuleV {
    Folder(Seq<char>),
    Colour(Seq<char>),
    AsrData(Option<Seq<Seq<char>>>),
    Active(ActiveV),
    AndActive(ActiveV),
    Global,
    ScreenSpecific,
    Hidden,
    Layer(i64),
    Symbol(MapSymbolV),
    Zoom(i64),
    FontSize(FontSize),
    LineStyle(LineStyleV),
    Line(Seq<Seq<LocationV>>),
    Text(TextV),
    CoordPoly(Seq<char>),
    CoordLine,
    Coord(LocationV),
}

impl View for MapRule {
    type V = MapRuleV;

    open spec fn view(&self) -> MapRuleV {
        match self {
            MapRule::Folder(f) => MapRuleV::Folder(f@),
            MapRule::Colour(c) => MapRuleV::Colour(c@),
            MapRule::AsrData(a) => MapRuleV::AsrData(crate::maps::names_view(*a)),
            MapRule::Active(a) => MapRuleV::Active(a@),
            MapRule::AndActive(a) => MapRuleV::AndActive(a@),
            MapRule::Global => MapRuleV::Global,
            MapRule::ScreenSpecific => MapRuleV::ScreenSpecific,
            MapRule::Hidden => MapRuleV::Hidden,
            MapRule::Layer(l) => MapRuleV::Layer(*l),
            MapRule::Symbol(s) => MapRuleV::Symbol(s@),
            MapRule::Zoom(z) => MapRuleV::Zoom(*z),
            MapRule::FontSize(f) => MapRuleV::FontSize(*f),
            MapRule::LineStyle(l) => MapRuleV::LineStyle(l@),
            MapRule::Line(ls) => MapRuleV::Line(line_views(ls@)),
            MapRule::Text(t) => MapRuleV::Text(t@),
            MapRule::CoordPoly(c) => MapRuleV::CoordPoly(c@),
            MapRule::CoordLine => MapRuleV::CoordLine,
            MapRule::Coord(l) => MapRuleV::Coord(l@),
        }
    }
}

pub open spec fn rule_views(v: Seq<MapRule>) -> Seq<MapRuleV> {
    v.map_values(|r: MapRule| r@)
}

/// A map: its name and its rules in file order.
#[derive(Debug, PartialEq)]
pub struct MapDef {
    pub name: String,
    pub rules: Vec<MapRule>,
}

pub struct MapDefV {
    pub name: Seq<char>,
    pub rules: Seq<MapRuleV>,
}

impl View for MapDef {
    type V = MapDefV;

    open spec fn view(&self) -> MapDefV {
        MapDefV { name: self.name@, rules: rule_views(self.rules@) }
    }
}

pub open spec fn map_views(v: Seq<MapDef>) -> Seq<MapDefV> {
    v.map_values(|m: MapDef| m@)
}

/// A named line style: its brush, its hatch and its dash lengths in millionths.
#[derive(Debug, PartialEq)]
pub struct LineStyleDef {
    pub name: String,
    pub brush: String,
    pub hatch: String,
    pub dash_lengths: Vec<i64>,
}

pub struct LineStyleDefV {
    pub name: Seq<char>,
    pub brush: Seq<char>,
    pub hatch: Seq<char>,
    pub dash_lengths: Seq<i64>,
}

impl View for LineStyleDef {
    type V = LineStyleDefV;

    open spec fn view(&self) -> LineStyleDefV {
        LineStyleDefV {
            name: self.name@,
            brush: self.brush@,
            hatch: self.hatch@,
            dash_lengths: self.dash_lengths@,
        }
    }
}

pub open spec fn line_style_def_views(v: Seq<LineStyleDef>) -> Seq<LineStyleDefV> {
    v.map_values(|d: LineStyleDef| d@)
}

pub open spec fn override_views(v: Seq<OverrideSct>) -> Seq<(Seq<char>, Option<Seq<char>>)> {
    v.map_values(
        |o: OverrideSct|
            (
                o.folder@,
                match o.name {
                    Some(n) => Some(n@),
                    None => None,
                },
            ),
    )
}

// ---------------------------------------------------------------------------
// Lines

/// What a line of the file holds.
pub enum MapsLine {
    Blank,
    /// A top-level line that is passed over.
    Passed,
    MapOpen(Seq<char>),
    SymbolDef(Seq<char>),
    SymbolRule(crate::topsky_symbols::SymbolRuleV),
    Colour(Seq<char>, Colour),
    LineStyle(LineStyleDefV),
    Override(Seq<char>, Option<Seq<char>>),
    Rule(MapRuleV),
    /// A map rule that is passed over.
    RulePassed,
    Segment(LocationV, LocationV),
}

/// A colour component from 0 to 255.
pub open spec fn byte_of(w: Seq<char>) -> Option<u8> {
    match unsigned_parse_spec(w, 10, 255) {
        Some(v) => Some(v as u8),
        None => None,
    }
}

/// The font size change that the fields after `FONTSIZE` give.
pub open spec fn font_size_of(a: Seq<Seq<char>>) -> Option<FontSize> {
    if a.len() == 1 && a[0] == "0"@ {
        Some(FontSize::Default)
    } else if a.len() == 2 {
        match micro_value(a[1]) {
            Some(v) => if a[0] == "="@ {
                Some(FontSize::Exact(v as i64))
            } else if a[0] == "+"@ {
                Some(FontSize::Add(v as i64))
            } else if a[0] == "-"@ {
                Some(FontSize::Subtract(v as i64))
            } else if a[0] == "*"@ {
                Some(FontSize::Multiply(v as i64))
            } else {
                None
            },
            None => None,
        }
    } else {
        None
    }
}

/// Whether `k` is the keyword of a rule that places something.
pub open spec fn is_place_keyword(k: Seq<char>) -> bool {
    k == "LINE"@ || k == "TEXT"@ || k == "SYMBOL"@ || k == "COORD"@
}

/// Whether `k` is the keyword of a map rule that is passed over.
pub open spec fn is_passed_keyword(k: Seq<char>) -> bool {
    k == "CIRCLE"@ || k == "FONTSTYLE"@ || k == "TEXTALIGN"@ || k == "SCTDATA"@ || k
        == "SCTFILEDATA"@
}

/// The rule that a place keyword `k` with fields `a` gives.
pub open spec fn place_line(k: Seq<char>, a: Seq<Seq<char>>) -> Option<MapsLine> {
    if k == "LINE"@ {
        match lead_location(a) {
            Some((s, j)) => match location_of(a.skip(j)) {
                Some(e) => Some(MapsLine::Segment(s, e)),
                None => None,
            },
            None => None,
        }
    } else if k == "TEXT"@ {
        match lead_location(a) {
            Some((p, j)) if a.len() == j + 1 => Some(
                MapsLine::Rule(MapRuleV::Text(TextV { location: p, content: a[j], alignment: None })),
            ),
            _ => None,
        }
    } else if k == "SYMBOL"@ {
        if a.len() >= 1 {
            match lead_location(a.skip(1)) {
                Some((p, j)) => {
                    let rest = a.skip(1 + j);
                    if rest.len() == 0 {
                        Some(
                            MapsLine::Rule(
                                MapRuleV::Symbol(
                                    MapSymbolV {
                                        name: a[0],
                                        location: p,
                                        label: None,
                                        label_alignment: None,
                                    },
                                ),
                            ),
                        )
                    } else if rest.len() == 3 {
                        match (micro_value(rest[1]), micro_value(rest[2])) {
                            (Some(x), Some(y)) => Some(
                                MapsLine::Rule(
                                    MapRuleV::Symbol(
                                        MapSymbolV {
                                            name: a[0],
                                            location: p,
                                            label: Some(LabelV { text: rest[0], pos: (x as i64, y as i64) }),
                                            label_alignment: None,
                                        },
                                    ),
                                ),
                            ),
                            _ => None,
                        }
                    } else {
                        None
                    }
                },
                None => None,
            }
        } else {
            None
        }
    } else {
        match location_of(a) {
            Some(p) => Some(MapsLine::Rule(MapRuleV::Coord(p))),
            None => None,
        }
    }
}

/// What a line holds, or none for an invalid line (see the module's documentation).
pub open spec fn maps_line(line: Seq<char>) -> Option<MapsLine> {
    let l = trim_spec(line);
    if l.len() == 0 || starts_with(l, "//"@) {
        Some(MapsLine::Blank)
    } else {
        let f = split_spec(l, ':');
        let k = f[0];
        let a = f.drop_first();
        let n = a.len();
        if k == "MAP"@ && l.len() > 4 {
            Some(MapsLine::MapOpen(l.skip(4)))
        } else if k == "SYMBOLDEF"@ && l.len() > 10 {
            Some(MapsLine::SymbolDef(l.skip(10)))
        } else if k == "COLORDEF"@ && n == 4 {
            match (byte_of(a[1]), byte_of(a[2]), byte_of(a[3])) {
                (Some(r), Some(g), Some(b)) => Some(MapsLine::Colour(a[0], rgb(r, g, b))),
                _ => None,
            }
        } else if k == "LINESTYLE"@ && n >= 3 {
            match crate::topsky_symbols::micros_of(a.skip(3)) {
                Some(d) => Some(
                    MapsLine::LineStyle(
                        LineStyleDefV { name: a[0], brush: a[1], hatch: a[2], dash_lengths: d },
                    ),
                ),
                None => None,
            }
        } else if k == "OVERRIDE_SCT_MAP"@ && n == 1 {
            Some(
                MapsLine::Override(
                    crate::text::before_first(a[0], '\\'),
                    crate::text::after_first(a[0], '\\'),
                ),
            )
        } else if k == "SCTFILEPATH"@ {
            Some(MapsLine::Passed)
        } else if k == "FOLDER"@ && n == 1 {
            Some(MapsLine::Rule(MapRuleV::Folder(a[0])))
        } else if k == "COLOR"@ && 1 <= n <= 3 {
            Some(MapsLine::Rule(MapRuleV::Colour(a[0])))
        } else if k == "ASRDATA"@ && n == 1 {
            Some(MapsLine::Rule(MapRuleV::AsrData(names_of(a[0]))))
        } else if k == "ACTIVE"@ {
            match active_of(a) {
                Some(x) => Some(MapsLine::Rule(MapRuleV::Active(x))),
                None => None,
            }
        } else if k == "AND_ACTIVE"@ {
            match active_of(a) {
                Some(x) => Some(MapsLine::Rule(MapRuleV::AndActive(x))),
                None => None,
            }
        } else if k == "GLOBAL"@ && n == 0 {
            Some(MapsLine::Rule(MapRuleV::Global))
        } else if k == "SCREEN-SPECIFIC"@ && n == 0 {
            Some(MapsLine::Rule(MapRuleV::ScreenSpecific))
        } else if k == "HIDDEN"@ && n == 0 {
            Some(MapsLine::Rule(MapRuleV::Hidden))
        } else if k == "COORDLINE"@ && n == 0 {
            Some(MapsLine::Rule(MapRuleV::CoordLine))
        } else if k == "COORDPOLY"@ && n == 1 {
            Some(MapsLine::Rule(MapRuleV::CoordPoly(a[0])))
        } else if k == "LAYER"@ && n == 1 {
            match micro_value(a[0]) {
                Some(v) => Some(MapsLine::Rule(MapRuleV::Layer(v as i64))),
                None => None,
            }
        } else if k == "ZOOM"@ && n == 1 {
            match micro_value(a[0]) {
                Some(v) => Some(MapsLine::Rule(MapRuleV::Zoom(v as i64))),
                None => None,
            }
        } else if k == "FONTSIZE"@ {
            match font_size_of(a) {
                Some(x) => Some(MapsLine::Rule(MapRuleV::FontSize(x))),
                None => None,
            }
        } else if k == "STYLE"@ && (n == 1 || n == 2) {
            Some(
                MapsLine::Rule(
                    MapRuleV::LineStyle(
                        LineStyleV {
                            width: crate::maps::line_width(
                                if n == 2 {
                                    Some(a[1])
                                } else {
                                    None
                                },
                            ),
                            style: crate::maps::line_style_type(a[0]),
                        },
                    ),
                ),
            )
        } else if is_place_keyword(k) {
            place_line(k, a)
        } else if is_passed_keyword(k) {
            Some(MapsLine::RulePassed)
        } else {
            match crate::topsky_symbols::rule_line(l) {
                Some(r) => Some(MapsLine::SymbolRule(r)),
                None => None,
            }
        }
    }
}

/// What a line holds, read.
pub enum MapsLineRead {
    Blank,
    Passed,
    MapOpen(String),
    SymbolDef(String),
    SymbolRule(crate::topsky_symbols::SymbolRule),
    Colour(crate::topsky_settings::ColourDef),
    LineStyle(LineStyleDef),
    Override(OverrideSct),
    Rule(MapRule),
    RulePassed,
    Segment(Location, Location),
}

pub open spec fn read_view(r: MapsLineRead) -> MapsLine {
    match r {
        MapsLineRead::Blank => MapsLine::Blank,
        MapsLineRead::Passed => MapsLine::Passed,
        MapsLineRead::MapOpen(n) => MapsLine::MapOpen(n@),
        MapsLineRead::SymbolDef(n) => MapsLine::SymbolDef(n@),
        MapsLineRead::SymbolRule(x) => MapsLine::SymbolRule(x@),
        MapsLineRead::Colour(c) => MapsLine::Colour(c.name@, c.colour),
        MapsLineRead::LineStyle(d) => MapsLine::LineStyle(d@),
        MapsLineRead::Override(o) => MapsLine::Override(
            o.folder@,
            match o.name {
                Some(n) => Some(n@),
                None => None,
            },
        ),
        MapsLineRead::Rule(r) => MapsLine::Rule(r@),
        MapsLineRead::RulePassed => MapsLine::RulePassed,
        MapsLineRead::Segment(s, e) => MapsLine::Segment(s@, e@),
    }
}

fn parse_byte(w: &[char]) -> (r: Option<u8>)
    ensures
        r == byte_of(w@),
{
    proof {
        crate::text::lemma_unsigned_text_value_nonneg(w@, 10);
    }
    match parse_unsigned(w, 10, 255) {
        Some(v) => Some(v as u8),
        None => None,
    }
}

/// Reads a place rule (see [`place_line`]) from the fields after the keyword.
fn parse_place_line(k: &[char], fs: &Vec<Vec<char>>) -> (r: Option<MapsLineRead>)
    requires
        fs@.len() >= 1,
        is_place_keyword(k@),
    ensures
        match place_line(k@, views(fs@).skip(1)) {
            None => r is None,
            Some(x) => r matches Some(y) && read_view(y) == x,
        },
{
    let ghost a = views(fs@).skip(1);
    if chars_are(k, "LINE") {
        return match parse_lead_location(fs, 1) {
            Some((s, j)) => {
                proof {
                    assert(views(fs@).skip(1 + j as int) =~= a.skip(j as int));
                }
                match parse_location(fs, 1 + j) {
                    Some(e) => Some(MapsLineRead::Segment(s, e)),
                    None => None,
                }
            },
            None => None,
        };
    }
    if chars_are(k, "TEXT") {
        return match parse_lead_location(fs, 1) {
            Some((p, j)) => {
                if fs.len() - 1 == j + 1 {
                    proof {
                        assert(a[j as int] == fs@[1 + j as int]@);
                    }
                    Some(
                        MapsLineRead::Rule(
                            MapRule::Text(
                                Text {
                                    location: p,
                                    content: string_from_chars(fs[1 + j].as_slice()),
                                    alignment: None,
                                },
                            ),
                        ),
                    )
                } else {
                    None
                }
            },
            None => None,
        };
    }
    if chars_are(k, "SYMBOL") {
        if fs.len() < 2 {
            return None;
        }
        proof {
            assert(a[0] == fs@[1]@);
            assert(views(fs@).skip(2) =~= a.skip(1));
        }
        return match parse_lead_location(fs, 2) {
            Some((p, j)) => {
                let rest_from = 2 + j;
                let rest = fs.len() - rest_from;
                proof {
                    assert(views(fs@).skip(rest_from as int) =~= a.skip(1 + j as int));
                }
                if rest == 0 {
                    Some(
                        MapsLineRead::Rule(
                            MapRule::Symbol(
                                MapSymbol {
                                    name: string_from_chars(fs[1].as_slice()),
                                    location: p,
                                    label: None,
                                    label_alignment: None,
                                },
                            ),
                        ),
                    )
                } else if rest == 3 {
                    proof {
                        assert(a.skip(1 + j as int)[0] == fs@[rest_from as int]@);
                        assert(a.skip(1 + j as int)[1] == fs@[rest_from + 1]@);
                        assert(a.skip(1 + j as int)[2] == fs@[rest_from + 2]@);
                    }
                    match (
                        parse_micro(fs[rest_from + 1].as_slice()),
                        parse_micro(fs[rest_from + 2].as_slice()),
                    ) {
                        (Some(x), Some(y)) => Some(
                            MapsLineRead::Rule(
                                MapRule::Symbol(
                                    MapSymbol {
                                        name: string_from_chars(fs[1].as_slice()),
                                        location: p,
                                        label: Some(
                                            Label {
                                                text: string_from_chars(fs[rest_from].as_slice()),
                                                pos: (x, y),
                                            },
                                        ),
                                        label_alignment: None,
                                    },
                                ),
                            ),
                        ),
                        _ => None,
                    }
                } else {
                    None
                }
            },
            None => None,
        };
    }
    match parse_location(fs, 1) {
        Some(p) => Some(MapsLineRead::Rule(MapRule::Coord(p))),
        None => None,
    }
}

/// Reads a line (see [`maps_line`]).
#[verifier::rlimit(40)]
fn parse_maps_line(line: &[char]) -> (r: Option<MapsLineRead>)
    ensures
        match maps_line(line@) {
            None => r is None,
            Some(x) => r matches Some(y) && read_view(y) == x,
        },
{
    let l = trim(line);
    if l.len() == 0 || chars_start_with(&l, "//") {
        return Some(MapsLineRead::Blank);
    }
    let fs = split_chars(&l, ':');
    let ghost f = split_spec(l@, ':');
    proof {
        assert(views(fs@) == f);
        crate::text::lemma_split_nonempty(l@, ':');
    }
    let ghost a = f.drop_first();
    proof {
        assert(a =~= views(fs@).skip(1));
        assert(forall|j: int| 0 <= j < a.len() ==> #[trigger] a[j] == fs@[j + 1]@);
    }
    let n = fs.len() - 1;
    let k = fs[0].as_slice();
    proof {
        assert(k@ == f[0]);
    }
    if chars_are(k, "MAP") && l.len() > 4 {
        return Some(MapsLineRead::MapOpen(string_from_chars(&copy_range(&l, 4, l.len()))));
    }
    if chars_are(k, "SYMBOLDEF") && l.len() > 10 {
        return Some(MapsLineRead::SymbolDef(string_from_chars(&copy_range(&l, 10, l.len()))));
    }
    if chars_are(k, "COLORDEF") && n == 4 {
        return match (parse_byte(fs[2].as_slice()), parse_byte(fs[3].as_slice()), parse_byte(fs[4].as_slice())) {
            (Some(r), Some(g), Some(b)) => Some(
                MapsLineRead::Colour(
                    crate::topsky_settings::ColourDef {
                        name: string_from_chars(fs[1].as_slice()),
                        colour: Colour::from_rgb(r, g, b),
                    },
                ),
            ),
            _ => None,
        };
    }
    if chars_are(k, "LINESTYLE") && n >= 3 {
        proof {
            assert(views(fs@).subrange(4, fs@.len() as int) =~= a.skip(3));
        }
        return match crate::topsky_symbols::parse_micros(fs.as_slice(), 4, fs.len()) {
            Some(d) => Some(
                MapsLineRead::LineStyle(
                    LineStyleDef {
                        name: string_from_chars(fs[1].as_slice()),
                        brush: string_from_chars(fs[2].as_slice()),
                        hatch: string_from_chars(fs[3].as_slice()),
                        dash_lengths: d,
                    },
                ),
            ),
            None => None,
        };
    }
    if chars_are(k, "OVERRIDE_SCT_MAP") && n == 1 {
        let (before, after) = crate::text::split_once(fs[1].as_slice(), '\\');
        return Some(
            MapsLineRead::Override(
                OverrideSct {
                    folder: string_from_chars(&before),
                    name: match after {
                        Some(x) => Some(string_from_chars(&x)),
                        None => None,
                    },
                },
            ),
        );
    }
    if chars_are(k, "SCTFILEPATH") {
        return Some(MapsLineRead::Passed);
    }
    if chars_are(k, "FOLDER") && n == 1 {
        return Some(MapsLineRead::Rule(MapRule::Folder(string_from_chars(fs[1].as_slice()))));
    }
    if chars_are(k, "COLOR") && 1 <= n && n <= 3 {
        return Some(MapsLineRead::Rule(MapRule::Colour(string_from_chars(fs[1].as_slice()))));
    }
    if chars_are(k, "ASRDATA") && n == 1 {
        return Some(MapsLineRead::Rule(MapRule::AsrData(parse_names(fs[1].as_slice()))));
    }
    if chars_are(k, "ACTIVE") {
        return match parse_active(&fs, 1) {
            Some(x) => Some(MapsLineRead::Rule(MapRule::Active(x))),
            None => None,
        };
    }
    if chars_are(k, "AND_ACTIVE") {
        return match parse_active(&fs, 1) {
            Some(x) => Some(MapsLineRead::Rule(MapRule::AndActive(x))),
            None => None,
        };
    }
    if chars_are(k, "GLOBAL") && n == 0 {
        return Some(MapsLineRead::Rule(MapRule::Global));
    }
    if chars_are(k, "SCREEN-SPECIFIC") && n == 0 {
        return Some(MapsLineRead::Rule(MapRule::ScreenSpecific));
    }
    if chars_are(k, "HIDDEN") && n == 0 {
        return Some(MapsLineRead::Rule(MapRule::Hidden));
    }
    if chars_are(k, "COORDLINE") && n == 0 {
        return Some(MapsLineRead::Rule(MapRule::CoordLine));
    }
    if chars_are(k, "COORDPOLY") && n == 1 {
        return Some(MapsLineRead::Rule(MapRule::CoordPoly(string_from_chars(fs[1].as_slice()))));
    }
    if chars_are(k, "LAYER") && n == 1 {
        return match parse_micro(fs[1].as_slice()) {
            Some(v) => Some(MapsLineRead::Rule(MapRule::Layer(v))),
            None => None,
        };
    }
    if chars_are(k, "ZOOM") && n == 1 {
        return match parse_micro(fs[1].as_slice()) {
            Some(v) => Some(MapsLineRead::Rule(MapRule::Zoom(v))),
            None => None,
        };
    }
    if chars_are(k, "FONTSIZE") {
        return match parse_font_size(&fs) {
            Some(x) => Some(MapsLineRead::Rule(MapRule::FontSize(x))),
            None => None,
        };
    }
    if chars_are(k, "STYLE") && (n == 1 || n == 2) {
        let style = string_from_chars(fs[1].as_slice());
        let rule = if n == 2 {
            let width = string_from_chars(fs[2].as_slice());
            LineStyle::parse(style.as_str(), Some(width.as_str()))
        } else {
            LineStyle::parse(style.as_str(), None)
        };
        return Some(MapsLineRead::Rule(MapRule::LineStyle(rule)));
    }
    if chars_are(k, "LINE") || chars_are(k, "TEXT") || chars_are(k, "SYMBOL") || chars_are(
        k,
        "COORD",
    ) {
        return parse_place_line(k, &fs);
    }
    if chars_are(k, "CIRCLE") || chars_are(k, "FONTSTYLE") || chars_are(k, "TEXTALIGN")
        || chars_are(k, "SCTDATA") || chars_are(k, "SCTFILEDATA") {
        return Some(MapsLineRead::RulePassed);
    }
    match crate::topsky_symbols::parse_rule(&l) {
        Some(r) => Some(MapsLineRead::SymbolRule(r)),
        None => None,
    }
}

/// Reads the fields after `FONTSIZE` (see [`font_size_of`]).
fn parse_font_size(fs: &Vec<Vec<char>>) -> (r: Option<FontSize>)
    requires
        fs@.len() >= 1,
    ensures
        r == font_size_of(views(fs@).skip(1)),
{
    let ghost a = views(fs@).skip(1);
    if fs.len() == 2 && chars_are(fs[1].as_slice(), "0") {
        proof {
            assert(a[0] == fs@[1]@);
        }
        return Some(FontSize::Default);
    }
    if fs.len() == 3 {
        proof {
            assert(a[0] == fs@[1]@);
            assert(a[1] == fs@[2]@);
        }
        let op = fs[1].as_slice();
        return match parse_micro(fs[2].as_slice()) {
            Some(v) => if chars_are(op, "=") {
                Some(FontSize::Exact(v))
            } else if chars_are(op, "+") {
                Some(FontSize::Add(v))
            } else if chars_are(op, "-") {
                Some(FontSize::Subtract(v))
            } else if chars_are(op, "*") {
                Some(FontSize::Multiply(v))
            } else {
                None
            },
            None => None,
        };
    }
    None
}

// ---------------------------------------------------------------------------
// The file

/// Everything a maps file defines, each kind in file order.
pub struct MapsV {
    pub maps: Seq<MapDefV>,
    pub symbols: Seq<crate::topsky_symbols::SymbolDefV>,
    pub colours: Seq<(Seq<char>, Colour)>,
    pub line_styles: Seq<LineStyleDefV>,
    pub overrides: Seq<(Seq<char>, Option<Seq<char>>)>,
}

/// What the lines that follow belong to.
#[derive(Clone, Copy, Debug, PartialEq, Eq, Structural)]
pub enum MapsOpen {
    Closed,
    InMap,
    InSymbol,
}

/// A polyline from `s` to `e` (one point where they are the same).
pub open spec fn new_polyline(s: LocationV, e: LocationV) -> Seq<LocationV> {
    if s == e {
        seq![s]
    } else {
        seq![s, e]
    }
}

/// Polylines with the segment from `s` to `e` added: it continues the last
/// polyline where that ends at `s`, and starts a new one otherwise.
pub open spec fn extend_lines(lines: Seq<Seq<LocationV>>, s: LocationV, e: LocationV) -> Seq<
    Seq<LocationV>,
> {
    if lines.len() > 0 && lines.last().len() > 0 && lines.last().last() == s {
        if s != e {
            lines.update(lines.len() - 1, lines.last().push(e))
        } else {
            lines
        }
    } else {
        lines.push(new_polyline(s, e))
    }
}

/// Rules with the segment from `s` to `e` added: to the last rule where that is a
/// `LINE` rule, else in a rule of its own.
pub open spec fn add_segment(rules: Seq<MapRuleV>, s: LocationV, e: LocationV) -> Seq<MapRuleV> {
    if rules.len() > 0 && rules.last() is Line {
        rules.update(rules.len() - 1, MapRuleV::Line(extend_lines(rules.last()->Line_0, s, e)))
    } else {
        rules.push(MapRuleV::Line(seq![new_polyline(s, e)]))
    }
}

/// The last map with its rules changed to `rules`.
pub open spec fn with_last_rules(maps: Seq<MapDefV>, rules: Seq<MapRuleV>) -> Seq<MapDefV> {
    maps.update(maps.len() - 1, MapDefV { name: maps.last().name, rules })
}

/// What one line does to the definitions read so far; none for a rule with nothing
/// open for it.
pub open spec fn maps_step(st: MapsV, open: MapsOpen, x: MapsLine) -> Option<(MapsV, MapsOpen)> {
    match x {
        MapsLine::Blank => Some((st, open)),
        MapsLine::Passed => Some((st, MapsOpen::Closed)),
        MapsLine::MapOpen(n) => Some(
            (MapsV { maps: st.maps.push(MapDefV { name: n, rules: seq![] }), ..st }, MapsOpen::InMap),
        ),
        MapsLine::SymbolDef(n) => Some(
            (
                MapsV {
                    symbols: st.symbols.push(
                        crate::topsky_symbols::SymbolDefV { name: n, rules: seq![] },
                    ),
                    ..st
                },
                MapsOpen::InSymbol,
            ),
        ),
        MapsLine::SymbolRule(r) => if open == MapsOpen::InSymbol {
            let k = st.symbols.len() - 1;
            Some(
                (
                    MapsV {
                        symbols: st.symbols.update(
                            k,
                            crate::topsky_symbols::SymbolDefV {
                                name: st.symbols[k].name,
                                rules: st.symbols[k].rules.push(r),
                            },
                        ),
                        ..st
                    },
                    open,
                ),
            )
        } else {
            None
        },
        MapsLine::Colour(n, c) => Some(
            (MapsV { colours: st.colours.push((n, c)), ..st }, MapsOpen::Closed),
        ),
        MapsLine::LineStyle(d) => Some(
            (MapsV { line_styles: st.line_styles.push(d), ..st }, MapsOpen::Closed),
        ),
        MapsLine::Override(f, n) => Some(
            (MapsV { overrides: st.overrides.push((f, n)), ..st }, MapsOpen::Closed),
        ),
        MapsLine::Rule(r) => if open == MapsOpen::InMap {
            Some(
                (
                    MapsV { maps: with_last_rules(st.maps, st.maps.last().rules.push(r)), ..st },
                    open,
                ),
            )
        } else {
            None
        },
        MapsLine::RulePassed => if open == MapsOpen::InMap {
            Some((st, open))
        } else {
            None
        },
        MapsLine::Segment(s, e) => if open == MapsOpen::InMap {
            Some(
                (
                    MapsV {
                        maps: with_last_rules(st.maps, add_segment(st.maps.last().rules, s, e)),
                        ..st
                    },
                    open,
                ),
            )
        } else {
            None
        },
    }
}

/// The definitions that lines give, with what is open after them, or the index of
/// the first invalid line.
pub open spec fn maps_lines(lines: Seq<Seq<char>>) -> Result<(MapsV, MapsOpen), nat>
    decreases lines.len(),
{
    if lines.len() == 0 {
        Ok(
            (
                MapsV {
                    maps: seq![],
                    symbols: seq![],
                    colours: seq![],
                    line_styles: seq![],
                    overrides: seq![],
                },
                MapsOpen::Closed,
            ),
        )
    } else {
        match maps_lines(lines.drop_last()) {
            Err(i) => Err(i),
            Ok((st, open)) => match maps_line(lines.last()) {
                None => Err((lines.len() - 1) as nat),
                Some(x) => match maps_step(st, open, x) {
                    None => Err((lines.len() - 1) as nat),
                    Some(next) => Ok(next),
                },
            },
        }
    }
}

/// The definitions of a TopSkyMaps.txt text, or the index of its first invalid
/// line.
pub open spec fn maps_text(text: Seq<char>) -> Result<MapsV, nat> {
    match maps_lines(lines_spec(text)) {
        Ok((st, _)) => Ok(st),
        Err(i) => Err(i),
    }
}

/// Whether two places are the same.
pub fn same_location(a: &Location, b: &Location) -> (r: bool)
    ensures
        r == (a@ == b@),
{
    match (a, b) {
        (Location::Fix(x), Location::Fix(y)) => crate::text::str_eq(x.as_str(), y.as_str()),
        (Location::Coordinate(c), Location::Coordinate(d)) => c.lat == d.lat && c.lng == d.lng,
        _ => false,
    }
}

fn new_polyline_exec(s: Location, e: Location) -> (r: MapLine)
    ensures
        location_views(r.points@) == new_polyline(s@, e@),
{
    let mut points: Vec<Location> = Vec::new();
    let same = same_location(&s, &e);
    let ghost sv = s@;
    let ghost ev = e@;
    points.push(s);
    if !same {
        points.push(e);
    }
    proof {
        if same {
            assert(location_views(points@) =~= seq![sv]);
        } else {
            assert(location_views(points@) =~= seq![sv, ev]);
        }
    }
    MapLine { points }
}

fn extend_lines_exec(lines: &mut Vec<MapLine>, s: Location, e: Location)
    ensures
        line_views(final(lines)@) == extend_lines(line_views(old(lines)@), s@, e@),
{
    let ghost o = line_views(lines@);
    let ghost sv = s@;
    let ghost ev = e@;
    let n = lines.len();
    if n > 0 {
        let k = n - 1;
        let m = lines[k].points.len();
        if m > 0 && same_location(&lines[k].points[m - 1], &s) {
            proof {
                assert(o.last() == location_views(lines@[k as int].points@));
                assert(o.last().last() == lines@[k as int].points@[m - 1]@);
            }
            if !same_location(&s, &e) {
                let mut last = lines.pop().unwrap();
                proof {
                    assert(line_views(lines@) =~= o.drop_last());
                }
                let ghost before = location_views(last.points@);
                last.points.push(e);
                proof {
                    assert(location_views(last.points@) =~= before.push(ev));
                }
                let ghost mid = line_views(lines@);
                lines.push(last);
                proof {
                    assert(line_views(lines@) =~= mid.push(location_views(last.points@)));
                    assert(line_views(lines@) =~= o.update(o.len() - 1, o.last().push(ev)));
                }
            }
            return;
        }
    }
    let l = new_polyline_exec(s, e);
    lines.push(l);
    proof {
        assert(line_views(lines@) =~= o.push(new_polyline(sv, ev)));
    }
}

fn add_segment_exec(rules: &mut Vec<MapRule>, s: Location, e: Location)
    ensures
        rule_views(final(rules)@) == add_segment(rule_views(old(rules)@), s@, e@),
{
    let ghost o = rule_views(rules@);
    let ghost sv = s@;
    let ghost ev = e@;
    if rules.len() > 0 {
        let last = rules.pop().unwrap();
        proof {
            assert(rule_views(rules@) =~= o.drop_last());
            assert(o.last() == last@);
        }
        match last {
            MapRule::Line(lines) => {
                let mut lines = lines;
                extend_lines_exec(&mut lines, s, e);
                let ghost mid = rule_views(rules@);
                let r = MapRule::Line(lines);
                rules.push(r);
                proof {
                    assert(rule_views(rules@) =~= mid.push(r@));
                    assert(rule_views(rules@) =~= o.update(
                        o.len() - 1,
                        MapRuleV::Line(extend_lines(o.last()->Line_0, sv, ev)),
                    ));
                }
                return;
            },
            other => {
                let ghost mid = rule_views(rules@);
                let ghost ov = other@;
                rules.push(other);
                proof {
                    assert(rule_views(rules@) =~= mid.push(ov));
                    assert(rule_views(rules@) =~= o);
                }
            },
        }
    }
    let mut lines: Vec<MapLine> = Vec::new();
    let l = new_polyline_exec(s, e);
    lines.push(l);
    let ghost before = rule_views(rules@);
    let r = MapRule::Line(lines);
    rules.push(r);
    proof {
        assert(line_views(lines@) =~= seq![new_polyline(sv, ev)]);
        assert(rule_views(rules@) =~= before.push(r@));
    }
}

/// The definitions of a TopSkyMaps.txt, each kind in file order.
#[derive(Debug)]
pub struct TopskyMaps {
    pub maps: Vec<MapDef>,
    pub symbols: Vec<crate::topsky_symbols::SymbolDef>,
    pub colours: Vec<crate::topsky_settings::ColourDef>,
    pub line_styles: Vec<LineStyleDef>,
    pub overrides: Vec<OverrideSct>,
}

impl View for TopskyMaps {
    type V = MapsV;

    open spec fn view(&self) -> MapsV {
        MapsV {
            maps: map_views(self.maps@),
            symbols: crate::topsky_symbols::def_views(self.symbols@),
            colours: crate::topsky_settings::colour_def_views(self.colours@),
            line_styles: line_style_def_views(self.line_styles@),
            overrides: override_views(self.overrides@),
        }
    }
}

/// An error while reading TopSkyMaps.txt.
#[derive(Debug, PartialEq, Eq, Structural)]
pub enum TopskyMapsError {
    /// The line with this number, counted from one, is invalid.
    Parse { line: usize },
}

impl TopskyMaps {
    /// Changes the rules of the last map.
    fn change_last_map(&mut self, x: MapsLineRead)
        requires
            old(self).maps@.len() > 0,
            x matches MapsLineRead::Rule(_) || x matches MapsLineRead::Segment(_, _),
        ensures
            final(self)@ == (MapsV {
                maps: with_last_rules(
                    old(self)@.maps,
                    match read_view(x) {
                        MapsLine::Rule(r) => old(self)@.maps.last().rules.push(r),
                        MapsLine::Segment(s, e) => add_segment(old(self)@.maps.last().rules, s, e),
                        _ => old(self)@.maps.last().rules,
                    },
                ),
                ..old(self)@
            }),
    {
        let ghost o = old(self)@;
        let ghost xv = read_view(x);
        let mut m = self.maps.pop().unwrap();
        proof {
            assert(map_views(self.maps@) =~= o.maps.drop_last());
            assert(m@ == o.maps.last());
        }
        match x {
            MapsLineRead::Rule(r) => {
                let ghost before = rule_views(m.rules@);
                let ghost rv = r@;
                m.rules.push(r);
                proof {
                    assert(rule_views(m.rules@) =~= before.push(rv));
                }
            },
            MapsLineRead::Segment(s, e) => {
                add_segment_exec(&mut m.rules, s, e);
            },
            _ => {},
        }
        let ghost mid = map_views(self.maps@);
        let ghost mv = m@;
        self.maps.push(m);
        proof {
            assert(map_views(self.maps@) =~= mid.push(mv));
            assert(map_views(self.maps@) =~= with_last_rules(o.maps, mv.rules));
        }
    }

    /// Applies one line (see [`maps_step`]); false for a rule with nothing open for
    /// it.
    fn step(&mut self, open: &mut MapsOpen, x: MapsLineRead) -> (ok: bool)
        requires
            *old(open) == MapsOpen::InMap ==> old(self).maps@.len() > 0,
            *old(open) == MapsOpen::InSymbol ==> old(self).symbols@.len() > 0,
        ensures
            *final(open) == MapsOpen::InMap ==> final(self).maps@.len() > 0,
            *final(open) == MapsOpen::InSymbol ==> final(self).symbols@.len() > 0,
            match maps_step(old(self)@, *old(open), read_view(x)) {
                None => !ok,
                Some((st, o)) => ok && final(self)@ == st && *final(open) == o,
            },
    {
        let ghost o = self@;
        match x {
            MapsLineRead::Blank => true,
            MapsLineRead::Passed => {
                *open = MapsOpen::Closed;
                true
            },
            MapsLineRead::MapOpen(n) => {
                let d = MapDef { name: n, rules: Vec::new() };
                proof {
                    assert(rule_views(d.rules@) =~= Seq::<MapRuleV>::empty());
                }
                self.maps.push(d);
                *open = MapsOpen::InMap;
                proof {
                    assert(map_views(self.maps@) =~= o.maps.push(d@));
                }
                true
            },
            MapsLineRead::SymbolDef(n) => {
                let d = crate::topsky_symbols::SymbolDef { name: n, rules: Vec::new() };
                proof {
                    assert(crate::topsky_symbols::rule_views(d.rules@) =~= Seq::<
                        crate::topsky_symbols::SymbolRuleV,
                    >::empty());
                }
                self.symbols.push(d);
                *open = MapsOpen::InSymbol;
                proof {
                    assert(crate::topsky_symbols::def_views(self.symbols@) =~= o.symbols.push(d@));
                }
                true
            },
            MapsLineRead::SymbolRule(r) => {
                if *open != MapsOpen::InSymbol {
                    return false;
                }
                let mut d = self.symbols.pop().unwrap();
                proof {
                    assert(crate::topsky_symbols::def_views(self.symbols@) =~= o.symbols.drop_last());
                }
                let ghost before = crate::topsky_symbols::rule_views(d.rules@);
                let ghost rv = r@;
                d.rules.push(r);
                proof {
                    assert(crate::topsky_symbols::rule_views(d.rules@) =~= before.push(rv));
                }
                let ghost mid = crate::topsky_symbols::def_views(self.symbols@);
                let ghost dv = d@;
                self.symbols.push(d);
                proof {
                    assert(crate::topsky_symbols::def_views(self.symbols@) =~= mid.push(dv));
                    let k = o.symbols.len() - 1;
                    assert(crate::topsky_symbols::def_views(self.symbols@) =~= o.symbols.update(
                        k,
                        crate::topsky_symbols::SymbolDefV {
                            name: o.symbols[k].name,
                            rules: o.symbols[k].rules.push(rv),
                        },
                    ));
                }
                true
            },
            MapsLineRead::Colour(c) => {
                let ghost cv = (c.name@, c.colour);
                self.colours.push(c);
                *open = MapsOpen::Closed;
                proof {
                    assert(crate::topsky_settings::colour_def_views(self.colours@) =~= o.colours.push(cv));
                }
                true
            },
            MapsLineRead::LineStyle(d) => {
                let ghost dv = d@;
                self.line_styles.push(d);
                *open = MapsOpen::Closed;
                proof {
                    assert(line_style_def_views(self.line_styles@) =~= o.line_styles.push(dv));
                }
                true
            },
            MapsLineRead::Override(ov) => {
                let ghost pair = override_views(seq![ov])[0];
                self.overrides.push(ov);
                *open = MapsOpen::Closed;
                proof {
                    assert(override_views(self.overrides@) =~= o.overrides.push(pair));
                }
                true
            },
            MapsLineRead::Rule(r) => {
                if *open != MapsOpen::InMap {
                    return false;
                }
                self.change_last_map(MapsLineRead::Rule(r));
                true
            },
            MapsLineRead::RulePassed => *open == MapsOpen::InMap,
            MapsLineRead::Segment(s, e) => {
                if *open != MapsOpen::InMap {
                    return false;
                }
                self.change_last_map(MapsLineRead::Segment(s, e));
                true
            },
        }
    }
}

/// An invalid line stays the first invalid one however many lines follow.
proof fn lemma_maps_error_persists(lines: Seq<Seq<char>>, k: int)
    requires
        0 <= k <= lines.len(),
        maps_lines(lines.take(k)) is Err,
    ensures
        maps_lines(lines) == maps_lines(lines.take(k)),
    decreases lines.len() - k,
{
    if k < lines.len() {
        assert(lines.take(k + 1).drop_last() =~= lines.take(k));
        lemma_maps_error_persists(lines, k + 1);
    } else {
        assert(lines.take(k) =~= lines);
    }
}

/// Reads a TopSkyMaps.txt file (see the module's documentation): its definitions,
/// or the number, counted from one, of its first invalid line.
pub fn parse_topsky_maps(contents: &[u8]) -> (res: Result<TopskyMaps, TopskyMapsError>)
    ensures
        match maps_text(crate::file_text(contents@)) {
            Ok(v) => res matches Ok(m) && m@ == v,
            Err(i) => res == Err::<TopskyMaps, TopskyMapsError>(
                TopskyMapsError::Parse { line: (i + 1) as usize },
            ),
        },
{
    let text = crate::read_to_string(contents);
    let chars = crate::text::chars_of(text.as_str());
    let lines = crate::text::lines_of(chars.as_slice());
    let ghost ls = lines_spec(text@);
    let mut st = TopskyMaps {
        maps: Vec::new(),
        symbols: Vec::new(),
        colours: Vec::new(),
        line_styles: Vec::new(),
        overrides: Vec::new(),
    };
    let mut open = MapsOpen::Closed;
    proof {
        assert(st@.maps =~= Seq::<MapDefV>::empty());
        assert(st@.symbols =~= Seq::<crate::topsky_symbols::SymbolDefV>::empty());
        assert(st@.colours =~= Seq::<(Seq<char>, Colour)>::empty());
        assert(st@.line_styles =~= Seq::<LineStyleDefV>::empty());
        assert(st@.overrides =~= Seq::<(Seq<char>, Option<Seq<char>>)>::empty());
        assert(ls.take(0) =~= Seq::<Seq<char>>::empty());
    }
    let mut i: usize = 0;
    while i < lines.len()
        invariant
            i <= lines@.len(),
            views(lines@) == ls,
            ls == lines_spec(crate::file_text(contents@)),
            maps_lines(ls.take(i as int)) == Ok::<(MapsV, MapsOpen), nat>((st@, open)),
            open == MapsOpen::InMap ==> st.maps@.len() > 0,
            open == MapsOpen::InSymbol ==> st.symbols@.len() > 0,
        decreases lines@.len() - i,
    {
        proof {
            assert(ls.take(i + 1).drop_last() =~= ls.take(i as int));
            assert(ls.take(i + 1).last() == lines@[i as int]@);
        }
        match parse_maps_line(lines[i].as_slice()) {
            None => {
                proof {
                    lemma_maps_error_persists(ls, i + 1);
                }
                return Err(TopskyMapsError::Parse { line: i + 1 });
            },
            Some(x) => {
                if !st.step(&mut open, x) {
                    proof {
                        lemma_maps_error_persists(ls, i + 1);
                    }
                    return Err(TopskyMapsError::Parse { line: i + 1 });
                }
            },
        }
        i = i + 1;
    }
    proof {
        assert(ls.take(lines@.len() as int) =~= ls);
    }
    Ok(st)
}

} // verus!
