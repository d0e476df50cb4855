//! The named places of an adaptation: fixes, radio beacons, airports with their
//! runways, airways, and the routes of the departure and arrival procedures; and
//! how a waypoint designator is resolved to a place.
//!
//! A designator is looked up, in this order, among the VORs, the NDBs and the fixes
//! (the first one with the designator), among the airports (the last one), and as
//! an airport designator followed by one of its runway designators. Failing that,
//! a designator `DDNDDDE`, with up to six digits of latitude and up to seven of
//! longitude (degrees, then minutes, then seconds, two digits each and three for
//! degrees of longitude, where one leading digit of latitude or of longitude
//! degrees may be left out), names a coordinate.
//!
//! A designator `FIXBBBRRR` (a known place, a bearing and a range in nautical miles)
//! names the point at that bearing and range from the place (see [`Designated`]);
//! where that point lies is a geodesic computation on floating-point numbers, left
//! to the caller, so such a designator is handed out as the place, the bearing and
//! the range.
use vstd::prelude::*;

use crate::airways::AirwayGraph;
use crate::lookup::{
    first_index, last_index, lemma_first_index, lemma_last_index, lemma_last_index_at,
};
use crate::sct::{
    beacon_views, fix_views, runway_views, Beacon, BeaconV, Coordinate, Fix, FixV, Runway, RunwayV,
};
use crate::decimal::read_digits;
use crate::text::{all_radix_digits, chars_of, copy_range, digits_value, str_eq, string_from_chars};

verus! {


/// An airport with its runways.
#[derive(Debug)]
pub struct Airport {
    pub designator: String,
    pub coordinate: Coordinate,
    pub runways: Vec<Runway>,
}

pub struct AirportV {
    pub designator: Seq<char>,
    pub coordinate: Coordinate,
    pub runways: Seq<RunwayV>,
}

impl View for Airport {
    type V = AirportV;

    open spec fn view(&self) -> AirportV {
        AirportV {
            designator: self.designator@,
            coordinate: self.coordinate,
            runways: runway_views(self.runways@),
        }
    }
}

pub open spec fn airport_views(v: Seq<Airport>) -> Seq<AirportV> {
    v.map_values(|a: Airport| a@)
}

/// What a waypoint designator names: a place (a beacon, fix, airport, runway end
/// or coordinate), or the point at a bearing and range from a place. Where that
/// point lies is a geodesic computation on floating-point numbers, left to the
/// caller: the designator is kept with the place, the bearing in degrees and the
/// range in nautical miles.
#[derive(Debug)]
pub enum Designated {
    Place(Fix),
    RangeBearing { designator: String, from: Fix, bearing: u32, range: u32 },
}

pub enum DesignatedV {
    Place(FixV),
    RangeBearing { designator: Seq<char>, from: FixV, bearing: u32, range: u32 },
}

impl View for Designated {
    type V = DesignatedV;

    open spec fn view(&self) -> DesignatedV {
        match self {
            Designated::Place(f) => DesignatedV::Place(f@),
            Designated::RangeBearing { designator, from, bearing, range } => DesignatedV::RangeBearing {
                designator: designator@,
                from: from@,
                bearing: *bearing,
                range: *range,
            },
        }
    }
}

pub open spec fn designated_views(v: Seq<Designated>) -> Seq<DesignatedV> {
    v.map_values(|d: Designated| d@)
}

/// A departure or arrival procedure with its waypoints resolved (see
/// [`Designated`]).
#[derive(Debug)]
pub struct Procedure {
    pub name: String,
    pub airport: String,
    pub runway: Option<String>,
    pub waypoints: Vec<Designated>,
}

/// A departure procedure.
pub type SID = Procedure;

/// An arrival procedure.
pub type STAR = Procedure;

pub struct ProcedureV {
    pub name: Seq<char>,
    pub airport: Seq<char>,
    pub runway: Option<Seq<char>>,
    pub waypoints: Seq<DesignatedV>,
}

impl View for Procedure {
    type V = ProcedureV;

    open spec fn view(&self) -> ProcedureV {
        ProcedureV {
            name: self.name@,
            airport: self.airport@,
            runway: crate::sct::opt_view(self.runway),
            waypoints: designated_views(self.waypoints@),
        }
    }
}

pub open spec fn procedure_views(v: Seq<Procedure>) -> Seq<ProcedureV> {
    v.map_values(|p: Procedure| p@)
}

/// The places of an adaptation, each list in the order given.
#[derive(Debug)]
pub struct Locations {
    pub fixes: Vec<Fix>,
    pub vors: Vec<Beacon>,
    pub ndbs: Vec<Beacon>,
    pub airports: Vec<Airport>,
    pub airways: AirwayGraph,
    pub sids: Vec<SID>,
    pub stars: Vec<STAR>,
}

/// The places as values, with the airway graph.
pub struct LocationsV {
    pub fixes: Seq<FixV>,
    pub vors: Seq<BeaconV>,
    pub ndbs: Seq<BeaconV>,
    pub airports: Seq<AirportV>,
    pub sids: Seq<ProcedureV>,
    pub stars: Seq<ProcedureV>,
    pub airways: AirwayGraph,
}

impl View for Locations {
    type V = LocationsV;

    open spec fn view(&self) -> LocationsV {
        LocationsV {
            fixes: fix_views(self.fixes@),
            vors: beacon_views(self.vors@),
            ndbs: beacon_views(self.ndbs@),
            airports: airport_views(self.airports@),
            sids: procedure_views(self.sids@),
            stars: procedure_views(self.stars@),
            airways: self.airways,
        }
    }
}

// ---------------------------------------------------------------------------
// Looking places up

/// Beacons with designator `d`.
pub open spec fn beacon_named(bs: Seq<BeaconV>, d: Seq<char>) -> spec_fn(int) -> bool {
    |i: int| bs[i].designator == d
}

/// Fixes with designator `d`.
pub open spec fn fix_named(fs: Seq<FixV>, d: Seq<char>) -> spec_fn(int) -> bool {
    |i: int| fs[i].designator == d
}

/// Airports with designator `d`.
pub open spec fn airport_named(aps: Seq<AirportV>, d: Seq<char>) -> spec_fn(int) -> bool {
    |i: int| aps[i].designator == d
}

/// The first beacon with designator `d`.
fn find_beacon(bs: &Vec<Beacon>, d: &str) -> (r: Option<usize>)
    ensures
        r matches Some(j) ==> first_index(bs@.len() as int, beacon_named(beacon_views(bs@), d@))
            == Some(j as int) && j < bs@.len(),
        r is None ==> first_index(bs@.len() as int, beacon_named(beacon_views(bs@), d@)) is None,
{
    let ghost p = beacon_named(beacon_views(bs@), d@);
    let mut i: usize = 0;
    while i < bs.len()
        invariant
            i <= bs@.len(),
            p == beacon_named(beacon_views(bs@), d@),
            forall|k: int| 0 <= k < i ==> !#[trigger] p(k),
        decreases bs@.len() - i,
    {
        if str_eq(bs[i].designator.as_str(), d) {
            proof {
                assert(p(i as int));
                lemma_first_index(i as int, p);
                assert(first_index(i + 1, p) == Some(i as int));
                crate::lookup::lemma_first_index_extend(i + 1, bs@.len() as int, p);
            }
            return Some(i);
        }
        i = i + 1;
    }
    proof {
        lemma_first_index(bs@.len() as int, p);
    }
    None
}

/// The first fix with designator `d`.
fn find_fix(fs: &Vec<Fix>, d: &str) -> (r: Option<usize>)
    ensures
        r matches Some(j) ==> first_index(fs@.len() as int, fix_named(fix_views(fs@), d@)) == Some(
            j as int,
        ) && j < fs@.len(),
        r is None ==> first_index(fs@.len() as int, fix_named(fix_views(fs@), d@)) is None,
{
    let ghost p = fix_named(fix_views(fs@), d@);
    let mut i: usize = 0;
    while i < fs.len()
        invariant
            i <= fs@.len(),
            p == fix_named(fix_views(fs@), d@),
            forall|k: int| 0 <= k < i ==> !#[trigger] p(k),
        decreases fs@.len() - i,
    {
        if str_eq(fs[i].designator.as_str(), d) {
            proof {
                assert(p(i as int));
                lemma_first_index(i as int, p);
                assert(first_index(i + 1, p) == Some(i as int));
                crate::lookup::lemma_first_index_extend(i + 1, fs@.len() as int, p);
            }
            return Some(i);
        }
        i = i + 1;
    }
    proof {
        lemma_first_index(fs@.len() as int, p);
    }
    None
}

/// The last airport with designator `d`.
fn find_airport(aps: &Vec<Airport>, d: &str) -> (r: Option<usize>)
    ensures
        r matches Some(j) ==> last_index(aps@.len() as int, airport_named(airport_views(aps@), d@))
            == Some(j as int) && j < aps@.len(),
        r is None ==> last_index(aps@.len() as int, airport_named(airport_views(aps@), d@)) is None,
{
    let ghost p = airport_named(airport_views(aps@), d@);
    let mut i = aps.len();
    while i > 0
        invariant
            i <= aps@.len(),
            p == airport_named(airport_views(aps@), d@),
            forall|k: int| i <= k < aps@.len() ==> !#[trigger] p(k),
        decreases i,
    {
        i = i - 1;
        if str_eq(aps[i].designator.as_str(), d) {
            proof {
                assert(p(i as int));
                lemma_last_index_at(aps@.len() as int, p, i as int);
            }
            return Some(i);
        }
        proof {
            assert(!p(i as int));
        }
    }
    proof {
        crate::lookup::lemma_last_index_none(aps@.len() as int, p);
    }
    None
}

/// Runways with an end designated `rwy`.
pub open spec fn runway_end(rws: Seq<RunwayV>, rwy: Seq<char>) -> spec_fn(int) -> bool {
    |i: int| rws[i].designators.0 == rwy || rws[i].designators.1 == rwy
}

/// The runway end that `d` designates: an airport designator of four characters
/// and a runway designator (six or seven characters in all); the first runway of
/// the airport with that end counts.
pub open spec fn runway_fix(l: LocationsV, d: Seq<char>) -> Option<FixV> {
    if 6 <= d.len() <= 7 {
        let ad = d.take(4);
        let rwy = d.skip(4);
        match last_index(l.airports.len() as int, airport_named(l.airports, ad)) {
            Some(a) => {
                let ap = l.airports[a];
                match first_index(ap.runways.len() as int, runway_end(ap.runways, rwy)) {
                    Some(k) => {
                        let r = ap.runways[k];
                        if r.designators.0 == rwy {
                            Some(FixV { designator: ap.designator + r.designators.0, coordinate: r.location.0 })
                        } else {
                            Some(FixV { designator: ap.designator + r.designators.1, coordinate: r.location.1 })
                        }
                    },
                    None => None,
                }
            },
            None => None,
        }
    } else {
        None
    }
}

/// The place that `d` names among the beacons, fixes, airports and runway ends
/// (see the module's documentation).
pub open spec fn named_fix(l: LocationsV, d: Seq<char>) -> Option<FixV> {
    match first_index(l.vors.len() as int, beacon_named(l.vors, d)) {
        Some(i) => Some(FixV { designator: l.vors[i].designator, coordinate: l.vors[i].coordinate }),
        None => match first_index(l.ndbs.len() as int, beacon_named(l.ndbs, d)) {
            Some(i) => Some(FixV { designator: l.ndbs[i].designator, coordinate: l.ndbs[i].coordinate }),
            None => match first_index(l.fixes.len() as int, fix_named(l.fixes, d)) {
                Some(i) => Some(l.fixes[i]),
                None => match last_index(l.airports.len() as int, airport_named(l.airports, d)) {
                    Some(i) => Some(
                        FixV { designator: l.airports[i].designator, coordinate: l.airports[i].coordinate },
                    ),
                    None => runway_fix(l, d),
                },
            },
        },
    }
}

/// Concatenates two strings.
fn concat(a: &String, b: &String) -> (r: String)
    ensures
        r@ == a@ + b@,
{
    let mut v = chars_of(a.as_str());
    let w = chars_of(b.as_str());
    let ghost base = v@;
    let mut i: usize = 0;
    while i < w.len()
        invariant
            i <= w@.len(),
            v@ == base + w@.take(i as int),
        decreases w@.len() - i,
    {
        v.push(w[i]);
        i = i + 1;
        proof {
            assert(v@ =~= base + w@.take(i as int));
        }
    }
    proof {
        assert(w@.take(w@.len() as int) =~= w@);
    }
    string_from_chars(v.as_slice())
}

impl Locations {
    /// The runway end that `d` designates (see [`runway_fix`]).
    fn convert_rwy(&self, d: &str) -> (r: Option<Fix>)
        ensures
            match runway_fix(self@, d@) {
                Some(f) => r matches Some(x) && x@ == f,
                None => r is None,
            },
    {
        let dc = chars_of(d);
        if dc.len() < 6 || dc.len() > 7 {
            return None;
        }
        let ad = string_from_chars(copy_range(dc.as_slice(), 0, 4).as_slice());
        let rwy = string_from_chars(copy_range(dc.as_slice(), 4, dc.len()).as_slice());
        proof {
            assert(ad@ =~= d@.take(4));
            assert(rwy@ =~= d@.skip(4));
        }
        let a = match find_airport(&self.airports, ad.as_str()) {
            Some(a) => a,
            None => {
                return None;
            },
        };
        let ap = &self.airports[a];
        let ghost rws = runway_views(ap.runways@);
        let ghost p = runway_end(rws, rwy@);
        proof {
            assert(self@.airports[a as int] == ap@);
        }
        let mut k: usize = 0;
        while k < ap.runways.len()
            invariant
                k <= ap.runways@.len(),
                rws == runway_views(ap.runways@),
                p == runway_end(rws, rwy@),
                a < self.airports@.len(),
                self@.airports[a as int] == ap@,
                last_index(self@.airports.len() as int, airport_named(self@.airports, ad@)) == Some(
                    a as int,
                ),
                ad@ == d@.take(4),
                rwy@ == d@.skip(4),
                6 <= d@.len() <= 7,
                forall|j: int| 0 <= j < k ==> !#[trigger] p(j),
            decreases ap.runways@.len() - k,
        {
            let r = &ap.runways[k];
            let e0 = str_eq(r.designators.0.as_str(), rwy.as_str());
            if e0 || str_eq(r.designators.1.as_str(), rwy.as_str()) {
                proof {
                    assert(p(k as int));
                    lemma_first_index(k as int, p);
                    assert(first_index(k + 1, p) == Some(k as int));
                    crate::lookup::lemma_first_index_extend(k + 1, ap.runways@.len() as int, p);
                    assert(rws[k as int] == r@);
                    assert(ap@.runways == rws);
                }
                return if e0 {
                    Some(Fix { designator: concat(&ap.designator, &r.designators.0), coordinate: r.location.0 })
                } else {
                    Some(Fix { designator: concat(&ap.designator, &r.designators.1), coordinate: r.location.1 })
                };
            }
            k = k + 1;
        }
        proof {
            lemma_first_index(ap.runways@.len() as int, p);
        }
        None
    }

    /// The place that `d` names among the beacons, fixes, airports and runway ends
    /// (see [`named_fix`]).
    pub fn convert_fix(&self, d: &str) -> (r: Option<Fix>)
        ensures
            match named_fix(self@, d@) {
                Some(f) => r matches Some(x) && x@ == f,
                None => r is None,
            },
    {
        if let Some(i) = find_beacon(&self.vors, d) {
            let v = &self.vors[i];
            return Some(Fix { designator: v.designator.clone(), coordinate: v.coordinate });
        }
        if let Some(i) = find_beacon(&self.ndbs, d) {
            let v = &self.ndbs[i];
            return Some(Fix { designator: v.designator.clone(), coordinate: v.coordinate });
        }
        if let Some(i) = find_fix(&self.fixes, d) {
            return Some(crate::sct::copy_fix(&self.fixes[i]));
        }
        if let Some(i) = find_airport(&self.airports, d) {
            let a = &self.airports[i];
            return Some(Fix { designator: a.designator.clone(), coordinate: a.coordinate });
        }
        self.convert_rwy(d)
    }
}

// ---------------------------------------------------------------------------
// Coordinates and bearings written as designators

/// Whether every character of `d` is ASCII.
pub open spec fn is_ascii_text(d: Seq<char>) -> bool {
    forall|i: int| 0 <= i < d.len() ==> (#[trigger] d[i]) as u32 <= 127
}

/// Whether `c` is an ASCII digit.
pub open spec fn is_ascii_digit(c: char) -> bool {
    48 <= c as u32 <= 57
}

/// How many ASCII digits `d` begins with.
pub open spec fn digit_run(d: Seq<char>) -> nat
    decreases d.len(),
{
    if d.len() > 0 && is_ascii_digit(d[0]) {
        1 + digit_run(d.drop_first())
    } else {
        0
    }
}

/// The groups that `^(\d{1,6})(N|S)(\d{2,7})(E|W)$` captures in ASCII text `d`.
pub open spec fn coordinate_groups(d: Seq<char>) -> Option<(Seq<char>, Seq<char>, Seq<char>, Seq<char>)> {
    let k = digit_run(d) as int;
    if 1 <= k <= 6 && k + 4 <= d.len() && (d[k] == 'N' || d[k] == 'S') && (d.last() == 'E'
        || d.last() == 'W') && 2 <= d.len() - k - 2 <= 7 && all_radix_digits(
        d.subrange(k + 1, d.len() - 1),
        10,
    ) {
        Some((d.take(k), seq![d[k]], d.subrange(k + 1, d.len() - 1), seq![d.last()]))
    } else {
        None
    }
}

/// Matches ASCII text `d` against `^(\d{1,6})(N|S)(\d{2,7})(E|W)$` with the regex
/// crate (`Regex::new`, then `Regex::captures`) and hands out the four groups.
/// Claimed of the regex crate: in ASCII text `\d` is an ASCII digit, so the pattern
/// matches exactly where one to six digits, `N` or `S`, two to seven digits and `E`
/// or `W` make up the whole text, and the groups are those four parts.
#[verifier::external_body]
fn coordinate_captures(d: &str) -> (r: Option<(String, String, String, String)>)
    requires
        is_ascii_text(d@),
    ensures
        match coordinate_groups(d@) {
            Some((a, h, b, e)) => r matches Some((w, x, y, z)) && w@ == a && x@ == h && y@ == b
                && z@ == e,
            None => r is None,
        },
{
    let re = regex::Regex::new(r"^(\d{1,6})(N|S)(\d{2,7})(E|W)$").unwrap();
    re.captures(d).map(|c| (c[1].to_string(), c[2].to_string(), c[3].to_string(), c[4].to_string()))
}

/// Whether `c` is an ASCII digit or upper-case letter.
pub open spec fn is_upper_alnum(c: char) -> bool {
    is_ascii_digit(c) || 65 <= c as u32 <= 90
}

/// The groups that `^([0-9A-Z]{2,5})(\d{3})(\d{3})$` captures in ASCII text `d`.
pub open spec fn range_bearing_groups(d: Seq<char>) -> Option<(Seq<char>, Seq<char>, Seq<char>)> {
    let n = d.len() as int;
    if 8 <= n <= 11 && (forall|i: int| 0 <= i < n - 6 ==> is_upper_alnum(#[trigger] d[i]))
        && all_radix_digits(d.skip(n - 6), 10) {
        Some((d.take(n - 6), d.subrange(n - 6, n - 3), d.skip(n - 3)))
    } else {
        None
    }
}

/// Matches ASCII text `d` against `^([0-9A-Z]{2,5})(\d{3})(\d{3})$` with the regex
/// crate and hands out the three groups. Claimed of the regex crate: the pattern
/// matches exactly where two to five digits or upper-case letters are followed by
/// six digits up to the end, and the groups are the name and the two triples.
#[verifier::external_body]
fn range_bearing_captures(d: &str) -> (r: Option<(String, String, String)>)
    requires
        is_ascii_text(d@),
    ensures
        match range_bearing_groups(d@) {
            Some((f, b, g)) => r matches Some((x, y, z)) && x@ == f && y@ == b && z@ == g,
            None => r is None,
        },
{
    let re = regex::Regex::new(r"^([0-9A-Z]{2,5})(\d{3})(\d{3})$").unwrap();
    re.captures(d).map(|c| (c[1].to_string(), c[2].to_string(), c[3].to_string()))
}

/// A latitude or longitude field with one leading digit left out gets it back, a
/// leading zero being refused there.
pub open spec fn normalised(s: Seq<char>, short: bool) -> Option<Seq<char>> {
    if short {
        if s[0] == '0' {
            None
        } else {
            Some(seq!['0'] + s)
        }
    } else {
        Some(s)
    }
}

/// The value in thousandths of a second of arc of `s`: `deg` digits of degrees,
/// then two of minutes and two of seconds where there are that many.
pub open spec fn dms_digits_value(s: Seq<char>, deg: int) -> int {
    digits_value(s.take(deg), 10) * 3_600_000 + (if s.len() >= deg + 2 {
        digits_value(s.subrange(deg, deg + 2), 10) * 60_000
    } else {
        0
    }) + (if s.len() >= deg + 4 {
        digits_value(s.subrange(deg + 2, deg + 4), 10) * 1000
    } else {
        0
    })
}

/// The place that the groups of a coordinate designator name: its designator
/// written out in full.
pub open spec fn fix_of_groups(a: Seq<char>, h: Seq<char>, b: Seq<char>, e: Seq<char>) -> Option<FixV> {
    let short_lat = a.len() == 1 || a.len() == 3 || a.len() == 5;
    let short_lng = b.len() == 2 || b.len() == 4 || b.len() == 6;
    match (normalised(a, short_lat), normalised(b, short_lng)) {
        (Some(lat), Some(lng)) => if lng.len() == lat.len() + 1 {
            let y = dms_digits_value(lat, 2);
            let x = dms_digits_value(lng, 3);
            Some(
                FixV {
                    designator: lat + h + lng + e,
                    coordinate: Coordinate {
                        lat: (if h[0] == 'N' { y } else { -y }) as i64,
                        lng: (if e[0] == 'E' { x } else { -x }) as i64,
                    },
                },
            )
        } else {
            None
        },
        _ => None,
    }
}

/// The place that a coordinate designator names (see the module's documentation).
pub open spec fn coordinate_fix(d: Seq<char>) -> Option<FixV> {
    match coordinate_groups(d) {
        Some((a, h, b, e)) => fix_of_groups(a, h, b, e),
        None => None,
    }
}

/// A designator's leading ASCII digits are digits, and no more than it holds.
proof fn lemma_digit_run(d: Seq<char>)
    ensures
        digit_run(d) <= d.len(),
        forall|i: int| 0 <= i < digit_run(d) ==> is_ascii_digit(#[trigger] d[i]),
    decreases d.len(),
{
    if d.len() > 0 && is_ascii_digit(d[0]) {
        lemma_digit_run(d.drop_first());
        assert forall|i: int| 0 <= i < digit_run(d) implies is_ascii_digit(#[trigger] d[i]) by {
            if i > 0 {
                assert(d[i] == d.drop_first()[i - 1]);
            }
        }
    }
}

/// Whether a string is ASCII.
fn ascii_text(d: &str) -> (r: bool)
    ensures
        r == is_ascii_text(d@),
{
    let c = chars_of(d);
    let mut i: usize = 0;
    while i < c.len()
        invariant
            i <= c@.len(),
            c@ == d@,
            forall|k: int| 0 <= k < i ==> (#[trigger] d@[k]) as u32 <= 127,
        decreases c@.len() - i,
    {
        if c[i] as u32 > 127 {
            return false;
        }
        i = i + 1;
    }
    true
}

/// Restores a left-out leading digit (see [`normalised`]).
fn normalise(s: &String, short: bool) -> (r: Option<Vec<char>>)
    requires
        s@.len() > 0,
    ensures
        match normalised(s@, short) {
            Some(n) => r matches Some(v) && v@ == n,
            None => r is None,
        },
{
    let c = chars_of(s.as_str());
    if short {
        if c[0] == '0' {
            return None;
        }
        let mut v: Vec<char> = Vec::new();
        v.push('0');
        let mut i: usize = 0;
        while i < c.len()
            invariant
                i <= c@.len(),
                v@ == seq!['0'] + c@.take(i as int),
            decreases c@.len() - i,
        {
            v.push(c[i]);
            i = i + 1;
            proof {
                assert(v@ =~= seq!['0'] + c@.take(i as int));
            }
        }
        proof {
            assert(c@.take(c@.len() as int) =~= c@);
        }
        Some(v)
    } else {
        Some(c)
    }
}

/// Reads a latitude or longitude field (see [`dms_digits_value`]).
fn dms_digits(s: &Vec<char>, deg: usize) -> (r: i64)
    requires
        all_radix_digits(s@, 10),
        deg == 2 || deg == 3,
        s@.len() == deg || s@.len() == deg + 2 || s@.len() == deg + 4,
    ensures
        r as int == dms_digits_value(s@, deg as int),
        0 <= r < 4_000_000_000,
{
    proof {
        assert forall|a: int, b: int| 0 <= a <= b <= s@.len() implies all_radix_digits(
            #[trigger] s@.subrange(a, b),
            10,
        ) by {
            assert forall|i: int| 0 <= i < b - a implies crate::text::is_radix_digit(
                #[trigger] s@.subrange(a, b)[i],
                10,
            ) by {
                assert(s@.subrange(a, b)[i] == s@[a + i]);
            }
        }
        assert(s@.take(deg as int) =~= s@.subrange(0, deg as int));
        crate::decimal::lemma_pow10_9();
        crate::decimal::lemma_pow10_mono(3, 9);
        crate::decimal::lemma_pow10_mono(2, 9);
        reveal_with_fuel(crate::decimal::pow10, 4);
    }
    let d = read_digits(s.as_slice(), 0, deg).unwrap();
    let mut v: i64 = (d as i64) * 3_600_000;
    if s.len() >= deg + 2 {
        let m = read_digits(s.as_slice(), deg, deg + 2).unwrap();
        v = v + (m as i64) * 60_000;
    }
    if s.len() >= deg + 4 {
        let sec = read_digits(s.as_slice(), deg + 2, deg + 4).unwrap();
        v = v + (sec as i64) * 1000;
    }
    v
}

/// Appends the characters of `b` to `a`.
fn append_chars(a: &mut Vec<char>, b: &[char])
    ensures
        final(a)@ == old(a)@ + b@,
{
    let ghost base = a@;
    let mut i: usize = 0;
    while i < b.len()
        invariant
            i <= b@.len(),
            a@ == base + b@.take(i as int),
        decreases b@.len() - i,
    {
        a.push(b[i]);
        i = i + 1;
        proof {
            assert(a@ =~= base + b@.take(i as int));
        }
    }
    proof {
        assert(b@.take(b@.len() as int) =~= b@);
    }
}

impl Locations {
    /// The place that a coordinate designator names (see [`coordinate_fix`]); none
    /// for text that is not ASCII.
    pub fn convert_coordinate(d: &str) -> (r: Option<Fix>)
        ensures
            is_ascii_text(d@) ==> match coordinate_fix(d@) {
                Some(f) => r matches Some(x) && x@ == f,
                None => r is None,
            },
            !is_ascii_text(d@) ==> r is None,
    {
        if !ascii_text(d) {
            return None;
        }
        match coordinate_captures(d) {
            Some((a, h, b, e)) => {
                proof {
                    lemma_digit_run(d@);
                    let k = digit_run(d@) as int;
                    assert(all_radix_digits(a@, 10)) by {
                        assert forall|i: int| 0 <= i < a@.len() implies crate::text::is_radix_digit(
                            #[trigger] a@[i],
                            10,
                        ) by {
                            assert(a@[i] == d@[i]);
                            assert(is_ascii_digit(d@[i]));
                        }
                    }
                }
                fix_from_groups(&a, &h, &b, &e)
            },
            None => None,
        }
    }

    /// A designator `FIXBBBRRR` (see the module's documentation): the place it
    /// starts from, the bearing in degrees and the range in nautical miles. None
    /// where the designator has another form, is not ASCII, or names no known place.
    pub fn range_bearing(&self, d: &str) -> (r: Option<(Fix, u32, u32)>)
        ensures
            match r {
                Some((f, b, g)) => is_ascii_text(d@) && (range_bearing_groups(d@) matches Some(
                    (n, bt, gt),
                ) && named_fix(self@, n) == Some(f@) && b as int == digits_value(bt, 10) && g as int
                    == digits_value(gt, 10)),
                None => !is_ascii_text(d@) || match range_bearing_groups(d@) {
                    Some((n, _, _)) => named_fix(self@, n) is None,
                    None => true,
                },
            },
    {
        if !ascii_text(d) {
            return None;
        }
        let (n, bt, gt) = match range_bearing_captures(d) {
            Some(g) => g,
            None => {
                return None;
            },
        };
        let bc = chars_of(bt.as_str());
        let gc = chars_of(gt.as_str());
        proof {
            let dd = d@;
            let k = dd.len() - 6;
            assert(bc@ =~= dd.skip(k).subrange(0, 3));
            assert(gc@ =~= dd.skip(k).subrange(3, 6));
            assert(all_radix_digits(bc@, 10)) by {
                assert forall|i: int| 0 <= i < 3 implies crate::text::is_radix_digit(#[trigger] bc@[i], 10) by {
                    assert(bc@[i] == dd.skip(k)[i]);
                }
            }
            assert(all_radix_digits(gc@, 10)) by {
                assert forall|i: int| 0 <= i < 3 implies crate::text::is_radix_digit(#[trigger] gc@[i], 10) by {
                    assert(gc@[i] == dd.skip(k)[i + 3]);
                }
            }
            assert(bc@.subrange(0, 3) =~= bc@);
            assert(gc@.subrange(0, 3) =~= gc@);
        }
        let b = read_digits(bc.as_slice(), 0, 3).unwrap();
        let g = read_digits(gc.as_slice(), 0, 3).unwrap();
        proof {
            crate::decimal::lemma_pow10_9();
            crate::decimal::lemma_pow10_mono(3, 9);
        }
        match self.convert_fix(n.as_str()) {
            Some(f) => Some((f, b as u32, g as u32)),
            None => None,
        }
    }
}

/// The place that a designator names: a beacon, fix, airport or runway end, else a
/// coordinate written as a designator (see the module's documentation).
pub open spec fn designated(l: LocationsV, d: Seq<char>) -> Option<FixV> {
    match named_fix(l, d) {
        Some(f) => Some(f),
        None => if is_ascii_text(d) {
            coordinate_fix(d)
        } else {
            None
        },
    }
}

/// What a waypoint designator names: the place it designates (see [`designated`]),
/// else, for a designator `FIXBBBRRR` whose `FIX` is a known place, that place
/// with the bearing and range.
pub open spec fn waypoint_of(l: LocationsV, d: Seq<char>) -> Option<DesignatedV> {
    match designated(l, d) {
        Some(f) => Some(DesignatedV::Place(f)),
        None => if is_ascii_text(d) {
            match range_bearing_groups(d) {
                Some((n, bt, gt)) => match named_fix(l, n) {
                    Some(f) => Some(
                        DesignatedV::RangeBearing {
                            designator: d,
                            from: f,
                            bearing: digits_value(bt, 10) as u32,
                            range: digits_value(gt, 10) as u32,
                        },
                    ),
                    None => None,
                },
                None => None,
            }
        } else {
            None
        },
    }
}

impl Locations {
    /// What a waypoint designator names (see [`waypoint_of`]): a place, a
    /// coordinate, or a bearing and range from a place.
    pub fn convert_designator(&self, d: &str) -> (r: Option<Designated>)
        ensures
            match waypoint_of(self@, d@) {
                Some(w) => r matches Some(x) && x@ == w,
                None => r is None,
            },
    {
        match self.convert_fix(d) {
            Some(f) => {
                return Some(Designated::Place(f));
            },
            None => {},
        }
        match Self::convert_coordinate(d) {
            Some(f) => {
                return Some(Designated::Place(f));
            },
            None => {},
        }
        match self.range_bearing(d) {
            Some((from, bearing, range)) => {
                let designator = string_from_chars(chars_of(d).as_slice());
                Some(Designated::RangeBearing { designator, from, bearing, range })
            },
            None => None,
        }
    }

    /// Whether a designator names a beacon, fix, airport or runway end.
    pub fn contains_designator(&self, d: &str) -> (r: bool)
        ensures
            r == named_fix(self@, d@) is Some,
    {
        self.convert_fix(d).is_some()
    }

    /// Where a location lies: its coordinate, or the place its name designates. A
    /// name that gives a bearing and range from a place (see [`Designated`]) has no
    /// coordinate here: that point is a geodesic computation left to the caller.
    pub fn convert_location(&self, loc: &crate::sct::Location) -> (r: Option<Coordinate>)
        ensures
            r == match loc@ {
                crate::sct::LocationV::Coordinate(c) => Some(c),
                crate::sct::LocationV::Fix(n) => match designated(self@, n) {
                    Some(f) => Some(f.coordinate),
                    None => None,
                },
            },
    {
        match loc {
            crate::sct::Location::Coordinate(c) => Some(*c),
            crate::sct::Location::Fix(n) => match self.convert_designator(n.as_str()) {
                Some(Designated::Place(f)) => Some(f.coordinate),
                _ => None,
            },
        }
    }
}

/// Builds the place that the groups of a coordinate designator name (see
/// [`fix_of_groups`]).
fn fix_from_groups(a: &String, h: &String, b: &String, e: &String) -> (r: Option<Fix>)
    requires
        1 <= a@.len() <= 6,
        2 <= b@.len() <= 7,
        all_radix_digits(a@, 10),
        all_radix_digits(b@, 10),
        h@.len() == 1,
        e@.len() == 1,
    ensures
        match fix_of_groups(a@, h@, b@, e@) {
            Some(f) => r matches Some(x) && x@ == f,
            None => r is None,
        },
{
    let al = chars_of(a.as_str()).len();
    let bl = chars_of(b.as_str()).len();
    let short_lat = al == 1 || al == 3 || al == 5;
    let short_lng = bl == 2 || bl == 4 || bl == 6;
    let lat = match normalise(a, short_lat) {
        Some(v) => v,
        None => {
            return None;
        },
    };
    let lng = match normalise(b, short_lng) {
        Some(v) => v,
        None => {
            return None;
        },
    };
    if lng.len() != lat.len() + 1 {
        return None;
    }
    proof {
        lemma_normalised_digits(a@, short_lat);
        lemma_normalised_digits(b@, short_lng);
    }
    Some(make_fix(&lat, h, &lng, e))
}

/// The place named by full latitude and longitude fields and their hemispheres.
#[verifier::rlimit(30)]
fn make_fix(lat: &Vec<char>, h: &String, lng: &Vec<char>, e: &String) -> (r: Fix)
    requires
        all_radix_digits(lat@, 10),
        all_radix_digits(lng@, 10),
        lat@.len() == 2 || lat@.len() == 4 || lat@.len() == 6,
        lng@.len() == lat@.len() + 1,
        h@.len() == 1,
        e@.len() == 1,
    ensures
        r@ == (FixV {
            designator: lat@ + h@ + lng@ + e@,
            coordinate: Coordinate {
                lat: (if h@[0] == 'N' {
                    dms_digits_value(lat@, 2)
                } else {
                    -dms_digits_value(lat@, 2)
                }) as i64,
                lng: (if e@[0] == 'E' {
                    dms_digits_value(lng@, 3)
                } else {
                    -dms_digits_value(lng@, 3)
                }) as i64,
            },
        }),
{
    let y = dms_digits(lat, 2);
    let x = dms_digits(lng, 3);
    let hc = chars_of(h.as_str());
    let ec = chars_of(e.as_str());
    let designator = joined(lat, &hc, lng, &ec);
    let lat_v = if hc[0] == 'N' { y } else { -y };
    let lng_v = if ec[0] == 'E' { x } else { -x };
    Fix { designator, coordinate: Coordinate { lat: lat_v, lng: lng_v } }
}

/// Restoring a left-out digit keeps a field all digits.
proof fn lemma_normalised_digits(s: Seq<char>, short: bool)
    requires
        s.len() > 0,
        all_radix_digits(s, 10),
    ensures
        normalised(s, short) matches Some(n) ==> all_radix_digits(n, 10),
{
    if let Some(n) = normalised(s, short) {
        assert forall|i: int| 0 <= i < n.len() implies crate::text::is_radix_digit(#[trigger] n[i], 10) by {
            if short {
                if i > 0 {
                    assert(n[i] == s[i - 1]);
                }
            } else {
                assert(n[i] == s[i]);
            }
        }
    }
}

/// Four pieces of text written one after the other.
fn joined(a: &Vec<char>, b: &Vec<char>, c: &Vec<char>, d: &Vec<char>) -> (r: String)
    ensures
        r@ == a@ + b@ + c@ + d@,
{
    let mut name = a.clone();
    proof {
        assert(name@ == a@);
    }
    append_chars(&mut name, b.as_slice());
    append_chars(&mut name, c.as_slice());
    append_chars(&mut name, d.as_slice());
    string_from_chars(name.as_slice())
}

// ---------------------------------------------------------------------------
// Building the places of an adaptation

/// An airport of the sector file with the runways that name it as their airport.
pub open spec fn airport_with_runways(a: crate::sct::AirportV, rws: Seq<RunwayV>) -> AirportV {
    AirportV {
        designator: a.designator,
        coordinate: a.coordinate,
        runways: rws.filter(|r: RunwayV| r.aerodrome == a.designator),
    }
}

/// What waypoint designators name (see [`waypoint_of`]), those that name nothing
/// left out.
pub open spec fn resolved_waypoints(l: LocationsV, ws: Seq<Seq<char>>) -> Seq<DesignatedV>
    decreases ws.len(),
{
    if ws.len() == 0 {
        seq![]
    } else {
        let r = resolved_waypoints(l, ws.drop_last());
        match waypoint_of(l, ws.last()) {
            Some(f) => r.push(f),
            None => r,
        }
    }
}

/// A procedure of the extension file with its waypoints resolved.
pub open spec fn resolved_procedure(l: LocationsV, p: crate::ese::ProcedureV) -> ProcedureV {
    ProcedureV {
        name: p.name,
        airport: p.airport,
        runway: p.runway,
        waypoints: resolved_waypoints(l, p.waypoints),
    }
}

/// The departure (`sid`) or arrival procedures among `ss`, resolved.
pub open spec fn resolved_procedures(l: LocationsV, ss: Seq<crate::ese::SidStarV>, sid: bool) -> Seq<
    ProcedureV,
>
    decreases ss.len(),
{
    if ss.len() == 0 {
        seq![]
    } else {
        let r = resolved_procedures(l, ss.drop_last(), sid);
        match ss.last() {
            crate::ese::SidStarV::Sid(p) => if sid {
                r.push(resolved_procedure(l, p))
            } else {
                r
            },
            crate::ese::SidStarV::Star(p) => if sid {
                r
            } else {
                r.push(resolved_procedure(l, p))
            },
        }
    }
}

/// The places of a sector file, with an airway graph (the procedures left aside).
pub open spec fn sct_places(sct: crate::sct::SctV, airways: AirwayGraph) -> LocationsV {
    LocationsV {
        fixes: sct.fixes,
        vors: sct.vors,
        ndbs: sct.ndbs,
        airports: sct.airports.map_values(|a: crate::sct::AirportV| airport_with_runways(a, sct.runways)),
        sids: seq![],
        stars: seq![],
        airways,
    }
}

/// The places of an adaptation: those of the sector file, and the procedures of the
/// extension file with their waypoints resolved among them.
pub open spec fn locations_of(sct: crate::sct::SctV, ese: crate::ese::EseV, airways: AirwayGraph) -> LocationsV {
    let l = sct_places(sct, airways);
    LocationsV {
        sids: resolved_procedures(l, ese.sids_stars, true),
        stars: resolved_procedures(l, ese.sids_stars, false),
        ..l
    }
}

/// The runways whose airport is `ad`, copied.
fn runways_of(rws: &Vec<Runway>, ad: &String) -> (r: Vec<Runway>)
    ensures
        runway_views(r@) == runway_views(rws@).filter(|x: RunwayV| x.aerodrome == ad@),
{
    let ghost f = |x: RunwayV| x.aerodrome == ad@;
    let ghost rv = runway_views(rws@);
    let mut r: Vec<Runway> = Vec::new();
    let mut i: usize = 0;
    proof {
        assert(rv.take(0) =~= Seq::<RunwayV>::empty());
    }
    while i < rws.len()
        invariant
            i <= rws@.len(),
            rv == runway_views(rws@),
            f == (|x: RunwayV| x.aerodrome == ad@),
            runway_views(r@) == rv.take(i as int).filter(f),
        decreases rws@.len() - i,
    {
        proof {
            rv.take(i as int).lemma_filter_push(rv[i as int], f);
            assert(rv.take(i as int).push(rv[i as int]) =~= rv.take(i + 1));
            assert(rv[i as int] == rws@[i as int]@);
        }
        if str_eq(rws[i].aerodrome.as_str(), ad.as_str()) {
            let ghost before = runway_views(r@);
            let c = crate::sct::copy_runway(&rws[i]);
            r.push(c);
            proof {
                assert(runway_views(r@) =~= before.push(rv[i as int]));
            }
        }
        i = i + 1;
    }
    proof {
        assert(rv.take(rws@.len() as int) =~= rv);
    }
    r
}

impl Locations {
    /// The places that waypoint designators name (see [`resolved_waypoints`]).
    fn resolve_waypoints(&self, ws: &Vec<String>) -> (r: Vec<Designated>)
        ensures
            designated_views(r@) == resolved_waypoints(self@, crate::ese::string_views(ws@)),
    {
        let ghost wv = crate::ese::string_views(ws@);
        let mut r: Vec<Designated> = Vec::new();
        let mut i: usize = 0;
        proof {
            assert(wv.take(0) =~= Seq::<Seq<char>>::empty());
            assert(designated_views(r@) =~= Seq::<DesignatedV>::empty());
        }
        while i < ws.len()
            invariant
                i <= ws@.len(),
                wv == crate::ese::string_views(ws@),
                designated_views(r@) == resolved_waypoints(self@, wv.take(i as int)),
            decreases ws@.len() - i,
        {
            proof {
                assert(wv.take(i + 1).drop_last() =~= wv.take(i as int));
                assert(wv.take(i + 1).last() == ws@[i as int]@);
            }
            match self.convert_designator(ws[i].as_str()) {
                Some(f) => {
                    let ghost before = designated_views(r@);
                    let ghost fv = f@;
                    r.push(f);
                    proof {
                        assert(designated_views(r@) =~= before.push(fv));
                    }
                },
                None => {},
            }
            i = i + 1;
        }
        proof {
            assert(wv.take(ws@.len() as int) =~= wv);
        }
        r
    }

    /// Builds the places of an adaptation from its sector and extension files and
    /// its airway graph (see [`locations_of`]).
    pub fn from_euroscope(sct: crate::sct::Sct, ese: crate::ese::Ese, airways: AirwayGraph) -> (r:
        Locations)
        ensures
            r@ == locations_of(sct@, ese@, airways),
            r.airways == airways,
    {
        let ghost sv = sct@;
        let ghost ev = ese@;
        let mut airports: Vec<Airport> = Vec::new();
        let mut i: usize = 0;
        let ghost target = sv.airports.map_values(
            |a: crate::sct::AirportV| airport_with_runways(a, sv.runways),
        );
        while i < sct.airports.len()
            invariant
                i <= sct.airports@.len(),
                sv == sct@,
                target == sv.airports.map_values(
                    |a: crate::sct::AirportV| airport_with_runways(a, sv.runways),
                ),
                airport_views(airports@) == target.take(i as int),
            decreases sct.airports@.len() - i,
        {
            let a = &sct.airports[i];
            let rws = runways_of(&sct.runways, &a.designator);
            let ghost before = airport_views(airports@);
            airports.push(Airport { designator: a.designator.clone(), coordinate: a.coordinate, runways: rws });
            proof {
                assert(sv.airports[i as int] == a@);
                assert(airport_views(airports@) =~= before.push(target[i as int]));
                assert(airport_views(airports@) =~= target.take(i + 1));
            }
            i = i + 1;
        }
        proof {
            assert(target.take(sct.airports@.len() as int) =~= target);
        }
        let crate::sct::Sct { fixes, vors, ndbs, .. } = sct;
        let mut l = Locations { fixes, vors, ndbs, airports, airways, sids: Vec::new(), stars: Vec::new() };
        let ghost places = l@;
        proof {
            assert(procedure_views(l.sids@) =~= Seq::<ProcedureV>::empty());
            assert(places == sct_places(sv, airways));
        }
        let mut sids: Vec<SID> = Vec::new();
        let mut stars: Vec<STAR> = Vec::new();
        let mut k: usize = 0;
        proof {
            assert(ev.sids_stars.take(0) =~= Seq::<crate::ese::SidStarV>::empty());
            assert(procedure_views(sids@) =~= Seq::<ProcedureV>::empty());
            assert(procedure_views(stars@) =~= Seq::<ProcedureV>::empty());
        }
        while k < ese.sids_stars.len()
            invariant
                k <= ese.sids_stars@.len(),
                ev == ese@,
                places == l@,
                places == sct_places(sv, airways),
                procedure_views(sids@) == resolved_procedures(places, ev.sids_stars.take(k as int), true),
                procedure_views(stars@) == resolved_procedures(places, ev.sids_stars.take(k as int), false),
            decreases ese.sids_stars@.len() - k,
        {
            proof {
                assert(ev.sids_stars.take(k + 1).drop_last() =~= ev.sids_stars.take(k as int));
                assert(ev.sids_stars.take(k + 1).last() == ese.sids_stars@[k as int]@);
            }
            match &ese.sids_stars[k] {
                crate::ese::SidStar::Sid(p) => {
                    let ghost before = procedure_views(sids@);
                    let wps = l.resolve_waypoints(&p.waypoints);
                    let q = Procedure {
                        name: p.name.clone(),
                        airport: p.airport.clone(),
                        runway: crate::agreements::copy_opt(&p.runway),
                        waypoints: wps,
                    };
                    let ghost qv = q@;
                    sids.push(q);
                    proof {
                        assert(qv == resolved_procedure(places, p@));
                        assert(procedure_views(sids@) =~= before.push(qv));
                    }
                },
                crate::ese::SidStar::Star(p) => {
                    let ghost before = procedure_views(stars@);
                    let wps = l.resolve_waypoints(&p.waypoints);
                    let q = Procedure {
                        name: p.name.clone(),
                        airport: p.airport.clone(),
                        runway: crate::agreements::copy_opt(&p.runway),
                        waypoints: wps,
                    };
                    let ghost qv = q@;
                    stars.push(q);
                    proof {
                        assert(qv == resolved_procedure(places, p@));
                        assert(procedure_views(stars@) =~= before.push(qv));
                    }
                },
            }
            k = k + 1;
        }
        proof {
            assert(ev.sids_stars.take(ese.sids_stars@.len() as int) =~= ev.sids_stars);
        }
        l.sids = sids;
        l.stars = stars;
        l
    }
}

} // verus!
