//! The radar maps: line styles, label alignment, when a map is active, which sector
//! file maps a TopSky map replaces, and the maps themselves as TopSky's maps file
//! defines them, grouped into folders.
use vstd::prelude::*;

use crate::colours::{named_colour, topsky_default, Colour, Colours};
use crate::decimal::{decimal_text, format_decimal};
use crate::lookup::{first_index, lemma_first_index, lemma_first_index_at};
use crate::locations::{designated, Locations, LocationsV};
use crate::sct::{Coordinate, LocationV};

use crate::text::{chars_of, parse_i32, signed_parse_spec, str_eq};

verus! {

/// How a map line is drawn.
#[derive(Debug, PartialEq)]
pub enum LineStyleType {
    Solid,
    Alternate,
    Dot,
    Dash,
    DashDot,
    DashDotDot,
    /// A style defined by name in the TopSky files (the name upper-cased).
    Custom(String),
}

/// A line style type, a custom name as a character sequence.
pub enum LineStyleTypeV {
    Solid,
    Alternate,
    Dot,
    Dash,
    DashDot,
    DashDotDot,
    Custom(Seq<char>),
}

impl View for LineStyleType {
    type V = LineStyleTypeV;

    open spec fn view(&self) -> LineStyleTypeV {
        match self {
            LineStyleType::Solid => LineStyleTypeV::Solid,
            LineStyleType::Alternate => LineStyleTypeV::Alternate,
            LineStyleType::Dot => LineStyleTypeV::Dot,
            LineStyleType::Dash => LineStyleTypeV::Dash,
            LineStyleType::DashDot => LineStyleTypeV::DashDot,
            LineStyleType::DashDotDot => LineStyleTypeV::DashDotDot,
            LineStyleType::Custom(s) => LineStyleTypeV::Custom(s@),
        }
    }
}

/// A line's width in pixels and its style.
#[derive(Debug, PartialEq)]
pub struct LineStyle {
    pub width: i32,
    pub style: LineStyleType,
}

/// A line style, as values.
pub struct LineStyleV {
    pub width: i32,
    pub style: LineStyleTypeV,
}

impl View for LineStyle {
    type V = LineStyleV;

    open spec fn view(&self) -> LineStyleV {
        LineStyleV { width: self.width, style: self.style@ }
    }
}

impl Default for LineStyle {
    fn default() -> (r: Self)
        ensures
            r@ == (LineStyleV { width: 1, style: LineStyleTypeV::Solid }),
    {
        LineStyle { width: 1, style: LineStyleType::Solid }
    }
}

/// What std's `str::to_uppercase` makes of a text.
pub uninterp spec fn uppercase(s: Seq<char>) -> Seq<char>;

/// An ASCII character in upper case: `a` to `z` become `A` to `Z`.
pub open spec fn ascii_upper(c: char) -> char {
    if 97 <= c as u32 <= 122 {
        ((c as u32 - 32) as u8) as char
    } else {
        c
    }
}

/// std's `str::to_uppercase`. Its documentation defines it by Unicode's
/// `Uppercase` property; stated here is what that means for ASCII text: each letter
/// `a` to `z` becomes `A` to `Z` and every other character stays.
#[verifier::external_body]
pub(crate) fn to_uppercase(s: &str) -> (r: String)
    ensures
        r@ == uppercase(s@),
        (forall|i: int| 0 <= i < s@.len() ==> (#[trigger] s@[i]) as u32 <= 127) ==> {
            &&& r@.len() == s@.len()
            &&& forall|i: int| 0 <= i < s@.len() ==> #[trigger] r@[i] == ascii_upper(s@[i])
        },
{
    s.to_uppercase()
}

/// The style type that a style name stands for, compared in upper case.
pub open spec fn line_style_type(name: Seq<char>) -> LineStyleTypeV {
    let u = uppercase(name);
    if u == "DEFAULT"@ || u == "SOLID"@ {
        LineStyleTypeV::Solid
    } else if u == "ALTERNATE"@ {
        LineStyleTypeV::Alternate
    } else if u == "DASH"@ {
        LineStyleTypeV::Dash
    } else if u == "DOT"@ {
        LineStyleTypeV::Dot
    } else if u == "DASHDOT"@ {
        LineStyleTypeV::DashDot
    } else if u == "DASHDOTDOT"@ {
        LineStyleTypeV::DashDotDot
    } else {
        LineStyleTypeV::Custom(u)
    }
}

/// The width that a width field gives: its number, else one pixel.
pub open spec fn line_width(width: Option<Seq<char>>) -> i32 {
    match width {
        Some(w) => match signed_parse_spec(w, 0x8000_0000, 0x7fff_ffff) {
            Some(n) => n as i32,
            None => 1,
        },
        None => 1,
    }
}

impl LineStyle {
    /// The line style of a map's style name and optional width (see
    /// [`line_style_type`] and [`line_width`]).
    pub fn parse(style: &str, width: Option<&str>) -> (r: Self)
        ensures
            r@ == (LineStyleV {
                width: line_width(
                    match width {
                        Some(w) => Some(w@),
                        None => None,
                    },
                ),
                style: line_style_type(style@),
            }),
    {
        let upper = to_uppercase(style);
        let u = upper.as_str();
        let t = if str_eq(u, "DEFAULT") || str_eq(u, "SOLID") {
            LineStyleType::Solid
        } else if str_eq(u, "ALTERNATE") {
            LineStyleType::Alternate
        } else if str_eq(u, "DASH") {
            LineStyleType::Dash
        } else if str_eq(u, "DOT") {
            LineStyleType::Dot
        } else if str_eq(u, "DASHDOT") {
            LineStyleType::DashDot
        } else if str_eq(u, "DASHDOTDOT") {
            LineStyleType::DashDotDot
        } else {
            LineStyleType::Custom(upper)
        };
        let w = match width {
            Some(w) => {
                let cs = chars_of(w);
                match parse_i32(&cs) {
                    Some(n) => n,
                    None => 1,
                }
            },
            None => 1,
        };
        LineStyle { width: w, style: t }
    }
}

/// Horizontal placement of a label relative to its point.
#[derive(Clone, Copy, Debug, PartialEq, Eq, Structural)]
pub enum HorizontalAlignment {
    Left,
    Center,
    Right,
}

impl Default for HorizontalAlignment {
    fn default() -> (r: Self)
        ensures
            r == HorizontalAlignment::Center,
    {
        HorizontalAlignment::Center
    }
}

/// Vertical placement of a label relative to its point.
#[derive(Clone, Copy, Debug, PartialEq, Eq, Structural)]
pub enum VerticalAlignment {
    Top,
    Center,
    Bottom,
}

impl Default for VerticalAlignment {
    fn default() -> (r: Self)
        ensures
            r == VerticalAlignment::Center,
    {
        VerticalAlignment::Center
    }
}

/// Placement of a label relative to its point.
#[derive(Clone, Copy, Debug, PartialEq, Eq, Structural)]
pub struct Alignment {
    pub horizontal: HorizontalAlignment,
    pub vertical: VerticalAlignment,
}

impl Default for Alignment {
    fn default() -> (r: Self)
        ensures
            r == (Alignment {
                horizontal: HorizontalAlignment::Center,
                vertical: VerticalAlignment::Center,
            }),
    {
        Alignment { horizontal: HorizontalAlignment::default(), vertical: VerticalAlignment::default() }
    }
}

/// A map that is active while the controller's own or an online position has one
/// of the identifiers given, and none of those excluded (an unset list places no
/// condition).
#[derive(Debug, PartialEq)]
pub struct ActiveIds {
    pub own: Option<Vec<String>>,
    pub own_excludes: Option<Vec<String>>,
    pub online: Option<Vec<String>>,
    pub online_excludes: Option<Vec<String>>,
}

/// A map that is active while one of the areas given is active and none of those
/// excluded.
#[derive(Debug, PartialEq)]
pub struct ActiveAreas {
    pub areas: Vec<String>,
    pub area_excludes: Option<Vec<String>>,
}

/// Whether a map is active together with another map or while it is not.
#[derive(Clone, Copy, Debug, PartialEq, Eq, Structural)]
pub enum ActiveMapOperator {
    Same,
    Opposite,
}

/// A runway of an aerodrome.
#[derive(Debug, PartialEq)]
pub struct Runway {
    pub icao: String,
    pub designator: String,
}

/// A map that is active while one of the arrival or departure runways given is in
/// use and none of those excluded (an unset list places no condition).
#[derive(Debug, PartialEq)]
pub struct ActiveRunways {
    pub arrival: Option<Vec<Runway>>,
    pub arrival_excludes: Option<Vec<Runway>>,
    pub departure: Option<Vec<Runway>>,
    pub departure_excludes: Option<Vec<Runway>>,
}

/// When a map is shown by itself.
#[derive(Debug, PartialEq)]
pub enum Active {
    True,
    Schedule,
    Aup(Vec<String>),
    Notam(String, Vec<String>),
    Area(ActiveAreas),
    Id(ActiveIds),
    Callsign(ActiveIds),
    Runway(ActiveRunways),
    /// Same as, or opposite to, the map of a folder and name.
    MapState(ActiveMapOperator, String, String),
}

/// A list of names that may be unset, as values.
pub open spec fn names_view(o: Option<Vec<String>>) -> Option<Seq<Seq<char>>> {
    match o {
        Some(v) => Some(crate::ese::string_views(v@)),
        None => None,
    }
}

pub struct ActiveIdsV {
    pub own: Option<Seq<Seq<char>>>,
    pub own_excludes: Option<Seq<Seq<char>>>,
    pub online: Option<Seq<Seq<char>>>,
    pub online_excludes: Option<Seq<Seq<char>>>,
}

impl View for ActiveIds {
    type V = ActiveIdsV;

    open spec fn view(&self) -> ActiveIdsV {
        ActiveIdsV {
            own: names_view(self.own),
            own_excludes: names_view(self.own_excludes),
            online: names_view(self.online),
            online_excludes: names_view(self.online_excludes),
        }
    }
}

pub struct ActiveAreasV {
    pub areas: Seq<Seq<char>>,
    pub area_excludes: Option<Seq<Seq<char>>>,
}

impl View for ActiveAreas {
    type V = ActiveAreasV;

    open spec fn view(&self) -> ActiveAreasV {
        ActiveAreasV {
            areas: crate::ese::string_views(self.areas@),
            area_excludes: names_view(self.area_excludes),
        }
    }
}

pub struct RunwayV {
    pub icao: Seq<char>,
    pub designator: Seq<char>,
}

impl View for Runway {
    type V = RunwayV;

    open spec fn view(&self) -> RunwayV {
        RunwayV { icao: self.icao@, designator: self.designator@ }
    }
}

pub open spec fn runways_view(o: Option<Vec<Runway>>) -> Option<Seq<RunwayV>> {
    match o {
        Some(v) => Some(v@.map_values(|r: Runway| r@)),
        None => None,
    }
}

pub struct ActiveRunwaysV {
    pub arrival: Option<Seq<RunwayV>>,
    pub arrival_excludes: Option<Seq<RunwayV>>,
    pub departure: Option<Seq<RunwayV>>,
    pub departure_excludes: Option<Seq<RunwayV>>,
}

impl View for ActiveRunways {
    type V = ActiveRunwaysV;

    open spec fn view(&self) -> ActiveRunwaysV {
        ActiveRunwaysV {
            arrival: runways_view(self.arrival),
            arrival_excludes: runways_view(self.arrival_excludes),
            departure: runways_view(self.departure),
            departure_excludes: runways_view(self.departure_excludes),
        }
    }
}

pub enum ActiveV {
    True,
    Schedule,
    Aup(Seq<Seq<char>>),
    Notam(Seq<char>, Seq<Seq<char>>),
    Area(ActiveAreasV),
    Id(ActiveIdsV),
    Callsign(ActiveIdsV),
    Runway(ActiveRunwaysV),
    MapState(ActiveMapOperator, Seq<char>, Seq<char>),
}

impl View for Active {
    type V = ActiveV;

    open spec fn view(&self) -> ActiveV {
        match self {
            Active::True => ActiveV::True,
            Active::Schedule => ActiveV::Schedule,
            Active::Aup(v) => ActiveV::Aup(crate::ese::string_views(v@)),
            Active::Notam(i, v) => ActiveV::Notam(i@, crate::ese::string_views(v@)),
            Active::Area(a) => ActiveV::Area(a@),
            Active::Id(a) => ActiveV::Id(a@),
            Active::Callsign(a) => ActiveV::Callsign(a@),
            Active::Runway(a) => ActiveV::Runway(a@),
            Active::MapState(op, f, n) => ActiveV::MapState(*op, f@, n@),
        }
    }
}

/// A copy of a list of strings.
pub fn copy_strings(v: &Vec<String>) -> (r: Vec<String>)
    ensures
        crate::ese::string_views(r@) == crate::ese::string_views(v@),
{
    let mut r: Vec<String> = Vec::new();
    let mut i: usize = 0;
    while i < v.len()
        invariant
            i <= v@.len(),
            crate::ese::string_views(r@) == crate::ese::string_views(v@).take(i as int),
        decreases v@.len() - i,
    {
        let s = v[i].clone();
        let ghost before = crate::ese::string_views(r@);
        r.push(s);
        proof {
            assert(crate::ese::string_views(r@) =~= before.push(s@));
            assert(crate::ese::string_views(v@).take(i + 1) =~= crate::ese::string_views(v@).take(
                i as int,
            ).push(v@[i as int]@));
        }
        i = i + 1;
    }
    proof {
        assert(crate::ese::string_views(v@).take(v@.len() as int) =~= crate::ese::string_views(v@));
    }
    r
}

fn copy_names(o: &Option<Vec<String>>) -> (r: Option<Vec<String>>)
    ensures
        names_view(r) == names_view(*o),
{
    match o {
        Some(v) => Some(copy_strings(v)),
        None => None,
    }
}

fn copy_runways(o: &Option<Vec<Runway>>) -> (r: Option<Vec<Runway>>)
    ensures
        runways_view(r) == runways_view(*o),
{
    match o {
        None => None,
        Some(v) => {
            let mut r: Vec<Runway> = Vec::new();
            let mut i: usize = 0;
            while i < v.len()
                invariant
                    i <= v@.len(),
                    r@.map_values(|x: Runway| x@) == v@.take(i as int).map_values(|x: Runway| x@),
                decreases v@.len() - i,
            {
                let icao = v[i].icao.clone();
                let designator = v[i].designator.clone();
                let x = Runway { icao, designator };
                let ghost before = r@.map_values(|x: Runway| x@);
                r.push(x);
                proof {
                    assert(x@ == v@[i as int]@);
                    assert(r@.map_values(|x: Runway| x@) =~= before.push(x@));
                    assert(v@.take(i + 1).map_values(|x: Runway| x@) =~= v@.take(i as int).map_values(
                        |x: Runway| x@,
                    ).push(v@[i as int]@));
                }
                i = i + 1;
            }
            proof {
                assert(v@.take(v@.len() as int) =~= v@);
            }
            Some(r)
        },
    }
}

impl Active {
    /// A copy of the condition.
    pub fn copy(&self) -> (r: Active)
        ensures
            r@ == self@,
    {
        match self {
            Active::True => Active::True,
            Active::Schedule => Active::Schedule,
            Active::Aup(v) => Active::Aup(copy_strings(v)),
            Active::Notam(i, v) => Active::Notam(i.clone(), copy_strings(v)),
            Active::Area(a) => Active::Area(
                ActiveAreas { areas: copy_strings(&a.areas), area_excludes: copy_names(&a.area_excludes) },
            ),
            Active::Id(a) => Active::Id(
                ActiveIds {
                    own: copy_names(&a.own),
                    own_excludes: copy_names(&a.own_excludes),
                    online: copy_names(&a.online),
                    online_excludes: copy_names(&a.online_excludes),
                },
            ),
            Active::Callsign(a) => Active::Callsign(
                ActiveIds {
                    own: copy_names(&a.own),
                    own_excludes: copy_names(&a.own_excludes),
                    online: copy_names(&a.online),
                    online_excludes: copy_names(&a.online_excludes),
                },
            ),
            Active::Runway(a) => Active::Runway(
                ActiveRunways {
                    arrival: copy_runways(&a.arrival),
                    arrival_excludes: copy_runways(&a.arrival_excludes),
                    departure: copy_runways(&a.departure),
                    departure_excludes: copy_runways(&a.departure_excludes),
                },
            ),
            Active::MapState(op, f, n) => Active::MapState(*op, f.clone(), n.clone()),
        }
    }
}

/// A sector file map that a TopSky map replaces: a whole folder, or one map in it.
#[derive(Debug, PartialEq)]
pub struct OverrideSct {
    pub folder: String,
    pub name: Option<String>,
}

/// Whether the overrides replace the whole sector file folder `folder` (which TopSky
/// then hides).
pub fn overrides_folder(overrides: &Vec<OverrideSct>, folder: &str) -> (r: bool)
    ensures
        r == exists|i: int|
            0 <= i < overrides@.len() && (#[trigger] overrides@[i]).folder@ == folder@
                && overrides@[i].name is None,
{
    let mut i: usize = 0;
    while i < overrides.len()
        invariant
            i <= overrides@.len(),
            forall|k: int|
                0 <= k < i ==> !((#[trigger] overrides@[k]).folder@ == folder@ && overrides@[k].name is None),
        decreases overrides@.len() - i,
    {
        if overrides[i].name.is_none() && str_eq(overrides[i].folder.as_str(), folder) {
            return true;
        }
        i = i + 1;
    }
    false
}

// ---------------------------------------------------------------------------
// Maps grouped into folders

/// A text placed on a map.
#[derive(Debug, PartialEq)]
pub struct Label {
    pub coordinate: Coordinate,
    pub alignment: Alignment,
    pub text: String,
}

pub struct LabelV {
    pub coordinate: Coordinate,
    pub alignment: Alignment,
    pub text: Seq<char>,
}

impl View for Label {
    type V = LabelV;

    open spec fn view(&self) -> LabelV {
        LabelV { coordinate: self.coordinate, alignment: self.alignment, text: self.text@ }
    }
}

/// A symbol placed on a map, with its label and the label's offset in millionths
/// of a pixel.
#[derive(Debug, PartialEq)]
pub struct Symbol {
    pub name: String,
    pub coordinate: Coordinate,
    pub label: Option<String>,
    pub label_alignment: Alignment,
    pub label_offset: (i64, i64),
}

pub struct SymbolV {
    pub name: Seq<char>,
    pub coordinate: Coordinate,
    pub label: Option<Seq<char>>,
    pub label_alignment: Alignment,
    pub label_offset: (i64, i64),
}

impl View for Symbol {
    type V = SymbolV;

    open spec fn view(&self) -> SymbolV {
        SymbolV {
            name: self.name@,
            coordinate: self.coordinate,
            label: match self.label {
                Some(l) => Some(l@),
                None => None,
            },
            label_alignment: self.label_alignment,
            label_offset: self.label_offset,
        }
    }
}

/// Part of a map drawn alike: colour, font size and layer (in millionths), the
/// ASR data it belongs to, the zoom from which it shows (in millionths), its
/// polylines, labels and symbols, and its line style.
#[derive(Debug, PartialEq)]
pub struct MapGroup {
    pub colour: Colour,
    pub font_size: i64,
    pub layer: i64,
    pub asr_data: Option<Vec<String>>,
    pub zoom: Option<i64>,
    pub lines: Vec<Vec<Coordinate>>,
    pub labels: Vec<Label>,
    pub symbols: Vec<Symbol>,
    pub line_style: LineStyle,
}

pub struct MapGroupV {
    pub colour: Colour,
    pub font_size: i64,
    pub layer: i64,
    pub asr_data: Option<Seq<Seq<char>>>,
    pub zoom: Option<i64>,
    pub lines: Seq<Seq<Coordinate>>,
    pub labels: Seq<LabelV>,
    pub symbols: Seq<SymbolV>,
    pub line_style: LineStyleV,
}

pub open spec fn polyline_views(v: Seq<Vec<Coordinate>>) -> Seq<Seq<Coordinate>> {
    v.map_values(|l: Vec<Coordinate>| l@)
}

impl View for MapGroup {
    type V = MapGroupV;

    open spec fn view(&self) -> MapGroupV {
        MapGroupV {
            colour: self.colour,
            font_size: self.font_size,
            layer: self.layer,
            asr_data: names_view(self.asr_data),
            zoom: self.zoom,
            lines: polyline_views(self.lines@),
            labels: self.labels@.map_values(|l: Label| l@),
            symbols: self.symbols@.map_values(|s: Symbol| s@),
            line_style: self.line_style@,
        }
    }
}

/// A change to how what follows in a map is drawn.
pub enum GroupChange {
    Colour(Colour),
    AsrData(Option<Seq<Seq<char>>>),
    Layer(i64),
    Zoom(i64),
    FontSize(crate::topsky_maps::FontSize),
    Style(LineStyleV),
}

/// A number held to the range of `i64`.
pub open spec fn clamp64(v: int) -> i64 {
    if v > i64::MAX {
        i64::MAX
    } else if v < i64::MIN {
        i64::MIN
    } else {
        v as i64
    }
}

/// The product of two numbers in millionths, in millionths, the fraction cut off
/// towards zero.
pub open spec fn micro_product(a: int, b: int) -> int {
    let p = a * b;
    if p >= 0 {
        p / 1_000_000
    } else {
        -((-p) / 1_000_000)
    }
}

/// A font size after a change; the default size where the change asks for it.
/// Sums and products that leave the range of `i64` are held to it.
pub open spec fn changed_font_size(size: i64, f: crate::topsky_maps::FontSize, default: i64) -> i64 {
    match f {
        crate::topsky_maps::FontSize::Exact(v) => v,
        crate::topsky_maps::FontSize::Add(v) => clamp64(size + v),
        crate::topsky_maps::FontSize::Subtract(v) => clamp64(size - v),
        crate::topsky_maps::FontSize::Multiply(v) => clamp64(micro_product(size as int, v as int)),
        crate::topsky_maps::FontSize::Default => default,
    }
}

/// A group with a change applied.
pub open spec fn apply_change(g: MapGroupV, c: GroupChange, default_font_size: i64) -> MapGroupV {
    match c {
        GroupChange::Colour(x) => MapGroupV { colour: x, ..g },
        GroupChange::AsrData(a) => MapGroupV { asr_data: a, ..g },
        GroupChange::Layer(l) => MapGroupV { layer: l, ..g },
        GroupChange::Zoom(z) => MapGroupV { zoom: Some(z), ..g },
        GroupChange::FontSize(f) => MapGroupV {
            font_size: changed_font_size(g.font_size, f, default_font_size),
            ..g
        },
        GroupChange::Style(s) => MapGroupV { line_style: s, ..g },
    }
}

/// Whether nothing has been drawn in a group yet.
pub open spec fn group_is_empty(g: MapGroupV) -> bool {
    g.lines.len() == 0 && g.symbols.len() == 0 && g.labels.len() == 0
}

/// The groups of a map after a change: the last group changes where nothing has
/// been drawn in it yet, else a new group like it, with nothing drawn, follows.
pub open spec fn config_change(groups: Seq<MapGroupV>, c: GroupChange, default_font_size: i64) -> Seq<
    MapGroupV,
> {
    let last = groups.last();
    if group_is_empty(last) {
        groups.update(groups.len() - 1, apply_change(last, c, default_font_size))
    } else {
        groups.push(
            apply_change(
                MapGroupV { lines: seq![], labels: seq![], symbols: seq![], ..last },
                c,
                default_font_size,
            ),
        )
    }
}

fn clamp_i128(v: i128) -> (r: i64)
    ensures
        r == clamp64(v as int),
{
    if v > i64::MAX as i128 {
        i64::MAX
    } else if v < i64::MIN as i128 {
        i64::MIN
    } else {
        v as i64
    }
}

fn changed_font_size_exec(size: i64, f: crate::topsky_maps::FontSize, default: i64) -> (r: i64)
    ensures
        r == changed_font_size(size, f, default),
{
    match f {
        crate::topsky_maps::FontSize::Exact(v) => v,
        crate::topsky_maps::FontSize::Add(v) => clamp_i128(size as i128 + v as i128),
        crate::topsky_maps::FontSize::Subtract(v) => clamp_i128(size as i128 - v as i128),
        crate::topsky_maps::FontSize::Multiply(v) => {
            let a = size as i128;
            let b = v as i128;
            assert(-0x8000_0000_0000_0000 * 0x8000_0000_0000_0000 <= a * b
                <= 0x8000_0000_0000_0000 * 0x8000_0000_0000_0000) by (nonlinear_arith)
                requires
                    -0x8000_0000_0000_0000 <= a <= 0x7fff_ffff_ffff_ffff,
                    -0x8000_0000_0000_0000 <= b <= 0x7fff_ffff_ffff_ffff,
            ;
            let p = a * b;
            let q = if p >= 0 {
                p / 1_000_000
            } else {
                -((-p) / 1_000_000)
            };
            clamp_i128(q)
        },
        crate::topsky_maps::FontSize::Default => default,
    }
}

fn apply_change_exec(g: &mut MapGroup, c: GroupChangeRead, default_font_size: i64)
    ensures
        final(g)@ == apply_change(old(g)@, change_view(c), default_font_size),
{
    match c {
        GroupChangeRead::Colour(x) => {
            g.colour = x;
        },
        GroupChangeRead::AsrData(a) => {
            g.asr_data = a;
        },
        GroupChangeRead::Layer(l) => {
            g.layer = l;
        },
        GroupChangeRead::Zoom(z) => {
            g.zoom = Some(z);
        },
        GroupChangeRead::FontSize(f) => {
            g.font_size = changed_font_size_exec(g.font_size, f, default_font_size);
        },
        GroupChangeRead::Style(s) => {
            g.line_style = s;
        },
    }
}

/// A change to how what follows is drawn, as values to apply.
pub enum GroupChangeRead {
    Colour(Colour),
    AsrData(Option<Vec<String>>),
    Layer(i64),
    Zoom(i64),
    FontSize(crate::topsky_maps::FontSize),
    Style(LineStyle),
}

pub open spec fn change_view(c: GroupChangeRead) -> GroupChange {
    match c {
        GroupChangeRead::Colour(x) => GroupChange::Colour(x),
        GroupChangeRead::AsrData(a) => GroupChange::AsrData(names_view(a)),
        GroupChangeRead::Layer(l) => GroupChange::Layer(l),
        GroupChangeRead::Zoom(z) => GroupChange::Zoom(z),
        GroupChangeRead::FontSize(f) => GroupChange::FontSize(f),
        GroupChangeRead::Style(s) => GroupChange::Style(s@),
    }
}

pub open spec fn group_views(v: Seq<MapGroup>) -> Seq<MapGroupV> {
    v.map_values(|g: MapGroup| g@)
}

/// A copy of a line style.
fn copy_line_style(s: &LineStyle) -> (r: LineStyle)
    ensures
        r@ == s@,
{
    LineStyle {
        width: s.width,
        style: match &s.style {
            LineStyleType::Solid => LineStyleType::Solid,
            LineStyleType::Alternate => LineStyleType::Alternate,
            LineStyleType::Dot => LineStyleType::Dot,
            LineStyleType::Dash => LineStyleType::Dash,
            LineStyleType::DashDot => LineStyleType::DashDot,
            LineStyleType::DashDotDot => LineStyleType::DashDotDot,
            LineStyleType::Custom(n) => LineStyleType::Custom(n.clone()),
        },
    }
}

/// Applies a change to the groups of a map (see [`config_change`]).
fn config_change_exec(groups: &mut Vec<MapGroup>, c: GroupChangeRead, default_font_size: i64)
    requires
        old(groups)@.len() > 0,
    ensures
        final(groups)@.len() > 0,
        group_views(final(groups)@) == config_change(
            group_views(old(groups)@),
            change_view(c),
            default_font_size,
        ),
{
    let ghost o = group_views(groups@);
    let mut last = groups.pop().unwrap();
    proof {
        assert(group_views(groups@) =~= o.drop_last());
        assert(last@ == o.last());
    }
    if last.lines.len() == 0 && last.symbols.len() == 0 && last.labels.len() == 0 {
        apply_change_exec(&mut last, c, default_font_size);
        let ghost mid = group_views(groups@);
        let ghost lv = last@;
        groups.push(last);
        proof {
            assert(group_views(groups@) =~= mid.push(lv));
        }
    } else {
        let asr_data = match &last.asr_data {
            Some(v) => Some(copy_strings(v)),
            None => None,
        };
        let mut next = MapGroup {
            colour: last.colour,
            font_size: last.font_size,
            layer: last.layer,
            asr_data,
            zoom: last.zoom,
            lines: Vec::new(),
            labels: Vec::new(),
            symbols: Vec::new(),
            line_style: copy_line_style(&last.line_style),
        };
        proof {
            assert(next@.lines =~= Seq::<Seq<Coordinate>>::empty());
            assert(next@.labels =~= Seq::<LabelV>::empty());
            assert(next@.symbols =~= Seq::<SymbolV>::empty());
            assert(next@.asr_data == o.last().asr_data);
            assert(next@ == (MapGroupV { lines: seq![], labels: seq![], symbols: seq![], ..o.last() }));
        }
        apply_change_exec(&mut next, c, default_font_size);
        let ghost mid = group_views(groups@);
        let ghost lv = last@;
        let ghost nv = next@;
        groups.push(last);
        groups.push(next);
        proof {
            assert(group_views(groups@) =~= mid.push(lv).push(nv));
            assert(mid.push(lv) =~= o);
        }
    }
}

/// A map: its name and folder, its groups (never none), whether it is hidden, and
/// when it is active: while all conditions of one of the lists hold.
#[derive(Debug, PartialEq)]
pub struct RadarMap {
    pub name: String,
    pub folder: String,
    pub map_groups: Vec<MapGroup>,
    pub hidden: bool,
    pub active: Vec<Vec<Active>>,
}

pub struct MapV {
    pub name: Seq<char>,
    pub folder: Seq<char>,
    pub map_groups: Seq<MapGroupV>,
    pub hidden: bool,
    pub active: Seq<Seq<ActiveV>>,
}

pub open spec fn active_views(v: Seq<Vec<Active>>) -> Seq<Seq<ActiveV>> {
    v.map_values(|l: Vec<Active>| l@.map_values(|a: Active| a@))
}

impl View for RadarMap {
    type V = MapV;

    open spec fn view(&self) -> MapV {
        MapV {
            name: self.name@,
            folder: self.folder@,
            map_groups: group_views(self.map_groups@),
            hidden: self.hidden,
            active: active_views(self.active@),
        }
    }
}

/// What building maps from TopSky's draws on: the map settings, the colours by
/// name and the colour scheme, and the places.
pub struct MapContext {
    pub font_size: i64,
    pub layer: i64,
    pub label_offset: (i64, i64),
    pub auto_folder: Seq<char>,
    pub colours: Seq<(Seq<char>, Colour)>,
    pub coopans: bool,
    pub locations: LocationsV,
}

/// The context that settings, colours and places give.
pub open spec fn map_context(
    settings: crate::settings::Settings,
    colours: Colours,
    locations: LocationsV,
) -> MapContext {
    MapContext {
        font_size: settings.maps.font_size,
        layer: settings.maps.layer,
        label_offset: settings.maps.label_offset,
        auto_folder: settings.maps.auto_folder@,
        colours: colours.named(),
        coopans: settings.coopans,
        locations,
    }
}

/// A colour named in a map (see [`Colours::get`]).
pub open spec fn colour_for(ctx: MapContext, name: Seq<char>) -> Option<Colour> {
    match named_colour(ctx.colours, name) {
        Some(c) => Some(c),
        None => topsky_default(ctx.coopans, name),
    }
}

/// Where a place lies (see [`Locations::convert_location`]).
pub open spec fn located(l: LocationsV, loc: LocationV) -> Option<Coordinate> {
    match loc {
        LocationV::Coordinate(c) => Some(c),
        LocationV::Fix(n) => match designated(l, n) {
            Some(f) => Some(f.coordinate),
            None => None,
        },
    }
}

/// The coordinates of the places of a polyline, leaving out those that cannot be
/// located.
pub open spec fn located_points(l: LocationsV, pts: Seq<LocationV>) -> Seq<Coordinate>
    decreases pts.len(),
{
    if pts.len() == 0 {
        seq![]
    } else {
        let r = located_points(l, pts.drop_last());
        match located(l, pts.last()) {
            Some(c) => r.push(c),
            None => r,
        }
    }
}

/// The alignment of labels that give none.
pub open spec fn centred() -> Alignment {
    Alignment { horizontal: HorizontalAlignment::Center, vertical: VerticalAlignment::Center }
}

/// The first group of a map: its colour, the default font size and layer, solid
/// lines of one pixel, and nothing drawn.
pub open spec fn default_group(font_size: i64, layer: i64, colour: Colour) -> MapGroupV {
    MapGroupV {
        colour,
        font_size,
        layer,
        asr_data: None,
        zoom: None,
        lines: seq![],
        labels: seq![],
        symbols: seq![],
        line_style: LineStyleV { width: 1, style: LineStyleTypeV::Solid },
    }
}

/// A map with its last group replaced.
pub open spec fn with_last_group(m: MapV, g: MapGroupV) -> MapV {
    MapV { map_groups: m.map_groups.update(m.map_groups.len() - 1, g), ..m }
}

/// A map with a change to how what follows is drawn.
pub open spec fn changed(ctx: MapContext, m: MapV, c: GroupChange) -> MapV {
    MapV { map_groups: config_change(m.map_groups, c, ctx.font_size), ..m }
}

/// A map after one of its TopSky rules. What cannot be located is left out; a
/// colour that cannot be found changes nothing; an `AND_ACTIVE` joins the last
/// `ACTIVE` and is dropped when there is none.
pub open spec fn apply_rule(ctx: MapContext, m: MapV, r: crate::topsky_maps::MapRuleV) -> MapV {
    let g = m.map_groups.last();
    match r {
        crate::topsky_maps::MapRuleV::Folder(f) => MapV { folder: f, ..m },
        crate::topsky_maps::MapRuleV::Hidden => MapV { hidden: true, ..m },
        crate::topsky_maps::MapRuleV::Colour(n) => match colour_for(ctx, n) {
            Some(c) => changed(ctx, m, GroupChange::Colour(c)),
            None => m,
        },
        crate::topsky_maps::MapRuleV::AsrData(a) => changed(ctx, m, GroupChange::AsrData(a)),
        crate::topsky_maps::MapRuleV::Active(a) => MapV { active: m.active.push(seq![a]), ..m },
        crate::topsky_maps::MapRuleV::AndActive(a) => if m.active.len() > 0 {
            MapV { active: m.active.update(m.active.len() - 1, m.active.last().push(a)), ..m }
        } else {
            m
        },
        crate::topsky_maps::MapRuleV::Layer(l) => changed(ctx, m, GroupChange::Layer(l)),
        crate::topsky_maps::MapRuleV::Zoom(z) => changed(ctx, m, GroupChange::Zoom(z)),
        crate::topsky_maps::MapRuleV::FontSize(f) => changed(ctx, m, GroupChange::FontSize(f)),
        crate::topsky_maps::MapRuleV::LineStyle(s) => changed(ctx, m, GroupChange::Style(s)),
        crate::topsky_maps::MapRuleV::Symbol(s) => match located(ctx.locations, s.location) {
            Some(c) => with_last_group(
                m,
                MapGroupV {
                    symbols: g.symbols.push(
                        SymbolV {
                            name: s.name,
                            coordinate: c,
                            label: match s.label {
                                Some(l) => Some(l.text),
                                None => None,
                            },
                            label_alignment: match s.label_alignment {
                                Some(a) => a,
                                None => centred(),
                            },
                            label_offset: match s.label {
                                Some(l) => l.pos,
                                None => ctx.label_offset,
                            },
                        },
                    ),
                    ..g
                },
            ),
            None => m,
        },
        crate::topsky_maps::MapRuleV::Line(ls) => with_last_group(
            m,
            MapGroupV {
                lines: g.lines + ls.map_values(|pts: Seq<LocationV>| located_points(ctx.locations, pts)),
                ..g
            },
        ),
        crate::topsky_maps::MapRuleV::Text(t) => match located(ctx.locations, t.location) {
            Some(c) => with_last_group(
                m,
                MapGroupV {
                    labels: g.labels.push(
                        LabelV {
                            coordinate: c,
                            alignment: match t.alignment {
                                Some(a) => a,
                                None => centred(),
                            },
                            text: t.content,
                        },
                    ),
                    ..g
                },
            ),
            None => m,
        },
        _ => m,
    }
}

/// A map after rules, in order.
pub open spec fn apply_rules(ctx: MapContext, m: MapV, rules: Seq<crate::topsky_maps::MapRuleV>) -> MapV
    decreases rules.len(),
{
    if rules.len() == 0 {
        m
    } else {
        apply_rule(ctx, apply_rules(ctx, m, rules.drop_last()), rules.last())
    }
}

/// The colour of the first `COLOR` rule from position `i` on whose colour can be
/// found.
pub open spec fn first_colour(ctx: MapContext, rules: Seq<crate::topsky_maps::MapRuleV>, i: int) -> Option<
    Colour,
>
    decreases rules.len() - i,
{
    if i >= rules.len() || i < 0 {
        None
    } else {
        match rules[i] {
            crate::topsky_maps::MapRuleV::Colour(n) if colour_for(ctx, n) is Some => colour_for(ctx, n),
            _ => first_colour(ctx, rules, i + 1),
        }
    }
}

/// The map that a TopSky map gives: none without a colour that can be found; else
/// it starts in the folder for maps that name none, with one group of the first
/// colour found, and its rules apply in order.
pub open spec fn map_of(ctx: MapContext, d: crate::topsky_maps::MapDefV) -> Option<MapV> {
    match first_colour(ctx, d.rules, 0) {
        Some(c) => Some(
            apply_rules(
                ctx,
                MapV {
                    name: d.name,
                    folder: ctx.auto_folder,
                    map_groups: seq![default_group(ctx.font_size, ctx.layer, c)],
                    hidden: false,
                    active: seq![],
                },
                d.rules,
            ),
        ),
        None => None,
    }
}

/// The located points of a polyline (see [`located_points`]).
fn located_points_exec(locations: &Locations, pts: &Vec<crate::sct::Location>) -> (r: Vec<Coordinate>)
    ensures
        r@ == located_points(locations@, crate::topsky_maps::location_views(pts@)),
{
    let ghost pv = crate::topsky_maps::location_views(pts@);
    let mut r: Vec<Coordinate> = Vec::new();
    let mut i: usize = 0;
    proof {
        assert(pv.take(0) =~= Seq::<LocationV>::empty());
    }
    while i < pts.len()
        invariant
            i <= pts@.len(),
            pv == crate::topsky_maps::location_views(pts@),
            r@ == located_points(locations@, pv.take(i as int)),
        decreases pts@.len() - i,
    {
        proof {
            assert(pv.take(i + 1).drop_last() =~= pv.take(i as int));
            assert(pv.take(i + 1).last() == pts@[i as int]@);
        }
        match locations.convert_location(&pts[i]) {
            Some(c) => {
                r.push(c);
            },
            None => {},
        }
        i = i + 1;
    }
    proof {
        assert(pv.take(pts@.len() as int) =~= pv);
    }
    r
}

/// The map with its last group taken out, and that group.
fn take_last_group(m: &mut RadarMap) -> (g: MapGroup)
    requires
        old(m).map_groups@.len() > 0,
    ensures
        g@ == old(m)@.map_groups.last(),
        final(m)@ == (MapV { map_groups: old(m)@.map_groups.drop_last(), ..old(m)@ }),
{
    let ghost o = m@;
    let g = m.map_groups.pop().unwrap();
    proof {
        assert(group_views(m.map_groups@) =~= o.map_groups.drop_last());
    }
    g
}

/// Puts a group back as the last one.
fn put_last_group(m: &mut RadarMap, g: MapGroup)
    ensures
        final(m)@ == (MapV { map_groups: old(m)@.map_groups.push(g@), ..old(m)@ }),
{
    let ghost o = m@;
    let ghost gv = g@;
    m.map_groups.push(g);
    proof {
        assert(group_views(m.map_groups@) =~= o.map_groups.push(gv));
    }
}

/// Applies a change to how what follows is drawn (see [`changed`]).
fn change_map(
    m: &mut RadarMap,
    c: GroupChangeRead,
    settings: &crate::settings::Settings,
    colours: &Colours,
    locations: &Locations,
)
    requires
        old(m).map_groups@.len() > 0,
    ensures
        final(m).map_groups@.len() > 0,
        final(m)@ == changed(map_context(*settings, *colours, locations@), old(m)@, change_view(c)),
{
    let ghost o = m@;
    config_change_exec(&mut m.map_groups, c, settings.maps.font_size);
}

/// Applies one TopSky rule to a map (see [`apply_rule`]).
#[verifier::rlimit(40)]
fn apply_rule_exec(
    m: &mut RadarMap,
    r: &crate::topsky_maps::MapRule,
    settings: &crate::settings::Settings,
    colours: &Colours,
    locations: &Locations,
)
    requires
        old(m).map_groups@.len() > 0,
    ensures
        final(m).map_groups@.len() > 0,
        final(m)@ == apply_rule(map_context(*settings, *colours, locations@), old(m)@, r@),
{
    let ghost ctx = map_context(*settings, *colours, locations@);
    let ghost o = m@;
    match r {
        crate::topsky_maps::MapRule::Folder(f) => {
            m.folder = f.clone();
        },
        crate::topsky_maps::MapRule::Hidden => {
            m.hidden = true;
        },
        crate::topsky_maps::MapRule::Colour(n) => {
            match colours.get(n.as_str(), settings.coopans) {
                Some(c) => change_map(m, GroupChangeRead::Colour(c), settings, colours, locations),
                None => {},
            }
        },
        crate::topsky_maps::MapRule::AsrData(a) => {
            let a2 = match a {
                Some(v) => Some(copy_strings(v)),
                None => None,
            };
            change_map(m, GroupChangeRead::AsrData(a2), settings, colours, locations);
        },
        crate::topsky_maps::MapRule::Active(a) => {
            let mut l: Vec<Active> = Vec::new();
            l.push(a.copy());
            let ghost lv = l@.map_values(|x: Active| x@);
            m.active.push(l);
            proof {
                assert(lv =~= seq![a@]);
                assert(active_views(m.active@) =~= o.active.push(seq![a@]));
            }
        },
        crate::topsky_maps::MapRule::AndActive(a) => {
            if m.active.len() > 0 {
                let mut l = m.active.pop().unwrap();
                proof {
                    assert(active_views(m.active@) =~= o.active.drop_last());
                }
                let ghost before = l@.map_values(|x: Active| x@);
                let c = a.copy();
                l.push(c);
                proof {
                    assert(l@.map_values(|x: Active| x@) =~= before.push(a@));
                }
                let ghost mid = active_views(m.active@);
                let ghost lv = l@.map_values(|x: Active| x@);
                m.active.push(l);
                proof {
                    assert(active_views(m.active@) =~= mid.push(lv));
                    assert(active_views(m.active@) =~= o.active.update(
                        o.active.len() - 1,
                        o.active.last().push(a@),
                    ));
                }
            }
        },
        crate::topsky_maps::MapRule::Layer(l) => {
            change_map(m, GroupChangeRead::Layer(*l), settings, colours, locations);
        },
        crate::topsky_maps::MapRule::Zoom(z) => {
            change_map(m, GroupChangeRead::Zoom(*z), settings, colours, locations);
        },
        crate::topsky_maps::MapRule::FontSize(f) => {
            change_map(m, GroupChangeRead::FontSize(*f), settings, colours, locations);
        },
        crate::topsky_maps::MapRule::LineStyle(s) => {
            change_map(m, GroupChangeRead::Style(copy_line_style(s)), settings, colours, locations);
        },
        crate::topsky_maps::MapRule::Symbol(s) => {
            match locations.convert_location(&s.location) {
                Some(c) => {
                    let mut g = take_last_group(m);
                    let sym = Symbol {
                        name: s.name.clone(),
                        coordinate: c,
                        label: match &s.label {
                            Some(l) => Some(l.text.clone()),
                            None => None,
                        },
                        label_alignment: match s.label_alignment {
                            Some(a) => a,
                            None => Alignment::default(),
                        },
                        label_offset: match &s.label {
                            Some(l) => l.pos,
                            None => settings.maps.label_offset,
                        },
                    };
                    let ghost before = g@.symbols;
                    let ghost sv = sym@;
                    g.symbols.push(sym);
                    proof {
                        assert(g@.symbols =~= before.push(sv));
                    }
                    put_last_group(m, g);
                    proof {
                        assert(m@.map_groups =~= o.map_groups.update(
                            o.map_groups.len() - 1,
                            g@,
                        ));
                    }
                },
                None => {},
            }
        },
        crate::topsky_maps::MapRule::Line(ls) => {
            let mut g = take_last_group(m);
            let ghost g0 = g@;
            let ghost lv = crate::topsky_maps::line_views(ls@);
            let ghost want = lv.map_values(
                |pts: Seq<LocationV>| located_points(locations@, pts),
            );
            let mut i: usize = 0;
            while i < ls.len()
                invariant
                    i <= ls@.len(),
                    lv == crate::topsky_maps::line_views(ls@),
                    want == lv.map_values(|pts: Seq<LocationV>| located_points(locations@, pts)),
                    g@ == (MapGroupV { lines: g0.lines + want.take(i as int), ..g0 }),
                decreases ls@.len() - i,
            {
                let pts = located_points_exec(locations, &ls[i].points);
                let ghost before = g@.lines;
                let ghost pv = pts@;
                g.lines.push(pts);
                proof {
                    assert(g@.lines =~= before.push(pv));
                    assert(want.take(i + 1) =~= want.take(i as int).push(want[i as int]));
                    assert(g0.lines + want.take(i + 1) =~= (g0.lines + want.take(i as int)).push(
                        want[i as int],
                    ));
                }
                i = i + 1;
            }
            proof {
                assert(want.take(ls@.len() as int) =~= want);
            }
            put_last_group(m, g);
            proof {
                assert(m@.map_groups =~= o.map_groups.update(o.map_groups.len() - 1, g@));
            }
        },
        crate::topsky_maps::MapRule::Text(t) => {
            match locations.convert_location(&t.location) {
                Some(c) => {
                    let mut g = take_last_group(m);
                    let label = Label {
                        coordinate: c,
                        alignment: match t.alignment {
                            Some(a) => a,
                            None => Alignment::default(),
                        },
                        text: t.content.clone(),
                    };
                    let ghost before = g@.labels;
                    let ghost lv = label@;
                    g.labels.push(label);
                    proof {
                        assert(g@.labels =~= before.push(lv));
                    }
                    put_last_group(m, g);
                    proof {
                        assert(m@.map_groups =~= o.map_groups.update(
                            o.map_groups.len() - 1,
                            g@,
                        ));
                    }
                },
                None => {},
            }
        },
        _ => {},
    }
}

/// The first colour of a map (see [`first_colour`]).
fn first_colour_exec(
    rules: &Vec<crate::topsky_maps::MapRule>,
    settings: &crate::settings::Settings,
    colours: &Colours,
    locations: &Locations,
) -> (r: Option<Colour>)
    ensures
        r == first_colour(
            map_context(*settings, *colours, locations@),
            crate::topsky_maps::rule_views(rules@),
            0,
        ),
{
    let ghost ctx = map_context(*settings, *colours, locations@);
    let ghost rv = crate::topsky_maps::rule_views(rules@);
    let mut i: usize = 0;
    while i < rules.len()
        invariant
            i <= rules@.len(),
            rv == crate::topsky_maps::rule_views(rules@),
            ctx == map_context(*settings, *colours, locations@),
            first_colour(ctx, rv, 0) == first_colour(ctx, rv, i as int),
        decreases rules@.len() - i,
    {
        if let crate::topsky_maps::MapRule::Colour(n) = &rules[i] {
            if let Some(c) = colours.get(n.as_str(), settings.coopans) {
                return Some(c);
            }
        }
        i = i + 1;
    }
    None
}

/// The first group of a map (see [`default_group`]).
fn default_group_exec(settings: &crate::settings::Settings, colour: Colour) -> (g: MapGroup)
    ensures
        g@ == default_group(settings.maps.font_size, settings.maps.layer, colour),
{
    let g = MapGroup {
        colour,
        font_size: settings.maps.font_size,
        layer: settings.maps.layer,
        asr_data: None,
        zoom: None,
        lines: Vec::new(),
        labels: Vec::new(),
        symbols: Vec::new(),
        line_style: LineStyle { width: 1, style: LineStyleType::Solid },
    };
    proof {
        assert(g@.lines =~= Seq::<Seq<Coordinate>>::empty());
        assert(g@.labels =~= Seq::<LabelV>::empty());
        assert(g@.symbols =~= Seq::<SymbolV>::empty());
    }
    g
}

/// The map that a TopSky map gives (see [`map_of`]).
fn map_from_def(
    d: &crate::topsky_maps::MapDef,
    settings: &crate::settings::Settings,
    colours: &Colours,
    locations: &Locations,
) -> (r: Option<RadarMap>)
    ensures
        match map_of(map_context(*settings, *colours, locations@), d@) {
            Some(v) => r matches Some(x) && x@ == v,
            None => r is None,
        },
{
    let ghost ctx = map_context(*settings, *colours, locations@);
    let colour = match first_colour_exec(&d.rules, settings, colours, locations) {
        Some(c) => c,
        None => {
            return None;
        },
    };
    let mut groups: Vec<MapGroup> = Vec::new();
    groups.push(default_group_exec(settings, colour));
    let mut m = RadarMap {
        name: d.name.clone(),
        folder: settings.maps.auto_folder.clone(),
        map_groups: groups,
        hidden: false,
        active: Vec::new(),
    };
    let ghost m0 = m@;
    let ghost rv = crate::topsky_maps::rule_views(d.rules@);
    proof {
        assert(m0.map_groups =~= seq![default_group(ctx.font_size, ctx.layer, colour)]);
        assert(m0.active =~= Seq::<Seq<ActiveV>>::empty());
        assert(rv.take(0) =~= Seq::<crate::topsky_maps::MapRuleV>::empty());
    }
    let mut i: usize = 0;
    while i < d.rules.len()
        invariant
            i <= d.rules@.len(),
            ctx == map_context(*settings, *colours, locations@),
            rv == crate::topsky_maps::rule_views(d.rules@),
            m.map_groups@.len() > 0,
            m@ == apply_rules(ctx, m0, rv.take(i as int)),
        decreases d.rules@.len() - i,
    {
        proof {
            assert(rv.take(i + 1).drop_last() =~= rv.take(i as int));
            assert(rv.take(i + 1).last() == d.rules@[i as int]@);
        }
        apply_rule_exec(&mut m, &d.rules[i], settings, colours, locations);
        i = i + 1;
    }
    proof {
        assert(rv.take(d.rules@.len() as int) =~= rv);
    }
    Some(m)
}

/// A folder of maps.
#[derive(Debug, PartialEq)]
pub struct Folder {
    pub name: String,
    pub hidden: bool,
    pub maps: Vec<RadarMap>,
}

pub struct FolderV {
    pub name: Seq<char>,
    pub hidden: bool,
    pub maps: Seq<MapV>,
}

impl View for Folder {
    type V = FolderV;

    open spec fn view(&self) -> FolderV {
        FolderV { name: self.name@, hidden: self.hidden, maps: self.maps@.map_values(|m: RadarMap| m@) }
    }
}

pub open spec fn folder_views(v: Seq<Folder>) -> Seq<FolderV> {
    v.map_values(|f: Folder| f@)
}

/// A name with `_` and a number after it.
pub open spec fn suffixed(base: Seq<char>, i: nat) -> Seq<char> {
    base + seq!['_'] + decimal_text(i)
}

pub open spec fn map_names(maps: Seq<MapV>) -> Seq<Seq<char>> {
    maps.map_values(|m: MapV| m.name)
}

/// The least number from `i` on for which the suffixed name is not among `names`,
/// looking no further than two past the number of names (nor past the largest
/// number that a `u64` counts to).
pub open spec fn free_suffix(names: Seq<Seq<char>>, base: Seq<char>, i: nat) -> nat
    decreases names.len() + 2 - i,
{
    if i >= names.len() + 2 || i >= 0xffff_ffff_ffff_fff0 || !names.contains(suffixed(base, i)) {
        i
    } else {
        free_suffix(names, base, i + 1)
    }
}

/// Whether the overrides replace the whole folder (see [`overrides_folder`]).
pub open spec fn overridden(overrides: Seq<OverrideSct>, folder: Seq<char>) -> bool {
    exists|i: int|
        0 <= i < overrides.len() && (#[trigger] overrides[i]).folder@ == folder
            && overrides[i].name is None
}

/// Folders of the given name.
pub open spec fn folder_named(folders: Seq<FolderV>, name: Seq<char>) -> spec_fn(int) -> bool {
    |j: int| folders[j].name == name
}

/// Folders with a map added: to the folder of its name, where the map is renamed
/// `name_2`, `name_3`, ... while its name is taken; else in a new folder, hidden
/// when it is the folder for maps that name none or one that the overrides
/// replace.
pub open spec fn add_map(
    auto_folder: Seq<char>,
    overrides: Seq<OverrideSct>,
    folders: Seq<FolderV>,
    m: MapV,
) -> Seq<FolderV> {
    match first_index(folders.len() as int, folder_named(folders, m.folder)) {
        Some(j) => {
            let names = map_names(folders[j].maps);
            let name = if names.contains(m.name) {
                suffixed(m.name, free_suffix(names, m.name, 2))
            } else {
                m.name
            };
            folders.update(j, FolderV { maps: folders[j].maps.push(MapV { name, ..m }), ..folders[j] })
        },
        None => folders.push(
            FolderV {
                name: m.folder,
                hidden: m.folder == auto_folder || overridden(overrides, m.folder),
                maps: seq![m],
            },
        ),
    }
}

/// The folders of the maps that TopSky's maps give, in the order in which they
/// first occur, and in each the maps in order.
pub open spec fn map_folders(
    ctx: MapContext,
    overrides: Seq<OverrideSct>,
    defs: Seq<crate::topsky_maps::MapDefV>,
) -> Seq<FolderV>
    decreases defs.len(),
{
    if defs.len() == 0 {
        seq![]
    } else {
        let f = map_folders(ctx, overrides, defs.drop_last());
        match map_of(ctx, defs.last()) {
            Some(m) => add_map(ctx.auto_folder, overrides, f, m),
            None => f,
        }
    }
}

/// Whether one of the maps bears `name`.
fn names_contain(maps: &Vec<RadarMap>, name: &Vec<char>) -> (r: bool)
    ensures
        r == map_names(maps@.map_values(|m: RadarMap| m@)).contains(name@),
{
    let ghost names = map_names(maps@.map_values(|m: RadarMap| m@));
    let mut i: usize = 0;
    while i < maps.len()
        invariant
            i <= maps@.len(),
            names == map_names(maps@.map_values(|m: RadarMap| m@)),
            forall|k: int| 0 <= k < i ==> names[k] != name@,
        decreases maps@.len() - i,
    {
        let cs = crate::text::chars_of(maps[i].name.as_str());
        if crate::text::chars_eq(cs.as_slice(), name.as_slice()) {
            proof {
                assert(names[i as int] == name@);
            }
            return true;
        }
        i = i + 1;
    }
    false
}

/// A name with `_` and a number after it (see [`suffixed`]).
fn suffixed_exec(base: &Vec<char>, i: u64) -> (r: Vec<char>)
    ensures
        r@ == suffixed(base@, i as nat),
{
    let mut r = crate::text::copy_range(base.as_slice(), 0, base.len());
    r.push('_');
    let digits = format_decimal(i);
    let mut k: usize = 0;
    let ghost start = r@;
    proof {
        assert(base@.subrange(0, base@.len() as int) =~= base@);
        assert(start == base@ + seq!['_']);
    }
    while k < digits.len()
        invariant
            k <= digits@.len(),
            r@ == start + digits@.take(k as int),
        decreases digits@.len() - k,
    {
        r.push(digits[k]);
        proof {
            assert(digits@.take(k + 1) =~= digits@.take(k as int).push(digits@[k as int]));
        }
        k = k + 1;
    }
    proof {
        assert(digits@.take(digits@.len() as int) =~= digits@);
    }
    r
}

/// Adds a map to its folder (see [`add_map`]).
fn add_map_exec(folders: &mut Vec<Folder>, m: RadarMap, auto_folder: &String, overrides: &Vec<OverrideSct>)
    ensures
        folder_views(final(folders)@) == add_map(auto_folder@, overrides@, folder_views(old(folders)@), m@),
{
    let ghost o = folder_views(folders@);
    let ghost m_param = m@;
    let ghost p = folder_named(o, m@.folder);
    let mut j: usize = 0;
    while j < folders.len()
        invariant
            j <= folders@.len(),
            o == folder_views(folders@),
            o == folder_views(old(folders)@),
            m@ == m_param,
            p == folder_named(o, m@.folder),
            forall|k: int| 0 <= k < j ==> !#[trigger] p(k),
        decreases folders@.len() - j,
    {
        if crate::text::str_eq(folders[j].name.as_str(), m.folder.as_str()) {
            proof {
                assert(p(j as int));
                lemma_first_index_at(o.len() as int, p, j as int);
            }
            let mut m = m;
            let ghost m_old = m@;
            let ghost names = map_names(o[j as int].maps);
            let base = crate::text::chars_of(m.name.as_str());
            proof {
                assert(o[j as int].maps == folders@[j as int].maps@.map_values(|m: RadarMap| m@));
                assert(base@ == m_old.name);
            }
            let taken = names_contain(&folders[j].maps, &base);
            proof {
                assert(taken == names.contains(m_old.name));
            }
            if taken {
                let mut i: u64 = 2;
                let n = folders[j].maps.len() as u64;
                while i - 2 < n && i < 0xffff_ffff_ffff_fff0 && names_contain(
                    &folders[j].maps,
                    &suffixed_exec(&base, i),
                )
                    invariant
                        j < folders@.len(),
                        2 <= i <= n + 2,
                        n == folders@[j as int].maps@.len(),
                        o == folder_views(folders@),
                        names == map_names(o[j as int].maps),
                        o[j as int].maps == folders@[j as int].maps@.map_values(|m: RadarMap| m@),
                        free_suffix(names, base@, 2) == free_suffix(names, base@, i as nat),
                    decreases n + 2 - i,
                {
                    i = i + 1;
                }
                proof {
                    assert(names.len() == n);
                    assert(free_suffix(names, base@, i as nat) == i as nat);
                }
                let new_name = suffixed_exec(&base, i);
                m.name = crate::text::string_from_chars(new_name.as_slice());
                proof {
                    assert(m@ == (MapV { name: suffixed(m_old.name, free_suffix(names, m_old.name, 2)), ..m_old }));
                }
            } else {
                proof {
                    assert(!names.contains(m_old.name));
                    assert(m@ == (MapV { name: m_old.name, ..m_old }));
                }
            }
            let ghost mv = m@;
            let ghost before = folders@[j as int]@.maps;
            folders[j].maps.push(m);
            proof {
                assert(folders@[j as int]@.maps =~= before.push(mv));
                assert(folder_views(folders@) =~= o.update(
                    j as int,
                    FolderV { maps: o[j as int].maps.push(mv), ..o[j as int] },
                ));
                assert(first_index(o.len() as int, p) == Some(j as int));
                let name = if names.contains(m_old.name) {
                    suffixed(m_old.name, free_suffix(names, m_old.name, 2))
                } else {
                    m_old.name
                };
                assert(mv == (MapV { name, ..m_old }));
                assert(m_old == m_param);
                assert(o == folder_views(old(folders)@));
                assert(add_map(auto_folder@, overrides@, o, m_old) == o.update(
                    j as int,
                    FolderV { maps: o[j as int].maps.push(MapV { name, ..m_old }), ..o[j as int] },
                ));
            }
            return;
        }
        proof {
            assert(!p(j as int));
        }
        j = j + 1;
    }
    proof {
        lemma_first_index(o.len() as int, p);
    }
    let hidden = crate::text::str_eq(m.folder.as_str(), auto_folder.as_str()) || overrides_folder(
        overrides,
        m.folder.as_str(),
    );
    let ghost mv = m@;
    let name = m.folder.clone();
    let mut maps: Vec<RadarMap> = Vec::new();
    maps.push(m);
    let f = Folder { name, hidden, maps };
    proof {
        assert(f@.maps =~= seq![mv]);
    }
    folders.push(f);
    proof {
        assert(folder_views(folders@) =~= o.push(f@));
    }
}

/// The radar maps that TopSky's maps give, in folders (see [`map_folders`]).
pub fn from_topsky(
    topsky: &crate::topsky::Topsky,
    settings: &crate::settings::Settings,
    colours: &Colours,
    locations: &Locations,
) -> (r: Vec<Folder>)
    ensures
        folder_views(r@) == map_folders(
            map_context(*settings, *colours, locations@),
            topsky.overrides@,
            crate::topsky_maps::map_views(topsky.maps@),
        ),
{
    let ghost ctx = map_context(*settings, *colours, locations@);
    let ghost dv = crate::topsky_maps::map_views(topsky.maps@);
    let mut folders: Vec<Folder> = Vec::new();
    proof {
        assert(folder_views(folders@) =~= Seq::<FolderV>::empty());
        assert(dv.take(0) =~= Seq::<crate::topsky_maps::MapDefV>::empty());
    }
    let mut i: usize = 0;
    while i < topsky.maps.len()
        invariant
            i <= topsky.maps@.len(),
            ctx == map_context(*settings, *colours, locations@),
            dv == crate::topsky_maps::map_views(topsky.maps@),
            folder_views(folders@) == map_folders(ctx, topsky.overrides@, dv.take(i as int)),
        decreases topsky.maps@.len() - i,
    {
        proof {
            assert(dv.take(i + 1).drop_last() =~= dv.take(i as int));
            assert(dv.take(i + 1).last() == topsky.maps@[i as int]@);
        }
        match map_from_def(&topsky.maps[i], settings, colours, locations) {
            Some(m) => {
                add_map_exec(&mut folders, m, &settings.maps.auto_folder, &topsky.overrides);
            },
            None => {},
        }
        i = i + 1;
    }
    proof {
        assert(dv.take(topsky.maps@.len() as int) =~= dv);
    }
    folders
}

} // verus!
