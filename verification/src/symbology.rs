//! EuroScope Symbology.txt: the colour, size and line style of each kind of screen
//! item, and the drawing rules of the built-in symbols.
//!
//! The file is read line by line, each line without its surrounding blanks:
//!
//! * empty lines, `SYMBOLOGY`, `SYMBOLSIZE`, `END` and the `m_...` settings lines
//!   are passed over;
//! * `SYMBOL:n` opens the drawing rules of symbol type `n`; a number that names no
//!   symbol type opens rules that are dropped;
//! * `SYMBOLITEM:COMMAND args` adds a rule to the open symbol, the arguments being
//!   whole numbers separated by spaces: `MOVETO x y`, `LINETO x y`, `SETPIXEL x y`,
//!   `ARC x y r a b`, `ARC x y rx ry a b`, `FILLARC x y r a b`,
//!   `FILLARC x y rx ry a b`, `ELLIPSE_CIRCLE x y r`, `ELLIPSE x y rx ry`,
//!   `FILLRECT x1 y1 x2 y2`, `POLYGON x1 y1 x2 y2 ...`; angles are taken modulo 360;
//! * any other line is an item `folder:name:colour:size:weight:style:alignment`,
//!   with the colour a EuroScope colour number and the weight a whole number. An
//!   item line closes the open symbol.
//!
//! Any other line, and a `SYMBOLITEM` line with no symbol open, makes the file
//! invalid. Of items with the same folder and name, and of symbols of the same type,
//! the last one counts.
use vstd::prelude::*;

use crate::colours::{euroscope_colour, rgb, Colour};
use crate::lookup::{last_index, lemma_last_index, lemma_last_index_at};
use crate::text::{
    chars_are, chars_start_with, copy_range, lines_spec, parse_i32, parse_i64, parse_unsigned,
    signed_parse_spec, split_chars, split_spec, starts_with, string_from_chars, trim,
    trim_spec, unsigned_parse_spec, views, words, words_spec,
};

verus! {

/// The built-in symbol types, numbered from zero in this order in Symbology.txt.
#[derive(Clone, Copy, Debug, PartialEq, Eq, Structural, Hash)]
pub enum SymbolType {
    Airport,
    NDB,
    VOR,
    Fix,
    AircraftStandby,
    AircraftPrimaryOnly,
    AircraftCorrAlphaCharlieSecondaryOnly,
    AircraftCorrModeSierraSecondaryOnly,
    AircraftCorrModeAlphaCharlie,
    AircraftCorrModeSierra,
    AircraftCorrModeAlphaCharlieIdent,
    AircraftCorrModeSierraIdent,
    AircraftFlightPlanTrack,
    AircraftCoasting,
    HistoryDot,
    GroundAircraft,
    AircraftUncorrModeAlphaCharlieSecondaryOnly,
    AircraftUncorrModeSierraSecondaryOnly,
    AircraftUncorrModeAlphaCharlie,
    AircraftUncorrModeSierra,
    AircraftUncorrModeAlphaCharlieIdent,
    AircraftUncorrModeSierraIdent,
    GroundVehicle,
    GroundRotorcraft,
}

/// The symbol type numbered `n`.
pub open spec fn symbol_type_of(n: int) -> Option<SymbolType> {
    if n == 0 {
        Some(SymbolType::Airport)
    } else if n == 1 {
        Some(SymbolType::NDB)
    } else if n == 2 {
        Some(SymbolType::VOR)
    } else if n == 3 {
        Some(SymbolType::Fix)
    } else if n == 4 {
        Some(SymbolType::AircraftStandby)
    } else if n == 5 {
        Some(SymbolType::AircraftPrimaryOnly)
    } else if n == 6 {
        Some(SymbolType::AircraftCorrAlphaCharlieSecondaryOnly)
    } else if n == 7 {
        Some(SymbolType::AircraftCorrModeSierraSecondaryOnly)
    } else if n == 8 {
        Some(SymbolType::AircraftCorrModeAlphaCharlie)
    } else if n == 9 {
        Some(SymbolType::AircraftCorrModeSierra)
    } else if n == 10 {
        Some(SymbolType::AircraftCorrModeAlphaCharlieIdent)
    } else if n == 11 {
        Some(SymbolType::AircraftCorrModeSierraIdent)
    } else if n == 12 {
        Some(SymbolType::AircraftFlightPlanTrack)
    } else if n == 13 {
        Some(SymbolType::AircraftCoasting)
    } else if n == 14 {
        Some(SymbolType::HistoryDot)
    } else if n == 15 {
        Some(SymbolType::GroundAircraft)
    } else if n == 16 {
        Some(SymbolType::AircraftUncorrModeAlphaCharlieSecondaryOnly)
    } else if n == 17 {
        Some(SymbolType::AircraftUncorrModeSierraSecondaryOnly)
    } else if n == 18 {
        Some(SymbolType::AircraftUncorrModeAlphaCharlie)
    } else if n == 19 {
        Some(SymbolType::AircraftUncorrModeSierra)
    } else if n == 20 {
        Some(SymbolType::AircraftUncorrModeAlphaCharlieIdent)
    } else if n == 21 {
        Some(SymbolType::AircraftUncorrModeSierraIdent)
    } else if n == 22 {
        Some(SymbolType::GroundVehicle)
    } else if n == 23 {
        Some(SymbolType::GroundRotorcraft)
    } else {
        None
    }
}

/// EuroScope's symbol numbers, 0 to 23, in order: the airport, NDB, VOR and fix
/// symbols, then the aircraft symbols from standby to the flight plan track, the
/// coasting aircraft (13), the history dot (14), and the ground and uncorrelated
/// aircraft, ground vehicle and rotorcraft symbols.
pub open spec fn euroscope_symbol_numbers() -> Seq<SymbolType> {
    seq![
            SymbolType::Airport,
            SymbolType::NDB,
            SymbolType::VOR,
            SymbolType::Fix,
            SymbolType::AircraftStandby,
            SymbolType::AircraftPrimaryOnly,
            SymbolType::AircraftCorrAlphaCharlieSecondaryOnly,
            SymbolType::AircraftCorrModeSierraSecondaryOnly,
            SymbolType::AircraftCorrModeAlphaCharlie,
            SymbolType::AircraftCorrModeSierra,
            SymbolType::AircraftCorrModeAlphaCharlieIdent,
            SymbolType::AircraftCorrModeSierraIdent,
            SymbolType::AircraftFlightPlanTrack,
            SymbolType::AircraftCoasting,
            SymbolType::HistoryDot,
            SymbolType::GroundAircraft,
            SymbolType::AircraftUncorrModeAlphaCharlieSecondaryOnly,
            SymbolType::AircraftUncorrModeSierraSecondaryOnly,
            SymbolType::AircraftUncorrModeAlphaCharlie,
            SymbolType::AircraftUncorrModeSierra,
            SymbolType::AircraftUncorrModeAlphaCharlieIdent,
            SymbolType::AircraftUncorrModeSierraIdent,
            SymbolType::GroundVehicle,
            SymbolType::GroundRotorcraft,
    ]
}

/// Symbol numbers follow EuroScope's numbering: number `n` below 24 names the
/// `n`-th symbol of [`euroscope_symbol_numbers`] (13 the coasting aircraft, 14 the
/// history dot), no other number names a symbol, and different numbers name
/// different symbols.
pub proof fn lemma_symbol_numbers(n: int, m: int)
    ensures
        0 <= n < 24 ==> symbol_type_of(n) == Some(euroscope_symbol_numbers()[n]),
        !(0 <= n < 24) ==> symbol_type_of(n) is None,
        symbol_type_of(13) == Some(SymbolType::AircraftCoasting),
        symbol_type_of(14) == Some(SymbolType::HistoryDot),
        symbol_type_of(n) is Some && n != m ==> symbol_type_of(n) != symbol_type_of(m),
{
}

/// An item appended to a Symbology is the one found for its folder and name; for
/// any other folder and name the item found is the one found before.
pub proof fn lemma_item_appended(s: SymbologyV, i: ItemV, folder: Seq<char>, name: Seq<char>)
    ensures
        (SymbologyV { items: s.items.push(i), ..s }).item(folder, name) == if i.folder == folder
            && i.name == name {
            Some(i)
        } else {
            s.item(folder, name)
        },
        (SymbologyV { items: seq![], ..s }).item(folder, name) is None,
{
    let t = SymbologyV { items: s.items.push(i), ..s };
    let n = s.items.len() as int;
    let p = item_named(s.items, folder, name);
    let q = item_named(t.items, folder, name);
    if !(i.folder == folder && i.name == name) {
        assert(!q(n));
        assert(last_index(n + 1, q) == last_index(n, q));
        lemma_last_index(n, p);
        lemma_last_index(n, q);
        assert forall|k: int| 0 <= k < n implies #[trigger] q(k) == p(k) by {
            assert(t.items[k] == s.items[k]);
        }
        match last_index(n, p) {
            Some(j) => {
                lemma_last_index_at(n, q, j);
                assert(t.items[j] == s.items[j]);
            },
            None => {
                crate::lookup::lemma_last_index_none(n, q);
            },
        }
    }
}

impl SymbolType {
    /// The symbol type numbered `n`, if there is one.
    pub fn from_u32(n: u32) -> (r: Option<SymbolType>)
        ensures
            r == symbol_type_of(n as int),
    {
        match n {
            0 => Some(SymbolType::Airport),
            1 => Some(SymbolType::NDB),
            2 => Some(SymbolType::VOR),
            3 => Some(SymbolType::Fix),
            4 => Some(SymbolType::AircraftStandby),
            5 => Some(SymbolType::AircraftPrimaryOnly),
            6 => Some(SymbolType::AircraftCorrAlphaCharlieSecondaryOnly),
            7 => Some(SymbolType::AircraftCorrModeSierraSecondaryOnly),
            8 => Some(SymbolType::AircraftCorrModeAlphaCharlie),
            9 => Some(SymbolType::AircraftCorrModeSierra),
            10 => Some(SymbolType::AircraftCorrModeAlphaCharlieIdent),
            11 => Some(SymbolType::AircraftCorrModeSierraIdent),
            12 => Some(SymbolType::AircraftFlightPlanTrack),
            13 => Some(SymbolType::AircraftCoasting),
            14 => Some(SymbolType::HistoryDot),
            15 => Some(SymbolType::GroundAircraft),
            16 => Some(SymbolType::AircraftUncorrModeAlphaCharlieSecondaryOnly),
            17 => Some(SymbolType::AircraftUncorrModeSierraSecondaryOnly),
            18 => Some(SymbolType::AircraftUncorrModeAlphaCharlie),
            19 => Some(SymbolType::AircraftUncorrModeSierra),
            20 => Some(SymbolType::AircraftUncorrModeAlphaCharlieIdent),
            21 => Some(SymbolType::AircraftUncorrModeSierraIdent),
            22 => Some(SymbolType::GroundVehicle),
            23 => Some(SymbolType::GroundRotorcraft),
            _ => None,
        }
    }
}

/// A point of a symbol drawing, in pixels from the symbol's centre.
pub type Pixel = (i64, i64);

/// One drawing rule of a symbol. Arcs carry their centre, radius or radii, and
/// start and end angles in degrees; a full ellipse or circle has both angles zero.
#[derive(Debug)]
pub enum SymbolRule {
    Move(Pixel),
    Line(Pixel),
    Pixel(Pixel),
    Arc(Pixel, i64, i64, i64),
    EllipticArc(Pixel, i64, i64, i64, i64),
    FilledArc(Pixel, i64, i64, i64),
    FilledEllipticArc(Pixel, i64, i64, i64, i64),
    Polygon(Vec<Pixel>),
}

/// A drawing rule, its polygon corners as a sequence.
pub enum SymbolRuleV {
    Move(Pixel),
    Line(Pixel),
    Pixel(Pixel),
    Arc(Pixel, i64, i64, i64),
    EllipticArc(Pixel, i64, i64, i64, i64),
    FilledArc(Pixel, i64, i64, i64),
    FilledEllipticArc(Pixel, i64, i64, i64, i64),
    Polygon(Seq<Pixel>),
}

impl View for SymbolRule {
    type V = SymbolRuleV;

    open spec fn view(&self) -> SymbolRuleV {
        match self {
            SymbolRule::Move(p) => SymbolRuleV::Move(*p),
            SymbolRule::Line(p) => SymbolRuleV::Line(*p),
            SymbolRule::Pixel(p) => SymbolRuleV::Pixel(*p),
            SymbolRule::Arc(p, r, a, b) => SymbolRuleV::Arc(*p, *r, *a, *b),
            SymbolRule::EllipticArc(p, rx, ry, a, b) => SymbolRuleV::EllipticArc(
                *p,
                *rx,
                *ry,
                *a,
                *b,
            ),
            SymbolRule::FilledArc(p, r, a, b) => SymbolRuleV::FilledArc(*p, *r, *a, *b),
            SymbolRule::FilledEllipticArc(p, rx, ry, a, b) => SymbolRuleV::FilledEllipticArc(
                *p,
                *rx,
                *ry,
                *a,
                *b,
            ),
            SymbolRule::Polygon(ps) => SymbolRuleV::Polygon(ps@),
        }
    }
}

impl Clone for SymbolRule {
    fn clone(&self) -> (r: Self)
        ensures
            r@ == self@,
    {
        match self {
            SymbolRule::Move(p) => SymbolRule::Move(*p),
            SymbolRule::Line(p) => SymbolRule::Line(*p),
            SymbolRule::Pixel(p) => SymbolRule::Pixel(*p),
            SymbolRule::Arc(p, r, a, b) => SymbolRule::Arc(*p, *r, *a, *b),
            SymbolRule::EllipticArc(p, rx, ry, a, b) => SymbolRule::EllipticArc(
                *p,
                *rx,
                *ry,
                *a,
                *b,
            ),
            SymbolRule::FilledArc(p, r, a, b) => SymbolRule::FilledArc(*p, *r, *a, *b),
            SymbolRule::FilledEllipticArc(p, rx, ry, a, b) => SymbolRule::FilledEllipticArc(
                *p,
                *rx,
                *ry,
                *a,
                *b,
            ),
            SymbolRule::Polygon(ps) => SymbolRule::Polygon(copy_pixels(ps)),
        }
    }
}

/// A copy of a list of points.
pub fn copy_pixels(ps: &Vec<Pixel>) -> (r: Vec<Pixel>)
    ensures
        r@ == ps@,
{
    let mut r: Vec<Pixel> = Vec::new();
    let mut i: usize = 0;
    while i < ps.len()
        invariant
            i <= ps@.len(),
            r@ == ps@.take(i as int),
        decreases ps@.len() - i,
    {
        r.push(ps[i]);
        proof {
            assert(ps@.take(i + 1) =~= ps@.take(i as int).push(ps@[i as int]));
        }
        i = i + 1;
    }
    proof {
        assert(ps@.take(ps@.len() as int) =~= ps@);
    }
    r
}

/// The views of a list of drawing rules.
pub open spec fn rule_views(rs: Seq<SymbolRule>) -> Seq<SymbolRuleV> {
    rs.map_values(|r: SymbolRule| r@)
}

/// A copy of a list of drawing rules.
pub fn copy_rules(rs: &Vec<SymbolRule>) -> (r: Vec<SymbolRule>)
    ensures
        rule_views(r@) == rule_views(rs@),
{
    let mut r: Vec<SymbolRule> = Vec::new();
    let mut i: usize = 0;
    while i < rs.len()
        invariant
            i <= rs@.len(),
            rule_views(r@) == rule_views(rs@).take(i as int),
        decreases rs@.len() - i,
    {
        let ghost before = rule_views(r@);
        let c = rs[i].clone();
        r.push(c);
        proof {
            assert(rule_views(r@) =~= before.push(c@));
            assert(rule_views(rs@).take(i + 1) =~= rule_views(rs@).take(i as int).push(rs@[i as int]@));
        }
        i = i + 1;
    }
    proof {
        assert(rule_views(rs@).take(rs@.len() as int) =~= rule_views(rs@));
    }
    r
}

/// How a kind of screen item is drawn. The font size is kept as the decimal text
/// written in the file.
#[derive(Debug)]
pub struct Item {
    pub folder: String,
    pub name: String,
    pub colour: Colour,
    pub font_size: String,
    pub line_weight: i32,
    pub line_style: String,
}

/// An item, its texts as character sequences.
pub struct ItemV {
    pub folder: Seq<char>,
    pub name: Seq<char>,
    pub colour: Colour,
    pub font_size: Seq<char>,
    pub line_weight: i32,
    pub line_style: Seq<char>,
}

impl View for Item {
    type V = ItemV;

    open spec fn view(&self) -> ItemV {
        ItemV {
            folder: self.folder@,
            name: self.name@,
            colour: self.colour,
            font_size: self.font_size@,
            line_weight: self.line_weight,
            line_style: self.line_style@,
        }
    }
}

/// An angle reduced as Rust's `%` does: the remainder of dividing by 360, with the
/// sign of the angle.
pub open spec fn rem360(a: int) -> int {
    if a >= 0 {
        a % 360
    } else {
        -((-a) % 360)
    }
}

fn reduce_angle(a: i64) -> (r: i64)
    ensures
        r as int == rem360(a as int),
{
    a % 360
}

/// The whole number that `w` spells, as `str::parse::<i64>` reads it.
pub open spec fn int_of(w: Seq<char>) -> Option<int> {
    signed_parse_spec(w, 0x8000_0000_0000_0000, 0x7fff_ffff_ffff_ffff)
}

/// The whole numbers that the words `ws` spell, if they all spell one.
pub open spec fn ints_of(ws: Seq<Seq<char>>) -> Option<Seq<i64>>
    decreases ws.len(),
{
    if ws.len() == 0 {
        Some(seq![])
    } else {
        match (ints_of(ws.drop_last()), int_of(ws.last())) {
            (Some(v), Some(x)) => Some(v.push(x as i64)),
            _ => None,
        }
    }
}

/// Numbers taken two by two as points.
pub open spec fn points_of(ns: Seq<i64>) -> Seq<Pixel> {
    Seq::new(ns.len() / 2, |i: int| (ns[2 * i], ns[2 * i + 1]))
}

/// The drawing rule that command `cmd` with the numbers `ns` stands for.
pub open spec fn rule_of(cmd: Seq<char>, ns: Seq<i64>) -> Option<SymbolRuleV> {
    let n = ns.len();
    if n < 2 {
        None
    } else {
        let p = (ns[0], ns[1]);
        if cmd == "MOVETO"@ && n == 2 {
            Some(SymbolRuleV::Move(p))
        } else if cmd == "LINETO"@ && n == 2 {
            Some(SymbolRuleV::Line(p))
        } else if cmd == "SETPIXEL"@ && n == 2 {
            Some(SymbolRuleV::Pixel(p))
        } else if cmd == "ARC"@ && n == 5 {
            Some(SymbolRuleV::Arc(p, ns[2], rem360(ns[3] as int) as i64, rem360(ns[4] as int) as i64))
        } else if cmd == "ARC"@ && n == 6 {
            Some(
                SymbolRuleV::EllipticArc(
                    p,
                    ns[2],
                    ns[3],
                    rem360(ns[4] as int) as i64,
                    rem360(ns[5] as int) as i64,
                ),
            )
        } else if cmd == "FILLARC"@ && n == 5 {
            Some(
                SymbolRuleV::FilledArc(p, ns[2], rem360(ns[3] as int) as i64, rem360(ns[4] as int) as i64),
            )
        } else if cmd == "FILLARC"@ && n == 6 {
            Some(
                SymbolRuleV::FilledEllipticArc(
                    p,
                    ns[2],
                    ns[3],
                    rem360(ns[4] as int) as i64,
                    rem360(ns[5] as int) as i64,
                ),
            )
        } else if cmd == "ELLIPSE_CIRCLE"@ && n == 3 {
            Some(SymbolRuleV::FilledArc(p, ns[2], 0, 0))
        } else if cmd == "ELLIPSE"@ && n == 4 {
            Some(SymbolRuleV::FilledEllipticArc(p, ns[2], ns[3], 0, 0))
        } else if cmd == "FILLRECT"@ && n == 4 {
            Some(
                SymbolRuleV::Polygon(
                    seq![(ns[0], ns[1]), (ns[2], ns[1]), (ns[2], ns[3]), (ns[0], ns[3])],
                ),
            )
        } else if cmd == "POLYGON"@ && n % 2 == 0 {
            Some(SymbolRuleV::Polygon(points_of(ns)))
        } else {
            None
        }
    }
}

/// The drawing rule that the text after `SYMBOLITEM:` describes.
pub open spec fn symbol_item_of(s: Seq<char>) -> Option<SymbolRuleV> {
    let ws = words_spec(s);
    if ws.len() == 0 {
        None
    } else {
        match ints_of(ws.drop_first()) {
            None => None,
            Some(ns) => rule_of(ws[0], ns),
        }
    }
}

/// Reads the numbers spelt by the words from position `from` on.
fn parse_ints(ws: &[Vec<char>], from: usize) -> (r: Option<Vec<i64>>)
    requires
        from <= ws@.len(),
    ensures
        r matches Some(v) ==> ints_of(views(ws@).skip(from as int)) == Some(v@),
        r is None ==> ints_of(views(ws@).skip(from as int)) is None,
{
    let ghost wv = views(ws@).skip(from as int);
    let mut ns: Vec<i64> = Vec::new();
    let mut i: usize = from;
    proof {
        assert(wv.take(0) =~= Seq::<Seq<char>>::empty());
    }
    while i < ws.len()
        invariant
            from <= i <= ws@.len(),
            wv == views(ws@).skip(from as int),
            ints_of(wv.take(i - from)) == Some(ns@),
        decreases ws@.len() - i,
    {
        let ghost k: int = i - from;
        proof {
            assert(wv.take(k + 1).drop_last() =~= wv.take(k));
            assert(wv.take(k + 1).last() == ws@[i as int]@);
        }
        match parse_i64(ws[i].as_slice()) {
            None => {
                proof {
                    lemma_ints_of_none(wv, k + 1);
                }
                return None;
            },
            Some(x) => {
                ns.push(x);
            },
        }
        i = i + 1;
    }
    proof {
        assert(wv.take(ws@.len() - from) =~= wv);
    }
    Some(ns)
}

/// Words that fail to spell numbers somewhere in a prefix fail in the whole.
proof fn lemma_ints_of_none(ws: Seq<Seq<char>>, k: int)
    requires
        0 <= k <= ws.len(),
        ints_of(ws.take(k)) is None,
    ensures
        ints_of(ws) is None,
    decreases ws.len() - k,
{
    if k < ws.len() {
        assert(ws.take(k + 1).drop_last() =~= ws.take(k));
        lemma_ints_of_none(ws, k + 1);
    } else {
        assert(ws.take(k) =~= ws);
    }
}

/// Reads the text after `SYMBOLITEM:` (see [`symbol_item_of`]).
fn parse_rule(s: &[char]) -> (r: Option<SymbolRule>)
    ensures
        r matches Some(x) ==> symbol_item_of(s@) == Some(x@),
        r is None ==> symbol_item_of(s@) is None,
{
    let ws = words(s);
    if ws.len() == 0 {
        return None;
    }
    let ghost wv = views(ws@);
    proof {
        assert(wv.skip(1) =~= wv.drop_first());
    }
    let ns = match parse_ints(ws.as_slice(), 1) {
        None => {
            return None;
        },
        Some(ns) => ns,
    };
    let cmd = ws[0].as_slice();
    proof {
        assert(cmd@ == wv[0]);
    }
    let n = ns.len();
    if n < 2 {
        return None;
    }
    let p = (ns[0], ns[1]);
    if chars_are(cmd, "MOVETO") && n == 2 {
        Some(SymbolRule::Move(p))
    } else if chars_are(cmd, "LINETO") && n == 2 {
        Some(SymbolRule::Line(p))
    } else if chars_are(cmd, "SETPIXEL") && n == 2 {
        Some(SymbolRule::Pixel(p))
    } else if chars_are(cmd, "ARC") && n == 5 {
        Some(SymbolRule::Arc(p, ns[2], reduce_angle(ns[3]), reduce_angle(ns[4])))
    } else if chars_are(cmd, "ARC") && n == 6 {
        Some(SymbolRule::EllipticArc(p, ns[2], ns[3], reduce_angle(ns[4]), reduce_angle(ns[5])))
    } else if chars_are(cmd, "FILLARC") && n == 5 {
        Some(SymbolRule::FilledArc(p, ns[2], reduce_angle(ns[3]), reduce_angle(ns[4])))
    } else if chars_are(cmd, "FILLARC") && n == 6 {
        Some(
            SymbolRule::FilledEllipticArc(p, ns[2], ns[3], reduce_angle(ns[4]), reduce_angle(ns[5])),
        )
    } else if chars_are(cmd, "ELLIPSE_CIRCLE") && n == 3 {
        Some(SymbolRule::FilledArc(p, ns[2], 0, 0))
    } else if chars_are(cmd, "ELLIPSE") && n == 4 {
        Some(SymbolRule::FilledEllipticArc(p, ns[2], ns[3], 0, 0))
    } else if chars_are(cmd, "FILLRECT") && n == 4 {
        let mut corners: Vec<Pixel> = Vec::new();
        corners.push((ns[0], ns[1]));
        corners.push((ns[2], ns[1]));
        corners.push((ns[2], ns[3]));
        corners.push((ns[0], ns[3]));
        proof {
            assert(corners@ =~= seq![(ns@[0], ns@[1]), (ns@[2], ns@[1]), (ns@[2], ns@[3]), (ns@[0], ns@[3])]);
        }
        Some(SymbolRule::Polygon(corners))
    } else if chars_are(cmd, "POLYGON") && n % 2 == 0 {
        let mut pts: Vec<Pixel> = Vec::new();
        let mut i: usize = 0;
        while i < n / 2
            invariant
                n == ns@.len(),
                n % 2 == 0,
                i <= n / 2,
                pts@ == points_of(ns@).take(i as int),
            decreases n / 2 - i,
        {
            pts.push((ns[2 * i], ns[2 * i + 1]));
            proof {
                assert(pts@ =~= points_of(ns@).take(i + 1));
            }
            i = i + 1;
        }
        proof {
            assert(points_of(ns@).take((n / 2) as int) =~= points_of(ns@));
        }
        Some(SymbolRule::Polygon(pts))
    } else {
        None
    }
}

/// The item that a line `folder:name:colour:size:weight:style:alignment` describes.
pub open spec fn item_of(l: Seq<char>) -> Option<ItemV> {
    let f = split_spec(l, ':');
    if f.len() != 7 {
        None
    } else {
        match (
            signed_parse_spec(f[2], 0x8000_0000, 0x7fff_ffff),
            signed_parse_spec(f[4], 0x8000_0000, 0x7fff_ffff),
        ) {
            (Some(c), Some(w)) => match euroscope_colour(c) {
                Some(colour) => Some(
                    ItemV {
                        folder: f[0],
                        name: f[1],
                        colour,
                        font_size: f[3],
                        line_weight: w as i32,
                        line_style: f[5],
                    },
                ),
                None => None,
            },
            _ => None,
        }
    }
}

/// An item line is `folder:name:colour:size:weight:style:alignment`: the folder
/// comes first, then the name, the colour as EuroScope's number, the font size,
/// the line weight and the line style.
pub proof fn lemma_item_line(p: Seq<Seq<char>>, c: int, w: int)
    requires
        p.len() == 7,
        forall|i: int, j: int| 0 <= i < 7 && 0 <= j < p[i].len() ==> p[i][j] != ':',
        signed_parse_spec(p[2], 0x8000_0000, 0x7fff_ffff) == Some(c),
        signed_parse_spec(p[4], 0x8000_0000, 0x7fff_ffff) == Some(w),
        0 <= c < 16777216,
    ensures
        item_of(crate::text::join_with(p, ':')) == Some(
            ItemV {
                folder: p[0],
                name: p[1],
                colour: rgb((c % 256) as u8, (c / 256 % 256) as u8, (c / 65536) as u8),
                font_size: p[3],
                line_weight: w as i32,
                line_style: p[5],
            },
        ),
{
    crate::text::lemma_split_join(p, ':');
}

/// Reads an item line (see [`item_of`]).
fn parse_item(l: &[char]) -> (r: Option<Item>)
    ensures
        r matches Some(x) ==> item_of(l@) == Some(x@),
        r is None ==> item_of(l@) is None,
{
    let f = split_chars(l, ':');
    proof {
        assert(views(f@) == split_spec(l@, ':'));
    }
    if f.len() != 7 {
        return None;
    }
    proof {
        assert(f@[2]@ == split_spec(l@, ':')[2]);
        assert(f@[4]@ == split_spec(l@, ':')[4]);
    }
    let c = match parse_i32(f[2].as_slice()) {
        None => {
            return None;
        },
        Some(c) => c,
    };
    let w = match parse_i32(f[4].as_slice()) {
        None => {
            return None;
        },
        Some(w) => w,
    };
    match Colour::from_euroscope(c) {
        Err(_) => None,
        Ok(colour) => {
            let item = Item {
                folder: string_from_chars(f[0].as_slice()),
                name: string_from_chars(f[1].as_slice()),
                colour,
                font_size: string_from_chars(f[3].as_slice()),
                line_weight: w,
                line_style: string_from_chars(f[5].as_slice()),
            };
            proof {
                assert(f@[0]@ == split_spec(l@, ':')[0]);
                assert(f@[1]@ == split_spec(l@, ':')[1]);
                assert(f@[3]@ == split_spec(l@, ':')[3]);
                assert(f@[5]@ == split_spec(l@, ':')[5]);
            }
            Some(item)
        },
    }
}

/// What a line of Symbology.txt holds.
pub enum Entry {
    Item(Item),
    Symbol(u32),
    Rule(SymbolRule),
}

/// What a line of Symbology.txt holds, as values.
pub enum EntryV {
    Item(ItemV),
    Symbol(u32),
    Rule(SymbolRuleV),
}

impl View for Entry {
    type V = EntryV;

    open spec fn view(&self) -> EntryV {
        match self {
            Entry::Item(i) => EntryV::Item(i@),
            Entry::Symbol(n) => EntryV::Symbol(*n),
            Entry::Rule(r) => EntryV::Rule(r@),
        }
    }
}

/// Whether a line (already trimmed) belongs to the file's header or footer.
pub open spec fn frame_line(l: Seq<char>) -> bool {
    l.len() == 0 || l == "SYMBOLOGY"@ || l == "SYMBOLSIZE"@ || l == "END"@ || starts_with(
        l,
        "m_"@,
    )
}

/// What a line of Symbology.txt holds: nothing, an entry, or an error (see the
/// module's documentation).
pub open spec fn symbology_line(line: Seq<char>) -> Result<Option<EntryV>, ()> {
    let l = trim_spec(line);
    if frame_line(l) {
        Ok(None)
    } else if starts_with(l, "SYMBOLITEM:"@) {
        match symbol_item_of(l.skip(11)) {
            Some(r) => Ok(Some(EntryV::Rule(r))),
            None => Err(()),
        }
    } else if starts_with(l, "SYMBOL:"@) {
        match unsigned_parse_spec(l.skip(7), 10, 0xffff_ffff) {
            Some(n) => Ok(Some(EntryV::Symbol(n as u32))),
            None => Err(()),
        }
    } else {
        match item_of(l) {
            Some(i) => Ok(Some(EntryV::Item(i))),
            None => Err(()),
        }
    }
}

/// Reads a line of Symbology.txt (see [`symbology_line`]).
fn parse_line(line: &[char]) -> (r: Result<Option<Entry>, ()>)
    ensures
        match symbology_line(line@) {
            Ok(None) => r matches Ok(None),
            Ok(Some(e)) => r matches Ok(Some(x)) && x@ == e,
            Err(()) => r is Err,
        },
{
    let l = trim(line);
    if l.len() == 0 || chars_are(&l, "SYMBOLOGY") || chars_are(&l, "SYMBOLSIZE") || chars_are(
        &l,
        "END",
    ) || chars_start_with(&l, "m_") {
        return Ok(None);
    }
    if chars_start_with(&l, "SYMBOLITEM:") {
        proof {
            reveal_strlit("SYMBOLITEM:");
        }
        let rest = copy_range(&l, 11, l.len());
        proof {
            assert(rest@ =~= l@.skip(11));
        }
        return match parse_rule(&rest) {
            Some(r) => Ok(Some(Entry::Rule(r))),
            None => Err(()),
        };
    }
    if chars_start_with(&l, "SYMBOL:") {
        proof {
            reveal_strlit("SYMBOL:");
        }
        let rest = copy_range(&l, 7, l.len());
        proof {
            assert(rest@ =~= l@.skip(7));
            crate::text::lemma_unsigned_text_value_nonneg(rest@, 10);
        }
        return match parse_unsigned(&rest, 10, 0xffff_ffff) {
            Some(n) => Ok(Some(Entry::Symbol(n as u32))),
            None => Err(()),
        };
    }
    match parse_item(&l) {
        Some(i) => Ok(Some(Entry::Item(i))),
        None => Err(()),
    }
}

/// Whether `SYMBOLITEM` lines have a symbol to go to: none is open, one is open and
/// kept, or one of an unknown type is open and its rules are dropped.
#[derive(Clone, Copy, Debug, PartialEq, Eq, Structural)]
pub enum OpenSymbol {
    Closed,
    Kept,
    Dropped,
}

/// The contents of a Symbology.txt: its items and its symbols, in file order.
pub struct SymbologyV {
    pub items: Seq<ItemV>,
    pub symbols: Seq<(SymbolType, Seq<SymbolRuleV>)>,
}

/// What one entry does to the contents read so far; none for a rule with no symbol
/// open.
pub open spec fn symbology_step(st: SymbologyV, open: OpenSymbol, e: EntryV) -> Option<
    (SymbologyV, OpenSymbol),
> {
    match e {
        EntryV::Item(i) => Some(
            (SymbologyV { items: st.items.push(i), symbols: st.symbols }, OpenSymbol::Closed),
        ),
        EntryV::Symbol(n) => match symbol_type_of(n as int) {
            Some(t) => Some(
                (
                    SymbologyV { items: st.items, symbols: st.symbols.push((t, seq![])) },
                    OpenSymbol::Kept,
                ),
            ),
            None => Some((st, OpenSymbol::Dropped)),
        },
        EntryV::Rule(r) => match open {
            OpenSymbol::Closed => None,
            OpenSymbol::Dropped => Some((st, open)),
            OpenSymbol::Kept => {
                let k = st.symbols.len() - 1;
                Some(
                    (
                        SymbologyV {
                            items: st.items,
                            symbols: st.symbols.update(
                                k,
                                (st.symbols[k].0, st.symbols[k].1.push(r)),
                            ),
                        },
                        open,
                    ),
                )
            },
        },
    }
}

/// The contents that lines give, or the index of the first invalid line.
pub open spec fn symbology_lines(lines: Seq<Seq<char>>) -> Result<(SymbologyV, OpenSymbol), nat>
    decreases lines.len(),
{
    if lines.len() == 0 {
        Ok((SymbologyV { items: seq![], symbols: seq![] }, OpenSymbol::Closed))
    } else {
        match symbology_lines(lines.drop_last()) {
            Err(i) => Err(i),
            Ok((st, open)) => match symbology_line(lines.last()) {
                Err(()) => Err((lines.len() - 1) as nat),
                Ok(None) => Ok((st, open)),
                Ok(Some(e)) => match symbology_step(st, open, e) {
                    None => Err((lines.len() - 1) as nat),
                    Some(next) => Ok(next),
                },
            },
        }
    }
}

/// The contents of a Symbology.txt text, or the index of its first invalid line.
pub open spec fn symbology_text(text: Seq<char>) -> Result<SymbologyV, nat> {
    match symbology_lines(lines_spec(text)) {
        Ok((st, _)) => Ok(st),
        Err(i) => Err(i),
    }
}

/// An error while reading Symbology.txt.
#[derive(Debug, PartialEq, Eq, Structural)]
pub enum SymbologyError {
    /// The line with this number, counted from one, is invalid.
    Parse { line: usize },
}

/// Symbology.txt: the items and the symbols, in file order.
#[derive(Debug)]
pub struct Symbology {
    pub items: Vec<Item>,
    pub symbols: Vec<(SymbolType, Vec<SymbolRule>)>,
}

pub open spec fn item_views(items: Seq<Item>) -> Seq<ItemV> {
    items.map_values(|i: Item| i@)
}

pub open spec fn symbol_views(symbols: Seq<(SymbolType, Vec<SymbolRule>)>) -> Seq<
    (SymbolType, Seq<SymbolRuleV>),
> {
    symbols.map_values(|p: (SymbolType, Vec<SymbolRule>)| (p.0, rule_views(p.1@)))
}

impl View for Symbology {
    type V = SymbologyV;

    open spec fn view(&self) -> SymbologyV {
        SymbologyV { items: item_views(self.items@), symbols: symbol_views(self.symbols@) }
    }
}

/// Adds a rule to the last symbol.
fn push_rule(symbols: &mut Vec<(SymbolType, Vec<SymbolRule>)>, r: SymbolRule)
    requires
        old(symbols)@.len() > 0,
    ensures
        ({
            let k = old(symbols)@.len() - 1;
            let o = symbol_views(old(symbols)@);
            symbol_views(final(symbols)@) == o.update(k, (o[k].0, o[k].1.push(r@)))
        }),
{
    let ghost o = symbol_views(symbols@);
    let ghost rv = r@;
    let k = symbols.len() - 1;
    let entry = &mut symbols[k];
    let ghost before = rule_views(entry.1@);
    entry.1.push(r);
    proof {
        assert(rule_views(entry.1@) =~= before.push(rv));
        assert(symbol_views(symbols@) =~= o.update(k as int, (o[k as int].0, o[k as int].1.push(rv))));
    }
}

impl Symbology {
    /// Applies one entry (see [`symbology_step`]); false for a rule with no symbol
    /// open.
    fn step(&mut self, open: &mut OpenSymbol, e: Entry) -> (ok: bool)
        requires
            *old(open) == OpenSymbol::Kept ==> old(self).symbols@.len() > 0,
        ensures
            *final(open) == OpenSymbol::Kept ==> final(self).symbols@.len() > 0,
            match symbology_step(old(self)@, *old(open), e@) {
                None => !ok,
                Some((st, o)) => ok && final(self)@ == st && *final(open) == o,
            },
    {
        let ghost ev = e@;
        match e {
            Entry::Item(i) => {
                let ghost before = item_views(self.items@);
                let ghost iv = i@;
                self.items.push(i);
                *open = OpenSymbol::Closed;
                proof {
                    assert(item_views(self.items@) =~= before.push(iv));
                }
                true
            },
            Entry::Symbol(n) => match SymbolType::from_u32(n) {
                Some(t) => {
                    let ghost before = symbol_views(self.symbols@);
                    self.symbols.push((t, Vec::new()));
                    *open = OpenSymbol::Kept;
                    proof {
                        assert(rule_views(Seq::<SymbolRule>::empty()) =~= Seq::<SymbolRuleV>::empty());
                        assert(symbol_views(self.symbols@) =~= before.push((t, seq![])));
                    }
                    true
                },
                None => {
                    *open = OpenSymbol::Dropped;
                    true
                },
            },
            Entry::Rule(r) => match *open {
                OpenSymbol::Closed => false,
                OpenSymbol::Dropped => true,
                OpenSymbol::Kept => {
                    push_rule(&mut self.symbols, r);
                    proof {
                        assert(symbol_views(self.symbols@).len() == self.symbols@.len());
                    }
                    true
                },
            },
        }
    }
}

/// An invalid line stays the first invalid one however many lines follow.
proof fn lemma_symbology_error_persists(lines: Seq<Seq<char>>, k: int)
    requires
        0 <= k <= lines.len(),
        symbology_lines(lines.take(k)) is Err,
    ensures
        symbology_lines(lines) == symbology_lines(lines.take(k)),
    decreases lines.len() - k,
{
    if k < lines.len() {
        assert(lines.take(k + 1).drop_last() =~= lines.take(k));
        lemma_symbology_error_persists(lines, k + 1);
    } else {
        assert(lines.take(k) =~= lines);
    }
}

impl Symbology {
    /// Reads a Symbology.txt file (see the module's documentation); an invalid line
    /// is reported by its number, counted from one.
    pub fn parse(content: &[u8]) -> (res: Result<Symbology, SymbologyError>)
        ensures
            match symbology_text(crate::file_text(content@)) {
                Ok(v) => res matches Ok(s) && s@ == v,
                Err(i) => res == Err::<Symbology, SymbologyError>(
                    SymbologyError::Parse { line: (i + 1) as usize },
                ),
            },
    {
        let text = crate::read_to_string(content);
        let chars = crate::text::chars_of(text.as_str());
        let lines = crate::text::lines_of(chars.as_slice());
        let ghost ls = lines_spec(text@);
        let mut sym = Symbology { items: Vec::new(), symbols: Vec::new() };
        let mut open = OpenSymbol::Closed;
        proof {
            assert(sym@.items =~= Seq::<ItemV>::empty());
            assert(sym@.symbols =~= Seq::<(SymbolType, Seq<SymbolRuleV>)>::empty());
            assert(ls.take(0) =~= Seq::<Seq<char>>::empty());
        }
        let mut i: usize = 0;
        while i < lines.len()
            invariant
                i <= lines@.len(),
                views(lines@) == ls,
                ls == lines_spec(crate::file_text(content@)),
                symbology_lines(ls.take(i as int)) == Ok::<(SymbologyV, OpenSymbol), nat>(
                    (sym@, open),
                ),
                open == OpenSymbol::Kept ==> sym.symbols@.len() > 0,
            decreases lines@.len() - i,
        {
            proof {
                assert(ls.take(i + 1).drop_last() =~= ls.take(i as int));
                assert(ls.take(i + 1).last() == lines@[i as int]@);
            }
            match parse_line(lines[i].as_slice()) {
                Err(()) => {
                    proof {
                        lemma_symbology_error_persists(ls, i + 1);
                    }
                    return Err(SymbologyError::Parse { line: i + 1 });
                },
                Ok(None) => {},
                Ok(Some(e)) => {
                    if !sym.step(&mut open, e) {
                        proof {
                            lemma_symbology_error_persists(ls, i + 1);
                        }
                        return Err(SymbologyError::Parse { line: i + 1 });
                    }
                },
            }
            i = i + 1;
        }
        proof {
            assert(ls.take(lines@.len() as int) =~= ls);
        }
        Ok(sym)
    }
}

/// Items of folder `folder` named `name`.
pub open spec fn item_named(items: Seq<ItemV>, folder: Seq<char>, name: Seq<char>) -> spec_fn(
    int,
) -> bool {
    |j: int| items[j].folder == folder && items[j].name == name
}

/// Symbols of type `t`.
pub open spec fn symbol_of_type(symbols: Seq<(SymbolType, Seq<SymbolRuleV>)>, t: SymbolType) -> spec_fn(
    int,
) -> bool {
    |j: int| symbols[j].0 == t
}

impl SymbologyV {
    /// The item of a folder and name: the last one given.
    pub open spec fn item(self, folder: Seq<char>, name: Seq<char>) -> Option<ItemV> {
        match last_index(self.items.len() as int, item_named(self.items, folder, name)) {
            Some(j) => Some(self.items[j]),
            None => None,
        }
    }

    /// The drawing rules of a symbol type: those of its last symbol.
    pub open spec fn symbol(self, t: SymbolType) -> Option<Seq<SymbolRuleV>> {
        match last_index(self.symbols.len() as int, symbol_of_type(self.symbols, t)) {
            Some(j) => Some(self.symbols[j].1),
            None => None,
        }
    }
}

impl Symbology {
    /// The item of a folder and name (the last one given).
    pub fn item(&self, folder: &str, name: &str) -> (r: Option<&Item>)
        ensures
            match self@.item(folder@, name@) {
                Some(v) => r matches Some(x) && x@ == v,
                None => r is None,
            },
    {
        let ghost p = item_named(self@.items, folder@, name@);
        let mut j = self.items.len();
        while j > 0
            invariant
                j <= self.items@.len(),
                p == item_named(self@.items, folder@, name@),
                forall|k: int| j <= k < self.items@.len() ==> !#[trigger] p(k),
            decreases j,
        {
            j = j - 1;
            let it = &self.items[j];
            if crate::text::str_eq(it.folder.as_str(), folder) && crate::text::str_eq(
                it.name.as_str(),
                name,
            ) {
                proof {
                    assert(p(j as int));
                    lemma_last_index_at(self@.items.len() as int, p, j as int);
                }
                return Some(it);
            }
            proof {
                assert(!p(j as int));
            }
        }
        proof {
            lemma_last_index(self@.items.len() as int, p);
            if last_index(self@.items.len() as int, p) is Some {
                let k = last_index(self@.items.len() as int, p).unwrap();
                assert(p(k));
            }
        }
        None
    }

    /// The drawing rules of a symbol type (those of its last symbol).
    pub fn symbol(&self, t: SymbolType) -> (r: Option<&Vec<SymbolRule>>)
        ensures
            match self@.symbol(t) {
                Some(v) => r matches Some(x) && rule_views(x@) == v,
                None => r is None,
            },
    {
        let ghost p = symbol_of_type(self@.symbols, t);
        let mut j = self.symbols.len();
        while j > 0
            invariant
                j <= self.symbols@.len(),
                p == symbol_of_type(self@.symbols, t),
                forall|k: int| j <= k < self.symbols@.len() ==> !#[trigger] p(k),
            decreases j,
        {
            j = j - 1;
            if self.symbols[j].0 == t {
                proof {
                    assert(p(j as int));
                    lemma_last_index_at(self@.symbols.len() as int, p, j as int);
                }
                return Some(&self.symbols[j].1);
            }
            proof {
                assert(!p(j as int));
            }
        }
        proof {
            lemma_last_index(self@.symbols.len() as int, p);
            if last_index(self@.symbols.len() as int, p) is Some {
                let k = last_index(self@.symbols.len() as int, p).unwrap();
                assert(p(k));
            }
        }
        None
    }
}

} // verus!
