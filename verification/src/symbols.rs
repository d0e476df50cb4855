//! The symbols the radar screen draws: those TopSky defines, else those of
//! Symbology.txt, else built-in ones.
//!
//! Lengths are kept in millionths of a pixel: TopSky gives them in that unit
//! already, and Symbology.txt's whole pixels are multiplied by a million.
use vstd::prelude::*;

use crate::lookup::{last_index, lemma_last_index, lemma_last_index_at};
use crate::symbology::{
    rule_views as pixel_rule_views, SymbolRule as PixelRule, SymbolRuleV as PixelRuleV,
    SymbolType, Symbology, SymbologyV,
};
use crate::topsky::Topsky;
use crate::topsky_symbols::{
    def_views, find_symbol, rule_views as topsky_rule_views, symbol_rules, SymbolDefV,
    SymbolRule as TopskyRule, SymbolRuleV as TopskyRuleV,
};

verus! {

/// A point of a symbol drawing, in millionths of a pixel from the symbol's centre.
pub type Point = (i128, i128);

/// One drawing rule of a symbol; lengths in millionths of a pixel, angles in degrees.
#[derive(Debug, PartialEq)]
pub enum SymbolRule {
    Move(Point),
    Line(Point),
    Pixel(Point),
    Arc(Point, i128, i64, i64),
    EllipticArc(Point, i128, i128, i64, i64),
    FilledArc(Point, i128, i64, i64),
    FilledEllipticArc(Point, i128, i128, i64, i64),
    Polygon(Vec<Point>),
}

/// A drawing rule, its polygon corners as a sequence.
pub enum SymbolRuleV {
    Move(Point),
    Line(Point),
    Pixel(Point),
    Arc(Point, i128, i64, i64),
    EllipticArc(Point, i128, i128, i64, i64),
    FilledArc(Point, i128, i64, i64),
    FilledEllipticArc(Point, i128, i128, i64, i64),
    Polygon(Seq<Point>),
}

impl View for SymbolRule {
    type V = SymbolRuleV;

    open spec fn view(&self) -> SymbolRuleV {
        match self {
            SymbolRule::Move(p) => SymbolRuleV::Move(*p),
            SymbolRule::Line(p) => SymbolRuleV::Line(*p),
            SymbolRule::Pixel(p) => SymbolRuleV::Pixel(*p),
            SymbolRule::Arc(p, r, a, b) => SymbolRuleV::Arc(*p, *r, *a, *b),
            SymbolRule::EllipticArc(p, rx, ry, a, b) => SymbolRuleV::EllipticArc(
                *p,
                *rx,
                *ry,
                *a,
                *b,
            ),
            SymbolRule::FilledArc(p, r, a, b) => SymbolRuleV::FilledArc(*p, *r, *a, *b),
            SymbolRule::FilledEllipticArc(p, rx, ry, a, b) => SymbolRuleV::FilledEllipticArc(
                *p,
                *rx,
                *ry,
                *a,
                *b,
            ),
            SymbolRule::Polygon(ps) => SymbolRuleV::Polygon(ps@),
        }
    }
}

/// The views of a list of drawing rules.
pub open spec fn rule_views(rs: Seq<SymbolRule>) -> Seq<SymbolRuleV> {
    rs.map_values(|r: SymbolRule| r@)
}

/// A length in millionths of a pixel, from whole pixels.
pub open spec fn micros(v: i64) -> i128 {
    (v * 1_000_000) as i128
}

/// A point in millionths of a pixel, from whole pixels.
pub open spec fn pixel_point(p: (i64, i64)) -> Point {
    (micros(p.0), micros(p.1))
}

/// A point of TopSky's, already in millionths.
pub open spec fn topsky_point(p: (i64, i64)) -> Point {
    (p.0 as i128, p.1 as i128)
}

/// A Symbology.txt rule in millionths of a pixel.
pub open spec fn from_pixel_rule(r: PixelRuleV) -> SymbolRuleV {
    match r {
        PixelRuleV::Move(p) => SymbolRuleV::Move(pixel_point(p)),
        PixelRuleV::Line(p) => SymbolRuleV::Line(pixel_point(p)),
        PixelRuleV::Pixel(p) => SymbolRuleV::Pixel(pixel_point(p)),
        PixelRuleV::Arc(p, r, a, b) => SymbolRuleV::Arc(pixel_point(p), micros(r), a, b),
        PixelRuleV::EllipticArc(p, rx, ry, a, b) => SymbolRuleV::EllipticArc(
            pixel_point(p),
            micros(rx),
            micros(ry),
            a,
            b,
        ),
        PixelRuleV::FilledArc(p, r, a, b) => SymbolRuleV::FilledArc(
            pixel_point(p),
            micros(r),
            a,
            b,
        ),
        PixelRuleV::FilledEllipticArc(p, rx, ry, a, b) => SymbolRuleV::FilledEllipticArc(
            pixel_point(p),
            micros(rx),
            micros(ry),
            a,
            b,
        ),
        PixelRuleV::Polygon(ps) => SymbolRuleV::Polygon(
            ps.map_values(|q: (i64, i64)| pixel_point(q)),
        ),
    }
}

/// A TopSky rule as a rule of this module.
pub open spec fn from_topsky_rule(r: TopskyRuleV) -> SymbolRuleV {
    match r {
        TopskyRuleV::Move(p) => SymbolRuleV::Move(topsky_point(p)),
        TopskyRuleV::Line(p) => SymbolRuleV::Line(topsky_point(p)),
        TopskyRuleV::Pixel(p) => SymbolRuleV::Pixel(topsky_point(p)),
        TopskyRuleV::Arc(p, r, a, b) => SymbolRuleV::Arc(topsky_point(p), r as i128, a, b),
        TopskyRuleV::EllipticArc(p, rx, ry, a, b) => SymbolRuleV::EllipticArc(
            topsky_point(p),
            rx as i128,
            ry as i128,
            a,
            b,
        ),
        TopskyRuleV::FilledArc(p, r, a, b) => SymbolRuleV::FilledArc(
            topsky_point(p),
            r as i128,
            a,
            b,
        ),
        TopskyRuleV::FilledEllipticArc(p, rx, ry, a, b) => SymbolRuleV::FilledEllipticArc(
            topsky_point(p),
            rx as i128,
            ry as i128,
            a,
            b,
        ),
        TopskyRuleV::Polygon(ps) => SymbolRuleV::Polygon(
            ps.map_values(|q: (i64, i64)| topsky_point(q)),
        ),
    }
}

pub open spec fn from_pixel_rules(rs: Seq<PixelRuleV>) -> Seq<SymbolRuleV> {
    rs.map_values(|r: PixelRuleV| from_pixel_rule(r))
}

pub open spec fn from_topsky_rules(rs: Seq<TopskyRuleV>) -> Seq<SymbolRuleV> {
    rs.map_values(|r: TopskyRuleV| from_topsky_rule(r))
}

fn micros_exec(v: i64) -> (r: i128)
    ensures
        r == micros(v),
{
    (v as i128) * 1_000_000
}

fn pixel_point_exec(p: (i64, i64)) -> (r: Point)
    ensures
        r == pixel_point(p),
{
    (micros_exec(p.0), micros_exec(p.1))
}

fn convert_pixel_rule(r: &PixelRule) -> (o: SymbolRule)
    ensures
        o@ == from_pixel_rule(r@),
{
    match r {
        PixelRule::Move(p) => SymbolRule::Move(pixel_point_exec(*p)),
        PixelRule::Line(p) => SymbolRule::Line(pixel_point_exec(*p)),
        PixelRule::Pixel(p) => SymbolRule::Pixel(pixel_point_exec(*p)),
        PixelRule::Arc(p, r, a, b) => SymbolRule::Arc(pixel_point_exec(*p), micros_exec(*r), *a, *b),
        PixelRule::EllipticArc(p, rx, ry, a, b) => SymbolRule::EllipticArc(
            pixel_point_exec(*p),
            micros_exec(*rx),
            micros_exec(*ry),
            *a,
            *b,
        ),
        PixelRule::FilledArc(p, r, a, b) => SymbolRule::FilledArc(
            pixel_point_exec(*p),
            micros_exec(*r),
            *a,
            *b,
        ),
        PixelRule::FilledEllipticArc(p, rx, ry, a, b) => SymbolRule::FilledEllipticArc(
            pixel_point_exec(*p),
            micros_exec(*rx),
            micros_exec(*ry),
            *a,
            *b,
        ),
        PixelRule::Polygon(ps) => {
            let mut out: Vec<Point> = Vec::new();
            let mut i: usize = 0;
            while i < ps.len()
                invariant
                    i <= ps@.len(),
                    out@ == ps@.take(i as int).map_values(|q: (i64, i64)| pixel_point(q)),
                decreases ps@.len() - i,
            {
                out.push(pixel_point_exec(ps[i]));
                proof {
                    assert(ps@.take(i + 1).map_values(|q: (i64, i64)| pixel_point(q))
                        =~= ps@.take(i as int).map_values(|q: (i64, i64)| pixel_point(q)).push(
                        pixel_point(ps@[i as int]),
                    ));
                }
                i = i + 1;
            }
            proof {
                assert(ps@.take(ps@.len() as int) =~= ps@);
            }
            SymbolRule::Polygon(out)
        },
    }
}

fn convert_topsky_rule(r: &TopskyRule) -> (o: SymbolRule)
    ensures
        o@ == from_topsky_rule(r@),
{
    match r {
        TopskyRule::Move(p) => SymbolRule::Move((p.0 as i128, p.1 as i128)),
        TopskyRule::Line(p) => SymbolRule::Line((p.0 as i128, p.1 as i128)),
        TopskyRule::Pixel(p) => SymbolRule::Pixel((p.0 as i128, p.1 as i128)),
        TopskyRule::Arc(p, r, a, b) => SymbolRule::Arc((p.0 as i128, p.1 as i128), *r as i128, *a, *b),
        TopskyRule::EllipticArc(p, rx, ry, a, b) => SymbolRule::EllipticArc(
            (p.0 as i128, p.1 as i128),
            *rx as i128,
            *ry as i128,
            *a,
            *b,
        ),
        TopskyRule::FilledArc(p, r, a, b) => SymbolRule::FilledArc(
            (p.0 as i128, p.1 as i128),
            *r as i128,
            *a,
            *b,
        ),
        TopskyRule::FilledEllipticArc(p, rx, ry, a, b) => SymbolRule::FilledEllipticArc(
            (p.0 as i128, p.1 as i128),
            *rx as i128,
            *ry as i128,
            *a,
            *b,
        ),
        TopskyRule::Polygon(ps) => {
            let mut out: Vec<Point> = Vec::new();
            let mut i: usize = 0;
            while i < ps.len()
                invariant
                    i <= ps@.len(),
                    out@ == ps@.take(i as int).map_values(|q: (i64, i64)| topsky_point(q)),
                decreases ps@.len() - i,
            {
                out.push((ps[i].0 as i128, ps[i].1 as i128));
                proof {
                    assert(ps@.take(i + 1).map_values(|q: (i64, i64)| topsky_point(q))
                        =~= ps@.take(i as int).map_values(|q: (i64, i64)| topsky_point(q)).push(
                        topsky_point(ps@[i as int]),
                    ));
                }
                i = i + 1;
            }
            proof {
                assert(ps@.take(ps@.len() as int) =~= ps@);
            }
            SymbolRule::Polygon(out)
        },
    }
}

/// Symbology.txt rules in millionths of a pixel.
fn convert_pixel_rules(rs: &Vec<PixelRule>) -> (o: Vec<SymbolRule>)
    ensures
        rule_views(o@) == from_pixel_rules(pixel_rule_views(rs@)),
{
    let ghost want = from_pixel_rules(pixel_rule_views(rs@));
    let mut o: Vec<SymbolRule> = Vec::new();
    let mut i: usize = 0;
    while i < rs.len()
        invariant
            i <= rs@.len(),
            want == from_pixel_rules(pixel_rule_views(rs@)),
            rule_views(o@) == want.take(i as int),
        decreases rs@.len() - i,
    {
        let ghost before = rule_views(o@);
        let c = convert_pixel_rule(&rs[i]);
        o.push(c);
        proof {
            assert(rule_views(o@) =~= before.push(c@));
            assert(want.take(i + 1) =~= want.take(i as int).push(want[i as int]));
        }
        i = i + 1;
    }
    proof {
        assert(want.take(rs@.len() as int) =~= want);
    }
    o
}

/// TopSky rules as rules of this module.
fn convert_topsky_rules(rs: &Vec<TopskyRule>) -> (o: Vec<SymbolRule>)
    ensures
        rule_views(o@) == from_topsky_rules(topsky_rule_views(rs@)),
{
    let ghost want = from_topsky_rules(topsky_rule_views(rs@));
    let mut o: Vec<SymbolRule> = Vec::new();
    let mut i: usize = 0;
    while i < rs.len()
        invariant
            i <= rs@.len(),
            want == from_topsky_rules(topsky_rule_views(rs@)),
            rule_views(o@) == want.take(i as int),
        decreases rs@.len() - i,
    {
        let ghost before = rule_views(o@);
        let c = convert_topsky_rule(&rs[i]);
        o.push(c);
        proof {
            assert(rule_views(o@) =~= before.push(c@));
            assert(want.take(i + 1) =~= want.take(i as int).push(want[i as int]));
        }
        i = i + 1;
    }
    proof {
        assert(want.take(rs@.len() as int) =~= want);
    }
    o
}

/// A point given in whole pixels, in millionths.
pub open spec fn pt(x: int, y: int) -> Point {
    ((x * 1_000_000) as i128, (y * 1_000_000) as i128)
}

fn point(x: i64, y: i64) -> (r: Point)
    requires
        -1000 <= x <= 1000,
        -1000 <= y <= 1000,
    ensures
        r == pt(x as int, y as int),
{
    ((x as i128) * 1_000_000, (y as i128) * 1_000_000)
}

/// The built-in history dot: a filled square.
pub open spec fn default_history_dot() -> Seq<SymbolRuleV> {
    seq![SymbolRuleV::Polygon(seq![pt(-1, -1), pt(1, -1), pt(1, 1), pt(-1, 1)])]
}

/// The built-in fix: a triangle.
pub open spec fn default_fix() -> Seq<SymbolRuleV> {
    seq![
        SymbolRuleV::Move(pt(-5, 5)),
        SymbolRuleV::Line(pt(0, -5)),
        SymbolRuleV::Line(pt(5, 5)),
        SymbolRuleV::Line(pt(-5, 5)),
    ]
}

/// The built-in NDB: a dot in three circles.
pub open spec fn default_ndb() -> Seq<SymbolRuleV> {
    seq![
        SymbolRuleV::Pixel(pt(0, 0)),
        SymbolRuleV::Arc(pt(0, 0), 1_000_000, 0, 360),
        SymbolRuleV::Arc(pt(0, 0), 3_000_000, 0, 360),
        SymbolRuleV::Arc(pt(0, 0), 5_000_000, 0, 360),
    ]
}

/// The built-in VOR: a hexagon in a rectangle.
pub open spec fn default_vor() -> Seq<SymbolRuleV> {
    seq![
        SymbolRuleV::Move(pt(-6, 0)),
        SymbolRuleV::Line(pt(-2, -5)),
        SymbolRuleV::Line(pt(2, -5)),
        SymbolRuleV::Line(pt(6, 0)),
        SymbolRuleV::Line(pt(2, 5)),
        SymbolRuleV::Line(pt(-2, 5)),
        SymbolRuleV::Line(pt(-6, 0)),
        SymbolRuleV::Move(pt(-6, -5)),
        SymbolRuleV::Line(pt(-6, 5)),
        SymbolRuleV::Line(pt(6, 5)),
        SymbolRuleV::Line(pt(6, -5)),
        SymbolRuleV::Line(pt(-6, -5)),
    ]
}

/// The built-in airport: a square with a cross.
pub open spec fn default_airport() -> Seq<SymbolRuleV> {
    seq![
        SymbolRuleV::Move(pt(-3, -3)),
        SymbolRuleV::Line(pt(3, -3)),
        SymbolRuleV::Line(pt(3, 3)),
        SymbolRuleV::Line(pt(-3, 3)),
        SymbolRuleV::Line(pt(-3, -3)),
        SymbolRuleV::Move(pt(5, 0)),
        SymbolRuleV::Line(pt(-6, 0)),
        SymbolRuleV::Move(pt(0, 5)),
        SymbolRuleV::Line(pt(0, -6)),
    ]
}

/// The built-in primary-only track: a cross.
pub open spec fn default_primary() -> Seq<SymbolRuleV> {
    seq![
        SymbolRuleV::Move(pt(-3, -3)),
        SymbolRuleV::Line(pt(4, 4)),
        SymbolRuleV::Move(pt(-3, 3)),
        SymbolRuleV::Line(pt(4, -4)),
    ]
}

/// The built-in controlled track: a diamond.
pub open spec fn default_controlled() -> Seq<SymbolRuleV> {
    seq![
        SymbolRuleV::Move(pt(-5, 0)),
        SymbolRuleV::Line(pt(0, -5)),
        SymbolRuleV::Line(pt(5, 0)),
        SymbolRuleV::Line(pt(0, 5)),
        SymbolRuleV::Line(pt(-5, 0)),
    ]
}

/// The built-in uncontrolled track: a triangle.
pub open spec fn default_uncontrolled() -> Seq<SymbolRuleV> {
    seq![
        SymbolRuleV::Move(pt(-4, 3)),
        SymbolRuleV::Line(pt(0, -4)),
        SymbolRuleV::Line(pt(3, 3)),
        SymbolRuleV::Line(pt(-4, 3)),
    ]
}

/// The built-in coasted track: three sides of a square.
pub open spec fn default_coasted() -> Seq<SymbolRuleV> {
    seq![
        SymbolRuleV::Move(pt(-4, -4)),
        SymbolRuleV::Line(pt(-4, 4)),
        SymbolRuleV::Line(pt(4, 4)),
        SymbolRuleV::Line(pt(4, -4)),
    ]
}

fn history_dot_symbol() -> (r: Vec<SymbolRule>)
    ensures
        rule_views(r@) == default_history_dot(),
{
    let mut ps: Vec<Point> = Vec::new();
    ps.push(point(-1, -1));
    ps.push(point(1, -1));
    ps.push(point(1, 1));
    ps.push(point(-1, 1));
    let mut r: Vec<SymbolRule> = Vec::new();
    r.push(SymbolRule::Polygon(ps));
    proof {
        assert(ps@ =~= seq![pt(-1, -1), pt(1, -1), pt(1, 1), pt(-1, 1)]);
        assert(rule_views(r@) =~= default_history_dot());
    }
    r
}

fn fix_symbol() -> (r: Vec<SymbolRule>)
    ensures
        rule_views(r@) == default_fix(),
{
    let mut r: Vec<SymbolRule> = Vec::new();
    r.push(SymbolRule::Move(point(-5, 5)));
    r.push(SymbolRule::Line(point(0, -5)));
    r.push(SymbolRule::Line(point(5, 5)));
    r.push(SymbolRule::Line(point(-5, 5)));
    proof {
        assert(rule_views(r@) =~= default_fix());
    }
    r
}

fn ndb_symbol() -> (r: Vec<SymbolRule>)
    ensures
        rule_views(r@) == default_ndb(),
{
    let mut r: Vec<SymbolRule> = Vec::new();
    r.push(SymbolRule::Pixel(point(0, 0)));
    r.push(SymbolRule::Arc(point(0, 0), 1_000_000, 0, 360));
    r.push(SymbolRule::Arc(point(0, 0), 3_000_000, 0, 360));
    r.push(SymbolRule::Arc(point(0, 0), 5_000_000, 0, 360));
    proof {
        assert(rule_views(r@) =~= default_ndb());
    }
    r
}

fn vor_symbol() -> (r: Vec<SymbolRule>)
    ensures
        rule_views(r@) == default_vor(),
{
    let mut r: Vec<SymbolRule> = Vec::new();
    r.push(SymbolRule::Move(point(-6, 0)));
    r.push(SymbolRule::Line(point(-2, -5)));
    r.push(SymbolRule::Line(point(2, -5)));
    r.push(SymbolRule::Line(point(6, 0)));
    r.push(SymbolRule::Line(point(2, 5)));
    r.push(SymbolRule::Line(point(-2, 5)));
    r.push(SymbolRule::Line(point(-6, 0)));
    r.push(SymbolRule::Move(point(-6, -5)));
    r.push(SymbolRule::Line(point(-6, 5)));
    r.push(SymbolRule::Line(point(6, 5)));
    r.push(SymbolRule::Line(point(6, -5)));
    r.push(SymbolRule::Line(point(-6, -5)));
    proof {
        assert(rule_views(r@) =~= default_vor());
    }
    r
}

fn airport_symbol() -> (r: Vec<SymbolRule>)
    ensures
        rule_views(r@) == default_airport(),
{
    let mut r: Vec<SymbolRule> = Vec::new();
    r.push(SymbolRule::Move(point(-3, -3)));
    r.push(SymbolRule::Line(point(3, -3)));
    r.push(SymbolRule::Line(point(3, 3)));
    r.push(SymbolRule::Line(point(-3, 3)));
    r.push(SymbolRule::Line(point(-3, -3)));
    r.push(SymbolRule::Move(point(5, 0)));
    r.push(SymbolRule::Line(point(-6, 0)));
    r.push(SymbolRule::Move(point(0, 5)));
    r.push(SymbolRule::Line(point(0, -6)));
    proof {
        assert(rule_views(r@) =~= default_airport());
    }
    r
}

fn primary_symbol() -> (r: Vec<SymbolRule>)
    ensures
        rule_views(r@) == default_primary(),
{
    let mut r: Vec<SymbolRule> = Vec::new();
    r.push(SymbolRule::Move(point(-3, -3)));
    r.push(SymbolRule::Line(point(4, 4)));
    r.push(SymbolRule::Move(point(-3, 3)));
    r.push(SymbolRule::Line(point(4, -4)));
    proof {
        assert(rule_views(r@) =~= default_primary());
    }
    r
}

fn controlled_symbol() -> (r: Vec<SymbolRule>)
    ensures
        rule_views(r@) == default_controlled(),
{
    let mut r: Vec<SymbolRule> = Vec::new();
    r.push(SymbolRule::Move(point(-5, 0)));
    r.push(SymbolRule::Line(point(0, -5)));
    r.push(SymbolRule::Line(point(5, 0)));
    r.push(SymbolRule::Line(point(0, 5)));
    r.push(SymbolRule::Line(point(-5, 0)));
    proof {
        assert(rule_views(r@) =~= default_controlled());
    }
    r
}

fn uncontrolled_symbol() -> (r: Vec<SymbolRule>)
    ensures
        rule_views(r@) == default_uncontrolled(),
{
    let mut r: Vec<SymbolRule> = Vec::new();
    r.push(SymbolRule::Move(point(-4, 3)));
    r.push(SymbolRule::Line(point(0, -4)));
    r.push(SymbolRule::Line(point(3, 3)));
    r.push(SymbolRule::Line(point(-4, 3)));
    proof {
        assert(rule_views(r@) =~= default_uncontrolled());
    }
    r
}

fn coasted_symbol() -> (r: Vec<SymbolRule>)
    ensures
        rule_views(r@) == default_coasted(),
{
    let mut r: Vec<SymbolRule> = Vec::new();
    r.push(SymbolRule::Move(point(-4, -4)));
    r.push(SymbolRule::Line(point(-4, 4)));
    r.push(SymbolRule::Line(point(4, 4)));
    r.push(SymbolRule::Line(point(4, -4)));
    proof {
        assert(rule_views(r@) =~= default_coasted());
    }
    r
}

/// The symbols of the radar screen. `other` holds every TopSky symbol by name, in
/// the order given (of those with the same name the last counts).
#[derive(Debug, PartialEq)]
pub struct Symbols {
    pub history_dot: Vec<SymbolRule>,
    pub fix: Vec<SymbolRule>,
    pub ndb: Vec<SymbolRule>,
    pub vor: Vec<SymbolRule>,
    pub airport: Vec<SymbolRule>,
    pub primary: Vec<SymbolRule>,
    pub coasted: Vec<SymbolRule>,
    pub uncontrolled: Vec<SymbolRule>,
    pub controlled: Vec<SymbolRule>,
    pub other: Vec<(String, Vec<SymbolRule>)>,
}

pub struct SymbolsV {
    pub history_dot: Seq<SymbolRuleV>,
    pub fix: Seq<SymbolRuleV>,
    pub ndb: Seq<SymbolRuleV>,
    pub vor: Seq<SymbolRuleV>,
    pub airport: Seq<SymbolRuleV>,
    pub primary: Seq<SymbolRuleV>,
    pub coasted: Seq<SymbolRuleV>,
    pub uncontrolled: Seq<SymbolRuleV>,
    pub controlled: Seq<SymbolRuleV>,
    pub other: Seq<(Seq<char>, Seq<SymbolRuleV>)>,
}

pub open spec fn named_views(v: Seq<(String, Vec<SymbolRule>)>) -> Seq<(Seq<char>, Seq<SymbolRuleV>)> {
    v.map_values(|p: (String, Vec<SymbolRule>)| (p.0@, rule_views(p.1@)))
}

impl View for Symbols {
    type V = SymbolsV;

    open spec fn view(&self) -> SymbolsV {
        SymbolsV {
            history_dot: rule_views(self.history_dot@),
            fix: rule_views(self.fix@),
            ndb: rule_views(self.ndb@),
            vor: rule_views(self.vor@),
            airport: rule_views(self.airport@),
            primary: rule_views(self.primary@),
            coasted: rule_views(self.coasted@),
            uncontrolled: rule_views(self.uncontrolled@),
            controlled: rule_views(self.controlled@),
            other: named_views(self.other@),
        }
    }
}

/// The TopSky symbols, if TopSky is configured.
pub open spec fn topsky_defs(topsky: Option<Topsky>) -> Option<Seq<SymbolDefV>> {
    match topsky {
        Some(t) => Some(def_views(t.symbols@)),
        None => None,
    }
}

/// The rules of a symbol: TopSky's symbol of that name, else the Symbology.txt
/// symbol, else the built-in one.
pub open spec fn pick(
    topsky: Option<Seq<SymbolDefV>>,
    name: Seq<char>,
    symbology: Option<Seq<PixelRuleV>>,
    default: Seq<SymbolRuleV>,
) -> Seq<SymbolRuleV> {
    match (topsky, symbology) {
        (Some(defs), _) if symbol_rules(defs, name) is Some => from_topsky_rules(
            symbol_rules(defs, name).unwrap(),
        ),
        (_, Some(rs)) => from_pixel_rules(rs),
        _ => default,
    }
}

/// The symbols drawn for a Symbology.txt and TopSky's symbols. The VOR falls back to
/// the built-in NDB, as the built-in VOR is used only when nothing is configured.
pub open spec fn symbols_of(symbology: SymbologyV, topsky: Option<Seq<SymbolDefV>>) -> SymbolsV {
    SymbolsV {
        history_dot: pick(
            topsky,
            "HISTORY"@,
            symbology.symbol(SymbolType::HistoryDot),
            default_history_dot(),
        ),
        fix: pick(topsky, "FIX"@, symbology.symbol(SymbolType::Fix), default_fix()),
        ndb: pick(topsky, "NDB"@, symbology.symbol(SymbolType::NDB), default_ndb()),
        vor: pick(topsky, "VOR"@, symbology.symbol(SymbolType::VOR), default_ndb()),
        airport: pick(
            topsky,
            "AIRPORT"@,
            symbology.symbol(SymbolType::Airport),
            default_airport(),
        ),
        primary: pick(
            topsky,
            "PRIMARY"@,
            symbology.symbol(SymbolType::AircraftPrimaryOnly),
            default_primary(),
        ),
        coasted: pick(
            topsky,
            "COASTED"@,
            symbology.symbol(SymbolType::AircraftCoasting),
            default_coasted(),
        ),
        uncontrolled: pick(
            topsky,
            "UNCONTROLLED"@,
            symbology.symbol(SymbolType::AircraftUncorrModeAlphaCharlie),
            default_uncontrolled(),
        ),
        controlled: pick(
            topsky,
            "DAPS"@,
            symbology.symbol(SymbolType::AircraftCorrModeSierra),
            default_controlled(),
        ),
        other: match topsky {
            Some(defs) => defs.map_values(
                |d: SymbolDefV| (d.name, from_topsky_rules(d.rules)),
            ),
            None => seq![],
        },
    }
}

/// The rules of one symbol (see [`pick`]).
fn pick_rules(
    topsky: &Option<Topsky>,
    name: &str,
    symbology: Option<&Vec<PixelRule>>,
    default: Vec<SymbolRule>,
) -> (r: Vec<SymbolRule>)
    ensures
        rule_views(r@) == pick(
            topsky_defs(*topsky),
            name@,
            match symbology {
                Some(v) => Some(pixel_rule_views(v@)),
                None => None,
            },
            rule_views(default@),
        ),
{
    if let Some(t) = topsky {
        if let Some(d) = find_symbol(&t.symbols, name) {
            return convert_topsky_rules(&d.rules);
        }
    }
    match symbology {
        Some(v) => convert_pixel_rules(v),
        None => default,
    }
}

/// Every TopSky symbol by name (see [`symbols_of`]).
fn topsky_others(topsky: &Option<Topsky>) -> (r: Vec<(String, Vec<SymbolRule>)>)
    ensures
        named_views(r@) == match topsky_defs(*topsky) {
            Some(defs) => defs.map_values(
                |d: SymbolDefV| (d.name, from_topsky_rules(d.rules)),
            ),
            None => seq![],
        },
{
    let mut r: Vec<(String, Vec<SymbolRule>)> = Vec::new();
    match topsky {
        None => {
            proof {
                assert(named_views(r@) =~= Seq::<(Seq<char>, Seq<SymbolRuleV>)>::empty());
            }
            r
        },
        Some(t) => {
            let ghost want = def_views(t.symbols@).map_values(
                |d: SymbolDefV| (d.name, from_topsky_rules(d.rules)),
            );
            let mut i: usize = 0;
            while i < t.symbols.len()
                invariant
                    i <= t.symbols@.len(),
                    want == def_views(t.symbols@).map_values(
                        |d: SymbolDefV| (d.name, from_topsky_rules(d.rules)),
                    ),
                    named_views(r@) == want.take(i as int),
                decreases t.symbols@.len() - i,
            {
                let ghost before = named_views(r@);
                let d = &t.symbols[i];
                let entry = (d.name.clone(), convert_topsky_rules(&d.rules));
                r.push(entry);
                proof {
                    assert(named_views(r@) =~= before.push((entry.0@, rule_views(entry.1@))));
                    assert(want.take(i + 1) =~= want.take(i as int).push(want[i as int]));
                }
                i = i + 1;
            }
            proof {
                assert(want.take(t.symbols@.len() as int) =~= want);
            }
            r
        },
    }
}

impl Symbols {
    /// The symbols drawn for a Symbology.txt and, where TopSky is configured, its
    /// symbols (see [`symbols_of`]).
    pub fn from_euroscope(symbology: &Symbology, topsky: &Option<Topsky>) -> (r: Symbols)
        ensures
            r@ == symbols_of(symbology@, topsky_defs(*topsky)),
    {
        let history_dot = pick_rules(
            topsky,
            "HISTORY",
            symbology.symbol(SymbolType::HistoryDot),
            history_dot_symbol(),
        );
        let fix = pick_rules(topsky, "FIX", symbology.symbol(SymbolType::Fix), fix_symbol());
        let ndb = pick_rules(topsky, "NDB", symbology.symbol(SymbolType::NDB), ndb_symbol());
        let vor = pick_rules(topsky, "VOR", symbology.symbol(SymbolType::VOR), ndb_symbol());
        let airport = pick_rules(
            topsky,
            "AIRPORT",
            symbology.symbol(SymbolType::Airport),
            airport_symbol(),
        );
        let primary = pick_rules(
            topsky,
            "PRIMARY",
            symbology.symbol(SymbolType::AircraftPrimaryOnly),
            primary_symbol(),
        );
        let coasted = pick_rules(
            topsky,
            "COASTED",
            symbology.symbol(SymbolType::AircraftCoasting),
            coasted_symbol(),
        );
        let uncontrolled = pick_rules(
            topsky,
            "UNCONTROLLED",
            symbology.symbol(SymbolType::AircraftUncorrModeAlphaCharlie),
            uncontrolled_symbol(),
        );
        let controlled = pick_rules(
            topsky,
            "DAPS",
            symbology.symbol(SymbolType::AircraftCorrModeSierra),
            controlled_symbol(),
        );
        let other = topsky_others(topsky);
        Symbols {
            history_dot,
            fix,
            ndb,
            vor,
            airport,
            primary,
            coasted,
            uncontrolled,
            controlled,
            other,
        }
    }

    /// A TopSky symbol by name (the last of that name).
    pub fn get(&self, name: &str) -> (r: Option<&[SymbolRule]>)
        ensures
            match last_index(self@.other.len() as int, |j: int| self@.other[j].0 == name@) {
                Some(j) => r matches Some(x) && rule_views(x@) == self@.other[j].1,
                None => r is None,
            },
    {
        let ghost p = |j: int| self@.other[j].0 == name@;
        let mut j = self.other.len();
        while j > 0
            invariant
                j <= self.other@.len(),
                p == (|j: int| self@.other[j].0 == name@),
                forall|k: int| j <= k < self.other@.len() ==> !#[trigger] p(k),
            decreases j,
        {
            j = j - 1;
            if crate::text::str_eq(self.other[j].0.as_str(), name) {
                proof {
                    assert(p(j as int));
                    lemma_last_index_at(self@.other.len() as int, p, j as int);
                }
                return Some(self.other[j].1.as_slice());
            }
            proof {
                assert(!p(j as int));
            }
        }
        proof {
            lemma_last_index(self@.other.len() as int, p);
            if last_index(self@.other.len() as int, p) is Some {
                let k = last_index(self@.other.len() as int, p).unwrap();
                assert(p(k));
            }
        }
        None
    }
}

/// The symbols when nothing is configured: all built in, no TopSky symbols.
pub open spec fn default_symbols() -> SymbolsV {
    SymbolsV {
        history_dot: default_history_dot(),
        fix: default_fix(),
        ndb: default_ndb(),
        vor: default_vor(),
        airport: default_airport(),
        primary: default_primary(),
        coasted: default_coasted(),
        uncontrolled: default_uncontrolled(),
        controlled: default_controlled(),
        other: seq![],
    }
}

impl Default for Symbols {
    fn default() -> (r: Self)
        ensures
            r@ == default_symbols(),
    {
        let r = Symbols {
            history_dot: history_dot_symbol(),
            fix: fix_symbol(),
            ndb: ndb_symbol(),
            vor: vor_symbol(),
            airport: airport_symbol(),
            primary: primary_symbol(),
            coasted: coasted_symbol(),
            uncontrolled: uncontrolled_symbol(),
            controlled: controlled_symbol(),
            other: Vec::new(),
        };
        proof {
            assert(named_views(r.other@) =~= Seq::<(Seq<char>, Seq<SymbolRuleV>)>::empty());
        }
        r
    }
}

} // verus!
