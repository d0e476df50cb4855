//! TopSkySymbols.txt: named symbols, each drawn by a list of rules.
//!
//! The file is read line by line, each line without its surrounding blanks:
//!
//! * empty lines and lines starting with `//` are passed over;
//! * `SYMBOL:name` or `SYMBOLDEF:name` opens a symbol of that name (not empty);
//! * any other line is a rule of the open symbol, its parts separated by colons:
//!   `MOVETO:x:y`, `LINETO:x:y`, `SETPIXEL:x:y`, `ARC:x:y:r:a:b`,
//!   `ARC:x:y:rx:ry:a:b`, `FILLARC:x:y:r:a:b`, `FILLARC:x:y:rx:ry:a:b`,
//!   `ELLIPSE_CIRCLE:x:y:r`, `ELLIPSE:x:y:rx:ry`, `POLYGON:x1:y1:x2:y2:...`.
//!   Positions and radii are decimal numbers, kept in millionths of a pixel (see
//!   [`crate::decimal`]); the angles `a` and `b` are whole degrees, taken modulo 360
//!   as Rust's `%` does. A full circle or ellipse has both angles zero.
//!
//! A line that is none of these, and a rule with no symbol open, makes the file
//! invalid. Of symbols with the same name, the last one counts.
use vstd::prelude::*;

use crate::decimal::{micro_value, parse_micro};
use crate::lookup::{last_index, lemma_last_index, lemma_last_index_at};
use crate::symbology::{int_of, rem360};
use crate::text::{
    chars_are, chars_start_with, copy_range, lines_spec, parse_i64, split_chars, split_spec,
    starts_with, string_from_chars, trim, trim_spec, views,
};

verus! {

/// A point of a symbol drawing, in millionths of a pixel from the symbol's centre.
pub type Point = (i64, i64);

/// One drawing rule of a TopSky symbol; lengths in millionths of a pixel, angles in
/// degrees.
#[derive(Debug, PartialEq)]
pub enum SymbolRule {
    Move(Point),
    Line(Point),
    Pixel(Point),
    Arc(Point, i64, i64, i64),
    EllipticArc(Point, i64, i64, i64, i64),
    FilledArc(Point, i64, i64, i64),
    FilledEllipticArc(Point, i64, i64, i64, i64),
    Polygon(Vec<Point>),
}

/// A drawing rule, its polygon corners as a sequence.
pub enum SymbolRuleV {
    Move(Point),
    Line(Point),
    Pixel(Point),
    Arc(Point, i64, i64, i64),
    EllipticArc(Point, i64, i64, i64, i64),
    FilledArc(Point, i64, i64, i64),
    FilledEllipticArc(Point, i64, i64, i64, i64),
    Polygon(Seq<Point>),
}

impl View for SymbolRule {
    type V = SymbolRuleV;

    open spec fn view(&self) -> SymbolRuleV {
        match self {
            SymbolRule::Move(p) => SymbolRuleV::Move(*p),
            SymbolRule::Line(p) => SymbolRuleV::Line(*p),
            SymbolRule::Pixel(p) => SymbolRuleV::Pixel(*p),
            SymbolRule::Arc(p, r, a, b) => SymbolRuleV::Arc(*p, *r, *a, *b),
            SymbolRule::EllipticArc(p, rx, ry, a, b) => SymbolRuleV::EllipticArc(
                *p,
                *rx,
                *ry,
                *a,
                *b,
            ),
            SymbolRule::FilledArc(p, r, a, b) => SymbolRuleV::FilledArc(*p, *r, *a, *b),
            SymbolRule::FilledEllipticArc(p, rx, ry, a, b) => SymbolRuleV::FilledEllipticArc(
                *p,
                *rx,
                *ry,
                *a,
                *b,
            ),
            SymbolRule::Polygon(ps) => SymbolRuleV::Polygon(ps@),
        }
    }
}

/// A copy of a list of points.
fn copy_points(ps: &Vec<Point>) -> (r: Vec<Point>)
    ensures
        r@ == ps@,
{
    let mut r: Vec<Point> = Vec::new();
    let mut i: usize = 0;
    while i < ps.len()
        invariant
            i <= ps@.len(),
            r@ == ps@.take(i as int),
        decreases ps@.len() - i,
    {
        r.push(ps[i]);
        proof {
            assert(ps@.take(i + 1) =~= ps@.take(i as int).push(ps@[i as int]));
        }
        i = i + 1;
    }
    proof {
        assert(ps@.take(ps@.len() as int) =~= ps@);
    }
    r
}

impl Clone for SymbolRule {
    fn clone(&self) -> (r: Self)
        ensures
            r@ == self@,
    {
        match self {
            SymbolRule::Move(p) => SymbolRule::Move(*p),
            SymbolRule::Line(p) => SymbolRule::Line(*p),
            SymbolRule::Pixel(p) => SymbolRule::Pixel(*p),
            SymbolRule::Arc(p, r, a, b) => SymbolRule::Arc(*p, *r, *a, *b),
            SymbolRule::EllipticArc(p, rx, ry, a, b) => SymbolRule::EllipticArc(
                *p,
                *rx,
                *ry,
                *a,
                *b,
            ),
            SymbolRule::FilledArc(p, r, a, b) => SymbolRule::FilledArc(*p, *r, *a, *b),
            SymbolRule::FilledEllipticArc(p, rx, ry, a, b) => SymbolRule::FilledEllipticArc(
                *p,
                *rx,
                *ry,
                *a,
                *b,
            ),
            SymbolRule::Polygon(ps) => SymbolRule::Polygon(copy_points(ps)),
        }
    }
}

/// The views of a list of drawing rules.
pub open spec fn rule_views(rs: Seq<SymbolRule>) -> Seq<SymbolRuleV> {
    rs.map_values(|r: SymbolRule| r@)
}

/// A copy of a list of drawing rules.
pub fn copy_rules(rs: &Vec<SymbolRule>) -> (r: Vec<SymbolRule>)
    ensures
        rule_views(r@) == rule_views(rs@),
{
    let mut r: Vec<SymbolRule> = Vec::new();
    let mut i: usize = 0;
    while i < rs.len()
        invariant
            i <= rs@.len(),
            rule_views(r@) == rule_views(rs@).take(i as int),
        decreases rs@.len() - i,
    {
        let ghost before = rule_views(r@);
        let c = rs[i].clone();
        r.push(c);
        proof {
            assert(rule_views(r@) =~= before.push(c@));
            assert(rule_views(rs@).take(i + 1) =~= rule_views(rs@).take(i as int).push(
                rs@[i as int]@,
            ));
        }
        i = i + 1;
    }
    proof {
        assert(rule_views(rs@).take(rs@.len() as int) =~= rule_views(rs@));
    }
    r
}

/// The decimal numbers, in millionths, that the words `ws` spell, if they all spell
/// one.
pub open spec fn micros_of(ws: Seq<Seq<char>>) -> Option<Seq<i64>>
    decreases ws.len(),
{
    if ws.len() == 0 {
        Some(seq![])
    } else {
        match (micros_of(ws.drop_last()), micro_value(ws.last())) {
            (Some(v), Some(x)) => Some(v.push(x as i64)),
            _ => None,
        }
    }
}

/// The angle that a word spells, taken modulo 360.
pub open spec fn angle_of(w: Seq<char>) -> Option<i64> {
    match int_of(w) {
        Some(a) => Some(rem360(a) as i64),
        None => None,
    }
}

/// Numbers taken two by two as points.
pub open spec fn points_of(ns: Seq<i64>) -> Seq<Point> {
    Seq::new(ns.len() / 2, |i: int| (ns[2 * i], ns[2 * i + 1]))
}

/// An arc-like rule from its `k` lengths and two angle words; none if a word does
/// not spell its number.
pub open spec fn arc_parts(args: Seq<Seq<char>>, k: int) -> Option<(Seq<i64>, i64, i64)> {
    match (micros_of(args.take(k)), angle_of(args[k]), angle_of(args[k + 1])) {
        (Some(ns), Some(a), Some(b)) => Some((ns, a, b)),
        _ => None,
    }
}

/// The drawing rule that command `cmd` with the argument words `args` stands for.
pub open spec fn rule_of(cmd: Seq<char>, args: Seq<Seq<char>>) -> Option<SymbolRuleV> {
    let n = args.len();
    if n < 2 {
        None
    } else if (cmd == "ARC"@ || cmd == "FILLARC"@) && (n == 5 || n == 6) {
        match arc_parts(args, n - 2) {
            None => None,
            Some((ns, a, b)) => {
                let p = (ns[0], ns[1]);
                if cmd == "ARC"@ && n == 5 {
                    Some(SymbolRuleV::Arc(p, ns[2], a, b))
                } else if cmd == "ARC"@ {
                    Some(SymbolRuleV::EllipticArc(p, ns[2], ns[3], a, b))
                } else if n == 5 {
                    Some(SymbolRuleV::FilledArc(p, ns[2], a, b))
                } else {
                    Some(SymbolRuleV::FilledEllipticArc(p, ns[2], ns[3], a, b))
                }
            },
        }
    } else {
        match micros_of(args) {
            None => None,
            Some(ns) => {
                let p = (ns[0], ns[1]);
                if cmd == "MOVETO"@ && n == 2 {
                    Some(SymbolRuleV::Move(p))
                } else if cmd == "LINETO"@ && n == 2 {
                    Some(SymbolRuleV::Line(p))
                } else if cmd == "SETPIXEL"@ && n == 2 {
                    Some(SymbolRuleV::Pixel(p))
                } else if cmd == "ELLIPSE_CIRCLE"@ && n == 3 {
                    Some(SymbolRuleV::FilledArc(p, ns[2], 0, 0))
                } else if cmd == "ELLIPSE"@ && n == 4 {
                    Some(SymbolRuleV::FilledEllipticArc(p, ns[2], ns[3], 0, 0))
                } else if cmd == "POLYGON"@ && n % 2 == 0 {
                    Some(SymbolRuleV::Polygon(points_of(ns)))
                } else {
                    None
                }
            },
        }
    }
}

/// The drawing rule that a (trimmed) rule line describes.
pub open spec fn rule_line(l: Seq<char>) -> Option<SymbolRuleV> {
    let f = split_spec(l, ':');
    rule_of(f[0], f.drop_first())
}

/// Words that fail to spell numbers somewhere in a prefix fail in the whole.
proof fn lemma_micros_of_none(ws: Seq<Seq<char>>, k: int)
    requires
        0 <= k <= ws.len(),
        micros_of(ws.take(k)) is None,
    ensures
        micros_of(ws) is None,
    decreases ws.len() - k,
{
    if k < ws.len() {
        assert(ws.take(k + 1).drop_last() =~= ws.take(k));
        lemma_micros_of_none(ws, k + 1);
    } else {
        assert(ws.take(k) =~= ws);
    }
}

/// One number is read per word.
proof fn lemma_micros_of_len(ws: Seq<Seq<char>>)
    ensures
        micros_of(ws) matches Some(v) ==> v.len() == ws.len(),
    decreases ws.len(),
{
    if ws.len() > 0 {
        lemma_micros_of_len(ws.drop_last());
    }
}

/// Reads the decimal numbers spelt by the words at positions `from..to`.
pub(crate) fn parse_micros(ws: &[Vec<char>], from: usize, to: usize) -> (r: Option<Vec<i64>>)
    requires
        from <= to <= ws@.len(),
    ensures
        r matches Some(v) ==> micros_of(views(ws@).subrange(from as int, to as int)) == Some(
            v@,
        ),
        r matches Some(v) ==> v@.len() == to - from,
        r is None ==> micros_of(views(ws@).subrange(from as int, to as int)) is None,
{
    let ghost wv = views(ws@).subrange(from as int, to as int);
    let mut ns: Vec<i64> = Vec::new();
    let mut i: usize = from;
    proof {
        assert(wv.take(0) =~= Seq::<Seq<char>>::empty());
    }
    while i < to
        invariant
            from <= i <= to <= ws@.len(),
            wv == views(ws@).subrange(from as int, to as int),
            micros_of(wv.take(i - from)) == Some(ns@),
        decreases to - i,
    {
        let ghost k: int = i - from;
        proof {
            assert(wv.take(k + 1).drop_last() =~= wv.take(k));
            assert(wv.take(k + 1).last() == ws@[i as int]@);
        }
        match parse_micro(ws[i].as_slice()) {
            None => {
                proof {
                    lemma_micros_of_none(wv, k + 1);
                }
                return None;
            },
            Some(x) => {
                ns.push(x);
            },
        }
        i = i + 1;
    }
    proof {
        assert(wv.take(to - from) =~= wv);
        lemma_micros_of_len(wv);
    }
    Some(ns)
}

/// Reads an angle word (see [`angle_of`]).
fn parse_angle(w: &[char]) -> (r: Option<i64>)
    ensures
        r == angle_of(w@),
{
    match parse_i64(w) {
        None => None,
        Some(a) => Some(a % 360),
    }
}

/// Reads a (trimmed) rule line (see [`rule_line`]).
pub(crate) fn parse_rule(l: &[char]) -> (r: Option<SymbolRule>)
    ensures
        r matches Some(x) ==> rule_line(l@) == Some(x@),
        r is None ==> rule_line(l@) is None,
{
    let f = split_chars(l, ':');
    let ghost fv = views(f@);
    proof {
        assert(fv == split_spec(l@, ':'));
        crate::text::lemma_split_nonempty(l@, ':');
        assert(fv.drop_first() =~= fv.subrange(1, fv.len() as int));
    }
    let n = f.len() - 1;
    let cmd = f[0].as_slice();
    proof {
        assert(cmd@ == fv[0]);
    }
    if n < 2 {
        return None;
    }
    let is_arc = chars_are(cmd, "ARC");
    let is_fillarc = chars_are(cmd, "FILLARC");
    if (is_arc || is_fillarc) && (n == 5 || n == 6) {
        let ghost args = fv.drop_first();
        proof {
            assert(args.take(n - 2) =~= fv.subrange(1, n - 1));
            assert(args[n - 2] == f@[n - 1]@);
            assert(args[n - 1] == f@[n as int]@);
        }
        let ns = match parse_micros(f.as_slice(), 1, n - 1) {
            None => {
                return None;
            },
            Some(ns) => ns,
        };
        let a = match parse_angle(f[n - 1].as_slice()) {
            None => {
                return None;
            },
            Some(a) => a,
        };
        let b = match parse_angle(f[n].as_slice()) {
            None => {
                return None;
            },
            Some(b) => b,
        };
        let p = (ns[0], ns[1]);
        if is_arc && n == 5 {
            return Some(SymbolRule::Arc(p, ns[2], a, b));
        } else if is_arc {
            return Some(SymbolRule::EllipticArc(p, ns[2], ns[3], a, b));
        } else if n == 5 {
            return Some(SymbolRule::FilledArc(p, ns[2], a, b));
        } else {
            return Some(SymbolRule::FilledEllipticArc(p, ns[2], ns[3], a, b));
        }
    }
    let ns = match parse_micros(f.as_slice(), 1, f.len()) {
        None => {
            return None;
        },
        Some(ns) => ns,
    };
    let p = (ns[0], ns[1]);
    if chars_are(cmd, "MOVETO") && n == 2 {
        Some(SymbolRule::Move(p))
    } else if chars_are(cmd, "LINETO") && n == 2 {
        Some(SymbolRule::Line(p))
    } else if chars_are(cmd, "SETPIXEL") && n == 2 {
        Some(SymbolRule::Pixel(p))
    } else if chars_are(cmd, "ELLIPSE_CIRCLE") && n == 3 {
        Some(SymbolRule::FilledArc(p, ns[2], 0, 0))
    } else if chars_are(cmd, "ELLIPSE") && n == 4 {
        Some(SymbolRule::FilledEllipticArc(p, ns[2], ns[3], 0, 0))
    } else if chars_are(cmd, "POLYGON") && n % 2 == 0 {
        let mut pts: Vec<Point> = Vec::new();
        let mut i: usize = 0;
        while i < n / 2
            invariant
                n == ns@.len(),
                n % 2 == 0,
                i <= n / 2,
                pts@ == points_of(ns@).take(i as int),
            decreases n / 2 - i,
        {
            pts.push((ns[2 * i], ns[2 * i + 1]));
            proof {
                assert(pts@ =~= points_of(ns@).take(i + 1));
            }
            i = i + 1;
        }
        proof {
            assert(points_of(ns@).take((n / 2) as int) =~= points_of(ns@));
        }
        Some(SymbolRule::Polygon(pts))
    } else {
        None
    }
}

/// A named symbol and its drawing rules.
#[derive(Debug, PartialEq)]
pub struct SymbolDef {
    pub name: String,
    pub rules: Vec<SymbolRule>,
}

/// A symbol, its name as characters.
pub struct SymbolDefV {
    pub name: Seq<char>,
    pub rules: Seq<SymbolRuleV>,
}

impl View for SymbolDef {
    type V = SymbolDefV;

    open spec fn view(&self) -> SymbolDefV {
        SymbolDefV { name: self.name@, rules: rule_views(self.rules@) }
    }
}

impl Clone for SymbolDef {
    fn clone(&self) -> (r: Self)
        ensures
            r@ == self@,
    {
        SymbolDef { name: self.name.clone(), rules: copy_rules(&self.rules) }
    }
}

pub open spec fn def_views(defs: Seq<SymbolDef>) -> Seq<SymbolDefV> {
    defs.map_values(|d: SymbolDef| d@)
}

/// What a line of the file holds.
pub enum SymbolsLine {
    Blank,
    Open(Seq<char>),
    Rule(SymbolRuleV),
}

/// What a line holds, or none for an invalid line (see the module's documentation).
pub open spec fn symbols_line(line: Seq<char>) -> Option<SymbolsLine> {
    let l = trim_spec(line);
    if l.len() == 0 || starts_with(l, "//"@) {
        Some(SymbolsLine::Blank)
    } else if starts_with(l, "SYMBOL:"@) {
        if l.len() > 7 {
            Some(SymbolsLine::Open(l.skip(7)))
        } else {
            None
        }
    } else if starts_with(l, "SYMBOLDEF:"@) {
        if l.len() > 10 {
            Some(SymbolsLine::Open(l.skip(10)))
        } else {
            None
        }
    } else {
        match rule_line(l) {
            Some(r) => Some(SymbolsLine::Rule(r)),
            None => None,
        }
    }
}

/// The symbols that lines give, in file order, or the index of the first invalid
/// line.
pub open spec fn symbols_lines(lines: Seq<Seq<char>>) -> Result<Seq<SymbolDefV>, nat>
    decreases lines.len(),
{
    if lines.len() == 0 {
        Ok(seq![])
    } else {
        match symbols_lines(lines.drop_last()) {
            Err(i) => Err(i),
            Ok(defs) => match symbols_line(lines.last()) {
                None => Err((lines.len() - 1) as nat),
                Some(SymbolsLine::Blank) => Ok(defs),
                Some(SymbolsLine::Open(name)) => Ok(
                    defs.push(SymbolDefV { name, rules: seq![] }),
                ),
                Some(SymbolsLine::Rule(r)) => if defs.len() == 0 {
                    Err((lines.len() - 1) as nat)
                } else {
                    let k = defs.len() - 1;
                    Ok(defs.update(k, SymbolDefV { name: defs[k].name, rules: defs[k].rules.push(r) }))
                },
            },
        }
    }
}

/// The symbols of a TopSkySymbols.txt text, or the index of its first invalid line.
pub open spec fn symbols_text(text: Seq<char>) -> Result<Seq<SymbolDefV>, nat> {
    symbols_lines(lines_spec(text))
}

/// An error while reading TopSkySymbols.txt.
#[derive(Debug, PartialEq, Eq, Structural)]
pub enum SymbolsError {
    /// The line with this number, counted from one, is invalid.
    Parse { line: usize },
}

/// What a line holds, read.
enum SymbolsLineRead {
    Blank,
    Open(String),
    Rule(SymbolRule),
}

/// Reads a line (see [`symbols_line`]).
fn parse_line(line: &[char]) -> (r: Option<SymbolsLineRead>)
    ensures
        match symbols_line(line@) {
            None => r is None,
            Some(SymbolsLine::Blank) => r matches Some(SymbolsLineRead::Blank),
            Some(SymbolsLine::Open(n)) => r matches Some(SymbolsLineRead::Open(x)) && x@ == n,
            Some(SymbolsLine::Rule(v)) => r matches Some(SymbolsLineRead::Rule(x)) && x@ == v,
        },
{
    let l = trim(line);
    if l.len() == 0 || chars_start_with(&l, "//") {
        return Some(SymbolsLineRead::Blank);
    }
    if chars_start_with(&l, "SYMBOL:") {
        proof {
            reveal_strlit("SYMBOL:");
        }
        if l.len() > 7 {
            let rest = copy_range(&l, 7, l.len());
            proof {
                assert(rest@ =~= l@.skip(7));
            }
            return Some(SymbolsLineRead::Open(string_from_chars(&rest)));
        }
        return None;
    }
    if chars_start_with(&l, "SYMBOLDEF:") {
        proof {
            reveal_strlit("SYMBOLDEF:");
        }
        if l.len() > 10 {
            let rest = copy_range(&l, 10, l.len());
            proof {
                assert(rest@ =~= l@.skip(10));
            }
            return Some(SymbolsLineRead::Open(string_from_chars(&rest)));
        }
        return None;
    }
    match parse_rule(&l) {
        Some(r) => Some(SymbolsLineRead::Rule(r)),
        None => None,
    }
}

/// An invalid line stays the first invalid one however many lines follow.
proof fn lemma_symbols_error_persists(lines: Seq<Seq<char>>, k: int)
    requires
        0 <= k <= lines.len(),
        symbols_lines(lines.take(k)) is Err,
    ensures
        symbols_lines(lines) == symbols_lines(lines.take(k)),
    decreases lines.len() - k,
{
    if k < lines.len() {
        assert(lines.take(k + 1).drop_last() =~= lines.take(k));
        lemma_symbols_error_persists(lines, k + 1);
    } else {
        assert(lines.take(k) =~= lines);
    }
}

/// Adds a rule to the last symbol.
fn push_rule(defs: &mut Vec<SymbolDef>, r: SymbolRule)
    requires
        old(defs)@.len() > 0,
    ensures
        ({
            let k = old(defs)@.len() - 1;
            let o = def_views(old(defs)@);
            def_views(final(defs)@) == o.update(
                k,
                SymbolDefV { name: o[k].name, rules: o[k].rules.push(r@) },
            )
        }),
{
    let ghost o = def_views(defs@);
    let ghost rv = r@;
    let k = defs.len() - 1;
    let entry = &mut defs[k];
    let ghost before = rule_views(entry.rules@);
    entry.rules.push(r);
    proof {
        assert(rule_views(entry.rules@) =~= before.push(rv));
        assert(def_views(defs@) =~= o.update(
            k as int,
            SymbolDefV { name: o[k as int].name, rules: o[k as int].rules.push(rv) },
        ));
    }
}

/// Reads a TopSkySymbols.txt file (see the module's documentation): its symbols in
/// file order, or the number, counted from one, of its first invalid line.
pub fn parse_topsky_symbols(contents: &[u8]) -> (res: Result<Vec<SymbolDef>, SymbolsError>)
    ensures
        match symbols_text(crate::file_text(contents@)) {
            Ok(v) => res matches Ok(defs) && def_views(defs@) == v,
            Err(i) => res == Err::<Vec<SymbolDef>, SymbolsError>(
                SymbolsError::Parse { line: (i + 1) as usize },
            ),
        },
{
    let text = crate::read_to_string(contents);
    let chars = crate::text::chars_of(text.as_str());
    let lines = crate::text::lines_of(chars.as_slice());
    let ghost ls = lines_spec(text@);
    let mut defs: Vec<SymbolDef> = Vec::new();
    proof {
        assert(def_views(defs@) =~= Seq::<SymbolDefV>::empty());
        assert(ls.take(0) =~= Seq::<Seq<char>>::empty());
    }
    let mut i: usize = 0;
    while i < lines.len()
        invariant
            i <= lines@.len(),
            views(lines@) == ls,
            ls == lines_spec(crate::file_text(contents@)),
            symbols_lines(ls.take(i as int)) == Ok::<Seq<SymbolDefV>, nat>(def_views(defs@)),
        decreases lines@.len() - i,
    {
        proof {
            assert(ls.take(i + 1).drop_last() =~= ls.take(i as int));
            assert(ls.take(i + 1).last() == lines@[i as int]@);
        }
        match parse_line(lines[i].as_slice()) {
            None => {
                proof {
                    lemma_symbols_error_persists(ls, i + 1);
                }
                return Err(SymbolsError::Parse { line: i + 1 });
            },
            Some(SymbolsLineRead::Blank) => {},
            Some(SymbolsLineRead::Open(name)) => {
                let ghost before = def_views(defs@);
                let d = SymbolDef { name, rules: Vec::new() };
                proof {
                    assert(rule_views(d.rules@) =~= Seq::<SymbolRuleV>::empty());
                }
                defs.push(d);
                proof {
                    assert(def_views(defs@) =~= before.push(d@));
                }
            },
            Some(SymbolsLineRead::Rule(r)) => {
                if defs.len() == 0 {
                    proof {
                        lemma_symbols_error_persists(ls, i + 1);
                    }
                    return Err(SymbolsError::Parse { line: i + 1 });
                }
                push_rule(&mut defs, r);
            },
        }
        i = i + 1;
    }
    proof {
        assert(ls.take(lines@.len() as int) =~= ls);
    }
    Ok(defs)
}

/// Symbols named `name`.
pub open spec fn def_named(defs: Seq<SymbolDefV>, name: Seq<char>) -> spec_fn(int) -> bool {
    |j: int| defs[j].name == name
}

/// The drawing rules of the symbol named `name`: those of the last one given.
pub open spec fn symbol_rules(defs: Seq<SymbolDefV>, name: Seq<char>) -> Option<Seq<SymbolRuleV>> {
    match last_index(defs.len() as int, def_named(defs, name)) {
        Some(j) => Some(defs[j].rules),
        None => None,
    }
}

/// The symbol named `name` (the last one given).
pub fn find_symbol<'a>(defs: &'a Vec<SymbolDef>, name: &str) -> (r: Option<&'a SymbolDef>)
    ensures
        match symbol_rules(def_views(defs@), name@) {
            Some(v) => r matches Some(d) && d@.name == name@ && d@.rules == v,
            None => r is None,
        },
{
    let ghost dv = def_views(defs@);
    let ghost p = def_named(dv, name@);
    let mut j = defs.len();
    while j > 0
        invariant
            j <= defs@.len(),
            dv == def_views(defs@),
            p == def_named(dv, name@),
            forall|k: int| j <= k < defs@.len() ==> !#[trigger] p(k),
        decreases j,
    {
        j = j - 1;
        if crate::text::str_eq(defs[j].name.as_str(), name) {
            proof {
                assert(p(j as int));
                lemma_last_index_at(dv.len() as int, p, j as int);
            }
            return Some(&defs[j]);
        }
        proof {
            assert(!p(j as int));
        }
    }
    proof {
        lemma_last_index(dv.len() as int, p);
        if last_index(dv.len() as int, p) is Some {
            let k = last_index(dv.len() as int, p).unwrap();
            assert(p(k));
        }
    }
    None
}

} // verus!
