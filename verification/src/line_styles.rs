//! Line styles: a width and the name of a style for sector file elements, and the
//! dash patterns of the named styles.
use vstd::prelude::*;

use crate::maps::uppercase;
use crate::topsky_maps::{line_style_def_views, LineStyleDefV};

verus! {

/// A line width and the name of its style (such as `SOLID`).
#[derive(Debug)]
pub struct LineStyle {
    pub width: i32,
    pub style: String,
}

/// A line style, its name as a character sequence.
pub struct LineStyleV {
    pub width: i32,
    pub style: Seq<char>,
}

impl View for LineStyle {
    type V = LineStyleV;

    open spec fn view(&self) -> LineStyleV {
        LineStyleV { width: self.width, style: self.style@ }
    }
}

/// The style of a line not otherwise styled: one pixel, solid.
pub open spec fn default_line_style() -> LineStyleV {
    LineStyleV { width: 1, style: "SOLID"@ }
}

impl Default for LineStyle {
    fn default() -> (r: Self)
        ensures
            r@ == default_line_style(),
    {
        LineStyle { width: 1, style: "SOLID".to_string() }
    }
}

/// A dash of a line pattern and the gap after it, in millionths of a pixel.
#[derive(Clone, Copy, Debug, PartialEq, Eq, Structural)]
pub struct Dash {
    pub length: i64,
    pub gap: i64,
}

/// The dashes of a list of lengths taken two by two (a dash, then its gap; an odd
/// last length is dropped); none, that is a solid line, for fewer than two.
pub open spec fn dashes_of(d: Seq<i64>) -> Option<Seq<Dash>> {
    if d.len() > 1 {
        Some(Seq::new(d.len() / 2, |i: int| Dash { length: d[2 * i], gap: d[2 * i + 1] }))
    } else {
        None
    }
}

pub open spec fn dash(length: int, gap: int) -> Dash {
    Dash { length: (length * 1_000_000) as i64, gap: (gap * 1_000_000) as i64 }
}

/// The built-in styles: solid, dotted, alternate, dashed, dash-dot and
/// dash-dot-dot.
pub open spec fn builtin_line_styles() -> Seq<(Seq<char>, Option<Seq<Dash>>)> {
    seq![
        ("SOLID"@, None),
        ("DOT"@, Some(seq![dash(1, 1)])),
        ("ALTERNATE"@, Some(seq![dash(1, 1)])),
        ("DASH"@, Some(seq![dash(3, 3)])),
        ("DASHDOT"@, Some(seq![dash(3, 3), dash(1, 3)])),
        ("DASHDOTDOT"@, Some(seq![dash(3, 3), dash(1, 3), dash(1, 3)])),
    ]
}

/// The named line styles: TopSky's, named in upper case, in file order, then the
/// built-in ones; of two with the same name the later counts.
pub open spec fn line_styles_of(defs: Option<Seq<LineStyleDefV>>) -> Seq<(Seq<char>, Option<Seq<Dash>>)> {
    (match defs {
        Some(d) => d.map_values(|x: LineStyleDefV| (uppercase(x.name), dashes_of(x.dash_lengths))),
        None => seq![],
    }) + builtin_line_styles()
}

pub open spec fn named_dash_views(v: Seq<(String, Option<Vec<Dash>>)>) -> Seq<(Seq<char>, Option<Seq<Dash>>)> {
    v.map_values(
        |e: (String, Option<Vec<Dash>>)|
            (
                e.0@,
                match e.1 {
                    Some(d) => Some(d@),
                    None => None,
                },
            ),
    )
}

fn dashes_exec(d: &Vec<i64>) -> (r: Option<Vec<Dash>>)
    ensures
        match dashes_of(d@) {
            Some(v) => r matches Some(x) && x@ == v,
            None => r is None,
        },
{
    if d.len() <= 1 {
        return None;
    }
    let n = d.len() / 2;
    assert(2 * n <= d@.len()) by (nonlinear_arith)
        requires
            n == d@.len() / 2,
    ;
    let mut out: Vec<Dash> = Vec::new();
    let mut i: usize = 0;
    let len = d.len();
    while i < n
        invariant
            n == d@.len() / 2,
            len == d@.len(),
            2 * n <= d@.len(),
            i <= n,
            out@ == Seq::new(i as nat, |k: int| Dash { length: d@[2 * k], gap: d@[2 * k + 1] }),
        decreases n - i,
    {
        assert(2 * i + 1 < d@.len());
        out.push(Dash { length: d[2 * i], gap: d[2 * i + 1] });
        proof {
            assert(out@ =~= Seq::new((i + 1) as nat, |k: int| Dash { length: d@[2 * k], gap: d@[2 * k + 1] }));
        }
        i = i + 1;
    }
    Some(out)
}

fn dash_exec(length: i64, gap: i64) -> (r: Dash)
    requires
        0 <= length <= 10,
        0 <= gap <= 10,
    ensures
        r == dash(length as int, gap as int),
{
    Dash { length: length * 1_000_000, gap: gap * 1_000_000 }
}

/// The named line styles (see [`line_styles_of`]).
pub fn line_styles_from_topsky(topsky: &Option<crate::topsky::Topsky>) -> (r: Vec<(String, Option<Vec<Dash>>)>)
    ensures
        named_dash_views(r@) == line_styles_of(
            match topsky {
                Some(t) => Some(line_style_def_views(t.line_styles@)),
                None => None,
            },
        ),
{
    let mut r: Vec<(String, Option<Vec<Dash>>)> = Vec::new();
    let ghost first: Seq<(Seq<char>, Option<Seq<Dash>>)> = match topsky {
        Some(t) => line_style_def_views(t.line_styles@).map_values(
            |x: LineStyleDefV| (uppercase(x.name), dashes_of(x.dash_lengths)),
        ),
        None => seq![],
    };
    match topsky {
        Some(t) => {
            let mut i: usize = 0;
            while i < t.line_styles.len()
                invariant
                    i <= t.line_styles@.len(),
                    first == line_style_def_views(t.line_styles@).map_values(
                        |x: LineStyleDefV| (uppercase(x.name), dashes_of(x.dash_lengths)),
                    ),
                    named_dash_views(r@) == first.take(i as int),
                decreases t.line_styles@.len() - i,
            {
                let d = &t.line_styles[i];
                let name = crate::maps::to_uppercase(d.name.as_str());
                let dashes = dashes_exec(&d.dash_lengths);
                let ghost before = named_dash_views(r@);
                let entry = (name, dashes);
                let ghost e = named_dash_views(seq![entry])[0];
                r.push(entry);
                proof {
                    assert(named_dash_views(r@) =~= before.push(e));
                    assert(first.take(i + 1) =~= first.take(i as int).push(first[i as int]));
                }
                i = i + 1;
            }
            proof {
                assert(first.take(t.line_styles@.len() as int) =~= first);
            }
        },
        None => {
            proof {
                assert(named_dash_views(r@) =~= first);
            }
        },
    }
    let ghost mid = named_dash_views(r@);
    r.push(("SOLID".to_string(), None));
    let mut dot: Vec<Dash> = Vec::new();
    dot.push(dash_exec(1, 1));
    r.push(("DOT".to_string(), Some(dot)));
    let mut alternate: Vec<Dash> = Vec::new();
    alternate.push(dash_exec(1, 1));
    r.push(("ALTERNATE".to_string(), Some(alternate)));
    let mut dashed: Vec<Dash> = Vec::new();
    dashed.push(dash_exec(3, 3));
    r.push(("DASH".to_string(), Some(dashed)));
    let mut dash_dot: Vec<Dash> = Vec::new();
    dash_dot.push(dash_exec(3, 3));
    dash_dot.push(dash_exec(1, 3));
    r.push(("DASHDOT".to_string(), Some(dash_dot)));
    let mut dash_dot_dot: Vec<Dash> = Vec::new();
    dash_dot_dot.push(dash_exec(3, 3));
    dash_dot_dot.push(dash_exec(1, 3));
    dash_dot_dot.push(dash_exec(1, 3));
    r.push(("DASHDOTDOT".to_string(), Some(dash_dot_dot)));
    proof {
        assert(dot@ =~= seq![dash(1, 1)]);
        assert(alternate@ =~= seq![dash(1, 1)]);
        assert(dashed@ =~= seq![dash(3, 3)]);
        assert(dash_dot@ =~= seq![dash(3, 3), dash(1, 3)]);
        assert(dash_dot_dot@ =~= seq![dash(3, 3), dash(1, 3), dash(1, 3)]);
        assert(named_dash_views(r@) =~= mid + builtin_line_styles());
    }
    r
}

} // verus!
