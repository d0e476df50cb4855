//! isec.txt: named intersections with their coordinates.
//!
//! Each line has four tab-separated fields (without surrounding blanks): the name,
//! the latitude and the longitude in decimal degrees, and a code that is not read.
//! Coordinates are quantized to micro-degrees (see [`crate::decimal`]). Empty lines
//! are passed over; any other line makes the file invalid.
//!
//! Written back, the intersections are sorted by name (those of the same name in
//! file order) and each becomes a line `NAME<TAB>LAT<TAB>LON<TAB>15`, the latitude
//! right-aligned in ten characters and the longitude in eleven, both with six
//! decimals.
use vstd::prelude::*;

use crate::airway::position_of;
use crate::airways::Fix;
use crate::decimal::{format_micro, micro_text, pad_left, pad_left_exec, parse_micro};
use crate::text::{chars_lt, lines_of, lines_spec, seq_lt, string_from_chars, tab_fields,
    tab_fields_of, trim_spec, views};

verus! {

/// Reads the lines of isec.txt.
pub struct IsecParser;

/// The intersections of isec.txt, in file order.
#[derive(Debug)]
pub struct IsecMap(pub Vec<Fix>);

/// Why isec.txt could not be read.
#[derive(Debug, PartialEq, Eq, Structural)]
pub enum IsecError {
    /// The line with this number, counted from one, is invalid.
    Parse { line: usize },
}

/// An intersection: its name and its position (longitude, latitude).
pub type FixV = (Seq<char>, (i64, i64));

pub open spec fn fix_views(v: Seq<Fix>) -> Seq<FixV> {
    v.map_values(|f: Fix| (f.designator@, f.coordinate))
}

/// What a line of isec.txt states: nothing for an empty line, an error for a line
/// of another form.
pub open spec fn isec_line(l: Seq<char>) -> Result<Option<FixV>, ()> {
    if trim_spec(l).len() == 0 {
        Ok(None)
    } else {
        let f = tab_fields(l);
        if f.len() != 4 {
            Err(())
        } else {
            match position_of(f[1], f[2]) {
                Some(p) => Ok(Some((f[0], p))),
                None => Err(()),
            }
        }
    }
}

/// The intersections of the lines, or the index of the first invalid one.
pub open spec fn isec_lines(lines: Seq<Seq<char>>) -> Result<Seq<FixV>, nat>
    decreases lines.len(),
{
    if lines.len() == 0 {
        Ok(seq![])
    } else {
        match isec_lines(lines.drop_last()) {
            Err(i) => Err(i),
            Ok(fs) => match isec_line(lines.last()) {
                Err(()) => Err((lines.len() - 1) as nat),
                Ok(None) => Ok(fs),
                Ok(Some(x)) => Ok(fs.push(x)),
            },
        }
    }
}

impl IsecParser {
    /// Reads one line (see [`isec_line`]).
    pub fn line(l: &[char]) -> (r: Result<Option<Fix>, ()>)
        ensures
            match isec_line(l@) {
                Ok(None) => r matches Ok(None),
                Ok(Some(x)) => r matches Ok(Some(f)) && (f.designator@, f.coordinate) == x,
                Err(()) => r is Err,
            },
    {
        let t = crate::text::trim(l);
        if t.len() == 0 {
            return Ok(None);
        }
        let f = tab_fields_of(l);
        if f.len() != 4 {
            return Err(());
        }
        proof {
            assert(views(f@)[0] == f@[0]@);
            assert(views(f@)[1] == f@[1]@);
            assert(views(f@)[2] == f@[2]@);
        }
        match (parse_micro(&f[1]), parse_micro(&f[2])) {
            (Some(lat), Some(lon)) => Ok(
                Some(Fix { designator: string_from_chars(&f[0]), coordinate: (lon, lat) }),
            ),
            _ => Err(()),
        }
    }
}

/// An invalid line stays the first invalid one however many lines follow.
proof fn lemma_isec_error_persists(lines: Seq<Seq<char>>, k: int)
    requires
        0 <= k <= lines.len(),
        isec_lines(lines.take(k)) is Err,
    ensures
        isec_lines(lines) == isec_lines(lines.take(k)),
    decreases lines.len() - k,
{
    if k < lines.len() {
        assert(lines.take(k + 1).drop_last() =~= lines.take(k));
        lemma_isec_error_persists(lines, k + 1);
    } else {
        assert(lines.take(k) =~= lines);
    }
}

/// Reads isec.txt (see the module's documentation); an invalid line is reported by
/// its number, counted from one.
pub fn parse_isec_txt(content: &[u8]) -> (res: Result<IsecMap, IsecError>)
    ensures
        match isec_lines(lines_spec(crate::file_text(content@))) {
            Ok(fs) => res matches Ok(m) && fix_views(m.0@) == fs,
            Err(i) => res == Err::<IsecMap, IsecError>(IsecError::Parse { line: (i + 1) as usize }),
        },
{
    let text = crate::read_to_string(content);
    let chars = crate::text::chars_of(text.as_str());
    let lines = lines_of(chars.as_slice());
    let ghost ls = views(lines@);
    let mut fixes: Vec<Fix> = Vec::new();
    let mut i: usize = 0;
    proof {
        assert(ls.take(0) =~= Seq::<Seq<char>>::empty());
        assert(fix_views(fixes@) =~= Seq::<FixV>::empty());
    }
    while i < lines.len()
        invariant
            i <= lines@.len(),
            ls == views(lines@),
            ls == lines_spec(crate::file_text(content@)),
            isec_lines(ls.take(i as int)) == Ok::<Seq<FixV>, nat>(fix_views(fixes@)),
        decreases lines@.len() - i,
    {
        proof {
            assert(ls.take(i + 1).drop_last() =~= ls.take(i as int));
            assert(ls.take(i + 1).last() == lines@[i as int]@);
        }
        match IsecParser::line(lines[i].as_slice()) {
            Err(()) => {
                proof {
                    lemma_isec_error_persists(ls, i + 1);
                }
                return Err(IsecError::Parse { line: i + 1 });
            },
            Ok(None) => {},
            Ok(Some(f)) => {
                let ghost before = fix_views(fixes@);
                let ghost fv = (f.designator@, f.coordinate);
                fixes.push(f);
                proof {
                    assert(fix_views(fixes@) =~= before.push(fv));
                }
            },
        }
        i = i + 1;
    }
    proof {
        assert(ls.take(lines@.len() as int) =~= ls);
    }
    Ok(IsecMap(fixes))
}

// ---------------------------------------------------------------------------
// Writing back

/// Position at which `x` goes into the sorted `s`: before the first entry whose name
/// comes after its own, so after those of the same name.
pub open spec fn insertion_point(s: Seq<FixV>, x: FixV) -> int
    decreases s.len(),
{
    if s.len() == 0 {
        0
    } else if seq_lt(x.0, s[0].0) {
        0
    } else {
        1 + insertion_point(s.drop_first(), x)
    }
}

/// The intersections sorted by name, those of the same name in their order.
pub open spec fn sorted_by_name(s: Seq<FixV>) -> Seq<FixV>
    decreases s.len(),
{
    if s.len() == 0 {
        seq![]
    } else {
        let r = sorted_by_name(s.drop_last());
        r.insert(insertion_point(r, s.last()), s.last())
    }
}

/// The line written for an intersection.
pub open spec fn isec_line_text(f: FixV) -> Seq<char> {
    f.0 + seq!['\t'] + pad_left(micro_text(f.1.1 as int), 10) + seq!['\t'] + pad_left(
        micro_text(f.1.0 as int),
        11,
    ) + "\t15\n"@
}

/// The lines written for a sequence of intersections, in order.
pub open spec fn lines_text(s: Seq<FixV>) -> Seq<char>
    decreases s.len(),
{
    if s.len() == 0 {
        seq![]
    } else {
        lines_text(s.drop_last()) + isec_line_text(s.last())
    }
}

proof fn lemma_insertion_point_bounds(s: Seq<FixV>, x: FixV)
    ensures
        0 <= insertion_point(s, x) <= s.len(),
    decreases s.len(),
{
    if s.len() > 0 {
        lemma_insertion_point_bounds(s.drop_first(), x);
    }
}

impl IsecMap {
    /// The file text of the intersections (see the module's documentation).
    pub fn to_text(&self) -> (r: String)
        ensures
            r@ == lines_text(sorted_by_name(fix_views(self.0@))),
    {
        let ghost fv = fix_views(self.0@);
        // the positions of the intersections, sorted by name
        let mut order: Vec<usize> = Vec::new();
        let mut i: usize = 0;
        proof {
            assert(fv.take(0) =~= Seq::<FixV>::empty());
        }
        while i < self.0.len()
            invariant
                i <= self.0@.len(),
                fv == fix_views(self.0@),
                forall|k: int| 0 <= k < order@.len() ==> (#[trigger] order@[k]) < self.0@.len(),
                order@.map_values(|j: usize| fv[j as int]) == sorted_by_name(fv.take(i as int)),
            decreases self.0@.len() - i,
        {
            let ghost sorted = order@.map_values(|j: usize| fv[j as int]);
            let x = &self.0[i];
            let xd = crate::text::chars_of(x.designator.as_str());
            let ghost xv = fv[i as int];
            proof {
                assert(xv == (x.designator@, x.coordinate));
                assert(fv.take(i + 1).drop_last() =~= fv.take(i as int));
                assert(fv.take(i + 1).last() == xv);
            }
            let mut j: usize = 0;
            proof {
                assert(sorted.skip(0) =~= sorted);
            }
            while j < order.len()
                invariant
                    j <= order@.len(),
                    fv == fix_views(self.0@),
                    xd@ == xv.0,
                    sorted == order@.map_values(|j: usize| fv[j as int]),
                    forall|k: int| 0 <= k < order@.len() ==> (#[trigger] order@[k]) < self.0@.len(),
                    insertion_point(sorted, xv) == j + insertion_point(sorted.skip(j as int), xv),
                    j == order@.len() ==> sorted.skip(j as int) =~= Seq::<FixV>::empty(),
                ensures
                    j <= order@.len(),
                    insertion_point(sorted, xv) == j,
                decreases order@.len() - j,
            {
                let y = &self.0[order[j]];
                let yd = crate::text::chars_of(y.designator.as_str());
                proof {
                    assert(sorted.skip(j as int)[0] == sorted[j as int]);
                    assert(sorted[j as int] == fv[order@[j as int] as int]);
                    assert(fv[order@[j as int] as int].0 == y.designator@);
                }
                if chars_lt(&xd, &yd) {
                    proof {
                        assert(insertion_point(sorted.skip(j as int), xv) == 0);
                    }
                    break;
                }
                proof {
                    assert(sorted.skip(j as int).drop_first() =~= sorted.skip(j + 1));
                }
                j = j + 1;
            }
            order.insert(j, i);
            proof {
                assert(order@.map_values(|j: usize| fv[j as int]) =~= sorted.insert(j as int, xv));
            }
            i = i + 1;
        }
        proof {
            assert(fv.take(self.0@.len() as int) =~= fv);
        }
        let ghost sorted = order@.map_values(|j: usize| fv[j as int]);
        let mut out: Vec<char> = Vec::new();
        let mut k: usize = 0;
        proof {
            assert(sorted.take(0) =~= Seq::<FixV>::empty());
        }
        while k < order.len()
            invariant
                k <= order@.len(),
                fv == fix_views(self.0@),
                sorted == order@.map_values(|j: usize| fv[j as int]),
                forall|m: int| 0 <= m < order@.len() ==> (#[trigger] order@[m]) < self.0@.len(),
                out@ == lines_text(sorted.take(k as int)),
            decreases order@.len() - k,
        {
            let f = &self.0[order[k]];
            proof {
                assert(sorted[k as int] == fv[order@[k as int] as int]);
                assert(sorted[k as int] == (f.designator@, f.coordinate));
                assert(sorted.take(k + 1).drop_last() =~= sorted.take(k as int));
                assert(sorted.take(k + 1).last() == sorted[k as int]);
            }
            let ghost before = out@;
            let mut name = crate::text::chars_of(f.designator.as_str());
            out.append(&mut name);
            out.push('\t');
            let lat = format_micro(f.coordinate.1);
            let mut lat = pad_left_exec(&lat, 10);
            out.append(&mut lat);
            out.push('\t');
            let lon = format_micro(f.coordinate.0);
            let mut lon = pad_left_exec(&lon, 11);
            out.append(&mut lon);
            let mut tail = crate::text::chars_of("\t15\n");
            out.append(&mut tail);
            proof {
                assert(out@ =~= before + isec_line_text(sorted[k as int]));
            }
            k = k + 1;
        }
        proof {
            assert(sorted.take(order@.len() as int) =~= sorted);
        }
        string_from_chars(&out)
    }
}

} // verus!
