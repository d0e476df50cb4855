//! ICAO_Aircraft.txt: aircraft type designators with their description codes.
//!
//! A definition line is `DESIGNATOR<TAB>CODE<TAB>MANUFACTURER<TAB>NAME`, the fields
//! without surrounding blanks. The code has four characters: the wake turbulence
//! category, the aircraft type, the number of engines (a digit; anything else counts
//! as zero) and the engine type. Lines starting with `;` and every line that is not
//! such a definition (such as a model name continued from the line before) are
//! passed over. Of definitions with the same designator the first counts.
use vstd::prelude::*;

use crate::icao::{
    aircraft_type_from_code, aircraft_type_of, engine_type_from_code, engine_type_of,
    wtc_from_code, wtc_of, Aircraft, AircraftType, EngineType, Wtc,
};
use crate::text::{digit_value, is_radix_digit, lines_of, lines_spec, string_from_chars,
    tab_fields, tab_fields_of, views};

verus! {

/// Reads the definition lines of ICAO_Aircraft.txt.
pub struct AircraftParser;

/// An aircraft definition, its texts as character sequences.
pub struct AircraftV {
    pub designator: Seq<char>,
    pub wtc: Wtc,
    pub aircrafttype: AircraftType,
    pub num_engines: u8,
    pub enginetype: EngineType,
    pub manufacturer: Seq<char>,
    pub name: Seq<char>,
}

impl View for Aircraft {
    type V = AircraftV;

    open spec fn view(&self) -> AircraftV {
        AircraftV {
            designator: self.designator@,
            wtc: self.wtc,
            aircrafttype: self.aircrafttype,
            num_engines: self.num_engines,
            enginetype: self.enginetype,
            manufacturer: self.manufacturer@,
            name: self.name@,
        }
    }
}

/// The aircraft that a line defines, if it is a definition line.
pub open spec fn aircraft_line(l: Seq<char>) -> Option<AircraftV> {
    let f = tab_fields(l);
    if l.len() > 0 && l[0] == ';' {
        None
    } else if f.len() != 4 || f[1].len() != 4 {
        None
    } else {
        let code = f[1];
        match (
            wtc_from_code(seq![code[0]]),
            aircraft_type_from_code(seq![code[1]]),
            engine_type_from_code(seq![code[3]]),
        ) {
            (Some(w), Some(t), Some(e)) => Some(
                AircraftV {
                    designator: f[0],
                    wtc: w,
                    aircrafttype: t,
                    num_engines: if is_radix_digit(code[2], 10) {
                        digit_value(code[2]) as u8
                    } else {
                        0
                    },
                    enginetype: e,
                    manufacturer: f[2],
                    name: f[3],
                },
            ),
            _ => None,
        }
    }
}

/// The aircraft defined by lines, the first definition of each designator.
pub open spec fn aircraft_list(lines: Seq<Seq<char>>) -> Seq<AircraftV>
    decreases lines.len(),
{
    if lines.len() == 0 {
        seq![]
    } else {
        let before = aircraft_list(lines.drop_last());
        match aircraft_line(lines.last()) {
            Some(a) => if exists|j: int| 0 <= j < before.len() && before[j].designator == a.designator {
                before
            } else {
                before.push(a)
            },
            None => before,
        }
    }
}

pub open spec fn aircraft_views(v: Seq<Aircraft>) -> Seq<AircraftV> {
    v.map_values(|a: Aircraft| a@)
}

impl AircraftParser {
    /// Reads one line (see [`aircraft_line`]).
    pub fn definition(l: &[char]) -> (r: Option<Aircraft>)
        ensures
            match aircraft_line(l@) {
                Some(a) => r matches Some(x) && x@ == a,
                None => r is None,
            },
    {
        if l.len() > 0 && l[0] == ';' {
            return None;
        }
        let f = tab_fields_of(l);
        proof {
            assert(views(f@) == tab_fields(l@));
        }
        if f.len() != 4 || f[1].len() != 4 {
            proof {
                if f@.len() == 4 {
                    assert(f@[1]@ == tab_fields(l@)[1]);
                }
            }
            return None;
        }
        proof {
            assert(f@[0]@ == tab_fields(l@)[0]);
            assert(f@[1]@ == tab_fields(l@)[1]);
            assert(f@[2]@ == tab_fields(l@)[2]);
            assert(f@[3]@ == tab_fields(l@)[3]);
        }
        let code = &f[1];
        let w = wtc_of(code[0]);
        let t = aircraft_type_of(code[1]);
        let e = engine_type_of(code[3]);
        match (w, t, e) {
            (Some(w), Some(t), Some(e)) => {
                let cu = code[2] as u32;
                let n: u8 = if 48 <= cu && cu <= 57 {
                    (cu - 48) as u8
                } else {
                    0
                };
                Some(
                    Aircraft {
                        designator: string_from_chars(&f[0]),
                        wtc: w,
                        aircrafttype: t,
                        num_engines: n,
                        enginetype: e,
                        manufacturer: string_from_chars(&f[2]),
                        name: string_from_chars(&f[3]),
                    },
                )
            },
            _ => None,
        }
    }
}

/// Reads ICAO_Aircraft.txt (see the module's documentation): the aircraft in file
/// order, the first definition of each designator.
pub fn parse_aircraft(content: &[u8]) -> (r: Vec<Aircraft>)
    ensures
        aircraft_views(r@) == aircraft_list(lines_spec(crate::file_text(content@))),
{
    let text = crate::read_to_string(content);
    let chars = crate::text::chars_of(text.as_str());
    let lines = lines_of(chars.as_slice());
    let ghost ls = views(lines@);
    let mut r: Vec<Aircraft> = Vec::new();
    let mut i: usize = 0;
    while i < lines.len()
        invariant
            i <= lines@.len(),
            ls == views(lines@),
            ls == lines_spec(crate::file_text(content@)),
            aircraft_views(r@) == aircraft_list(ls.take(i as int)),
        decreases lines@.len() - i,
    {
        proof {
            assert(ls.take(i + 1).drop_last() =~= ls.take(i as int));
            assert(ls.take(i + 1).last() == lines@[i as int]@);
        }
        match AircraftParser::definition(lines[i].as_slice()) {
            None => {},
            Some(a) => {
                let ghost rv = aircraft_views(r@);
                let mut seen = false;
                let mut j: usize = 0;
                while j < r.len()
                    invariant
                        j <= r@.len(),
                        rv == aircraft_views(r@),
                        seen == exists|k: int| 0 <= k < j && rv[k].designator == a@.designator,
                    decreases r@.len() - j,
                {
                    proof {
                        assert(rv[j as int] == r@[j as int]@);
                    }
                    if crate::text::str_eq(r[j].designator.as_str(), a.designator.as_str()) {
                        seen = true;
                    }
                    proof {
                        if r@[j as int].designator@ == a@.designator {
                            assert(rv[j as int].designator == a@.designator);
                        }
                    }
                    j = j + 1;
                }
                if !seen {
                    let ghost av = a@;
                    r.push(a);
                    proof {
                        assert(aircraft_views(r@) =~= rv.push(av));
                    }
                }
            },
        }
        i = i + 1;
    }
    proof {
        assert(ls.take(lines@.len() as int) =~= ls);
    }
    r
}

/// A file gives one definition per designator, as a map from designator to
/// definition does; the first definition in the file counts.
pub proof fn lemma_one_definition_per_designator(lines: Seq<Seq<char>>)
    ensures
        forall|i: int, j: int|
            0 <= i < j < aircraft_list(lines).len() ==> #[trigger] aircraft_list(lines)[i].designator
                != #[trigger] aircraft_list(lines)[j].designator,
    decreases lines.len(),
{
    if lines.len() > 0 {
        lemma_one_definition_per_designator(lines.drop_last());
        let before = aircraft_list(lines.drop_last());
        let r = aircraft_list(lines);
        assert forall|i: int, j: int| 0 <= i < j < r.len() implies #[trigger] r[i].designator
            != #[trigger] r[j].designator by {
            if j < before.len() {
                assert(r[i] == before[i] && r[j] == before[j]);
            } else {
                assert(r[i] == before[i]);
            }
        }
    }
}

} // verus!
