//! ICAO_Airports.txt: airport designators with their names and countries.
//!
//! A definition line is `DESIGNATOR<TAB>NAME<TAB>COUNTRY`, the fields without
//! surrounding blanks. Lines starting with `;` and lines without three fields are
//! passed over. Of definitions with the same designator the first counts.
use vstd::prelude::*;

use crate::icao::Airport;
use crate::text::{lines_of, lines_spec, string_from_chars, tab_fields, tab_fields_of, views};

verus! {

/// Reads the definition lines of ICAO_Airports.txt.
pub struct AirportsParser;


/// Airport with its texts as character sequences.
pub struct AirportV {
    pub designator: Seq<char>,
    pub name: Seq<char>,
    pub country: Seq<char>,
}

impl View for Airport {
    type V = AirportV;

    open spec fn view(&self) -> AirportV {
        AirportV {
            designator: self.designator@,
            name: self.name@,
            country: self.country@,
        }
    }
}

/// The entry that a line defines, if it is a definition line.
pub open spec fn definition_line(l: Seq<char>) -> Option<AirportV> {
    let f = tab_fields(l);
    if l.len() > 0 && l[0] == ';' {
        None
    } else if f.len() != 3 {
        None
    } else {
        Some(
            AirportV {
            designator: f[0],
            name: f[1],
            country: f[2],
            },
        )
    }
}

/// The entries defined by lines, the first definition of each designator.
pub open spec fn definitions(lines: Seq<Seq<char>>) -> Seq<AirportV>
    decreases lines.len(),
{
    if lines.len() == 0 {
        seq![]
    } else {
        let before = definitions(lines.drop_last());
        match definition_line(lines.last()) {
            Some(a) => if exists|j: int| 0 <= j < before.len() && before[j].designator == a.designator {
                before
            } else {
                before.push(a)
            },
            None => before,
        }
    }
}

pub open spec fn entry_views(v: Seq<Airport>) -> Seq<AirportV> {
    v.map_values(|a: Airport| a@)
}

/// Reads one line (see [`definition_line`]).
fn definition(l: &[char]) -> (r: Option<Airport>)
    ensures
        match definition_line(l@) {
            Some(a) => r matches Some(x) && x@ == a,
            None => r is None,
        },
{
    if l.len() > 0 && l[0] == ';' {
        return None;
    }
    let f = tab_fields_of(l);
    if f.len() != 3 {
        return None;
    }
    proof {
        assert(f@[0]@ == tab_fields(l@)[0]);
        assert(f@[1]@ == tab_fields(l@)[1]);
        assert(f@[2]@ == tab_fields(l@)[2]);
    }
    Some(
        Airport {
            designator: string_from_chars(&f[0]),
            name: string_from_chars(&f[1]),
            country: string_from_chars(&f[2]),
        },
    )
}

/// Reads ICAO_Airports.txt (see the module's documentation): the airports in file
/// order, the first definition of each designator.
pub fn parse_airports(content: &[u8]) -> (r: Vec<Airport>)
    ensures
        entry_views(r@) == definitions(lines_spec(crate::file_text(content@))),
{
    let text = crate::read_to_string(content);
    let chars = crate::text::chars_of(text.as_str());
    let lines = lines_of(chars.as_slice());
    let ghost ls = views(lines@);
    let mut r: Vec<Airport> = Vec::new();
    let mut i: usize = 0;
    while i < lines.len()
        invariant
            i <= lines@.len(),
            ls == views(lines@),
            ls == lines_spec(crate::file_text(content@)),
            entry_views(r@) == definitions(ls.take(i as int)),
        decreases lines@.len() - i,
    {
        proof {
            assert(ls.take(i + 1).drop_last() =~= ls.take(i as int));
            assert(ls.take(i + 1).last() == lines@[i as int]@);
        }
        match definition(lines[i].as_slice()) {
            None => {},
            Some(a) => {
                let ghost rv = entry_views(r@);
                let mut seen = false;
                let mut j: usize = 0;
                while j < r.len()
                    invariant
                        j <= r@.len(),
                        rv == entry_views(r@),
                        seen == exists|k: int| 0 <= k < j && rv[k].designator == a@.designator,
                    decreases r@.len() - j,
                {
                    proof {
                        assert(rv[j as int] == r@[j as int]@);
                    }
                    if crate::text::str_eq(r[j].designator.as_str(), a.designator.as_str()) {
                        seen = true;
                    }
                    proof {
                        if r@[j as int].designator@ == a@.designator {
                            assert(rv[j as int].designator == a@.designator);
                        }
                    }
                    j = j + 1;
                }
                if !seen {
                    let ghost av = a@;
                    r.push(a);
                    proof {
                        assert(entry_views(r@) =~= rv.push(av));
                    }
                }
            },
        }
        i = i + 1;
    }
    proof {
        assert(ls.take(lines@.len() as int) =~= ls);
    }
    r
}

/// A file gives one definition per designator, as a map from designator to
/// definition does; the first definition in the file counts.
pub proof fn lemma_one_definition_per_designator(lines: Seq<Seq<char>>)
    ensures
        forall|i: int, j: int|
            0 <= i < j < definitions(lines).len() ==> #[trigger] definitions(lines)[i].designator
                != #[trigger] definitions(lines)[j].designator,
    decreases lines.len(),
{
    if lines.len() > 0 {
        lemma_one_definition_per_designator(lines.drop_last());
        let before = definitions(lines.drop_last());
        let r = definitions(lines);
        assert forall|i: int, j: int| 0 <= i < j < r.len() implies #[trigger] r[i].designator
            != #[trigger] r[j].designator by {
            if j < before.len() {
                assert(r[i] == before[i] && r[j] == before[j]);
            } else {
                assert(r[i] == before[i]);
            }
        }
    }
}

} // verus!
