//! Airport reference points from navigation data: designator, latitude, longitude
//! and name, separated by blanks.
//!
//! A definition line is the designator, the latitude and the longitude in decimal
//! degrees (quantized to micro-degrees, see [`crate::decimal`]), each a word, and
//! the name: the rest of the line without surrounding blanks, which must not be
//! empty. Other lines are passed over. Of definitions with the same designator the
//! first counts.
use vstd::prelude::*;

use crate::decimal::{micro_value, parse_micro};
use crate::text::{copy_range, lines_of, lines_spec, string_from_chars, trim, trim_spec,
    trim_start_spec, views};

verus! {

/// Reads the definition lines of navigation data airports.
pub struct NavdataAirportsParser;

/// An airport reference point; the location is (longitude, latitude).
#[derive(Debug)]
pub struct NavdataAirport {
    pub designator: String,
    pub name: String,
    pub location: (i64, i64),
}

/// An airport reference point, its texts as character sequences.
pub struct NavdataAirportV {
    pub designator: Seq<char>,
    pub name: Seq<char>,
    pub location: (i64, i64),
}

impl View for NavdataAirport {
    type V = NavdataAirportV;

    open spec fn view(&self) -> NavdataAirportV {
        NavdataAirportV { designator: self.designator@, name: self.name@, location: self.location }
    }
}

/// The length of the word at the start of `s`: up to the first blank.
pub open spec fn word_len(s: Seq<char>) -> nat
    decreases s.len(),
{
    if s.len() == 0 || s[0] == ' ' || s[0] == '\t' {
        0
    } else {
        1 + word_len(s.drop_first())
    }
}

/// The first word of `s` (after any blanks) and what follows it.
pub open spec fn split_word(s: Seq<char>) -> (Seq<char>, Seq<char>) {
    let t = trim_start_spec(s);
    (t.take(word_len(t) as int), t.skip(word_len(t) as int))
}

/// The airport that a line defines, if it is a definition line.
pub open spec fn navdata_line(l: Seq<char>) -> Option<NavdataAirportV> {
    let (d, r1) = split_word(l);
    let (lat, r2) = split_word(r1);
    let (lon, r3) = split_word(r2);
    let name = trim_spec(r3);
    if d.len() == 0 || name.len() == 0 {
        None
    } else {
        match (micro_value(lat), micro_value(lon)) {
            (Some(y), Some(x)) => Some(
                NavdataAirportV { designator: d, name, location: (x as i64, y as i64) },
            ),
            _ => None,
        }
    }
}

/// The airports defined by lines, the first definition of each designator.
pub open spec fn navdata_list(lines: Seq<Seq<char>>) -> Seq<NavdataAirportV>
    decreases lines.len(),
{
    if lines.len() == 0 {
        seq![]
    } else {
        let before = navdata_list(lines.drop_last());
        match navdata_line(lines.last()) {
            Some(a) => if exists|j: int| 0 <= j < before.len() && before[j].designator == a.designator {
                before
            } else {
                before.push(a)
            },
            None => before,
        }
    }
}

pub open spec fn navdata_views(v: Seq<NavdataAirport>) -> Seq<NavdataAirportV> {
    v.map_values(|a: NavdataAirport| a@)
}

proof fn lemma_word_len(s: Seq<char>)
    ensures
        word_len(s) <= s.len(),
        forall|i: int| 0 <= i < word_len(s) ==> s[i] != ' ' && s[i] != '\t',
        word_len(s) < s.len() ==> (s[word_len(s) as int] == ' ' || s[word_len(s) as int] == '\t'),
    decreases s.len(),
{
    if !(s.len() == 0 || s[0] == ' ' || s[0] == '\t') {
        lemma_word_len(s.drop_first());
        assert forall|i: int| 0 <= i < word_len(s) implies s[i] != ' ' && s[i] != '\t' by {
            if i > 0 {
                assert(s[i] == s.drop_first()[i - 1]);
            }
        }
    }
}

proof fn lemma_word_len_at(s: Seq<char>, k: int)
    requires
        0 <= k <= s.len(),
        forall|i: int| 0 <= i < k ==> s[i] != ' ' && s[i] != '\t',
        k == s.len() || s[k] == ' ' || s[k] == '\t',
    ensures
        word_len(s) == k,
    decreases k,
{
    if k > 0 {
        lemma_word_len_at(s.drop_first(), k - 1);
    }
}

/// Splits off the first word (see [`split_word`]).
fn next_word(s: &[char]) -> (r: (Vec<char>, Vec<char>))
    ensures
        (r.0@, r.1@) == split_word(s@),
{
    let mut start: usize = 0;
    proof {
        assert(s@.skip(0) =~= s@);
    }
    while start < s.len() && (s[start] == ' ' || s[start] == '\t')
        invariant
            start <= s@.len(),
            trim_start_spec(s@) == trim_start_spec(s@.skip(start as int)),
        decreases s@.len() - start,
    {
        proof {
            assert(s@.skip(start as int).drop_first() =~= s@.skip(start + 1));
        }
        start = start + 1;
    }
    let ghost t = trim_start_spec(s@);
    proof {
        assert(t == s@.skip(start as int));
    }
    let mut end = start;
    while end < s.len() && s[end] != ' ' && s[end] != '\t'
        invariant
            start <= end <= s@.len(),
            forall|i: int| start <= i < end ==> s@[i] != ' ' && s@[i] != '\t',
        decreases s@.len() - end,
    {
        end = end + 1;
    }
    proof {
        lemma_word_len_at(t, end - start);
        assert(t.take(end - start) =~= s@.subrange(start as int, end as int));
        assert(t.skip(end - start) =~= s@.subrange(end as int, s@.len() as int));
    }
    (copy_range(s, start, end), copy_range(s, end, s.len()))
}

impl NavdataAirportsParser {
    /// Reads one line (see [`navdata_line`]).
    pub fn definition(l: &[char]) -> (r: Option<NavdataAirport>)
        ensures
            match navdata_line(l@) {
                Some(a) => r matches Some(x) && x@ == a,
                None => r is None,
            },
    {
        let (d, r1) = next_word(l);
        let (lat, r2) = next_word(&r1);
        let (lon, r3) = next_word(&r2);
        let name = trim(&r3);
        if d.len() == 0 || name.len() == 0 {
            return None;
        }
        match (parse_micro(&lat), parse_micro(&lon)) {
            (Some(y), Some(x)) => Some(
                NavdataAirport {
                    designator: string_from_chars(&d),
                    name: string_from_chars(&name),
                    location: (x, y),
                },
            ),
            _ => None,
        }
    }
}

/// Reads navigation data airports (see the module's documentation): the airports in
/// file order, the first definition of each designator.
pub fn parse_navdata_airports(content: &[u8]) -> (r: Vec<NavdataAirport>)
    ensures
        navdata_views(r@) == navdata_list(lines_spec(crate::file_text(content@))),
{
    let text = crate::read_to_string(content);
    let chars = crate::text::chars_of(text.as_str());
    let lines = lines_of(chars.as_slice());
    let ghost ls = views(lines@);
    let mut r: Vec<NavdataAirport> = Vec::new();
    let mut i: usize = 0;
    while i < lines.len()
        invariant
            i <= lines@.len(),
            ls == views(lines@),
            ls == lines_spec(crate::file_text(content@)),
            navdata_views(r@) == navdata_list(ls.take(i as int)),
        decreases lines@.len() - i,
    {
        proof {
            assert(ls.take(i + 1).drop_last() =~= ls.take(i as int));
            assert(ls.take(i + 1).last() == lines@[i as int]@);
        }
        match NavdataAirportsParser::definition(lines[i].as_slice()) {
            None => {},
            Some(a) => {
                let ghost rv = navdata_views(r@);
                let mut seen = false;
                let mut j: usize = 0;
                while j < r.len()
                    invariant
                        j <= r@.len(),
                        rv == navdata_views(r@),
                        seen == exists|k: int| 0 <= k < j && rv[k].designator == a@.designator,
                    decreases r@.len() - j,
                {
                    proof {
                        assert(rv[j as int] == r@[j as int]@);
                    }
                    if crate::text::str_eq(r[j].designator.as_str(), a.designator.as_str()) {
                        seen = true;
                    }
                    proof {
                        if r@[j as int].designator@ == a@.designator {
                            assert(rv[j as int].designator == a@.designator);
                        }
                    }
                    j = j + 1;
                }
                if !seen {
                    let ghost av = a@;
                    r.push(a);
                    proof {
                        assert(navdata_views(r@) =~= rv.push(av));
                    }
                }
            },
        }
        i = i + 1;
    }
    proof {
        assert(ls.take(lines@.len() as int) =~= ls);
    }
    r
}

} // verus!
