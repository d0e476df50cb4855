//! TopSky's settings file: `Key=Value` lines, of which the `Color_Name=r,g,b` ones
//! define colours.
//!
//! Each line is read without a `//` comment and without surrounding blanks. Empty
//! lines are passed over. A line `[...]` opens a section; the settings of sections
//! are not read, so everything from the first section on is passed over. Every other
//! line must be `Key=Value` (key and value without surrounding blanks). A key
//! `Color_Name` defines the colour `Name` when the value is three numbers from 0 to
//! 255 separated by commas, and is dropped otherwise; any other key is a setting. Of
//! colours and settings given twice, the later counts.
use vstd::prelude::*;

use crate::colours::{rgb, Colour};
use crate::lookup::{first_index, last_index, lemma_first_index, lemma_first_index_extend,
    lemma_last_index, lemma_last_index_at};
use crate::text::{
    chars_are, chars_start_with, copy_range, find_first, lines_spec, parse_unsigned,
    split_chars, split_spec, starts_with, string_from_chars, trim, trim_spec,
    unsigned_parse_spec, views,
};

verus! {

/// Marks the settings file grammar that this module reads.
pub struct TopskySettingsParser;

/// A colour defined by name.
#[derive(Debug)]
pub struct ColourDef {
    pub name: String,
    pub colour: Colour,
}

/// The settings of a TopSky settings file, in file order.
#[derive(Debug)]
pub struct Settings(pub Vec<(String, String)>);

/// An error while reading the settings file.
#[derive(Debug, PartialEq, Eq, Structural)]
pub enum TopskySettingsError {
    /// The line with this number, counted from one, is neither a setting, a
    /// section nor empty.
    Parse { line: usize },
}

/// What a line of the settings file holds.
pub enum SettingLine {
    Empty,
    Section,
    /// A colour definition, with its colour when the value is one.
    Colour(Seq<char>, Option<Colour>),
    Other(Seq<char>, Seq<char>),
}

/// Position of the first `//` in `s`.
pub open spec fn comment_start(s: Seq<char>) -> Option<int> {
    first_index(s.len() - 1, |i: int| s[i] == '/' && s[i + 1] == '/')
}

/// `s` without a `//` comment.
pub open spec fn strip_comment(s: Seq<char>) -> Seq<char> {
    match comment_start(s) {
        Some(i) => s.take(i),
        None => s,
    }
}

/// The colour that `r,g,b` (each from 0 to 255) stands for.
pub open spec fn rgb_of(v: Seq<char>) -> Option<Colour> {
    let parts = split_spec(v, ',');
    if parts.len() != 3 {
        None
    } else {
        match (
            unsigned_parse_spec(parts[0], 10, 255),
            unsigned_parse_spec(parts[1], 10, 255),
            unsigned_parse_spec(parts[2], 10, 255),
        ) {
            (Some(r), Some(g), Some(b)) => Some(rgb(r as u8, g as u8, b as u8)),
            _ => None,
        }
    }
}

/// What a line of the settings file holds; none for a line that is not valid.
pub open spec fn setting_line(line: Seq<char>) -> Option<SettingLine> {
    let l = trim_spec(strip_comment(line));
    if l.len() == 0 {
        Some(SettingLine::Empty)
    } else if l[0] == '[' && l.last() == ']' {
        Some(SettingLine::Section)
    } else {
        match find_first(l, '=') {
            None => None,
            Some(i) => {
                let key = trim_spec(l.take(i));
                let value = trim_spec(l.skip(i + 1));
                if starts_with(key, "Color_"@) {
                    Some(SettingLine::Colour(key.skip(6), rgb_of(value)))
                } else {
                    Some(SettingLine::Other(key, value))
                }
            },
        }
    }
}

/// The colours and settings read so far, and whether a section has been opened.
pub struct SettingsRead {
    pub colours: Seq<(Seq<char>, Colour)>,
    pub settings: Seq<(Seq<char>, Seq<char>)>,
    pub in_section: bool,
}

/// What the lines give, or the index of the first invalid line.
pub open spec fn settings_lines(lines: Seq<Seq<char>>) -> Result<SettingsRead, nat>
    decreases lines.len(),
{
    if lines.len() == 0 {
        Ok(SettingsRead { colours: seq![], settings: seq![], in_section: false })
    } else {
        match settings_lines(lines.drop_last()) {
            Err(i) => Err(i),
            Ok(st) => if st.in_section {
                Ok(st)
            } else {
                match setting_line(lines.last()) {
                    None => Err((lines.len() - 1) as nat),
                    Some(SettingLine::Empty) => Ok(st),
                    Some(SettingLine::Section) => Ok(
                        SettingsRead { colours: st.colours, settings: st.settings, in_section: true },
                    ),
                    Some(SettingLine::Colour(name, c)) => match c {
                        Some(c) => Ok(
                            SettingsRead {
                                colours: st.colours.push((name, c)),
                                settings: st.settings,
                                in_section: false,
                            },
                        ),
                        None => Ok(st),
                    },
                    Some(SettingLine::Other(k, v)) => Ok(
                        SettingsRead {
                            colours: st.colours,
                            settings: st.settings.push((k, v)),
                            in_section: false,
                        },
                    ),
                }
            },
        }
    }
}

pub open spec fn colour_def_views(cs: Seq<ColourDef>) -> Seq<(Seq<char>, Colour)> {
    cs.map_values(|c: ColourDef| (c.name@, c.colour))
}

/// The pairs of character sequences held by a sequence of string pairs.
pub open spec fn pair_views(v: Seq<(String, String)>) -> Seq<(Seq<char>, Seq<char>)> {
    v.map_values(|p: (String, String)| (p.0@, p.1@))
}

/// Removes a `//` comment (see [`strip_comment`]).
fn without_comment(s: &[char]) -> (r: Vec<char>)
    ensures
        r@ == strip_comment(s@),
{
    let ghost p = |i: int| s@[i] == '/' && s@[i + 1] == '/';
    let mut i: usize = 0;
    while s.len() > 0 && i < s.len() - 1
        invariant
            i <= s@.len(),
            p == (|i: int| s@[i] == '/' && s@[i + 1] == '/'),
            first_index(i as int, p) is None,
        decreases s@.len() - i,
    {
        if s[i] == '/' && s[i + 1] == '/' {
            proof {
                assert(p(i as int));
                lemma_first_index_extend(i + 1, s@.len() - 1, p);
                assert(s@.take(i as int) =~= s@.subrange(0, i as int));
            }
            return copy_range(s, 0, i);
        }
        proof {
            assert(!p(i as int));
        }
        i = i + 1;
    }
    proof {
        if s@.len() > 0 {
            assert(i as int >= s@.len() - 1);
            lemma_first_index_none_beyond(i as int, s@.len() - 1, p);
        }
        assert(s@ =~= s@.subrange(0, s@.len() as int));
    }
    copy_range(s, 0, s.len())
}

/// A first index that does not exist below `k` does not exist below `n <= k`.
proof fn lemma_first_index_none_beyond(k: int, n: int, p: spec_fn(int) -> bool)
    requires
        n <= k,
        first_index(k, p) is None,
    ensures
        first_index(n, p) is None,
{
    lemma_first_index(k, p);
    lemma_first_index(n, p);
    if first_index(n, p) is Some {
        let j = first_index(n, p).unwrap();
        assert(p(j));
    }
}

/// Reads `r,g,b` (see [`rgb_of`]).
fn parse_rgb(v: &[char]) -> (r: Option<Colour>)
    ensures
        r == rgb_of(v@),
{
    let parts = split_chars(v, ',');
    proof {
        assert(views(parts@) == split_spec(v@, ','));
    }
    if parts.len() != 3 {
        return None;
    }
    proof {
        assert(parts@[0]@ == split_spec(v@, ',')[0]);
        assert(parts@[1]@ == split_spec(v@, ',')[1]);
        assert(parts@[2]@ == split_spec(v@, ',')[2]);
        crate::text::lemma_unsigned_text_value_nonneg(parts@[0]@, 10);
        crate::text::lemma_unsigned_text_value_nonneg(parts@[1]@, 10);
        crate::text::lemma_unsigned_text_value_nonneg(parts@[2]@, 10);
    }
    let r = parse_unsigned(parts[0].as_slice(), 10, 255);
    let g = parse_unsigned(parts[1].as_slice(), 10, 255);
    let b = parse_unsigned(parts[2].as_slice(), 10, 255);
    match (r, g, b) {
        (Some(r), Some(g), Some(b)) => Some(Colour::from_rgb(r as u8, g as u8, b as u8)),
        _ => None,
    }
}

/// What a line of the settings file holds, as values.
enum Line {
    Empty,
    Section,
    Colour(Vec<char>, Option<Colour>),
    Other(Vec<char>, Vec<char>),
}

/// Reads a line of the settings file (see [`setting_line`]).
fn parse_setting_line(line: &[char]) -> (r: Option<Line>)
    ensures
        match setting_line(line@) {
            None => r is None,
            Some(SettingLine::Empty) => r matches Some(Line::Empty),
            Some(SettingLine::Section) => r matches Some(Line::Section),
            Some(SettingLine::Colour(n, c)) => r matches Some(Line::Colour(rn, rc)) && rn@ == n
                && rc == c,
            Some(SettingLine::Other(k, v)) => r matches Some(Line::Other(rk, rv)) && rk@ == k
                && rv@ == v,
        },
{
    let stripped = without_comment(line);
    let l = trim(&stripped);
    if l.len() == 0 {
        return Some(Line::Empty);
    }
    if l[0] == '[' && l[l.len() - 1] == ']' {
        return Some(Line::Section);
    }
    let (before, after) = crate::text::split_once(&l, '=');
    match after {
        None => None,
        Some(after) => {
            proof {
                let i = find_first(l@, '=').unwrap();
                assert(before@ == l@.take(i));
                assert(after@ == l@.skip(i + 1));
            }
            let key = trim(&before);
            let value = trim(&after);
            if chars_start_with(&key, "Color_") {
                proof {
                    reveal_strlit("Color_");
                }
                let name = copy_range(&key, 6, key.len());
                proof {
                    assert(name@ =~= key@.skip(6));
                }
                Some(Line::Colour(name, parse_rgb(&value)))
            } else {
                Some(Line::Other(key, value))
            }
        },
    }
}

/// An invalid line stays the first invalid one however many lines follow.
proof fn lemma_settings_error_persists(lines: Seq<Seq<char>>, k: int)
    requires
        0 <= k <= lines.len(),
        settings_lines(lines.take(k)) is Err,
    ensures
        settings_lines(lines) == settings_lines(lines.take(k)),
    decreases lines.len() - k,
{
    if k < lines.len() {
        assert(lines.take(k + 1).drop_last() =~= lines.take(k));
        lemma_settings_error_persists(lines, k + 1);
    } else {
        assert(lines.take(k) =~= lines);
    }
}

/// Reads a TopSky settings file (see the module's documentation): its colours and
/// its other settings, each in file order.
pub fn parse_topsky_settings(contents: &str) -> (res: Result<(Vec<ColourDef>, Settings), TopskySettingsError>)
    ensures
        match settings_lines(lines_spec(contents@)) {
            Ok(st) => res matches Ok((cs, s)) && colour_def_views(cs@) == st.colours
                && pair_views(s.0@) == st.settings,
            Err(i) => res == Err::<(Vec<ColourDef>, Settings), TopskySettingsError>(
                TopskySettingsError::Parse { line: (i + 1) as usize },
            ),
        },
{
    let chars = crate::text::chars_of(contents);
    let lines = crate::text::lines_of(chars.as_slice());
    let ghost ls = lines_spec(contents@);
    let mut colours: Vec<ColourDef> = Vec::new();
    let mut settings: Vec<(String, String)> = Vec::new();
    let mut in_section = false;
    proof {
        assert(colour_def_views(colours@) =~= Seq::<(Seq<char>, Colour)>::empty());
        assert(pair_views(settings@) =~= Seq::<(Seq<char>, Seq<char>)>::empty());
        assert(ls.take(0) =~= Seq::<Seq<char>>::empty());
    }
    let mut i: usize = 0;
    while i < lines.len()
        invariant
            i <= lines@.len(),
            views(lines@) == ls,
            ls == lines_spec(contents@),
            settings_lines(ls.take(i as int)) == Ok::<SettingsRead, nat>(
                SettingsRead {
                    colours: colour_def_views(colours@),
                    settings: pair_views(settings@),
                    in_section,
                },
            ),
        decreases lines@.len() - i,
    {
        proof {
            assert(ls.take(i + 1).drop_last() =~= ls.take(i as int));
            assert(ls.take(i + 1).last() == lines@[i as int]@);
        }
        if !in_section {
            match parse_setting_line(lines[i].as_slice()) {
                None => {
                    proof {
                        lemma_settings_error_persists(ls, i + 1);
                    }
                    return Err(TopskySettingsError::Parse { line: i + 1 });
                },
                Some(Line::Empty) => {},
                Some(Line::Section) => {
                    in_section = true;
                },
                Some(Line::Colour(name, c)) => {
                    match c {
                        Some(c) => {
                            let ghost before = colour_def_views(colours@);
                            let d = ColourDef { name: string_from_chars(&name), colour: c };
                            colours.push(d);
                            proof {
                                assert(colour_def_views(colours@) =~= before.push((name@, c)));
                            }
                        },
                        None => {},
                    }
                },
                Some(Line::Other(k, v)) => {
                    let ghost before = pair_views(settings@);
                    settings.push((string_from_chars(&k), string_from_chars(&v)));
                    proof {
                        assert(pair_views(settings@) =~= before.push((k@, v@)));
                    }
                },
            }
        }
        i = i + 1;
    }
    proof {
        assert(ls.take(lines@.len() as int) =~= ls);
    }
    Ok((colours, Settings(settings)))
}

/// The value last given for `key`.
pub open spec fn setting_value(settings: Seq<(Seq<char>, Seq<char>)>, key: Seq<char>) -> Option<Seq<char>> {
    match last_index(settings.len() as int, setting_keyed(settings, key)) {
        Some(j) => Some(settings[j].1),
        None => None,
    }
}

/// Settings with key `key`.
pub open spec fn setting_keyed(settings: Seq<(Seq<char>, Seq<char>)>, key: Seq<char>) -> spec_fn(
    int,
) -> bool {
    |j: int| settings[j].0 == key
}

impl Settings {
    /// The value of a setting (the last one given).
    pub fn get(&self, key: &str) -> (r: Option<&String>)
        ensures
            match setting_value(pair_views(self.0@), key@) {
                Some(v) => r matches Some(x) && x@ == v,
                None => r is None,
            },
    {
        let ghost sv = pair_views(self.0@);
        let ghost p = setting_keyed(sv, key@);
        let mut j = self.0.len();
        while j > 0
            invariant
                j <= self.0@.len(),
                sv == pair_views(self.0@),
                p == setting_keyed(sv, key@),
                forall|k: int| j <= k < self.0@.len() ==> !#[trigger] p(k),
            decreases j,
        {
            j = j - 1;
            if crate::text::str_eq(self.0[j].0.as_str(), key) {
                proof {
                    assert(p(j as int));
                    lemma_last_index_at(self.0@.len() as int, p, j as int);
                }
                return Some(&self.0[j].1);
            }
            proof {
                assert(!p(j as int));
            }
        }
        proof {
            lemma_last_index(self.0@.len() as int, p);
            if last_index(self.0@.len() as int, p) is Some {
                let k = last_index(self.0@.len() as int, p).unwrap();
                assert(p(k));
            }
        }
        None
    }

    /// The setting read as a `u32` (as `str::parse` reads one), or `default` when it
    /// is not given or not such a number.
    pub fn parse_u32_with_default(&self, key: &str, default: u32) -> (r: u32)
        ensures
            r == match setting_value(pair_views(self.0@), key@) {
                Some(v) => match unsigned_parse_spec(v, 10, 0xffff_ffff) {
                    Some(n) => n as u32,
                    None => default,
                },
                None => default,
            },
    {
        match self.get(key) {
            None => default,
            Some(v) => {
                let cs = crate::text::chars_of(v.as_str());
                proof {
                    crate::text::lemma_unsigned_text_value_nonneg(cs@, 10);
                }
                match parse_unsigned(&cs, 10, 0xffff_ffff) {
                    Some(n) => n as u32,
                    None => default,
                }
            },
        }
    }

    /// The setting read as a decimal number in millionths (see [`crate::decimal`]),
    /// or `default` when it is not given or not such a number.
    pub fn parse_micro_with_default(&self, key: &str, default: i64) -> (r: i64)
        ensures
            r == micro_setting(pair_views(self.0@), key@, default),
    {
        match self.get(key) {
            None => default,
            Some(v) => {
                let cs = crate::text::chars_of(v.as_str());
                match crate::decimal::parse_micro(&cs) {
                    Some(n) => n,
                    None => default,
                }
            },
        }
    }
}

/// A setting as a decimal number in millionths, or `default`.
pub open spec fn micro_setting(settings: Seq<(Seq<char>, Seq<char>)>, key: Seq<char>, default: i64) -> i64 {
    match setting_value(settings, key) {
        Some(v) => match crate::decimal::micro_value(v) {
            Some(n) => n as i64,
            None => default,
        },
        None => default,
    }
}

} // verus!
