//! EuroScope profile (.prf) files: which sector file, settings files, plugins and
//! .asr files a profile loads.
//!
//! A profile is read line by line; a line `CATEGORY<TAB>KEY<TAB>VALUE` is a
//! setting (the value is everything after the second tab), other lines are passed
//! over. Where a category and key occur twice, the later line counts.
use vstd::prelude::*;

use crate::lookup::{first_index, lemma_first_index_extend};
use crate::text::{
    after_first, before_first, chars_are, chars_of, copy_range, lines_of, lines_spec, split_chars,
    split_once, split_spec, starts_with, string_from_chars, trim_white_end, trim_white_end_spec, views,
};

verus! {

/// What a setting's path is relative to.
#[derive(Clone, Copy, Debug, PartialEq, Eq, Structural)]
pub enum PathBase {
    /// the directory that holds the profile
    PrfDirectory,
    /// the working directory of the process
    WorkingDirectory,
}

/// A path named by a profile setting: relative to `base`, with `/` separators.
#[derive(Clone, Debug)]
pub struct SettingsPath {
    pub base: PathBase,
    pub relative: String,
}

/// A EuroScope profile: its settings as (category, key, value), in file order.
#[derive(Clone, Debug)]
pub struct Prf {
    pub settings: Vec<(String, String, String)>,
}

pub open spec fn triple_views(v: Seq<(String, String, String)>) -> Seq<
    (Seq<char>, Seq<char>, Seq<char>),
> {
    v.map_values(|x: (String, String, String)| (x.0@, x.1@, x.2@))
}

/// The setting that one profile line holds, if any.
pub open spec fn prf_line(l: Seq<char>) -> Option<(Seq<char>, Seq<char>, Seq<char>)> {
    match after_first(l, '\t') {
        Some(r) => match after_first(r, '\t') {
            Some(value) => Some((before_first(l, '\t'), before_first(r, '\t'), value)),
            None => None,
        },
        None => None,
    }
}

/// The settings of a sequence of profile lines, in order.
pub open spec fn prf_settings(lines: Seq<Seq<char>>) -> Seq<(Seq<char>, Seq<char>, Seq<char>)>
    decreases lines.len(),
{
    if lines.len() == 0 {
        seq![]
    } else {
        let rest = prf_settings(lines.drop_last());
        match prf_line(lines.last()) {
            Some(s) => rest.push(s),
            None => rest,
        }
    }
}

/// The value of the last setting with this category and key.
pub open spec fn prf_value(
    settings: Seq<(Seq<char>, Seq<char>, Seq<char>)>,
    category: Seq<char>,
    key: Seq<char>,
) -> Option<Seq<char>>
    decreases settings.len(),
{
    if settings.len() == 0 {
        None
    } else if settings.last().0 == category && settings.last().1 == key {
        Some(settings.last().2)
    } else {
        prf_value(settings.drop_last(), category, key)
    }
}

/// `s` with every `\` turned into `/`.
pub open spec fn slashes(s: Seq<char>) -> Seq<char> {
    s.map_values(|c: char| if c == '\\' { '/' } else { c })
}

/// Where a path written in a profile points: trailing white space dropped, backslashes
/// made slashes; a path that starts with a slash is relative to the profile's
/// directory, any other to the working directory.
pub open spec fn settings_path(value: Seq<char>) -> (PathBase, Seq<char>) {
    let n = slashes(trim_white_end_spec(value));
    if n.len() > 0 && n[0] == '/' {
        (PathBase::PrfDirectory, n.drop_first())
    } else {
        (PathBase::WorkingDirectory, n)
    }
}

/// `s` with every occurrence of `p` (non-empty), read from left to right, replaced
/// by `r`.
pub open spec fn replace_all(s: Seq<char>, p: Seq<char>, r: Seq<char>) -> Seq<char>
    recommends
        p.len() > 0,
    decreases s.len(),
{
    if s.len() == 0 || p.len() == 0 {
        s
    } else if starts_with(s, p) {
        r + replace_all(s.skip(p.len() as int), p, r)
    } else {
        seq![s[0]] + replace_all(s.drop_first(), p, r)
    }
}

/// A name ending in `.sct`, with no other `.sct` in it, gets `.ese` in place of
/// that ending.
proof fn lemma_replace_final_sct(w: Seq<char>)
    requires
        forall|i: int| 0 <= i <= w.len() ==> !starts_with(#[trigger] w.skip(i), ".sct"@),
    ensures
        replace_all(w + ".sct"@, ".sct"@, ".ese"@) == w + ".ese"@,
    decreases w.len(),
{
    reveal_strlit(".sct");
    reveal_strlit(".ese");
    let s = w + ".sct"@;
    if w.len() == 0 {
        assert(s =~= ".sct"@);
        assert(s.take(4) =~= ".sct"@);
        assert(starts_with(s, ".sct"@));
        assert(s.skip(4) =~= Seq::<char>::empty());
        assert(replace_all(s.skip(4), ".sct"@, ".ese"@) == Seq::<char>::empty());
        assert(replace_all(s, ".sct"@, ".ese"@) == ".ese"@ + replace_all(s.skip(4), ".sct"@, ".ese"@));
        assert(".ese"@ + Seq::<char>::empty() =~= w + ".ese"@);
    } else {
        if w.len() >= 4 {
            assert(w.skip(0) =~= w);
            assert(s.take(4) =~= w.take(4));
        } else {
            assert(s[w.len() as int] == '.');
            assert(s.take(4)[w.len() as int] == s[w.len() as int]);
        }
        assert(!starts_with(s, ".sct"@));
        let d = w.drop_first();
        assert forall|i: int| 0 <= i <= d.len() implies !starts_with(#[trigger] d.skip(i), ".sct"@) by {
            assert(d.skip(i) =~= w.skip(i + 1));
        }
        lemma_replace_final_sct(d);
        assert(s.drop_first() =~= d + ".sct"@);
        assert(replace_all(s, ".sct"@, ".ese"@) == seq![s[0]] + replace_all(s.drop_first(), ".sct"@, ".ese"@));
        assert(seq![s[0]] + (d + ".ese"@) =~= w + ".ese"@);
    }
}

/// The law between the sector file and the .ese file: where the sector file's
/// setting holds `.sct` only as its final extension, the .ese file lies where the
/// sector file does, its name with that extension changed to `.ese`.
pub proof fn lemma_ese_path_changes_extension(w: Seq<char>)
    requires
        forall|i: int| 0 <= i <= w.len() ==> !starts_with(#[trigger] w.skip(i), ".sct"@),
    ensures
        ({
            let sct = settings_path(w + ".sct"@);
            let ese = settings_path(replace_all(w + ".sct"@, ".sct"@, ".ese"@));
            &&& ese.0 == sct.0
            &&& sct.1.len() >= 4
            &&& sct.1.skip(sct.1.len() - 4) == ".sct"@
            &&& ese.1 == sct.1.take(sct.1.len() - 4) + ".ese"@
        }),
{
    reveal_strlit(".sct");
    reveal_strlit(".ese");
    lemma_replace_final_sct(w);
    let a = w + ".sct"@;
    let b = w + ".ese"@;
    assert(!crate::text::is_white_space(a.last()));
    assert(!crate::text::is_white_space(b.last()));
    assert(trim_white_end_spec(a) == a);
    assert(trim_white_end_spec(b) == b);
    assert(slashes(a) =~= slashes(w) + ".sct"@);
    assert(slashes(b) =~= slashes(w) + ".ese"@);
    let na = slashes(a);
    let nb = slashes(b);
    if w.len() > 0 {
        assert(na[0] == nb[0]);
    } else {
        assert(na[0] == '.');
        assert(nb[0] == '.');
    }
    if na.len() > 0 && na[0] == '/' {
        assert(na.drop_first().skip(na.len() - 5) =~= ".sct"@);
        assert(nb.drop_first() =~= na.drop_first().take(na.len() - 5) + ".ese"@);
    } else {
        assert(na.skip(na.len() - 4) =~= ".sct"@);
        assert(nb =~= na.take(na.len() - 4) + ".ese"@);
    }
}

/// The decimal digits of `n`, without leading zeros.
pub open spec fn decimal_digits(n: nat) -> Seq<char>
    decreases n,
{
    if n < 10 {
        seq![((n + 48) as u8) as char]
    } else {
        decimal_digits(n / 10).push(((n % 10 + 48) as u8) as char)
    }
}

/// Writes a byte in decimal (see [`decimal_digits`]).
pub fn format_decimal_u8(n: u8) -> (s: Vec<char>)
    ensures
        s@ == decimal_digits(n as nat),
{
    let mut s: Vec<char> = Vec::new();
    if n >= 100 {
        s.push(((n / 100) + 48) as char);
    }
    if n >= 10 {
        s.push(((n / 10 % 10) + 48) as char);
    }
    s.push(((n % 10) + 48) as char);
    proof {
        if n >= 100 {
            assert(decimal_digits((n / 10) as nat) =~= decimal_digits((n / 100) as nat).push(
                (((n / 10) % 10 + 48) as u8) as char,
            ));
            assert((n / 10) / 10 == n / 100);
        } else if n >= 10 {
            assert(decimal_digits((n / 10) as nat) =~= seq![(((n / 10) + 48) as u8) as char]);
        }
    }
    s
}

fn slashes_exec(s: &[char]) -> (r: Vec<char>)
    ensures
        r@ == slashes(s@),
{
    let mut r: Vec<char> = Vec::new();
    let mut i: usize = 0;
    while i < s.len()
        invariant
            i <= s.len(),
            r@ == slashes(s@.take(i as int)),
        decreases s.len() - i,
    {
        let c = if s[i] == '\\' { '/' } else { s[i] };
        r.push(c);
        proof {
            assert(slashes(s@.take(i + 1)) =~= slashes(s@.take(i as int)).push(c));
        }
        i = i + 1;
    }
    proof {
        assert(s@.take(s.len() as int) =~= s@);
    }
    r
}

/// Resolves a path written in a profile (see [`settings_path`]).
pub fn join_settings_path(value: &str) -> (p: SettingsPath)
    ensures
        (p.base, p.relative@) == settings_path(value@),
{
    let cs = chars_of(value);
    let t = trim_white_end(cs.as_slice());
    let n = slashes_exec(t.as_slice());
    if n.len() > 0 && n[0] == '/' {
        let rest = copy_range(n.as_slice(), 1, n.len());
        proof {
            assert(rest@ =~= n@.drop_first());
        }
        SettingsPath { base: PathBase::PrfDirectory, relative: string_from_chars(rest.as_slice()) }
    } else {
        SettingsPath { base: PathBase::WorkingDirectory, relative: string_from_chars(n.as_slice()) }
    }
}

/// Replaces every `.sct` in a file name by `.ese`.
fn sct_to_ese(s: &[char]) -> (r: Vec<char>)
    ensures
        r@ == replace_all(s@, ".sct"@, ".ese"@),
{
    let p = chars_of(".sct");
    let q = chars_of(".ese");
    let mut out: Vec<char> = Vec::new();
    let mut i: usize = 0;
    proof {
        assert(s@.skip(0) =~= s@);
        reveal_strlit(".sct");
        reveal_strlit(".ese");
    }
    while i < s.len()
        invariant
            i <= s.len(),
            p@ == ".sct"@,
            q@ == ".ese"@,
            p@.len() == 4,
            q@.len() == 4,
            out@ + replace_all(s@.skip(i as int), p@, q@) == replace_all(s@, p@, q@),
        decreases s.len() - i,
    {
        let ghost rest = s@.skip(i as int);
        if s.len() - i >= 4 && s[i] == p[0] && s[i + 1] == p[1] && s[i + 2] == p[2] && s[i + 3]
            == p[3] {
            proof {
                assert(rest.take(4) =~= p@);
                assert(rest.skip(4) =~= s@.skip(i + 4));
            }
            let ghost before = out@;
            out.push(q[0]);
            out.push(q[1]);
            out.push(q[2]);
            out.push(q[3]);
            proof {
                assert(out@ =~= before + q@);
            }
            i = i + 4;
        } else {
            proof {
                if rest.len() >= 4 {
                    if rest.take(4) == p@ {
                        assert(rest.take(4)[0] == s@[i as int]);
                        assert(rest.take(4)[1] == s@[i + 1]);
                        assert(rest.take(4)[2] == s@[i + 2]);
                        assert(rest.take(4)[3] == s@[i + 3]);
                    }
                }
                assert(rest.drop_first() =~= s@.skip(i + 1));
                assert(rest[0] == s@[i as int]);
            }
            let ghost before = out@;
            out.push(s[i]);
            proof {
                assert(out@ =~= before.push(s@[i as int]));
                assert(seq![s@[i as int]] + replace_all(s@.skip(i + 1), p@, q@) =~= replace_all(
                    rest,
                    p@,
                    q@,
                ));
                assert(out@ + replace_all(s@.skip(i + 1), p@, q@) =~= before + replace_all(
                    rest,
                    p@,
                    q@,
                ));
            }
            i = i + 1;
        }
    }
    proof {
        assert(s@.skip(s.len() as int) =~= Seq::<char>::empty());
        assert(out@ + Seq::<char>::empty() =~= out@);
    }
    out
}

/// The settings of a profile's text (see [`prf_settings`]).
pub open spec fn prf_text(text: Seq<char>) -> Seq<(Seq<char>, Seq<char>, Seq<char>)> {
    prf_settings(lines_spec(text))
}

impl Prf {
    /// Reads a profile's settings from its bytes.
    pub fn parse(contents: &[u8]) -> (p: Prf)
        ensures
            triple_views(p.settings@) == prf_text(crate::file_text(contents@)),
    {
        let text = crate::read_to_string(contents);
        let chars = chars_of(text.as_str());
        let lines = lines_of(chars.as_slice());
        let ghost ls = views(lines@);
        let mut settings: Vec<(String, String, String)> = Vec::new();
        let mut i: usize = 0;
        while i < lines.len()
            invariant
                i <= lines@.len(),
                ls == views(lines@),
                triple_views(settings@) == prf_settings(ls.take(i as int)),
            decreases lines@.len() - i,
        {
            proof {
                assert(ls.take(i + 1).drop_last() =~= ls.take(i as int));
                assert(ls.take(i + 1).last() == lines@[i as int]@);
            }
            let line = lines[i].as_slice();
            let (cat, r) = split_once(line, '\t');
            if let Some(r) = r {
                let (key, value) = split_once(r.as_slice(), '\t');
                if let Some(value) = value {
                    let entry = (
                        string_from_chars(cat.as_slice()),
                        string_from_chars(key.as_slice()),
                        string_from_chars(value.as_slice()),
                    );
                    let ghost before = settings@;
                    settings.push(entry);
                    proof {
                        assert(triple_views(settings@) =~= triple_views(before).push(
                            (cat@, key@, value@),
                        ));
                    }
                }
            }
            i = i + 1;
        }
        proof {
            assert(ls.take(lines@.len() as int) =~= ls);
        }
        Prf { settings }
    }

    /// The value of the last setting with this category and key.
    pub fn get(&self, category: &str, key: &[char]) -> (v: Option<&String>)
        ensures
            match prf_value(triple_views(self.settings@), category@, key@) {
                Some(x) => v matches Some(s) && s@ == x,
                None => v is None,
            },
    {
        let cat = chars_of(category);
        let mut k = self.settings.len();
        proof {
            assert(triple_views(self.settings@).take(k as int) =~= triple_views(self.settings@));
        }
        while k > 0
            invariant
                k <= self.settings@.len(),
                cat@ == category@,
                prf_value(triple_views(self.settings@), category@, key@) == prf_value(
                    triple_views(self.settings@).take(k as int),
                    category@,
                    key@,
                ),
            decreases k,
        {
            let e = &self.settings[k - 1];
            proof {
                assert(triple_views(self.settings@).take(k as int).drop_last() =~= triple_views(
                    self.settings@,
                ).take(k - 1));
            }
            let c = chars_of(e.0.as_str());
            let kk = chars_of(e.1.as_str());
            if crate::text::chars_eq(c.as_slice(), cat.as_slice()) && crate::text::chars_eq(
                kk.as_slice(),
                key,
            ) {
                return Some(&e.2);
            }
            k = k - 1;
        }
        None
    }

    /// The sector file (`Settings` / `sector`).
    pub fn sct_path(&self) -> (p: SettingsPath)
        requires
            prf_value(triple_views(self.settings@), "Settings"@, "sector"@) is Some,
        ensures
            (p.base, p.relative@) == settings_path(
                prf_value(triple_views(self.settings@), "Settings"@, "sector"@).unwrap(),
            ),
    {
        let key = chars_of("sector");
        let v = self.get("Settings", key.as_slice()).unwrap();
        join_settings_path(v.as_str())
    }

    /// The .ese file: the sector file's name with `.sct` replaced by `.ese`.
    pub fn ese_path(&self) -> (p: SettingsPath)
        requires
            prf_value(triple_views(self.settings@), "Settings"@, "sector"@) is Some,
        ensures
            (p.base, p.relative@) == settings_path(
                replace_all(
                    prf_value(triple_views(self.settings@), "Settings"@, "sector"@).unwrap(),
                    ".sct"@,
                    ".ese"@,
                ),
            ),
    {
        let key = chars_of("sector");
        let v = self.get("Settings", key.as_slice()).unwrap();
        let cs = chars_of(v.as_str());
        let e = sct_to_ese(cs.as_slice());
        let es = string_from_chars(e.as_slice());
        join_settings_path(es.as_str())
    }

    /// The airway file (`Settings` / `airways`).
    pub fn airways_path(&self) -> (p: SettingsPath)
        requires
            prf_value(triple_views(self.settings@), "Settings"@, "airways"@) is Some,
        ensures
            (p.base, p.relative@) == settings_path(
                prf_value(triple_views(self.settings@), "Settings"@, "airways"@).unwrap(),
            ),
    {
        let key = chars_of("airways");
        let v = self.get("Settings", key.as_slice()).unwrap();
        join_settings_path(v.as_str())
    }

    /// The symbology file (`Settings` / `SettingsfileSYMBOLOGY`).
    pub fn symbology_path(&self) -> (p: SettingsPath)
        requires
            prf_value(triple_views(self.settings@), "Settings"@, "SettingsfileSYMBOLOGY"@) is Some,
        ensures
            (p.base, p.relative@) == settings_path(
                prf_value(
                    triple_views(self.settings@),
                    "Settings"@,
                    "SettingsfileSYMBOLOGY"@,
                ).unwrap(),
            ),
    {
        let key = chars_of("SettingsfileSYMBOLOGY");
        let v = self.get("Settings", key.as_slice()).unwrap();
        join_settings_path(v.as_str())
    }

    /// The recently opened .asr file number `num` (`RecentFiles` / `Recent<num>`),
    /// if the profile names one.
    pub fn recent_path(&self, num: u8) -> (p: Option<SettingsPath>)
        ensures
            match prf_value(
                triple_views(self.settings@),
                "RecentFiles"@,
                "Recent"@ + decimal_digits(num as nat),
            ) {
                Some(v) => p matches Some(q) && (q.base, q.relative@) == settings_path(v),
                None => p is None,
            },
    {
        let mut key = chars_of("Recent");
        let mut digits = format_decimal_u8(num);
        key.append(&mut digits);
        match self.get("RecentFiles", key.as_slice()) {
            Some(v) => Some(join_settings_path(v.as_str())),
            None => None,
        }
    }
}

// ---------------------------------------------------------------------------
// Plugin directories

/// The components of a path with `/` separators, as `Path::components` counts them:
/// empty and `.` components left out.
pub open spec fn path_components(p: Seq<char>) -> Seq<Seq<char>> {
    split_spec(p, '/').filter(|c: Seq<char>| c.len() > 0 && c != "."@)
}

/// The last component of a path, unless the path has none or ends in `..`.
pub open spec fn file_name(p: Seq<char>) -> Option<Seq<char>> {
    let cs = path_components(p);
    if cs.len() == 0 || cs.last() == ".."@ {
        None
    } else {
        Some(cs.last())
    }
}

/// Components joined by `/`.
pub open spec fn join_components(cs: Seq<Seq<char>>) -> Seq<char>
    decreases cs.len(),
{
    if cs.len() == 0 {
        seq![]
    } else if cs.len() == 1 {
        cs[0]
    } else {
        join_components(cs.drop_last()) + seq!['/'] + cs.last()
    }
}

/// The directory of a path: its components but the last, rooted when the path is.
pub open spec fn parent_dir(p: Seq<char>) -> Seq<char> {
    let d = join_components(path_components(p).drop_last());
    if p.len() > 0 && p[0] == '/' {
        seq!['/'] + d
    } else {
        d
    }
}

/// A file name put in a directory.
pub open spec fn in_dir(dir: Seq<char>, name: Seq<char>) -> Seq<char> {
    if dir.len() == 0 {
        name
    } else if dir.last() == '/' {
        dir + name
    } else {
        dir + seq!['/'] + name
    }
}

/// Whether setting `j` is the one that counts for its category and key: no later
/// setting has them.
pub open spec fn effective(s: Seq<(Seq<char>, Seq<char>, Seq<char>)>, j: int) -> bool {
    forall|k: int| j < k < s.len() ==> !(#[trigger] s[k].0 == s[j].0 && s[k].1 == s[j].1)
}

/// Settings that count and name a file called `dll`.
pub open spec fn names_plugin(s: Seq<(Seq<char>, Seq<char>, Seq<char>)>, dll: Seq<char>) -> spec_fn(
    int,
) -> bool {
    |j: int| effective(s, j) && file_name(settings_path(s[j].2).1) == Some(dll)
}

/// The directory of the plugin file `dll`: that of the first setting (in file order)
/// that counts and names such a file.
pub open spec fn plugin_dir(s: Seq<(Seq<char>, Seq<char>, Seq<char>)>, dll: Seq<char>) -> Option<
    (PathBase, Seq<char>),
> {
    match first_index(s.len() as int, names_plugin(s, dll)) {
        Some(j) => {
            let p = settings_path(s[j].2);
            Some((p.0, parent_dir(p.1)))
        },
        None => None,
    }
}

/// Splits a path into its components (see [`path_components`]).
fn components(p: &[char]) -> (r: Vec<Vec<char>>)
    ensures
        views(r@) == path_components(p@),
{
    let pieces = split_chars(p, '/');
    let ghost ps = split_spec(p@, '/');
    let ghost f = |c: Seq<char>| c.len() > 0 && c != "."@;
    let mut r: Vec<Vec<char>> = Vec::new();
    let mut i: usize = 0;
    while i < pieces.len()
        invariant
            i <= pieces@.len(),
            views(pieces@) == ps,
            ps == split_spec(p@, '/'),
            f == (|c: Seq<char>| c.len() > 0 && c != "."@),
            views(r@) == ps.take(i as int).filter(f),
        decreases pieces@.len() - i,
    {
        proof {
            assert(ps.take(i + 1) =~= ps.take(i as int).push(ps[i as int]));
            ps.take(i as int).lemma_filter_push(ps[i as int], f);
            assert(ps[i as int] == pieces@[i as int]@);
        }
        if pieces[i].len() > 0 && !chars_are(&pieces[i], ".") {
            let ghost before = views(r@);
            let c = copy_range(&pieces[i], 0, pieces[i].len());
            proof {
                assert(c@ =~= pieces@[i as int]@);
            }
            r.push(c);
            proof {
                assert(views(r@) =~= before.push(c@));
            }
        }
        i = i + 1;
    }
    proof {
        assert(ps.take(pieces@.len() as int) =~= ps);
    }
    r
}

/// Joins the first `n` components with `/` (see [`join_components`]).
fn join_first(cs: &Vec<Vec<char>>, n: usize) -> (r: Vec<char>)
    requires
        n <= cs@.len(),
    ensures
        r@ == join_components(views(cs@).take(n as int)),
{
    let mut r: Vec<char> = Vec::new();
    let mut i: usize = 0;
    proof {
        assert(views(cs@).take(0) =~= Seq::<Seq<char>>::empty());
    }
    while i < n
        invariant
            i <= n <= cs@.len(),
            r@ == join_components(views(cs@).take(i as int)),
        decreases n - i,
    {
        let ghost before = r@;
        if i > 0 {
            r.push('/');
        }
        let mut k: usize = 0;
        let ghost mid = r@;
        while k < cs[i].len()
            invariant
                i < n <= cs@.len(),
                k <= cs@[i as int]@.len(),
                r@ == mid + cs@[i as int]@.take(k as int),
            decreases cs@[i as int]@.len() - k,
        {
            r.push(cs[i][k]);
            proof {
                assert(cs@[i as int]@.take(k + 1) =~= cs@[i as int]@.take(k as int).push(cs@[i as int]@[k as int]));
                assert(r@ =~= mid + cs@[i as int]@.take(k + 1));
            }
            k = k + 1;
        }
        proof {
            let vs = views(cs@);
            assert(cs@[i as int]@.take(cs@[i as int]@.len() as int) =~= cs@[i as int]@);
            assert(vs.take(i + 1).drop_last() =~= vs.take(i as int));
            assert(vs.take(i + 1).last() == cs@[i as int]@);
            if i == 0 {
                assert(vs.take(1) =~= seq![cs@[0]@]);
                assert(r@ =~= cs@[0]@);
            } else {
                assert(r@ =~= before + seq!['/'] + cs@[i as int]@);
            }
        }
        i = i + 1;
    }
    r
}

impl Prf {
    /// The directory of a plugin file (see [`plugin_dir`]).
    fn plugin_dir(&self, dll: &str) -> (r: Option<SettingsPath>)
        ensures
            match plugin_dir(triple_views(self.settings@), dll@) {
                Some((b, d)) => r matches Some(p) && p.base == b && p.relative@ == d,
                None => r is None,
            },
    {
        let ghost s = triple_views(self.settings@);
        let ghost pred = names_plugin(s, dll@);
        let dll_chars = chars_of(dll);
        let mut j: usize = 0;
        while j < self.settings.len()
            invariant
                j <= self.settings@.len(),
                s == triple_views(self.settings@),
                pred == names_plugin(s, dll@),
                dll_chars@ == dll@,
                first_index(j as int, pred) is None,
            decreases self.settings@.len() - j,
        {
            let e = &self.settings[j];
            proof {
                assert(s[j as int] == (e.0@, e.1@, e.2@));
            }
            // does a later setting have the same category and key?
            let mut later = false;
            let mut k: usize = j + 1;
            while k < self.settings.len()
                invariant
                    j < k <= self.settings@.len(),
                    s == triple_views(self.settings@),
                    s[j as int] == (e.0@, e.1@, e.2@),
                    !later ==> forall|m: int| j < m < k ==> !(#[trigger] s[m].0 == s[j as int].0 && s[m].1 == s[j as int].1),
                    later ==> !effective(s, j as int),
                decreases self.settings@.len() - k,
            {
                let o = &self.settings[k];
                proof {
                    assert(s[k as int] == (o.0@, o.1@, o.2@));
                }
                if crate::text::str_eq(o.0.as_str(), e.0.as_str()) && crate::text::str_eq(
                    o.1.as_str(),
                    e.1.as_str(),
                ) {
                    proof {
                        assert(s[k as int].0 == s[j as int].0 && s[k as int].1 == s[j as int].1);
                    }
                    later = true;
                }
                k = k + 1;
            }
            if !later {
                let p = join_settings_path(e.2.as_str());
                let rel = chars_of(p.relative.as_str());
                let cs = components(&rel);
                let n = cs.len();
                let is_dll = n > 0 && !chars_are(&cs[n - 1], "..") && crate::text::chars_eq(
                    &cs[n - 1],
                    &dll_chars,
                );
                proof {
                    assert(effective(s, j as int));
                    if n > 0 {
                        assert(views(cs@).last() == cs@[n - 1]@);
                    }
                }
                if is_dll {
                    proof {
                        assert(pred(j as int));
                        lemma_first_index_extend(j + 1, s.len() as int, pred);
                    }
                    let dir = join_first(&cs, n - 1);
                    proof {
                        assert(views(cs@).take(n - 1) =~= views(cs@).drop_last());
                    }
                    let rooted = rel.len() > 0 && rel[0] == '/';
                    let mut full: Vec<char> = Vec::new();
                    if rooted {
                        full.push('/');
                    }
                    let mut dir = dir;
                    full.append(&mut dir);
                    proof {
                        assert(full@ =~= parent_dir(rel@));
                    }
                    return Some(SettingsPath { base: p.base, relative: string_from_chars(&full) });
                }
                proof {
                    assert(!pred(j as int));
                }
            }
            j = j + 1;
        }
        None
    }

    /// The squawks.json of the Squawks plugin: in the directory of the first
    /// setting, among those that count, that names a `Squawks.dll`.
    pub fn squawks_path(&self) -> (r: Option<SettingsPath>)
        ensures
            match plugin_dir(triple_views(self.settings@), "Squawks.dll"@) {
                Some((b, d)) => r matches Some(p) && p.base == b && p.relative@ == in_dir(
                    d,
                    "squawks.json"@,
                ),
                None => r is None,
            },
    {
        match self.plugin_dir("Squawks.dll") {
            None => None,
            Some(d) => {
                let mut full = chars_of(d.relative.as_str());
                let mut name = chars_of("squawks.json");
                if full.len() > 0 && full[full.len() - 1] != '/' {
                    full.push('/');
                }
                full.append(&mut name);
                Some(SettingsPath { base: d.base, relative: string_from_chars(&full) })
            },
        }
    }

    /// The directory of the TopSky plugin: that of the first setting, among those
    /// that count, that names a `TopSky.dll`.
    pub fn topsky_path(&self) -> (r: Option<SettingsPath>)
        ensures
            match plugin_dir(triple_views(self.settings@), "TopSky.dll"@) {
                Some((b, d)) => r matches Some(p) && p.base == b && p.relative@ == d,
                None => r is None,
            },
    {
        self.plugin_dir("TopSky.dll")
    }
}

} // verus!
