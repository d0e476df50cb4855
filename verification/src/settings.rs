//! Settings of an adaptation: the line styles of sector file elements, and the
//! special-use SSR codes.
use vstd::prelude::*;

use crate::line_styles::{default_line_style, LineStyle, LineStyleV};
use crate::squawks::{SquawkDef, SquawksJson};
use crate::symbology::{Symbology, SymbologyV};
use crate::topsky_settings::{pair_views, setting_value, Settings as TopskySettings};
use crate::text::{chars_of, parse_unsigned, string_from_chars, unsigned_parse_spec};

verus! {

// ---------------------------------------------------------------------------
// Octal codes

/// The octal digit character for `d < 8`.
pub open spec fn octal_digit_char(d: int) -> char {
    ((d + 48) as u8) as char
}

/// The octal digits of `n`, most significant first, without leading zeros (`0`
/// for zero).
pub open spec fn octal_digits(n: nat) -> Seq<char>
    decreases n,
{
    if n < 8 {
        seq![octal_digit_char(n as int)]
    } else {
        octal_digits(n / 8).push(octal_digit_char((n % 8) as int))
    }
}

/// `n` in octal, zero-padded to at least four digits, as `format!("{n:04o}")`
/// writes it.
pub open spec fn octal4(n: nat) -> Seq<char> {
    let d = octal_digits(n);
    if d.len() < 4 {
        Seq::new((4 - d.len()) as nat, |i: int| '0') + d
    } else {
        d
    }
}

proof fn lemma_octal_digit_char(d: int)
    requires
        0 <= d < 8,
    ensures
        octal_digit_char(d) as u32 == d + 48,
        crate::text::is_radix_digit(octal_digit_char(d), 8),
        crate::text::digit_value(octal_digit_char(d)) == d,
{
}

proof fn lemma_octal_digits(n: nat)
    ensures
        octal_digits(n).len() >= 1,
        crate::text::all_radix_digits(octal_digits(n), 8),
        crate::text::digits_value(octal_digits(n), 8) == n,
        n < 8 ==> octal_digits(n).len() == 1,
        n < 64 ==> octal_digits(n).len() <= 2,
        n < 512 ==> octal_digits(n).len() <= 3,
        n < 4096 ==> octal_digits(n).len() <= 4,
        n < 32768 ==> octal_digits(n).len() <= 5,
        n < 262144 ==> octal_digits(n).len() <= 6,
    decreases n,
{
    if n < 8 {
        lemma_octal_digit_char(n as int);
        let s = octal_digits(n);
        assert(s.drop_last() =~= Seq::<char>::empty());
        assert(crate::text::digits_value(s.drop_last(), 8) == 0);
        assert(s.last() == octal_digit_char(n as int));
        assert(crate::text::digits_value(s, 8) == crate::text::digits_value(s.drop_last(), 8) * 8
            + crate::text::digit_value(s.last()));
    } else {
        lemma_octal_digits(n / 8);
        lemma_octal_digit_char((n % 8) as int);
        let s = octal_digits(n);
        assert(s.drop_last() =~= octal_digits(n / 8));
        assert((n / 8) * 8 + n % 8 == n) by (nonlinear_arith);
        assert(s.last() == octal_digit_char((n % 8) as int));
        assert forall|i: int| 0 <= i < s.len() implies crate::text::is_radix_digit(
            #[trigger] s[i],
            8,
        ) by {
            if i < s.len() - 1 {
                assert(s[i] == octal_digits(n / 8)[i]);
            }
        }
    }
}

/// Leading zeros do not change the value of a digit string.
proof fn lemma_leading_zeros(k: nat, d: Seq<char>)
    ensures
        crate::text::digits_value(Seq::new(k, |i: int| '0') + d, 8)
            == crate::text::digits_value(d, 8),
    decreases d.len(), k,
{
    let z = Seq::new(k, |i: int| '0');
    if d.len() == 0 {
        if k > 0 {
            let zk = Seq::new((k - 1) as nat, |i: int| '0');
            assert((z + d).drop_last() =~= zk + d);
            lemma_leading_zeros((k - 1) as nat, d);
            assert(('0' as u32) == 48);
        } else {
            assert(z + d =~= d);
        }
    } else {
        assert((z + d).drop_last() =~= z + d.drop_last());
        lemma_leading_zeros(k, d.drop_last());
    }
}

/// A code written with [`octal4`] reads back as the same number.
pub proof fn lemma_octal4_reads_back(n: u16)
    ensures
        unsigned_parse_spec(octal4(n as nat), 8, 65535) == Some(n as int),
{
    let d = octal_digits(n as nat);
    lemma_octal_digits(n as nat);
    let s = octal4(n as nat);
    if d.len() < 4 {
        let k = (4 - d.len()) as nat;
        let z = Seq::new(k, |i: int| '0');
        lemma_leading_zeros(k, d);
        assert(('0' as u32) == 48);
        assert forall|i: int| 0 <= i < s.len() implies crate::text::is_radix_digit(
            #[trigger] s[i],
            8,
        ) by {
            if i < k {
                assert(s[i] == '0');
            } else {
                assert(s[i] == d[i - k]);
            }
        }
        assert(s[0] != '+');
    } else {
        assert(s[0] != '+') by {
            assert(crate::text::is_radix_digit(d[0], 8));
            assert(('+' as u32) == 43);
        }
    }
}

/// Writes a number in octal, zero-padded to four digits (see [`octal4`]).
pub fn format_octal4(n: u16) -> (s: String)
    ensures
        s@ == octal4(n as nat),
{
    let mut digits: Vec<char> = Vec::new();
    let mut m: u16 = n;
    // digits of `n`, least significant first
    let mut rev: Vec<char> = Vec::new();
    while m >= 8
        invariant
            octal_digits(n as nat) == octal_digits(m as nat) + rev@.reverse(),
        decreases m,
    {
        let c = char_from_octal_digit(m % 8);
        let ghost old_rev = rev@;
        rev.push(c);
        proof {
            assert(rev@.reverse() =~= seq![c] + old_rev.reverse());
            assert(octal_digits(m as nat) =~= octal_digits((m / 8) as nat).push(c));
            assert(octal_digits((m / 8) as nat).push(c) + old_rev.reverse() =~= octal_digits(
                (m / 8) as nat,
            ) + rev@.reverse());
        }
        m = m / 8;
    }
    let c = char_from_octal_digit(m);
    let ghost old_rev = rev@;
    rev.push(c);
    proof {
        assert(rev@.reverse() =~= seq![c] + old_rev.reverse());
        assert(octal_digits(m as nat) =~= seq![c]);
    }
    let ghost od = octal_digits(n as nat);
    proof {
        assert(od =~= rev@.reverse());
        lemma_octal_digits(n as nat);
    }
    let mut pad = 4usize;
    if rev.len() < 4 {
        pad = 4 - rev.len();
    } else {
        pad = 0;
    }
    let mut i: usize = 0;
    while i < pad
        invariant
            i <= pad,
            digits@ == Seq::new(i as nat, |j: int| '0'),
        decreases pad - i,
    {
        digits.push('0');
        proof {
            assert(digits@ =~= Seq::new((i + 1) as nat, |j: int| '0'));
        }
        i = i + 1;
    }
    let mut j: usize = rev.len();
    while j > 0
        invariant
            j <= rev@.len(),
            digits@ == Seq::new(pad as nat, |k: int| '0') + rev@.reverse().take(
                (rev@.len() - j) as int,
            ),
        decreases j,
    {
        j = j - 1;
        digits.push(rev[j]);
        proof {
            assert(rev@.reverse()[(rev@.len() - 1 - j) as int] == rev@[j as int]);
            assert(rev@.reverse().take((rev@.len() - j) as int) =~= rev@.reverse().take(
                (rev@.len() - j - 1) as int,
            ).push(rev@[j as int]));
        }
    }
    proof {
        assert(rev@.reverse().take(rev@.len() as int) =~= rev@.reverse());
        if od.len() < 4 {
            assert(pad == 4 - od.len());
        } else {
            assert(Seq::new(pad as nat, |k: int| '0') + od =~= od);
        }
    }
    string_from_chars(digits.as_slice())
}

/// The character of an octal digit.
fn char_from_octal_digit(d: u16) -> (c: char)
    requires
        d < 8,
    ensures
        c == octal_digit_char(d as int),
{
    ((d as u8) + 48) as char
}

// ---------------------------------------------------------------------------
// Special-use codes

/// A squawk code as read from squawks.json: an octal number that fits in 16 bits.
pub open spec fn squawk_code_value(s: Seq<char>) -> Option<int> {
    unsigned_parse_spec(s, 8, 65535)
}

/// The (code, message) entries that one squawks.json entry contributes: its code,
/// or every code of its range in ascending order, written with four octal digits.
/// An entry with both a code and a range, with neither, or with a code that does
/// not read as an octal number contributes nothing.
pub open spec fn squawk_entries(sq: SquawkDef) -> Seq<(Seq<char>, Seq<char>)> {
    match (sq.code, sq.range) {
        (Some(code), None) => match squawk_code_value(code@) {
            Some(v) => seq![(octal4(v as nat), sq.message@)],
            None => seq![],
        },
        (None, Some(range)) => match (
            squawk_code_value(range.start@),
            squawk_code_value(range.end@),
        ) {
            (Some(a), Some(b)) => if a <= b {
                Seq::new((b - a + 1) as nat, |i: int| (octal4((a + i) as nat), sq.message@))
            } else {
                seq![]
            },
            _ => seq![],
        },
        _ => seq![],
    }
}

/// The entries of all squawks.json entries, in file order.
pub open spec fn all_squawk_entries(s: Seq<SquawkDef>) -> Seq<(Seq<char>, Seq<char>)>
    decreases s.len(),
{
    if s.len() == 0 {
        seq![]
    } else {
        all_squawk_entries(s.drop_last()) + squawk_entries(s.last())
    }
}

/// Special-use SSR codes and their messages, as pairs of (four-digit octal code,
/// message). Where a code occurs more than once, the last pair is the one that
/// counts (see [`SsrSettings::get`]).
#[derive(Clone, Debug, Default)]
pub struct SsrSettings {
    pub special_use_codes: Vec<(String, String)>,
}

/// The message of the last entry for `code`, if any.
pub open spec fn last_message(entries: Seq<(Seq<char>, Seq<char>)>, code: Seq<char>) -> Option<
    Seq<char>,
>
    decreases entries.len(),
{
    if entries.len() == 0 {
        None
    } else if entries.last().0 == code {
        Some(entries.last().1)
    } else {
        last_message(entries.drop_last(), code)
    }
}

/// Reads one octal code of squawks.json.
fn read_code(s: &String) -> (r: Option<u16>)
    ensures
        r is None <==> squawk_code_value(s@) is None,
        r matches Some(x) ==> squawk_code_value(s@) == Some(x as int),
{
    let cs = chars_of(s.as_str());
    proof {
        crate::text::lemma_unsigned_text_value_nonneg(s@, 8);
    }
    match parse_unsigned(cs.as_slice(), 8, 65535) {
        Some(v) => Some(v as u16),
        None => None,
    }
}

impl SsrSettings {
    /// Collects the special-use codes of squawks.json (see [`squawk_entries`]).
    pub fn from_squawks_json(squawks: &SquawksJson) -> (res: Self)
        ensures
            pair_views(res.special_use_codes@) == all_squawk_entries(squawks.squawks@),
    {
        let mut out: Vec<(String, String)> = Vec::new();
        let mut k: usize = 0;
        while k < squawks.squawks.len()
            invariant
                k <= squawks.squawks@.len(),
                pair_views(out@) == all_squawk_entries(squawks.squawks@.take(k as int)),
            decreases squawks.squawks@.len() - k,
        {
            let sq = &squawks.squawks[k];
            let ghost before = out@;
            let ghost expected = squawk_entries(*sq);
            proof {
                assert(squawks.squawks@.take(k + 1).drop_last() =~= squawks.squawks@.take(
                    k as int,
                ));
            }
            match (&sq.code, &sq.range) {
                (Some(code), None) => {
                    if let Some(v) = read_code(code) {
                        let entry = (format_octal4(v), sq.message.clone());
                        out.push(entry);
                        proof {
                            assert(pair_views(out@) =~= pair_views(before).push(
                                (octal4(v as nat), sq.message@),
                            ));
                            assert(expected =~= seq![(octal4(v as nat), sq.message@)]);
                        }
                    } else {
                        proof {
                            assert(expected =~= seq![]);
                        }
                    }
                    proof {
                        assert(pair_views(out@) =~= pair_views(before) + expected);
                    }
                },
                (None, Some(range)) => {
                    let a = read_code(&range.start);
                    let b = read_code(&range.end);
                    if let (Some(a), Some(b)) = (a, b) {
                      if a <= b {
                        let mut i: u32 = a as u32;
                        while i <= b as u32
                            invariant
                                a <= i <= b as u32 + 1,
                                pair_views(out@) == pair_views(before) + Seq::new(
                                    (i - a) as nat,
                                    |j: int| (octal4((a + j) as nat), sq.message@),
                                ),
                            decreases b as u32 + 1 - i,
                        {
                            let entry = (format_octal4(i as u16), sq.message.clone());
                            let ghost mid = out@;
                            out.push(entry);
                            proof {
                                assert(pair_views(out@) =~= pair_views(mid).push(
                                    (octal4(i as nat), sq.message@),
                                ));
                                assert(pair_views(out@) =~= pair_views(before) + Seq::new(
                                    (i + 1 - a) as nat,
                                    |j: int| (octal4((a + j) as nat), sq.message@),
                                ));
                            }
                            i = i + 1;
                        }
                        proof {
                            assert(i == b as u32 + 1);
                            assert(expected =~= Seq::new(
                                (b - a + 1) as nat,
                                |j: int| (octal4((a + j) as nat), sq.message@),
                            ));
                        }
                      } else {
                        proof {
                            assert(expected =~= seq![]);
                        }
                      }
                    } else {
                        proof {
                            assert(expected =~= seq![]);
                        }
                    }
                    proof {
                        assert(pair_views(out@) =~= pair_views(before) + expected);
                    }
                },
                _ => {
                    proof {
                        assert(expected =~= seq![]);
                        assert(pair_views(out@) =~= pair_views(before) + expected);
                    }
                },
            }
            proof {
                assert(pair_views(out@) =~= pair_views(before) + squawk_entries(
                    squawks.squawks@[k as int],
                ));
            }
            k = k + 1;
        }
        proof {
            assert(squawks.squawks@.take(squawks.squawks@.len() as int) =~= squawks.squawks@);
        }
        SsrSettings { special_use_codes: out }
    }

    /// The message for a four-digit octal code: that of the last pair for it.
    pub fn get(&self, code: &str) -> (res: Option<String>)
        ensures
            match last_message(pair_views(self.special_use_codes@), code@) {
                Some(m) => res matches Some(r) && r@ == m,
                None => res is None,
            },
    {
        let want = chars_of(code);
        let mut k = self.special_use_codes.len();
        proof {
            assert(pair_views(self.special_use_codes@).take(k as int) =~= pair_views(
                self.special_use_codes@,
            ));
        }
        while k > 0
            invariant
                k <= self.special_use_codes@.len(),
                want@ == code@,
                last_message(pair_views(self.special_use_codes@), code@) == last_message(
                    pair_views(self.special_use_codes@).take(k as int),
                    code@,
                ),
            decreases k,
        {
            let entry = &self.special_use_codes[k - 1];
            let have = chars_of(entry.0.as_str());
            proof {
                assert(pair_views(self.special_use_codes@).take(k as int).drop_last()
                    =~= pair_views(self.special_use_codes@).take(k - 1));
            }
            if crate::text::chars_eq(have.as_slice(), want.as_slice()) {
                return Some(entry.1.clone());
            }
            k = k - 1;
        }
        None
    }
}

// ---------------------------------------------------------------------------
// Line styles

/// The line style of a Symbology.txt item: its weight and style, or one solid pixel
/// when the item is not given.
pub open spec fn symbology_line_style(s: SymbologyV, folder: Seq<char>, name: Seq<char>) -> LineStyleV {
    match s.item(folder, name) {
        Some(i) => LineStyleV { width: i.line_weight, style: i.line_style },
        None => default_line_style(),
    }
}

/// The line style of a Symbology.txt item (see [`symbology_line_style`]).
fn line_style_of(symbology: &Symbology, folder: &str, name: &str) -> (r: LineStyle)
    ensures
        r@ == symbology_line_style(symbology@, folder@, name@),
{
    match symbology.item(folder, name) {
        Some(item) => LineStyle { width: item.line_weight, style: item.line_style.clone() },
        None => LineStyle::default(),
    }
}

/// Line styles of sector file elements.
#[derive(Debug)]
pub struct LineSettings {
    /// line style of .sct runway centre lines
    pub runway_centreline: LineStyle,
    /// line style of .sct Geo lines
    pub geo: LineStyle,
    /// line style of .sct SID lines
    pub sid: LineStyle,
    /// line style of .sct STAR lines
    pub star: LineStyle,
    /// line style of .sct High Airway lines
    pub high_airways: LineStyle,
    /// line style of .sct Low Airway lines
    pub low_airways: LineStyle,
    /// line style of .sct ARTCC low boundary lines
    pub artcc_low: LineStyle,
    /// line style of .sct ARTCC boundary lines
    pub artcc: LineStyle,
    /// line style of .sct ARTCC high boundary lines
    pub artcc_high: LineStyle,
}

/// Line styles of sector file elements, as values.
pub struct LineSettingsV {
    pub runway_centreline: LineStyleV,
    pub geo: LineStyleV,
    pub sid: LineStyleV,
    pub star: LineStyleV,
    pub high_airways: LineStyleV,
    pub low_airways: LineStyleV,
    pub artcc_low: LineStyleV,
    pub artcc: LineStyleV,
    pub artcc_high: LineStyleV,
}

impl View for LineSettings {
    type V = LineSettingsV;

    open spec fn view(&self) -> LineSettingsV {
        LineSettingsV {
            runway_centreline: self.runway_centreline@,
            geo: self.geo@,
            sid: self.sid@,
            star: self.star@,
            high_airways: self.high_airways@,
            low_airways: self.low_airways@,
            artcc_low: self.artcc_low@,
            artcc: self.artcc@,
            artcc_high: self.artcc_high@,
        }
    }
}

/// The line styles that Symbology.txt gives, each one solid pixel where not given.
pub open spec fn line_settings_from(s: SymbologyV) -> LineSettingsV {
    LineSettingsV {
        runway_centreline: symbology_line_style(s, "Runways"@, "centerline"@),
        geo: symbology_line_style(s, "Geo"@, "line"@),
        sid: symbology_line_style(s, "Sids"@, "line"@),
        star: symbology_line_style(s, "Stars"@, "line"@),
        high_airways: symbology_line_style(s, "High airways"@, "line"@),
        low_airways: symbology_line_style(s, "Low airways"@, "line"@),
        artcc_low: symbology_line_style(s, "ARTCC low boundary"@, "line"@),
        artcc: symbology_line_style(s, "ARTCC boundary"@, "line"@),
        artcc_high: symbology_line_style(s, "ARTCC high boundary"@, "line"@),
    }
}

impl LineSettings {
    /// The line styles of Symbology.txt (see [`line_settings_from`]).
    pub fn from_euroscope(symbology: &Symbology) -> (r: Self)
        ensures
            r@ == line_settings_from(symbology@),
    {
        LineSettings {
            runway_centreline: line_style_of(symbology, "Runways", "centerline"),
            geo: line_style_of(symbology, "Geo", "line"),
            sid: line_style_of(symbology, "Sids", "line"),
            star: line_style_of(symbology, "Stars", "line"),
            high_airways: line_style_of(symbology, "High airways", "line"),
            low_airways: line_style_of(symbology, "Low airways", "line"),
            artcc_low: line_style_of(symbology, "ARTCC low boundary", "line"),
            artcc: line_style_of(symbology, "ARTCC boundary", "line"),
            artcc_high: line_style_of(symbology, "ARTCC high boundary", "line"),
        }
    }
}

impl Default for LineSettings {
    fn default() -> (r: Self)
        ensures
            r@.runway_centreline == default_line_style(),
            r@.geo == default_line_style(),
            r@.sid == default_line_style(),
            r@.star == default_line_style(),
            r@.high_airways == default_line_style(),
            r@.low_airways == default_line_style(),
            r@.artcc_low == default_line_style(),
            r@.artcc == default_line_style(),
            r@.artcc_high == default_line_style(),
    {
        LineSettings {
            runway_centreline: LineStyle::default(),
            geo: LineStyle::default(),
            sid: LineStyle::default(),
            star: LineStyle::default(),
            high_airways: LineStyle::default(),
            low_airways: LineStyle::default(),
            artcc_low: LineStyle::default(),
            artcc: LineStyle::default(),
            artcc_high: LineStyle::default(),
        }
    }
}

/// A Symbology.txt without items leaves every line style at one solid pixel.
pub proof fn lemma_no_items_default_line_styles(s: SymbologyV)
    requires
        s.items.len() == 0,
    ensures
        line_settings_from(s).runway_centreline == default_line_style(),
        line_settings_from(s).geo == default_line_style(),
        line_settings_from(s).sid == default_line_style(),
        line_settings_from(s).star == default_line_style(),
        line_settings_from(s).high_airways == default_line_style(),
        line_settings_from(s).low_airways == default_line_style(),
        line_settings_from(s).artcc_low == default_line_style(),
        line_settings_from(s).artcc == default_line_style(),
        line_settings_from(s).artcc_high == default_line_style(),
{
}

// ---------------------------------------------------------------------------
// Track settings and the colour scheme

/// The history dots behind a track: shown or not, how many, and the counts offered.
#[derive(Debug)]
pub struct HistoryDotsSettings {
    pub enabled: bool,
    pub count: u32,
    pub options: Vec<u32>,
}

/// The counts of history dots offered: zero to eight.
pub open spec fn history_dot_options() -> Seq<u32> {
    seq![0u32, 1u32, 2u32, 3u32, 4u32, 5u32, 6u32, 7u32, 8u32]
}

impl Default for HistoryDotsSettings {
    fn default() -> (r: Self)
        ensures
            !r.enabled,
            r.count == 6,
            r.options@ == history_dot_options(),
    {
        let options = vec![0, 1, 2, 3, 4, 5, 6, 7, 8];
        proof {
            assert(options@ =~= history_dot_options());
        }
        HistoryDotsSettings { enabled: false, count: 6, options }
    }
}

/// The history dot count that TopSky's `Track_HistoryDots` sets: its number, or six
/// when it is missing or not a number.
pub open spec fn topsky_history_dots(settings: Seq<(Seq<char>, Seq<char>)>) -> u32 {
    match setting_value(settings, "Track_HistoryDots"@) {
        Some(v) => match unsigned_parse_spec(v, 10, 0xffff_ffff) {
            Some(n) => n as u32,
            None => 6,
        },
        None => 6,
    }
}

impl HistoryDotsSettings {
    /// History dots as TopSky's settings give them: a count of zero turns them off
    /// and leaves the count at six.
    pub fn from_topsky(settings: &TopskySettings) -> (r: Self)
        ensures
            r.enabled == (topsky_history_dots(pair_views(settings.0@)) != 0),
            r.count == (if topsky_history_dots(pair_views(settings.0@)) != 0 {
                topsky_history_dots(pair_views(settings.0@))
            } else {
                6
            }),
            r.options@ == history_dot_options(),
    {
        let topsky_count = settings.parse_u32_with_default("Track_HistoryDots", 6);
        let d = HistoryDotsSettings::default();
        HistoryDotsSettings {
            count: if topsky_count != 0 {
                topsky_count
            } else {
                6
            },
            enabled: topsky_count != 0,
            options: d.options,
        }
    }
}

/// Whether the COOPANS colour scheme is in use: TopSky's `Setup_COOPANS` unless it
/// is `0`, and the scheme is in use when there are no TopSky settings or the setting
/// is missing.
pub open spec fn coopans_spec(settings: Option<Seq<(Seq<char>, Seq<char>)>>) -> bool {
    match settings {
        None => true,
        Some(s) => match setting_value(s, "Setup_COOPANS"@) {
            Some(v) => v != "0"@,
            None => true,
        },
    }
}

/// Whether the COOPANS colour scheme is in use (see [`coopans_spec`]).
pub fn coopans(topsky: Option<&TopskySettings>) -> (r: bool)
    ensures
        r == coopans_spec(
            match topsky {
                Some(s) => Some(pair_views(s.0@)),
                None => None,
            },
        ),
{
    match topsky {
        None => true,
        Some(s) => match s.get("Setup_COOPANS") {
            Some(v) => !crate::text::str_eq(v.as_str(), "0"),
            None => true,
        },
    }
}

// ---------------------------------------------------------------------------
// Speed vectors, tracks, maps and the settings as a whole

/// The speed vector of a track: shown or not, its length in minutes (in
/// millionths), and the lengths offered.
#[derive(Debug)]
pub struct VectorSettings {
    pub enabled: bool,
    pub length: i64,
    pub options: Vec<i64>,
}

/// The vector lengths offered, in millionths of a minute: a half, one to ten,
/// fifteen and twenty.
pub open spec fn vector_options() -> Seq<i64> {
    seq![
        500_000i64,
        1_000_000i64,
        2_000_000i64,
        3_000_000i64,
        4_000_000i64,
        5_000_000i64,
        6_000_000i64,
        7_000_000i64,
        8_000_000i64,
        9_000_000i64,
        10_000_000i64,
        15_000_000i64,
        20_000_000i64,
    ]
}

fn vector_option_list() -> (r: Vec<i64>)
    ensures
        r@ == vector_options(),
{
    let r = vec![
        500_000i64,
        1_000_000i64,
        2_000_000i64,
        3_000_000i64,
        4_000_000i64,
        5_000_000i64,
        6_000_000i64,
        7_000_000i64,
        8_000_000i64,
        9_000_000i64,
        10_000_000i64,
        15_000_000i64,
        20_000_000i64,
    ];
    proof {
        assert(r@ =~= vector_options());
    }
    r
}

impl Default for VectorSettings {
    fn default() -> (r: Self)
        ensures
            !r.enabled,
            r.length == 1_000_000,
            r.options@ == vector_options(),
    {
        VectorSettings { enabled: false, length: 1_000_000, options: vector_option_list() }
    }
}

/// The vector length that TopSky's `Track_PredictionLine` sets, in millionths: its
/// number, or one minute when it is missing or not a number.
pub open spec fn topsky_vector_length(settings: Seq<(Seq<char>, Seq<char>)>) -> i64 {
    crate::topsky_settings::micro_setting(settings, "Track_PredictionLine"@, 1_000_000)
}

impl VectorSettings {
    /// The speed vector as TopSky's settings give it: a length of zero turns it off
    /// and leaves the length at one minute.
    pub fn from_topsky(settings: &TopskySettings) -> (r: Self)
        ensures
            r.enabled == (topsky_vector_length(pair_views(settings.0@)) != 0),
            r.length == (if topsky_vector_length(pair_views(settings.0@)) != 0 {
                topsky_vector_length(pair_views(settings.0@))
            } else {
                1_000_000
            }),
            r.options@ == vector_options(),
    {
        let length = settings.parse_micro_with_default("Track_PredictionLine", 1_000_000);
        VectorSettings {
            length: if length != 0 {
                length
            } else {
                1_000_000
            },
            enabled: length != 0,
            options: vector_option_list(),
        }
    }
}

/// How tracks are drawn.
#[derive(Debug)]
pub struct TrackSettings {
    pub vector: VectorSettings,
    pub history_dots: HistoryDotsSettings,
}

impl Default for TrackSettings {
    fn default() -> (r: Self)
        ensures
            !r.vector.enabled,
            r.vector.length == 1_000_000,
            r.vector.options@ == vector_options(),
            !r.history_dots.enabled,
            r.history_dots.count == 6,
            r.history_dots.options@ == history_dot_options(),
    {
        TrackSettings { vector: VectorSettings::default(), history_dots: HistoryDotsSettings::default() }
    }
}

impl TrackSettings {
    /// Tracks as TopSky's settings give them (see [`VectorSettings::from_topsky`] and
    /// [`HistoryDotsSettings::from_topsky`]).
    pub fn from_topsky(topsky: &crate::topsky::Topsky) -> (r: Self)
        ensures
            r.vector.enabled == (topsky_vector_length(pair_views(topsky.settings.0@)) != 0),
            r.vector.length == (if topsky_vector_length(pair_views(topsky.settings.0@)) != 0 {
                topsky_vector_length(pair_views(topsky.settings.0@))
            } else {
                1_000_000
            }),
            r.vector.options@ == vector_options(),
            r.history_dots.enabled == (topsky_history_dots(pair_views(topsky.settings.0@)) != 0),
            r.history_dots.count == (if topsky_history_dots(pair_views(topsky.settings.0@)) != 0 {
                topsky_history_dots(pair_views(topsky.settings.0@))
            } else {
                6
            }),
            r.history_dots.options@ == history_dot_options(),
    {
        TrackSettings {
            history_dots: HistoryDotsSettings::from_topsky(&topsky.settings),
            vector: VectorSettings::from_topsky(&topsky.settings),
        }
    }
}

/// How maps are drawn by default: the font size and layer (in millionths), the
/// folder of maps that name none, the offset of symbol labels (in millionths of a
/// pixel), and the line styles of sector file elements.
#[derive(Debug)]
pub struct MapsSettings {
    pub font_size: i64,
    pub auto_folder: String,
    pub layer: i64,
    pub label_offset: (i64, i64),
    pub line_styles: LineSettings,
}

/// The map font size: TopSky's `Maps_FontSize` where TopSky is configured, else 12.
pub open spec fn maps_font_size(topsky: Option<Seq<(Seq<char>, Seq<char>)>>) -> i64 {
    match topsky {
        Some(s) => crate::topsky_settings::micro_setting(s, "Maps_FontSize"@, 12_000_000),
        None => 12_000_000,
    }
}

impl Default for MapsSettings {
    fn default() -> (r: Self)
        ensures
            r.font_size == 12_000_000,
            r.auto_folder@ == "AUTO"@,
            r.layer == 1_000_000,
            r.label_offset == (3_000_000i64, 3_000_000i64),
            r.line_styles@.geo == default_line_style(),
    {
        MapsSettings {
            font_size: 12_000_000,
            auto_folder: "AUTO".to_string(),
            layer: 1_000_000,
            label_offset: (3_000_000, 3_000_000),
            line_styles: LineSettings::default(),
        }
    }
}

impl MapsSettings {
    /// The map settings of a Symbology.txt and, where TopSky is configured, its
    /// font size; the rest as by default.
    pub fn from_euroscope(symbology: &Symbology, topsky: Option<&crate::topsky::Topsky>) -> (r: Self)
        ensures
            r.font_size == maps_font_size(
                match topsky {
                    Some(t) => Some(pair_views(t.settings.0@)),
                    None => None,
                },
            ),
            r.auto_folder@ == "AUTO"@,
            r.layer == 1_000_000,
            r.label_offset == (3_000_000i64, 3_000_000i64),
            r.line_styles@ == line_settings_from(symbology@),
    {
        let font_size = match topsky {
            Some(t) => t.settings.parse_micro_with_default("Maps_FontSize", 12_000_000),
            None => 12_000_000,
        };
        MapsSettings {
            font_size,
            auto_folder: "AUTO".to_string(),
            layer: 1_000_000,
            label_offset: (3_000_000, 3_000_000),
            line_styles: LineSettings::from_euroscope(symbology),
        }
    }
}

/// The settings of an adaptation.
#[derive(Debug)]
pub struct Settings {
    pub maps: MapsSettings,
    pub track: TrackSettings,
    pub coopans: bool,
    pub ssr: SsrSettings,
}

impl Settings {
    /// The settings that Symbology.txt, the TopSky files and squawks.json give:
    /// the maps (see [`MapsSettings::from_euroscope`]), the tracks (TopSky's, else
    /// by default), the colour scheme (see [`coopans_spec`]) and the special-use
    /// codes (none without squawks.json).
    pub fn from_euroscope(
        symbology: &Symbology,
        topsky: Option<&crate::topsky::Topsky>,
        squawks: Option<&SquawksJson>,
    ) -> (r: Self)
        ensures
            r.maps.font_size == maps_font_size(
                match topsky {
                    Some(t) => Some(pair_views(t.settings.0@)),
                    None => None,
                },
            ),
            r.maps.line_styles@ == line_settings_from(symbology@),
            r.coopans == coopans_spec(
                match topsky {
                    Some(t) => Some(pair_views(t.settings.0@)),
                    None => None,
                },
            ),
            match topsky {
                Some(t) => r.track.vector.length == (if topsky_vector_length(
                    pair_views(t.settings.0@),
                ) != 0 {
                    topsky_vector_length(pair_views(t.settings.0@))
                } else {
                    1_000_000
                }) && r.track.history_dots.enabled == (topsky_history_dots(
                    pair_views(t.settings.0@),
                ) != 0),
                None => !r.track.vector.enabled && !r.track.history_dots.enabled,
            },
            match squawks {
                Some(sq) => pair_views(r.ssr.special_use_codes@) == all_squawk_entries(
                    sq.squawks@,
                ),
                None => r.ssr.special_use_codes@.len() == 0,
            },
    {
        let track = match topsky {
            Some(t) => TrackSettings::from_topsky(t),
            None => TrackSettings::default(),
        };
        let coopans = coopans(
            match topsky {
                Some(t) => Some(&t.settings),
                None => None,
            },
        );
        let ssr = match squawks {
            Some(sq) => SsrSettings::from_squawks_json(sq),
            None => SsrSettings { special_use_codes: Vec::new() },
        };
        Settings { maps: MapsSettings::from_euroscope(symbology, topsky), track, coopans, ssr }
    }
}

} // verus!
