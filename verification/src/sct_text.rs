//! Writing a sector file back as text, in EuroScope's layout.
//!
//! Coordinates are written as `N048.21.13.618 E011.47.09.909`: the hemisphere, three
//! digits of degrees, two of minutes, and seconds with three decimals; degrees past
//! 255 are written as 255. Each section is written with its entries in order: the
//! beacons, fixes, airports and colour definitions by their whole line, the runways
//! by aerodrome, and the named groups, regions and airways by name; entries that
//! compare equal keep their order. Texts compare character by character, as
//! Rust's `str` does.
use vstd::prelude::*;

use crate::colours::euroscope_value;
use crate::decimal::{decimal_text, format_decimal};
use crate::sct::{
    AirportV, AirwayV, BeaconV, Coordinate, FixV, LineGroupV, LineV, Location, LocationV, RegionV,
    RunwayV, Sct, SctInfoV, SctV,
};
use crate::text::views;

verus! {

// ---------------------------------------------------------------------------
// Building blocks

/// Appends characters.
pub fn push_chars(out: &mut Vec<char>, s: &Vec<char>)
    ensures
        final(out)@ == old(out)@ + s@,
{
    let ghost start = out@;
    let mut k: usize = 0;
    while k < s.len()
        invariant
            k <= s@.len(),
            out@ == start + s@.take(k as int),
        decreases s@.len() - k,
    {
        out.push(s[k]);
        proof {
            assert(s@.take(k + 1) =~= s@.take(k as int).push(s@[k as int]));
        }
        k = k + 1;
    }
    proof {
        assert(s@.take(s@.len() as int) =~= s@);
    }
}

/// Appends a text.
pub fn push_str(out: &mut Vec<char>, s: &str)
    ensures
        final(out)@ == old(out)@ + s@,
{
    let cs = crate::text::chars_of(s);
    push_chars(out, &cs);
}

/// `n` spaces.
pub open spec fn spaces(n: nat) -> Seq<char> {
    Seq::new(n, |i: int| ' ')
}

/// `s` left-aligned in a field of `width` characters, as `{:<width}` writes it.
pub open spec fn pad_right(s: Seq<char>, width: nat) -> Seq<char> {
    if s.len() >= width {
        s
    } else {
        s + spaces((width - s.len()) as nat)
    }
}

/// Appends `n` spaces.
fn push_spaces(out: &mut Vec<char>, n: usize)
    ensures
        final(out)@ == old(out)@ + spaces(n as nat),
{
    let ghost start = out@;
    let mut i: usize = 0;
    while i < n
        invariant
            i <= n,
            out@ == start + spaces(i as nat),
        decreases n - i,
    {
        out.push(' ');
        proof {
            assert(spaces((i + 1) as nat) =~= spaces(i as nat).push(' '));
        }
        i = i + 1;
    }
}

/// Appends `s` left-aligned in a field (see [`pad_right`]).
fn push_padded(out: &mut Vec<char>, s: &Vec<char>, width: usize)
    ensures
        final(out)@ == old(out)@ + pad_right(s@, width as nat),
{
    let ghost start = out@;
    push_chars(out, s);
    if s.len() < width {
        push_spaces(out, width - s.len());
        proof {
            assert(start + s@ + spaces((width - s@.len()) as nat) =~= start + (s@ + spaces(
                (width - s@.len()) as nat,
            )));
        }
    }
}

/// `s` right-aligned in a field of `width` characters filled with zeros.
pub open spec fn zero_padded(s: Seq<char>, width: nat) -> Seq<char> {
    if s.len() >= width {
        s
    } else {
        Seq::new((width - s.len()) as nat, |i: int| '0') + s
    }
}

/// The decimal digits of `n` in at least `width` places, as `{:0width}` writes
/// them.
pub open spec fn number_text(n: nat, width: nat) -> Seq<char> {
    zero_padded(decimal_text(n), width)
}

/// Appends a number in at least `width` places (see [`number_text`]).
fn push_number(out: &mut Vec<char>, n: u64, width: usize)
    ensures
        final(out)@ == old(out)@ + number_text(n as nat, width as nat),
{
    let ghost start = out@;
    let digits = format_decimal(n);
    if digits.len() < width {
        let k = width - digits.len();
        let mut i: usize = 0;
        while i < k
            invariant
                i <= k,
                out@ == start + Seq::new(i as nat, |j: int| '0'),
            decreases k - i,
        {
            out.push('0');
            proof {
                assert(Seq::new((i + 1) as nat, |j: int| '0') =~= Seq::new(i as nat, |j: int| '0').push(
                    '0',
                ));
            }
            i = i + 1;
        }
        push_chars(out, &digits);
        proof {
            assert(start + Seq::new(k as nat, |j: int| '0') + digits@ =~= start + (Seq::new(
                k as nat,
                |j: int| '0',
            ) + digits@));
        }
    } else {
        push_chars(out, &digits);
    }
}

// ---------------------------------------------------------------------------
// Coordinates

/// Degrees, minutes, whole seconds and thousandths of a value in thousandths of a
/// second of arc, taken without its sign; degrees past 255 are 255.
pub open spec fn dms_parts(v: int) -> (nat, nat, nat, nat) {
    let a = if v < 0 {
        -v
    } else {
        v
    };
    let d = a / 3_600_000;
    let r = a % 3_600_000;
    (
        (if d > 255 {
            255
        } else {
            d
        }) as nat,
        (r / 60_000) as nat,
        ((r % 60_000) / 1000) as nat,
        (r % 1000) as nat,
    )
}

/// A latitude (`lat`) or longitude in the sector file form.
pub open spec fn dms_text(v: i64, lat: bool) -> Seq<char> {
    let (d, m, s, f) = dms_parts(v as int);
    let hemi = if lat {
        if v < 0 {
            'S'
        } else {
            'N'
        }
    } else {
        if v < 0 {
            'W'
        } else {
            'E'
        }
    };
    seq![hemi] + number_text(d, 3) + seq!['.'] + number_text(m, 2) + seq!['.'] + number_text(s, 2)
        + seq!['.'] + number_text(f, 3)
}

/// A coordinate in the sector file form: latitude, a space, longitude.
pub open spec fn coordinate_text(c: Coordinate) -> Seq<char> {
    dms_text(c.lat, true) + seq![' '] + dms_text(c.lng, false)
}

/// Appends a latitude or longitude (see [`dms_text`]).
fn push_dms(out: &mut Vec<char>, v: i64, lat: bool)
    ensures
        final(out)@ == old(out)@ + dms_text(v, lat),
{
    let ghost start = out@;
    let a: u64 = if v < 0 {
        (-(v as i128)) as u64
    } else {
        v as u64
    };
    let d0 = a / 3_600_000;
    let d = if d0 > 255 {
        255
    } else {
        d0
    };
    let r = a % 3_600_000;
    let m = r / 60_000;
    let s = (r % 60_000) / 1000;
    let f = r % 1000;
    let hemi = if lat {
        if v < 0 {
            'S'
        } else {
            'N'
        }
    } else {
        if v < 0 {
            'W'
        } else {
            'E'
        }
    };
    out.push(hemi);
    let ghost p1 = out@;
    push_number(out, d, 3);
    out.push('.');
    push_number(out, m, 2);
    out.push('.');
    push_number(out, s, 2);
    out.push('.');
    push_number(out, f, 3);
    proof {
        let parts = dms_parts(v as int);
        assert(parts == (d as nat, m as nat, s as nat, f as nat));
        assert(out@ =~= start + dms_text(v, lat));
    }
}

/// Writes a latitude or longitude (see [`dms_text`]).
pub fn format_dms(v: i64, lat: bool) -> (r: String)
    ensures
        r@ == dms_text(v, lat),
{
    let mut out: Vec<char> = Vec::new();
    push_dms(&mut out, v, lat);
    proof {
        assert(out@ =~= dms_text(v, lat));
    }
    crate::text::string_from_chars(out.as_slice())
}

/// Appends a coordinate (see [`coordinate_text`]).
fn push_coordinate(out: &mut Vec<char>, c: Coordinate)
    ensures
        final(out)@ == old(out)@ + coordinate_text(c),
{
    let ghost start = out@;
    push_dms(out, c.lat, true);
    out.push(' ');
    push_dms(out, c.lng, false);
    proof {
        assert(out@ =~= start + coordinate_text(c));
    }
}

/// Writes a coordinate (see [`coordinate_text`]).
pub fn format_coordinate(c: Coordinate) -> (r: String)
    ensures
        r@ == coordinate_text(c),
{
    let mut out: Vec<char> = Vec::new();
    push_coordinate(&mut out, c);
    proof {
        assert(out@ =~= coordinate_text(c));
    }
    crate::text::string_from_chars(out.as_slice())
}

// ---------------------------------------------------------------------------
// Order

/// Whether `a` comes before `b`: at their first difference `a` has the smaller
/// character, or `a` is a proper beginning of `b`.
pub open spec fn lex_lt(a: Seq<char>, b: Seq<char>) -> bool
    decreases a.len(),
{
    if a.len() == 0 {
        b.len() > 0
    } else if b.len() == 0 {
        false
    } else if a[0] != b[0] {
        (a[0] as u32) < (b[0] as u32)
    } else {
        lex_lt(a.drop_first(), b.drop_first())
    }
}

/// Whether `a` comes before `b` (see [`lex_lt`]).
pub fn lex_less(a: &[char], b: &[char]) -> (r: bool)
    ensures
        r == lex_lt(a@, b@),
{
    let mut i: usize = 0;
    proof {
        assert(a@.skip(0) =~= a@);
        assert(b@.skip(0) =~= b@);
    }
    while i < a.len() && i < b.len() && a[i] == b[i]
        invariant
            i <= a@.len(),
            i <= b@.len(),
            lex_lt(a@, b@) == lex_lt(a@.skip(i as int), b@.skip(i as int)),
        decreases a@.len() - i,
    {
        proof {
            assert(a@.skip(i as int).drop_first() =~= a@.skip(i + 1));
            assert(b@.skip(i as int).drop_first() =~= b@.skip(i + 1));
        }
        i = i + 1;
    }
    if i == a.len() {
        i < b.len()
    } else if i == b.len() {
        false
    } else {
        (a[i] as u32) < (b[i] as u32)
    }
}

/// Where in `order` (positions into `keys`) an entry with key `k` goes so that
/// it follows every entry whose key does not come after `k`: before the first
/// whose key comes after it.
pub open spec fn insert_position(keys: Seq<Seq<char>>, order: Seq<int>, k: Seq<char>, i: int) -> int
    decreases order.len() - i,
{
    if i >= order.len() || i < 0 {
        order.len() as int
    } else if lex_lt(k, keys[order[i]]) {
        i
    } else {
        insert_position(keys, order, k, i + 1)
    }
}

/// The positions of the first `n` keys in the order of their keys, equal keys in
/// their own order: each position in turn goes after those not after its key.
pub open spec fn stable_order(keys: Seq<Seq<char>>, n: int) -> Seq<int>
    decreases n,
{
    if n <= 0 {
        seq![]
    } else {
        let o = stable_order(keys, n - 1);
        o.insert(insert_position(keys, o, keys[n - 1], 0), n - 1)
    }
}

proof fn lemma_stable_order_len(keys: Seq<Seq<char>>, n: int)
    requires
        0 <= n,
    ensures
        stable_order(keys, n).len() == n,
        forall|j: int| 0 <= j < n ==> 0 <= #[trigger] stable_order(keys, n)[j] < n,
    decreases n,
{
    if n > 0 {
        lemma_stable_order_len(keys, n - 1);
        let o = stable_order(keys, n - 1);
        lemma_insert_position_range(keys, o, keys[n - 1], 0);
    }
}

proof fn lemma_insert_position_range(keys: Seq<Seq<char>>, order: Seq<int>, k: Seq<char>, i: int)
    requires
        0 <= i <= order.len(),
    ensures
        i <= insert_position(keys, order, k, i) <= order.len(),
    decreases order.len() - i,
{
    if i < order.len() && !lex_lt(k, keys[order[i]]) {
        lemma_insert_position_range(keys, order, k, i + 1);
    }
}

/// The order of keys (see [`stable_order`]).
pub fn sort_order(keys: &Vec<Vec<char>>) -> (r: Vec<usize>)
    ensures
        r@.len() == keys@.len(),
        r@.map_values(|i: usize| i as int) == stable_order(crate::text::views(keys@), keys@.len() as int),
{
    let ghost kv = crate::text::views(keys@);
    let mut order: Vec<usize> = Vec::new();
    let mut n: usize = 0;
    proof {
        assert(order@.map_values(|i: usize| i as int) =~= Seq::<int>::empty());
    }
    while n < keys.len()
        invariant
            n <= keys@.len(),
            kv == crate::text::views(keys@),
            order@.len() == n,
            order@.map_values(|i: usize| i as int) == stable_order(kv, n as int),
        decreases keys@.len() - n,
    {
        let ghost o = stable_order(kv, n as int);
        proof {
            lemma_stable_order_len(kv, n as int);
        }
        let k = keys[n].as_slice();
        let mut p: usize = 0;
        while p < order.len() && !lex_less(k, keys[order[p]].as_slice())
            invariant
                p <= order@.len(),
                order@.len() == n,
                n < keys@.len(),
                o == order@.map_values(|i: usize| i as int),
                o == stable_order(kv, n as int),
                forall|j: int| 0 <= j < n ==> 0 <= #[trigger] o[j] < n,
                kv == crate::text::views(keys@),
                k@ == kv[n as int],
                insert_position(kv, o, kv[n as int], 0) == insert_position(kv, o, kv[n as int], p as int),
            decreases order@.len() - p,
        {
            proof {
                assert(o[p as int] == order@[p as int] as int);
                assert(0 <= o[p as int] < n);
                assert(keys@[order@[p as int] as int]@ == kv[o[p as int]]);
            }
            p = p + 1;
        }
        proof {
            if p < order@.len() {
                assert(o[p as int] == order@[p as int] as int);
                assert(keys@[order@[p as int] as int]@ == kv[o[p as int]]);
            }
            assert(insert_position(kv, o, kv[n as int], p as int) == p as int);
        }
        order.insert(p, n);
        proof {
            assert(order@.map_values(|i: usize| i as int) =~= o.insert(p as int, n as int));
        }
        n = n + 1;
    }
    order
}

/// Parts joined with `sep` between them.
pub open spec fn join(parts: Seq<Seq<char>>, sep: Seq<char>) -> Seq<char>
    decreases parts.len(),
{
    if parts.len() == 0 {
        seq![]
    } else if parts.len() == 1 {
        parts[0]
    } else {
        join(parts.drop_last(), sep) + sep + parts.last()
    }
}

/// Texts in the order of their keys (see [`stable_order`]).
pub open spec fn sorted_texts(keys: Seq<Seq<char>>, texts: Seq<Seq<char>>) -> Seq<Seq<char>> {
    stable_order(keys, keys.len() as int).map_values(|i: int| texts[i])
}

/// Appends texts in the order of their keys, with `sep` between them.
fn push_sorted(out: &mut Vec<char>, keys: &Vec<Vec<char>>, texts: &Vec<Vec<char>>, sep: &str)
    requires
        keys@.len() == texts@.len(),
    ensures
        final(out)@ == old(out)@ + join(
            sorted_texts(crate::text::views(keys@), crate::text::views(texts@)),
            sep@,
        ),
{
    let ghost start = out@;
    let ghost parts = sorted_texts(crate::text::views(keys@), crate::text::views(texts@));
    let order = sort_order(keys);
    proof {
        lemma_stable_order_len(crate::text::views(keys@), keys@.len() as int);
        assert(parts.len() == order@.len());
        assert(parts.take(0) =~= Seq::<Seq<char>>::empty());
    }
    let mut i: usize = 0;
    while i < order.len()
        invariant
            i <= order@.len(),
            order@.len() == keys@.len(),
            keys@.len() == texts@.len(),
            parts == sorted_texts(crate::text::views(keys@), crate::text::views(texts@)),
            parts.len() == order@.len(),
            order@.map_values(|i: usize| i as int) == stable_order(
                crate::text::views(keys@),
                keys@.len() as int,
            ),
            forall|j: int|
                0 <= j < keys@.len() ==> 0 <= #[trigger] stable_order(
                    crate::text::views(keys@),
                    keys@.len() as int,
                )[j] < keys@.len(),
            out@ == start + join(parts.take(i as int), sep@),
        decreases order@.len() - i,
    {
        let ghost before = out@;
        let idx = order[i];
        proof {
            let so = stable_order(crate::text::views(keys@), keys@.len() as int);
            assert(so[i as int] == idx as int);
            assert(parts[i as int] == texts@[idx as int]@);
            assert(parts.take(i + 1).drop_last() =~= parts.take(i as int));
        }
        if i > 0 {
            push_str(out, sep);
        }
        push_chars(out, &texts[idx]);
        proof {
            if i == 0 {
                assert(parts.take(1) =~= seq![parts[0]]);
                assert(out@ =~= start + join(parts.take(1), sep@));
            } else {
                assert(out@ =~= start + join(parts.take(i + 1), sep@));
            }
        }
        i = i + 1;
    }
    proof {
        assert(parts.take(order@.len() as int) =~= parts);
    }
}

// ---------------------------------------------------------------------------
// Entries

/// A place: a fix name written twice, or a coordinate.
pub open spec fn location_text(l: LocationV) -> Seq<char> {
    match l {
        LocationV::Fix(f) => f + seq![' '] + f,
        LocationV::Coordinate(c) => coordinate_text(c),
    }
}

/// A line segment: its two ends and its colour, if it has one.
pub open spec fn line_text(l: LineV) -> Seq<char> {
    location_text(l.start) + seq![' '] + location_text(l.end) + match l.colour {
        Some(c) => seq![' '] + c,
        None => seq![],
    }
}

/// Lines that continue an entry, each on a line of its own after `width` blanks
/// and a space.
pub open spec fn continuation(parts: Seq<Seq<char>>, width: nat) -> Seq<char>
    decreases parts.len(),
{
    if parts.len() == 0 {
        seq![]
    } else {
        continuation(parts.drop_last(), width) + seq!['\n'] + spaces(width) + seq![' '] + parts.last()
    }
}

/// The first part, then the others each on a line of its own (see
/// [`continuation`]).
pub open spec fn first_and_rest(parts: Seq<Seq<char>>, width: nat) -> Seq<char> {
    if parts.len() == 0 {
        seq![]
    } else {
        parts[0] + continuation(parts.skip(1), width)
    }
}

/// A named group of lines: its name in a field of 40, a space, and its lines.
pub open spec fn group_text(g: LineGroupV) -> Seq<char> {
    pad_right(g.name, 40) + seq![' '] + first_and_rest(g.lines.map_values(|l: LineV| line_text(l)), 40)
}

/// A region: `REGIONNAME` and its name, then its colour in a field of 26, a space,
/// and its corners.
pub open spec fn region_text(r: RegionV) -> Seq<char> {
    "REGIONNAME "@ + r.name + seq!['\n'] + pad_right(r.colour_name, 26) + seq![' '] + first_and_rest(
        r.polygon.map_values(|c: Coordinate| coordinate_text(c)),
        26,
    )
}

pub open spec fn beacon_text(b: BeaconV) -> Seq<char> {
    pad_right(b.designator, 4) + seq![' '] + b.frequency + seq![' '] + coordinate_text(b.coordinate)
}

pub open spec fn fix_text(f: FixV) -> Seq<char> {
    pad_right(f.designator, 5) + seq![' '] + coordinate_text(f.coordinate)
}

pub open spec fn airport_text(a: AirportV) -> Seq<char> {
    a.designator + " 000.000 "@ + coordinate_text(a.coordinate) + seq![' '] + a.ctr_airspace
}

pub open spec fn runway_text(r: RunwayV) -> Seq<char> {
    pad_right(r.designators.0, 3) + seq![' '] + pad_right(r.designators.1, 3) + seq![' ']
        + number_text(r.headings.0 as nat, 3) + seq![' '] + number_text(r.headings.1 as nat, 3)
        + seq![' '] + coordinate_text(r.location.0) + seq![' '] + coordinate_text(r.location.1)
        + seq![' '] + r.aerodrome
}

pub open spec fn airway_text(a: AirwayV) -> Seq<char> {
    pad_right(a.designator, 10) + seq![' '] + location_text(a.start) + seq![' '] + location_text(a.end)
}

/// A colour definition: `#define`, its name, a tab, and its EuroScope number.
pub open spec fn colour_text(c: (Seq<char>, crate::colours::Colour)) -> Seq<char> {
    "#define "@ + c.0 + seq!['\t'] + decimal_text(euroscope_value(c.1) as nat)
}

fn push_location(out: &mut Vec<char>, l: &Location)
    ensures
        final(out)@ == old(out)@ + location_text(l@),
{
    let ghost start = out@;
    match l {
        Location::Fix(f) => {
            let cs = crate::text::chars_of(f.as_str());
            push_chars(out, &cs);
            out.push(' ');
            push_chars(out, &cs);
            proof {
                assert(out@ =~= start + location_text(l@));
            }
        },
        Location::Coordinate(c) => {
            push_coordinate(out, *c);
        },
    }
}

fn push_line(out: &mut Vec<char>, l: &crate::sct::Line)
    ensures
        final(out)@ == old(out)@ + line_text(l@),
{
    let ghost start = out@;
    push_location(out, &l.start);
    out.push(' ');
    push_location(out, &l.end);
    match &l.colour {
        Some(c) => {
            out.push(' ');
            push_str(out, c.as_str());
        },
        None => {},
    }
    proof {
        assert(out@ =~= start + line_text(l@));
    }
}

/// The text of a group of lines (see [`group_text`]).
#[verifier::spinoff_prover]
#[verifier::rlimit(50)]
fn group_chars(g: &crate::sct::LineGroup) -> (r: Vec<char>)
    ensures
        r@ == group_text(g@),
{
    let ghost parts = g@.lines.map_values(|l: LineV| line_text(l));
    let mut out: Vec<char> = Vec::new();
    let name = crate::text::chars_of(g.name.as_str());
    push_padded(&mut out, &name, 40);
    out.push(' ');
    let ghost head = out@;
    if g.lines.len() > 0 {
        push_line(&mut out, &g.lines[0]);
        let ghost first = out@;
        let mut i: usize = 1;
        proof {
            assert(parts.skip(1).take(0) =~= Seq::<Seq<char>>::empty());
        }
        while i < g.lines.len()
            invariant
                1 <= i <= g.lines@.len(),
                parts == g@.lines.map_values(|l: LineV| line_text(l)),
                out@ == first + continuation(parts.skip(1).take(i - 1), 40),
            decreases g.lines@.len() - i,
        {
            let ghost before = out@;
            let ghost t = line_text(g.lines@[i as int]@);
            out.push('\n');
            push_spaces(&mut out, 40);
            out.push(' ');
            push_line(&mut out, &g.lines[i]);
            proof {
                let c = parts.skip(1).take(i as int);
                assert(c.drop_last() =~= parts.skip(1).take(i - 1));
                assert(g@.lines[i as int] == g.lines@[i as int]@);
                assert(parts[i as int] == t);
                assert(c.last() == t);
                assert(continuation(c, 40) == continuation(c.drop_last(), 40) + seq!['\n'] + spaces(40) + seq![' '] + t);
                assert(out@ =~= before + seq!['\n'] + spaces(40) + seq![' '] + t);
                assert(out@ =~= first + continuation(c, 40));
            }
            i = i + 1;
        }
        proof {
            assert(parts.skip(1).take(g.lines@.len() - 1) =~= parts.skip(1));
            assert(out@ =~= head + first_and_rest(parts, 40));
        }
    }
    proof {
        assert(out@ =~= group_text(g@));
    }
    out
}

/// The text of a region (see [`region_text`]).
#[verifier::spinoff_prover]
#[verifier::rlimit(50)]
fn region_chars(r: &crate::sct::Region) -> (res: Vec<char>)
    ensures
        res@ == region_text(r@),
{
    let ghost parts = r@.polygon.map_values(|c: Coordinate| coordinate_text(c));
    let mut out: Vec<char> = Vec::new();
    push_str(&mut out, "REGIONNAME ");
    push_str(&mut out, r.name.as_str());
    out.push('\n');
    let colour = crate::text::chars_of(r.colour_name.as_str());
    push_padded(&mut out, &colour, 26);
    out.push(' ');
    let ghost head = out@;
    if r.polygon.len() > 0 {
        push_coordinate(&mut out, r.polygon[0]);
        let ghost first = out@;
        let mut i: usize = 1;
        proof {
            assert(parts.skip(1).take(0) =~= Seq::<Seq<char>>::empty());
        }
        while i < r.polygon.len()
            invariant
                1 <= i <= r.polygon@.len(),
                parts == r@.polygon.map_values(|c: Coordinate| coordinate_text(c)),
                out@ == first + continuation(parts.skip(1).take(i - 1), 26),
            decreases r.polygon@.len() - i,
        {
            out.push('\n');
            push_spaces(&mut out, 26);
            out.push(' ');
            push_coordinate(&mut out, r.polygon[i]);
            proof {
                assert(parts.skip(1).take(i as int).drop_last() =~= parts.skip(1).take(i - 1));
                assert(parts.skip(1).take(i as int).last() == coordinate_text(r.polygon@[i as int]));
                assert(out@ =~= first + continuation(parts.skip(1).take(i as int), 26));
            }
            i = i + 1;
        }
        proof {
            assert(parts.skip(1).take(r.polygon@.len() - 1) =~= parts.skip(1));
            assert(out@ =~= head + first_and_rest(parts, 26));
        }
    }
    proof {
        assert(out@ =~= region_text(r@));
    }
    out
}

fn beacon_chars(b: &crate::sct::Beacon) -> (r: Vec<char>)
    ensures
        r@ == beacon_text(b@),
{
    let mut out: Vec<char> = Vec::new();
    let d = crate::text::chars_of(b.designator.as_str());
    push_padded(&mut out, &d, 4);
    out.push(' ');
    push_str(&mut out, b.frequency.as_str());
    out.push(' ');
    push_coordinate(&mut out, b.coordinate);
    proof {
        assert(out@ =~= beacon_text(b@));
    }
    out
}

fn fix_chars(f: &crate::sct::Fix) -> (r: Vec<char>)
    ensures
        r@ == fix_text(f@),
{
    let mut out: Vec<char> = Vec::new();
    let d = crate::text::chars_of(f.designator.as_str());
    push_padded(&mut out, &d, 5);
    out.push(' ');
    push_coordinate(&mut out, f.coordinate);
    proof {
        assert(out@ =~= fix_text(f@));
    }
    out
}

fn airport_chars(a: &crate::sct::Airport) -> (r: Vec<char>)
    ensures
        r@ == airport_text(a@),
{
    let mut out: Vec<char> = Vec::new();
    push_str(&mut out, a.designator.as_str());
    push_str(&mut out, " 000.000 ");
    push_coordinate(&mut out, a.coordinate);
    out.push(' ');
    push_str(&mut out, a.ctr_airspace.as_str());
    proof {
        assert(out@ =~= airport_text(a@));
    }
    out
}

fn runway_chars(r: &crate::sct::Runway) -> (res: Vec<char>)
    ensures
        res@ == runway_text(r@),
{
    let mut out: Vec<char> = Vec::new();
    let d0 = crate::text::chars_of(r.designators.0.as_str());
    let d1 = crate::text::chars_of(r.designators.1.as_str());
    push_padded(&mut out, &d0, 3);
    out.push(' ');
    push_padded(&mut out, &d1, 3);
    out.push(' ');
    push_number(&mut out, r.headings.0 as u64, 3);
    out.push(' ');
    push_number(&mut out, r.headings.1 as u64, 3);
    out.push(' ');
    push_coordinate(&mut out, r.location.0);
    out.push(' ');
    push_coordinate(&mut out, r.location.1);
    out.push(' ');
    push_str(&mut out, r.aerodrome.as_str());
    proof {
        assert(out@ =~= runway_text(r@));
    }
    out
}

fn airway_chars(a: &crate::sct::Airway) -> (r: Vec<char>)
    ensures
        r@ == airway_text(a@),
{
    let mut out: Vec<char> = Vec::new();
    let d = crate::text::chars_of(a.designator.as_str());
    push_padded(&mut out, &d, 10);
    out.push(' ');
    push_location(&mut out, &a.start);
    out.push(' ');
    push_location(&mut out, &a.end);
    proof {
        assert(out@ =~= airway_text(a@));
    }
    out
}

fn colour_chars(name: &String, c: crate::colours::Colour) -> (r: Vec<char>)
    ensures
        r@ == colour_text((name@, c)),
{
    let mut out: Vec<char> = Vec::new();
    push_str(&mut out, "#define ");
    push_str(&mut out, name.as_str());
    out.push('\t');
    let v = c.to_euroscope();
    let digits = format_decimal(v as u64);
    push_chars(&mut out, &digits);
    proof {
        assert(out@ =~= colour_text((name@, c)));
    }
    out
}


/// The texts of entries, each with its view's text.
fn beacon_texts(items: &Vec<crate::sct::Beacon>) -> (r: Vec<Vec<char>>)
    ensures
        r@.len() == items@.len(),
        views(r@) == items@.map_values(|x: crate::sct::Beacon| beacon_text(x@)),
{
    let ghost want = items@.map_values(|x: crate::sct::Beacon| beacon_text(x@));
    let mut r: Vec<Vec<char>> = Vec::new();
    let mut i: usize = 0;
    while i < items.len()
        invariant
            i <= items@.len(),
            want == items@.map_values(|x: crate::sct::Beacon| beacon_text(x@)),
            views(r@) == want.take(i as int),
        decreases items@.len() - i,
    {
        let t = beacon_chars(&items[i]);
        let ghost before = views(r@);
        let ghost tv = t@;
        r.push(t);
        proof {
            assert(views(r@) =~= before.push(tv));
            assert(want.take(i + 1) =~= want.take(i as int).push(want[i as int]));
        }
        i = i + 1;
    }
    proof {
        assert(want.take(items@.len() as int) =~= want);
    }
    r
}

/// The texts of entries, each with its view's text.
fn fix_texts(items: &Vec<crate::sct::Fix>) -> (r: Vec<Vec<char>>)
    ensures
        r@.len() == items@.len(),
        views(r@) == items@.map_values(|x: crate::sct::Fix| fix_text(x@)),
{
    let ghost want = items@.map_values(|x: crate::sct::Fix| fix_text(x@));
    let mut r: Vec<Vec<char>> = Vec::new();
    let mut i: usize = 0;
    while i < items.len()
        invariant
            i <= items@.len(),
            want == items@.map_values(|x: crate::sct::Fix| fix_text(x@)),
            views(r@) == want.take(i as int),
        decreases items@.len() - i,
    {
        let t = fix_chars(&items[i]);
        let ghost before = views(r@);
        let ghost tv = t@;
        r.push(t);
        proof {
            assert(views(r@) =~= before.push(tv));
            assert(want.take(i + 1) =~= want.take(i as int).push(want[i as int]));
        }
        i = i + 1;
    }
    proof {
        assert(want.take(items@.len() as int) =~= want);
    }
    r
}

/// The texts of entries, each with its view's text.
fn airport_texts(items: &Vec<crate::sct::Airport>) -> (r: Vec<Vec<char>>)
    ensures
        r@.len() == items@.len(),
        views(r@) == items@.map_values(|x: crate::sct::Airport| airport_text(x@)),
{
    let ghost want = items@.map_values(|x: crate::sct::Airport| airport_text(x@));
    let mut r: Vec<Vec<char>> = Vec::new();
    let mut i: usize = 0;
    while i < items.len()
        invariant
            i <= items@.len(),
            want == items@.map_values(|x: crate::sct::Airport| airport_text(x@)),
            views(r@) == want.take(i as int),
        decreases items@.len() - i,
    {
        let t = airport_chars(&items[i]);
        let ghost before = views(r@);
        let ghost tv = t@;
        r.push(t);
        proof {
            assert(views(r@) =~= before.push(tv));
            assert(want.take(i + 1) =~= want.take(i as int).push(want[i as int]));
        }
        i = i + 1;
    }
    proof {
        assert(want.take(items@.len() as int) =~= want);
    }
    r
}

/// The texts of entries, each with its view's text.
fn runway_texts(items: &Vec<crate::sct::Runway>) -> (r: Vec<Vec<char>>)
    ensures
        r@.len() == items@.len(),
        views(r@) == items@.map_values(|x: crate::sct::Runway| runway_text(x@)),
{
    let ghost want = items@.map_values(|x: crate::sct::Runway| runway_text(x@));
    let mut r: Vec<Vec<char>> = Vec::new();
    let mut i: usize = 0;
    while i < items.len()
        invariant
            i <= items@.len(),
            want == items@.map_values(|x: crate::sct::Runway| runway_text(x@)),
            views(r@) == want.take(i as int),
        decreases items@.len() - i,
    {
        let t = runway_chars(&items[i]);
        let ghost before = views(r@);
        let ghost tv = t@;
        r.push(t);
        proof {
            assert(views(r@) =~= before.push(tv));
            assert(want.take(i + 1) =~= want.take(i as int).push(want[i as int]));
        }
        i = i + 1;
    }
    proof {
        assert(want.take(items@.len() as int) =~= want);
    }
    r
}

/// The texts of entries, each with its view's text.
fn group_texts(items: &Vec<crate::sct::LineGroup>) -> (r: Vec<Vec<char>>)
    ensures
        r@.len() == items@.len(),
        views(r@) == items@.map_values(|x: crate::sct::LineGroup| group_text(x@)),
{
    let ghost want = items@.map_values(|x: crate::sct::LineGroup| group_text(x@));
    let mut r: Vec<Vec<char>> = Vec::new();
    let mut i: usize = 0;
    while i < items.len()
        invariant
            i <= items@.len(),
            want == items@.map_values(|x: crate::sct::LineGroup| group_text(x@)),
            views(r@) == want.take(i as int),
        decreases items@.len() - i,
    {
        let t = group_chars(&items[i]);
        let ghost before = views(r@);
        let ghost tv = t@;
        r.push(t);
        proof {
            assert(views(r@) =~= before.push(tv));
            assert(want.take(i + 1) =~= want.take(i as int).push(want[i as int]));
        }
        i = i + 1;
    }
    proof {
        assert(want.take(items@.len() as int) =~= want);
    }
    r
}

/// The texts of entries, each with its view's text.
fn region_texts(items: &Vec<crate::sct::Region>) -> (r: Vec<Vec<char>>)
    ensures
        r@.len() == items@.len(),
        views(r@) == items@.map_values(|x: crate::sct::Region| region_text(x@)),
{
    let ghost want = items@.map_values(|x: crate::sct::Region| region_text(x@));
    let mut r: Vec<Vec<char>> = Vec::new();
    let mut i: usize = 0;
    while i < items.len()
        invariant
            i <= items@.len(),
            want == items@.map_values(|x: crate::sct::Region| region_text(x@)),
            views(r@) == want.take(i as int),
        decreases items@.len() - i,
    {
        let t = region_chars(&items[i]);
        let ghost before = views(r@);
        let ghost tv = t@;
        r.push(t);
        proof {
            assert(views(r@) =~= before.push(tv));
            assert(want.take(i + 1) =~= want.take(i as int).push(want[i as int]));
        }
        i = i + 1;
    }
    proof {
        assert(want.take(items@.len() as int) =~= want);
    }
    r
}

/// The texts of entries, each with its view's text.
fn airway_texts(items: &Vec<crate::sct::Airway>) -> (r: Vec<Vec<char>>)
    ensures
        r@.len() == items@.len(),
        views(r@) == items@.map_values(|x: crate::sct::Airway| airway_text(x@)),
{
    let ghost want = items@.map_values(|x: crate::sct::Airway| airway_text(x@));
    let mut r: Vec<Vec<char>> = Vec::new();
    let mut i: usize = 0;
    while i < items.len()
        invariant
            i <= items@.len(),
            want == items@.map_values(|x: crate::sct::Airway| airway_text(x@)),
            views(r@) == want.take(i as int),
        decreases items@.len() - i,
    {
        let t = airway_chars(&items[i]);
        let ghost before = views(r@);
        let ghost tv = t@;
        r.push(t);
        proof {
            assert(views(r@) =~= before.push(tv));
            assert(want.take(i + 1) =~= want.take(i as int).push(want[i as int]));
        }
        i = i + 1;
    }
    proof {
        assert(want.take(items@.len() as int) =~= want);
    }
    r
}

/// The names of groups.
fn group_names(items: &Vec<crate::sct::LineGroup>) -> (r: Vec<Vec<char>>)
    ensures
        r@.len() == items@.len(),
        views(r@) == items@.map_values(|x: crate::sct::LineGroup| x@.name),
{
    let ghost want = items@.map_values(|x: crate::sct::LineGroup| x@.name);
    let mut r: Vec<Vec<char>> = Vec::new();
    let mut i: usize = 0;
    while i < items.len()
        invariant
            i <= items@.len(),
            want == items@.map_values(|x: crate::sct::LineGroup| x@.name),
            views(r@) == want.take(i as int),
        decreases items@.len() - i,
    {
        let t = crate::text::chars_of(items[i].name.as_str());
        let ghost before = views(r@);
        let ghost tv = t@;
        r.push(t);
        proof {
            assert(views(r@) =~= before.push(tv));
            assert(want.take(i + 1) =~= want.take(i as int).push(want[i as int]));
        }
        i = i + 1;
    }
    proof {
        assert(want.take(items@.len() as int) =~= want);
    }
    r
}

/// The names of regions.
fn region_names(items: &Vec<crate::sct::Region>) -> (r: Vec<Vec<char>>)
    ensures
        r@.len() == items@.len(),
        views(r@) == items@.map_values(|x: crate::sct::Region| x@.name),
{
    let ghost want = items@.map_values(|x: crate::sct::Region| x@.name);
    let mut r: Vec<Vec<char>> = Vec::new();
    let mut i: usize = 0;
    while i < items.len()
        invariant
            i <= items@.len(),
            want == items@.map_values(|x: crate::sct::Region| x@.name),
            views(r@) == want.take(i as int),
        decreases items@.len() - i,
    {
        let t = crate::text::chars_of(items[i].name.as_str());
        let ghost before = views(r@);
        let ghost tv = t@;
        r.push(t);
        proof {
            assert(views(r@) =~= before.push(tv));
            assert(want.take(i + 1) =~= want.take(i as int).push(want[i as int]));
        }
        i = i + 1;
    }
    proof {
        assert(want.take(items@.len() as int) =~= want);
    }
    r
}

/// The designators of airway segments.
fn airway_names(items: &Vec<crate::sct::Airway>) -> (r: Vec<Vec<char>>)
    ensures
        r@.len() == items@.len(),
        views(r@) == items@.map_values(|x: crate::sct::Airway| x@.designator),
{
    let ghost want = items@.map_values(|x: crate::sct::Airway| x@.designator);
    let mut r: Vec<Vec<char>> = Vec::new();
    let mut i: usize = 0;
    while i < items.len()
        invariant
            i <= items@.len(),
            want == items@.map_values(|x: crate::sct::Airway| x@.designator),
            views(r@) == want.take(i as int),
        decreases items@.len() - i,
    {
        let t = crate::text::chars_of(items[i].designator.as_str());
        let ghost before = views(r@);
        let ghost tv = t@;
        r.push(t);
        proof {
            assert(views(r@) =~= before.push(tv));
            assert(want.take(i + 1) =~= want.take(i as int).push(want[i as int]));
        }
        i = i + 1;
    }
    proof {
        assert(want.take(items@.len() as int) =~= want);
    }
    r
}

/// The aerodromes of runways.
fn runway_aerodromes(items: &Vec<crate::sct::Runway>) -> (r: Vec<Vec<char>>)
    ensures
        r@.len() == items@.len(),
        views(r@) == items@.map_values(|x: crate::sct::Runway| x@.aerodrome),
{
    let ghost want = items@.map_values(|x: crate::sct::Runway| x@.aerodrome);
    let mut r: Vec<Vec<char>> = Vec::new();
    let mut i: usize = 0;
    while i < items.len()
        invariant
            i <= items@.len(),
            want == items@.map_values(|x: crate::sct::Runway| x@.aerodrome),
            views(r@) == want.take(i as int),
        decreases items@.len() - i,
    {
        let t = crate::text::chars_of(items[i].aerodrome.as_str());
        let ghost before = views(r@);
        let ghost tv = t@;
        r.push(t);
        proof {
            assert(views(r@) =~= before.push(tv));
            assert(want.take(i + 1) =~= want.take(i as int).push(want[i as int]));
        }
        i = i + 1;
    }
    proof {
        assert(want.take(items@.len() as int) =~= want);
    }
    r
}

/// The colour definition lines.
fn colour_texts(items: &Vec<(String, crate::colours::Colour)>) -> (r: Vec<Vec<char>>)
    ensures
        r@.len() == items@.len(),
        views(r@) == crate::colours::colour_views(items@).map_values(
            |c: (Seq<char>, crate::colours::Colour)| colour_text(c),
        ),
{
    let ghost want = crate::colours::colour_views(items@).map_values(
        |c: (Seq<char>, crate::colours::Colour)| colour_text(c),
    );
    let mut r: Vec<Vec<char>> = Vec::new();
    let mut i: usize = 0;
    while i < items.len()
        invariant
            i <= items@.len(),
            want == crate::colours::colour_views(items@).map_values(
                |c: (Seq<char>, crate::colours::Colour)| colour_text(c),
            ),
            views(r@) == want.take(i as int),
        decreases items@.len() - i,
    {
        let t = colour_chars(&items[i].0, items[i].1);
        let ghost before = views(r@);
        let ghost tv = t@;
        r.push(t);
        proof {
            assert(views(r@) =~= before.push(tv));
            assert(want.take(i + 1) =~= want.take(i as int).push(want[i as int]));
        }
        i = i + 1;
    }
    proof {
        assert(want.take(items@.len() as int) =~= want);
    }
    r
}

// ---------------------------------------------------------------------------
// Numbers and the whole file

/// `s` without its trailing zeros.
pub open spec fn trim_zeros(s: Seq<char>) -> Seq<char>
    decreases s.len(),
{
    if s.len() > 0 && s.last() == '0' {
        trim_zeros(s.drop_last())
    } else {
        s
    }
}

/// A number given in millionths, as Rust writes a floating-point number of that
/// value: no decimals for a whole number, else as many as it needs.
pub open spec fn micro_number_text(v: i64) -> Seq<char> {
    let a: int = if v < 0 {
        -(v as int)
    } else {
        v as int
    };
    let i = a / 1_000_000;
    let f = a % 1_000_000;
    (if v < 0 {
        seq!['-']
    } else {
        seq![]
    }) + decimal_text(i as nat) + (if f == 0 {
        seq![]
    } else {
        seq!['.'] + trim_zeros(number_text(f as nat, 6))
    })
}

fn push_micro_number(out: &mut Vec<char>, v: i64)
    ensures
        final(out)@ == old(out)@ + micro_number_text(v),
{
    let ghost start = out@;
    let a: u64 = if v < 0 {
        (-(v as i128)) as u64
    } else {
        v as u64
    };
    if v < 0 {
        out.push('-');
    }
    let ghost signed = out@;
    let digits = format_decimal(a / 1_000_000);
    push_chars(out, &digits);
    let f = a % 1_000_000;
    if f != 0 {
        out.push('.');
        let mut frac: Vec<char> = Vec::new();
        push_number(&mut frac, f, 6);
        proof {
            assert(frac@ =~= Seq::<char>::empty() + number_text(f as nat, 6));
        }
        let ghost full = frac@;
        let mut n = frac.len();
        proof {
            assert(full.take(n as int) =~= full);
        }
        while n > 0 && frac[n - 1] == '0'
            invariant
                n <= frac@.len(),
                frac@ == full,
                trim_zeros(full) == trim_zeros(full.take(n as int)),
            decreases n,
        {
            proof {
                assert(full.take(n as int).drop_last() =~= full.take(n - 1));
            }
            n = n - 1;
        }
        proof {
            assert(trim_zeros(full.take(n as int)) == full.take(n as int));
        }
        let kept = crate::text::copy_range(frac.as_slice(), 0, n);
        push_chars(out, &kept);
        proof {
            assert(kept@ =~= full.take(n as int));
        }
    }
    proof {
        assert(out@ =~= start + micro_number_text(v));
    }
}

/// The `[INFO]` section: its title, the name, callsign and airport, the centre as
/// latitude and longitude, and the four numbers, each on a line.
pub open spec fn info_text(i: SctInfoV) -> Seq<char> {
    "[INFO]\n"@ + i.name + seq!['\n'] + i.default_callsign + seq!['\n'] + i.default_airport + seq![
        '\n',
    ] + dms_text(i.centre_point.lat, true) + seq!['\n'] + dms_text(i.centre_point.lng, false) + seq![
        '\n',
    ] + micro_number_text(i.miles_per_deg_lat) + seq!['\n'] + micro_number_text(i.miles_per_deg_lng)
        + seq!['\n'] + micro_number_text(i.magnetic_variation) + seq!['\n'] + micro_number_text(
        i.scale_factor,
    ) + seq!['\n']
}

#[verifier::spinoff_prover]
#[verifier::rlimit(50)]
fn push_info(out: &mut Vec<char>, i: &crate::sct::SctInfo)
    ensures
        final(out)@ == old(out)@ + info_text(i@),
{
    let ghost start = out@;
    push_str(out, "[INFO]\n");
    push_str(out, i.name.as_str());
    out.push('\n');
    push_str(out, i.default_callsign.as_str());
    out.push('\n');
    push_str(out, i.default_airport.as_str());
    out.push('\n');
    push_dms(out, i.centre_point.lat, true);
    out.push('\n');
    push_dms(out, i.centre_point.lng, false);
    out.push('\n');
    push_micro_number(out, i.miles_per_deg_lat);
    out.push('\n');
    push_micro_number(out, i.miles_per_deg_lng);
    out.push('\n');
    push_micro_number(out, i.magnetic_variation);
    out.push('\n');
    push_micro_number(out, i.scale_factor);
    out.push('\n');
    proof {
        assert(out@ =~= start + info_text(i@));
    }
}

/// A section: its title, its entries in order of their keys with `sep` between
/// them, and two line ends.
pub open spec fn section(header: Seq<char>, keys: Seq<Seq<char>>, texts: Seq<Seq<char>>, sep: Seq<char>) -> Seq<char> {
    header + join(sorted_texts(keys, texts), sep) + seq!['\n', '\n']
}

fn push_section(
    out: &mut Vec<char>,
    header: &str,
    keys: &Vec<Vec<char>>,
    texts: &Vec<Vec<char>>,
    sep: &str,
)
    requires
        keys@.len() == texts@.len(),
    ensures
        final(out)@ == old(out)@ + section(header@, views(keys@), views(texts@), sep@),
{
    let ghost start = out@;
    push_str(out, header);
    push_sorted(out, keys, texts, sep);
    out.push('\n');
    out.push('\n');
    proof {
        assert(out@ =~= start + section(header@, views(keys@), views(texts@), sep@));
    }
}

/// The sections of the points of a sector file: VORs, NDBs, fixes, airports and
/// runways.
pub open spec fn points_text(s: SctV) -> Seq<char> {
    let vors = s.vors.map_values(|b: BeaconV| beacon_text(b));
    let ndbs = s.ndbs.map_values(|b: BeaconV| beacon_text(b));
    let fixes = s.fixes.map_values(|f: FixV| fix_text(f));
    let airports = s.airports.map_values(|a: AirportV| airport_text(a));
    let runways = s.runways.map_values(|r: RunwayV| runway_text(r));
    let aerodromes = s.runways.map_values(|r: RunwayV| r.aerodrome);
    section("[VOR]\n"@, vors, vors, "\n"@) + section("[NDB]\n"@, ndbs, ndbs, "\n"@) + section(
        "[FIXES]\n"@,
        fixes,
        fixes,
        "\n"@,
    ) + section("[AIRPORT]\n"@, airports, airports, "\n"@) + section(
        "[RUNWAY]\n"@,
        aerodromes,
        runways,
        "\n"@,
    )
}

pub open spec fn group_names_of(g: Seq<LineGroupV>) -> Seq<Seq<char>> {
    g.map_values(|x: LineGroupV| x.name)
}

pub open spec fn group_texts_of(g: Seq<LineGroupV>) -> Seq<Seq<char>> {
    g.map_values(|x: LineGroupV| group_text(x))
}

/// The sections of named line groups: SIDs, STARs, the three kinds of airspace
/// outline, and ground drawings.
pub open spec fn groups_text(s: SctV) -> Seq<char> {
    section("[SID]\n"@, group_names_of(s.sids), group_texts_of(s.sids), "\n\n"@) + section(
        "[STAR]\n"@,
        group_names_of(s.stars),
        group_texts_of(s.stars),
        "\n\n"@,
    ) + section(
        "[ARTCC HIGH]\n"@,
        group_names_of(s.artccs_high),
        group_texts_of(s.artccs_high),
        "\n\n"@,
    ) + section("[ARTCC]\n"@, group_names_of(s.artccs), group_texts_of(s.artccs), "\n\n"@)
        + section(
        "[ARTCC LOW]\n"@,
        group_names_of(s.artccs_low),
        group_texts_of(s.artccs_low),
        "\n\n"@,
    ) + section("[GEO]\n"@, group_names_of(s.geo), group_texts_of(s.geo), "\n\n"@)
}

/// The sections of regions and airways; the last ends with one line end.
pub open spec fn tail_text(s: SctV) -> Seq<char> {
    let regions = s.regions.map_values(|r: RegionV| region_text(r));
    let region_names = s.regions.map_values(|r: RegionV| r.name);
    let high = s.high_airways.map_values(|a: AirwayV| airway_text(a));
    let high_names = s.high_airways.map_values(|a: AirwayV| a.designator);
    let low = s.low_airways.map_values(|a: AirwayV| airway_text(a));
    let low_names = s.low_airways.map_values(|a: AirwayV| a.designator);
    section("[REGIONS]\n"@, region_names, regions, "\n"@) + section(
        "[HIGH AIRWAY]\n"@,
        high_names,
        high,
        "\n"@,
    ) + "[LOW AIRWAY]\n"@ + join(sorted_texts(low_names, low), "\n"@) + seq!['\n']
}

/// A sector file as text (see the module's documentation): the `[INFO]` section
/// and a blank line, the colour definitions and a blank line, then the sections.
pub open spec fn sct_text(s: SctV) -> Seq<char> {
    let c = s.colours.map_values(|c: (Seq<char>, crate::colours::Colour)| colour_text(c));
    info_text(s.info) + seq!['\n'] + join(sorted_texts(c, c), "\n"@) + seq!['\n', '\n'] + points_text(s)
        + groups_text(s) + tail_text(s)
}

fn push_points(out: &mut Vec<char>, s: &Sct)
    ensures
        final(out)@ == old(out)@ + points_text(s@),
{
    let ghost start = out@;
    let ghost v = s@;
    let vors = beacon_texts(&s.vors);
    push_section(out, "[VOR]\n", &vors, &vors, "\n");
    let ndbs = beacon_texts(&s.ndbs);
    push_section(out, "[NDB]\n", &ndbs, &ndbs, "\n");
    let fixes = fix_texts(&s.fixes);
    push_section(out, "[FIXES]\n", &fixes, &fixes, "\n");
    let airports = airport_texts(&s.airports);
    push_section(out, "[AIRPORT]\n", &airports, &airports, "\n");
    let runways = runway_texts(&s.runways);
    let aerodromes = runway_aerodromes(&s.runways);
    push_section(out, "[RUNWAY]\n", &aerodromes, &runways, "\n");
    proof {
        assert(s.vors@.map_values(|x: crate::sct::Beacon| beacon_text(x@)) =~= v.vors.map_values(
            |b: BeaconV| beacon_text(b),
        ));
        assert(s.ndbs@.map_values(|x: crate::sct::Beacon| beacon_text(x@)) =~= v.ndbs.map_values(
            |b: BeaconV| beacon_text(b),
        ));
        assert(s.fixes@.map_values(|x: crate::sct::Fix| fix_text(x@)) =~= v.fixes.map_values(
            |f: FixV| fix_text(f),
        ));
        assert(s.airports@.map_values(|x: crate::sct::Airport| airport_text(x@)) =~= v.airports.map_values(
            |a: AirportV| airport_text(a),
        ));
        assert(s.runways@.map_values(|x: crate::sct::Runway| runway_text(x@)) =~= v.runways.map_values(
            |r: RunwayV| runway_text(r),
        ));
        assert(s.runways@.map_values(|x: crate::sct::Runway| x@.aerodrome) =~= v.runways.map_values(
            |r: RunwayV| r.aerodrome,
        ));
        assert(out@ =~= start + points_text(v));
    }
}

fn push_group_section(out: &mut Vec<char>, header: &str, gs: &Vec<crate::sct::LineGroup>)
    ensures
        final(out)@ == old(out)@ + section(
            header@,
            group_names_of(crate::sct::group_views(gs@)),
            group_texts_of(crate::sct::group_views(gs@)),
            "\n\n"@,
        ),
{
    let names = group_names(gs);
    let texts = group_texts(gs);
    push_section(out, header, &names, &texts, "\n\n");
    proof {
        lemma_group_views(gs@);
    }
}

fn push_groups(out: &mut Vec<char>, s: &Sct)
    ensures
        final(out)@ == old(out)@ + groups_text(s@),
{
    let ghost start = out@;
    push_group_section(out, "[SID]\n", &s.sids);
    push_group_section(out, "[STAR]\n", &s.stars);
    push_group_section(out, "[ARTCC HIGH]\n", &s.artccs_high);
    push_group_section(out, "[ARTCC]\n", &s.artccs);
    push_group_section(out, "[ARTCC LOW]\n", &s.artccs_low);
    push_group_section(out, "[GEO]\n", &s.geo);
    proof {
        assert(out@ =~= start + groups_text(s@));
    }
}

fn push_tail(out: &mut Vec<char>, s: &Sct)
    ensures
        final(out)@ == old(out)@ + tail_text(s@),
{
    let ghost start = out@;
    let ghost v = s@;
    let names = region_names(&s.regions);
    let regions = region_texts(&s.regions);
    push_section(out, "[REGIONS]\n", &names, &regions, "\n");
    let high_names = airway_names(&s.high_airways);
    let high = airway_texts(&s.high_airways);
    push_section(out, "[HIGH AIRWAY]\n", &high_names, &high, "\n");
    push_str(out, "[LOW AIRWAY]\n");
    let low_names = airway_names(&s.low_airways);
    let low = airway_texts(&s.low_airways);
    push_sorted(out, &low_names, &low, "\n");
    out.push('\n');
    proof {
        assert(s.regions@.map_values(|x: crate::sct::Region| region_text(x@)) =~= v.regions.map_values(
            |r: RegionV| region_text(r),
        ));
        assert(s.regions@.map_values(|x: crate::sct::Region| x@.name) =~= v.regions.map_values(
            |r: RegionV| r.name,
        ));
        assert(s.high_airways@.map_values(|x: crate::sct::Airway| airway_text(x@))
            =~= v.high_airways.map_values(|a: AirwayV| airway_text(a)));
        assert(s.high_airways@.map_values(|x: crate::sct::Airway| x@.designator)
            =~= v.high_airways.map_values(|a: AirwayV| a.designator));
        assert(s.low_airways@.map_values(|x: crate::sct::Airway| airway_text(x@))
            =~= v.low_airways.map_values(|a: AirwayV| airway_text(a)));
        assert(s.low_airways@.map_values(|x: crate::sct::Airway| x@.designator)
            =~= v.low_airways.map_values(|a: AirwayV| a.designator));
        assert(out@ =~= start + tail_text(v));
    }
}

impl Sct {
    /// The sector file as text, in EuroScope's layout (see [`sct_text`]).
    #[verifier::spinoff_prover]
    #[verifier::rlimit(40)]
    pub fn to_euroscope(&self) -> (r: String)
        ensures
            r@ == sct_text(self@),
    {
        let mut out: Vec<char> = Vec::new();
        push_info(&mut out, &self.info);
        out.push('\n');
        let colours = colour_texts(&self.colours);
        push_sorted(&mut out, &colours, &colours, "\n");
        out.push('\n');
        out.push('\n');
        push_points(&mut out, self);
        push_groups(&mut out, self);
        push_tail(&mut out, self);
        proof {
            assert(out@ =~= sct_text(self@));
        }
        crate::text::string_from_chars(out.as_slice())
    }
}

/// The names and texts of groups, read from their views.
proof fn lemma_group_views(gs: Seq<crate::sct::LineGroup>)
    ensures
        gs.map_values(|x: crate::sct::LineGroup| x@.name) == crate::sct::group_views(gs).map_values(
            |x: LineGroupV| x.name,
        ),
        gs.map_values(|x: crate::sct::LineGroup| group_text(x@)) == crate::sct::group_views(
            gs,
        ).map_values(|x: LineGroupV| group_text(x)),
{
    assert(gs.map_values(|x: crate::sct::LineGroup| x@.name) =~= crate::sct::group_views(
        gs,
    ).map_values(|x: LineGroupV| x.name));
    assert(gs.map_values(|x: crate::sct::LineGroup| group_text(x@)) =~= crate::sct::group_views(
        gs,
    ).map_values(|x: LineGroupV| group_text(x)));
}

} // verus!
