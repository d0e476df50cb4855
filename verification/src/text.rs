//! Character-level helpers shared by the line-oriented parsers: decoding text into
//! characters, splitting, and reading and writing unsigned numbers.
use vstd::prelude::*;

verus! {

/// The characters of `s`, in order.
pub fn chars_of(s: &str) -> (v: Vec<char>)
    ensures
        v@ == s@,
{
    let mut v: Vec<char> = Vec::new();
    for c in it: s.chars()
        invariant
            v@ == it.seq().take(it.index() as int),
            it.seq() == s@,
    {
        v.push(c);
    }
    v
}

/// Collects characters into a `String` (std's `FromIterator<char>` for `String`).
#[verifier::external_body]
pub fn string_from_chars(v: &[char]) -> (s: String)
    ensures
        s@ == v@,
{
    v.iter().collect()
}

// ---------------------------------------------------------------------------
// Splitting

/// The character sequences held by a sequence of character vectors.
pub open spec fn views(v: Seq<Vec<char>>) -> Seq<Seq<char>> {
    v.map_values(|x: Vec<char>| x@)
}

/// `s` cut at every occurrence of `sep`; `sep` itself is dropped. Always holds at
/// least one (possibly empty) piece, as `str::split` does.
pub open spec fn split_spec(s: Seq<char>, sep: char) -> Seq<Seq<char>>
    decreases s.len(),
{
    if s.len() == 0 {
        seq![Seq::<char>::empty()]
    } else {
        let rest = split_spec(s.drop_last(), sep);
        if s.last() == sep {
            rest.push(Seq::<char>::empty())
        } else {
            rest.update(rest.len() - 1, rest.last().push(s.last()))
        }
    }
}

pub proof fn lemma_split_nonempty(s: Seq<char>, sep: char)
    ensures
        split_spec(s, sep).len() >= 1,
    decreases s.len(),
{
    if s.len() > 0 {
        lemma_split_nonempty(s.drop_last(), sep);
    }
}

/// Splitting at a separator that joins two texts gives the pieces of the first,
/// then those of the second.
pub proof fn lemma_split_concat(a: Seq<char>, sep: char, b: Seq<char>)
    ensures
        split_spec(a + seq![sep] + b, sep) == split_spec(a, sep) + split_spec(b, sep),
    decreases b.len(),
{
    let s = a + seq![sep] + b;
    if b.len() == 0 {
        assert(s.drop_last() =~= a);
        assert(split_spec(b, sep) == seq![Seq::<char>::empty()]);
        assert(split_spec(a, sep).push(Seq::<char>::empty()) =~= split_spec(a, sep) + split_spec(b, sep));
    } else {
        lemma_split_concat(a, sep, b.drop_last());
        lemma_split_nonempty(b.drop_last(), sep);
        assert(s.drop_last() =~= a + seq![sep] + b.drop_last());
        assert(s.last() == b.last());
        let x = split_spec(a, sep);
        let y = split_spec(b.drop_last(), sep);
        if b.last() == sep {
            assert((x + y).push(Seq::<char>::empty()) =~= x + y.push(Seq::<char>::empty()));
        } else {
            assert((x + y).update((x + y).len() - 1, (x + y).last().push(b.last())) =~= x + y.update(
                y.len() - 1,
                y.last().push(b.last()),
            ));
        }
    }
}

/// A text without the separator is one piece.
pub proof fn lemma_split_single(p: Seq<char>, sep: char)
    requires
        forall|i: int| 0 <= i < p.len() ==> p[i] != sep,
    ensures
        split_spec(p, sep) == seq![p],
    decreases p.len(),
{
    if p.len() > 0 {
        lemma_split_single(p.drop_last(), sep);
        assert(p.drop_last().push(p.last()) =~= p);
        assert(seq![p.drop_last()].update(0, p.drop_last().push(p.last())) =~= seq![p]);
    } else {
        assert(p =~= Seq::<char>::empty());
    }
}

/// Pieces written one after the other with `sep` between them.
pub open spec fn join_with(p: Seq<Seq<char>>, sep: char) -> Seq<char>
    decreases p.len(),
{
    if p.len() <= 1 {
        if p.len() == 1 { p[0] } else { seq![] }
    } else {
        join_with(p.drop_last(), sep) + seq![sep] + p.last()
    }
}

/// Pieces without the separator, joined with it, split back into the same pieces.
pub proof fn lemma_split_join(p: Seq<Seq<char>>, sep: char)
    requires
        p.len() >= 1,
        forall|i: int, j: int| 0 <= i < p.len() && 0 <= j < p[i].len() ==> p[i][j] != sep,
    ensures
        split_spec(join_with(p, sep), sep) == p,
    decreases p.len(),
{
    if p.len() == 1 {
        lemma_split_single(p[0], sep);
        assert(seq![p[0]] =~= p);
    } else {
        lemma_split_join(p.drop_last(), sep);
        lemma_split_concat(join_with(p.drop_last(), sep), sep, p.last());
        lemma_split_single(p.last(), sep);
        assert(p.drop_last() + seq![p.last()] =~= p);
    }
}

/// Splits `s` at every `sep`, as `str::split` with a character pattern does.
pub fn split_chars(s: &[char], sep: char) -> (r: Vec<Vec<char>>)
    ensures
        views(r@) == split_spec(s@, sep),
{
    let mut pieces: Vec<Vec<char>> = Vec::new();
    let mut cur: Vec<char> = Vec::new();
    let mut i: usize = 0;
    proof {
        assert(s@.take(0) =~= Seq::<char>::empty());
    }
    while i < s.len()
        invariant
            i <= s.len(),
            views(pieces@).push(cur@) == split_spec(s@.take(i as int), sep),
        decreases s.len() - i,
    {
        let c = s[i];
        proof {
            assert(s@.take(i + 1).drop_last() =~= s@.take(i as int));
            lemma_split_nonempty(s@.take(i as int), sep);
        }
        if c == sep {
            let done = cur;
            let ghost before = views(pieces@);
            pieces.push(done);
            cur = Vec::new();
            proof {
                assert(views(pieces@) =~= before.push(done@));
                assert(views(pieces@) =~= split_spec(s@.take(i as int), sep));
                assert(views(pieces@).push(cur@) =~= split_spec(s@.take(i + 1), sep));
            }
        } else {
            let ghost before = views(pieces@).push(cur@);
            cur.push(c);
            proof {
                assert(views(pieces@).push(cur@) =~= before.update(
                    before.len() - 1,
                    before.last().push(c),
                ));
            }
        }
        i = i + 1;
    }
    proof {
        assert(s@.take(s.len() as int) =~= s@);
    }
    let ghost before = views(pieces@);
    pieces.push(cur);
    proof {
        assert(views(pieces@) =~= before.push(cur@));
    }
    pieces
}

/// Index of the first occurrence of `c` in `s`.
pub open spec fn find_first(s: Seq<char>, c: char) -> Option<int>
    decreases s.len(),
{
    if s.len() == 0 {
        None
    } else if s[0] == c {
        Some(0)
    } else {
        match find_first(s.drop_first(), c) {
            Some(i) => Some(i + 1),
            None => None,
        }
    }
}

/// `s` up to the first `c` (all of `s` if there is none).
pub open spec fn before_first(s: Seq<char>, c: char) -> Seq<char> {
    match find_first(s, c) {
        Some(i) => s.take(i),
        None => s,
    }
}

/// What follows the first `c` in `s`, if `s` holds one.
pub open spec fn after_first(s: Seq<char>, c: char) -> Option<Seq<char>> {
    match find_first(s, c) {
        Some(i) => Some(s.skip(i + 1)),
        None => None,
    }
}

pub proof fn lemma_find_first(s: Seq<char>, c: char, i: int)
    requires
        0 <= i <= s.len(),
        forall|j: int| 0 <= j < i ==> s[j] != c,
    ensures
        i < s.len() && s[i] == c ==> find_first(s, c) == Some(i),
        i == s.len() ==> find_first(s, c) is None,
    decreases i,
{
    if i > 0 {
        lemma_find_first(s.drop_first(), c, i - 1);
    } else if s.len() > 0 {
    }
}

/// Splits `s` at its first `c`: the part before it, and the part after it if there
/// is one (as `str::split_once`, with the whole of `s` first when there is none).
pub fn split_once(s: &[char], c: char) -> (r: (Vec<char>, Option<Vec<char>>))
    ensures
        r.0@ == before_first(s@, c),
        match after_first(s@, c) {
            Some(a) => r.1 matches Some(v) && v@ == a,
            None => r.1 is None,
        },
{
    let mut i: usize = 0;
    while i < s.len()
        invariant
            i <= s.len(),
            forall|j: int| 0 <= j < i ==> s@[j] != c,
        decreases s.len() - i,
    {
        if s[i] == c {
            proof {
                lemma_find_first(s@, c, i as int);
            }
            let before = copy_range(s, 0, i);
            let after = copy_range(s, i + 1, s.len());
            proof {
                assert(s@.take(i as int) =~= s@.subrange(0, i as int));
                assert(s@.skip(i + 1) =~= s@.subrange(i + 1, s@.len() as int));
            }
            return (before, Some(after));
        }
        i = i + 1;
    }
    proof {
        lemma_find_first(s@, c, i as int);
        assert(s@ =~= s@.subrange(0, s@.len() as int));
    }
    (copy_range(s, 0, s.len()), None)
}

/// Whether `s` begins with `p`.
pub open spec fn starts_with(s: Seq<char>, p: Seq<char>) -> bool {
    p.len() <= s.len() && s.take(p.len() as int) == p
}

/// Whether a character slice begins with the characters of `p`.
pub fn chars_start_with(s: &[char], p: &str) -> (r: bool)
    ensures
        r == starts_with(s@, p@),
{
    let pc = chars_of(p);
    if pc.len() > s.len() {
        return false;
    }
    let head = copy_range(s, 0, pc.len());
    proof {
        assert(head@ =~= s@.take(pc@.len() as int));
    }
    chars_eq(head.as_slice(), pc.as_slice())
}

/// Whether a character slice is exactly the text `t`.
pub fn chars_are(s: &[char], t: &str) -> (r: bool)
    ensures
        r == (s@ == t@),
{
    let tc = chars_of(t);
    chars_eq(s, tc.as_slice())
}

/// `s` without one trailing carriage return.
pub open spec fn strip_cr(s: Seq<char>) -> Seq<char> {
    if s.len() > 0 && s.last() == '\r' {
        s.drop_last()
    } else {
        s
    }
}

/// The lines of a text: pieces between line feeds, each without a trailing carriage
/// return.
pub open spec fn lines_spec(s: Seq<char>) -> Seq<Seq<char>> {
    split_spec(s, '\n').map_values(|l: Seq<char>| strip_cr(l))
}

/// Splits a text into its lines (see [`lines_spec`]).
pub fn lines_of(s: &[char]) -> (r: Vec<Vec<char>>)
    ensures
        views(r@) == lines_spec(s@),
{
    let raw = split_chars(s, '\n');
    let mut out: Vec<Vec<char>> = Vec::new();
    let mut i: usize = 0;
    while i < raw.len()
        invariant
            i <= raw.len(),
            views(raw@) == split_spec(s@, '\n'),
            views(out@) == split_spec(s@, '\n').take(i as int).map_values(
                |l: Seq<char>| strip_cr(l),
            ),
        decreases raw.len() - i,
    {
        let line = &raw[i];
        let n = line.len();
        let mut l: Vec<char> = Vec::new();
        let end: usize = if n > 0 && line[n - 1] == '\r' { n - 1 } else { n };
        let mut j: usize = 0;
        while j < end
            invariant
                j <= end <= n == line@.len(),
                l@ == line@.take(j as int),
            decreases end - j,
        {
            l.push(line[j]);
            proof {
                assert(line@.take(j + 1) =~= line@.take(j as int).push(line@[j as int]));
            }
            j = j + 1;
        }
        proof {
            assert(views(raw@)[i as int] == line@);
            assert(l@ =~= strip_cr(line@));
        }
        let ghost before = views(out@);
        out.push(l);
        proof {
            assert(views(out@) =~= before.push(l@));
            assert(views(out@) =~= split_spec(s@, '\n').take(i + 1).map_values(
                |l: Seq<char>| strip_cr(l),
            ));
        }
        i = i + 1;
    }
    proof {
        assert(split_spec(s@, '\n').take(raw.len() as int) =~= split_spec(s@, '\n'));
    }
    out
}

/// `s` with trailing spaces and tabs removed.
pub open spec fn trim_end_spec(s: Seq<char>) -> Seq<char>
    decreases s.len(),
{
    if s.len() > 0 && (s.last() == ' ' || s.last() == '\t') {
        trim_end_spec(s.drop_last())
    } else {
        s
    }
}

/// Removes trailing spaces and tabs.
pub fn trim_end(s: &[char]) -> (r: Vec<char>)
    ensures
        r@ == trim_end_spec(s@),
{
    let mut end = s.len();
    proof {
        assert(s@.take(end as int) =~= s@);
    }
    while end > 0 && (s[end - 1] == ' ' || s[end - 1] == '\t')
        invariant
            end <= s.len(),
            trim_end_spec(s@) == trim_end_spec(s@.take(end as int)),
        decreases end,
    {
        proof {
            assert(s@.take(end as int).drop_last() =~= s@.take(end - 1));
        }
        end = end - 1;
    }
    copy_range(s, 0, end)
}

/// Whether `c` is white space in Unicode's sense (its White_Space property), as
/// `char::is_whitespace` tells.
pub open spec fn is_white_space(c: char) -> bool {
    let u = c as u32;
    (0x09 <= u <= 0x0d) || u == 0x20 || u == 0x85 || u == 0xa0 || u == 0x1680 || (0x2000 <= u
        <= 0x200a) || u == 0x2028 || u == 0x2029 || u == 0x202f || u == 0x205f || u == 0x3000
}

/// Whether `c` is white space (see [`is_white_space`]).
pub fn white_space(c: char) -> (r: bool)
    ensures
        r == is_white_space(c),
{
    let u = c as u32;
    (0x09 <= u && u <= 0x0d) || u == 0x20 || u == 0x85 || u == 0xa0 || u == 0x1680 || (0x2000 <= u
        && u <= 0x200a) || u == 0x2028 || u == 0x2029 || u == 0x202f || u == 0x205f || u == 0x3000
}

/// `s` with trailing white space (see [`is_white_space`]) removed, as
/// `str::trim_end` does.
pub open spec fn trim_white_end_spec(s: Seq<char>) -> Seq<char>
    decreases s.len(),
{
    if s.len() > 0 && is_white_space(s.last()) {
        trim_white_end_spec(s.drop_last())
    } else {
        s
    }
}

/// Removes trailing white space (see [`trim_white_end_spec`]).
pub fn trim_white_end(s: &[char]) -> (r: Vec<char>)
    ensures
        r@ == trim_white_end_spec(s@),
{
    let mut end = s.len();
    proof {
        assert(s@.take(end as int) =~= s@);
    }
    while end > 0 && white_space(s[end - 1])
        invariant
            end <= s.len(),
            trim_white_end_spec(s@) == trim_white_end_spec(s@.take(end as int)),
        decreases end,
    {
        proof {
            assert(s@.take(end as int).drop_last() =~= s@.take(end - 1));
        }
        end = end - 1;
    }
    copy_range(s, 0, end)
}

/// The characters `s[from..to]`.
pub fn copy_range(s: &[char], from: usize, to: usize) -> (r: Vec<char>)
    requires
        from <= to <= s.len(),
    ensures
        r@ == s@.subrange(from as int, to as int),
{
    let mut r: Vec<char> = Vec::new();
    let mut k = from;
    while k < to
        invariant
            from <= k <= to <= s.len(),
            r@ == s@.subrange(from as int, k as int),
        decreases to - k,
    {
        r.push(s[k]);
        proof {
            assert(s@.subrange(from as int, k + 1) =~= s@.subrange(from as int, k as int).push(
                s@[k as int],
            ));
        }
        k = k + 1;
    }
    r
}

/// Whether two strings hold the same characters.
pub fn str_eq(a: &str, b: &str) -> (r: bool)
    ensures
        r == (a@ == b@),
{
    let x = chars_of(a);
    let y = chars_of(b);
    chars_eq(&x, &y)
}

/// Whether two character sequences are equal.
pub fn chars_eq(a: &[char], b: &[char]) -> (r: bool)
    ensures
        r == (a@ == b@),
{
    if a.len() != b.len() {
        return false;
    }
    let mut i: usize = 0;
    while i < a.len()
        invariant
            a.len() == b.len(),
            i <= a.len(),
            forall|k: int| 0 <= k < i ==> a@[k] == b@[k],
        decreases a.len() - i,
    {
        if a[i] != b[i] {
            return false;
        }
        i = i + 1;
    }
    proof {
        assert(a@ =~= b@);
    }
    true
}

// ---------------------------------------------------------------------------
// Unsigned numbers

/// The value of digit character `c` in any radix up to ten (`'0'` is code point 48).
pub open spec fn digit_value(c: char) -> int {
    c as u32 - 48
}

/// Whether `c` is a digit of `radix` (at most ten): one of `'0'`, `'1'`, ... in
/// code point order.
pub open spec fn is_radix_digit(c: char, radix: nat) -> bool {
    48 <= c as u32 && c as u32 - 48 < radix
}

/// The value of the digit string `s` in `radix`, most significant digit first.
pub open spec fn digits_value(s: Seq<char>, radix: nat) -> int
    decreases s.len(),
{
    if s.len() == 0 {
        0
    } else {
        digits_value(s.drop_last(), radix) * radix + digit_value(s.last())
    }
}

pub open spec fn all_radix_digits(s: Seq<char>, radix: nat) -> bool {
    forall|i: int| 0 <= i < s.len() ==> is_radix_digit(#[trigger] s[i], radix)
}

/// What std's unsigned `from_str_radix` reads from `s` (radix at most ten), before
/// the range check: an optional `+`, then at least one digit.
pub open spec fn unsigned_text_value(s: Seq<char>, radix: nat) -> Option<int> {
    let d = if s.len() > 0 && s[0] == '+' {
        s.drop_first()
    } else {
        s
    };
    if d.len() > 0 && all_radix_digits(d, radix) {
        Some(digits_value(d, radix))
    } else {
        None
    }
}

/// The number that std's unsigned `from_str_radix` (radix at most ten) reads from
/// `s` when it fits under `max`.
pub open spec fn unsigned_parse_spec(s: Seq<char>, radix: nat, max: int) -> Option<int> {
    match unsigned_text_value(s, radix) {
        Some(v) => if v <= max {
            Some(v)
        } else {
            None
        },
        None => None,
    }
}

pub proof fn lemma_digits_value_nonneg(s: Seq<char>, radix: nat)
    requires
        all_radix_digits(s, radix),
    ensures
        digits_value(s, radix) >= 0,
    decreases s.len(),
{
    if s.len() > 0 {
        assert(all_radix_digits(s.drop_last(), radix)) by {
            assert forall|i: int| 0 <= i < s.drop_last().len() implies is_radix_digit(
                #[trigger] s.drop_last()[i],
                radix,
            ) by {
                assert(s.drop_last()[i] == s[i]);
            }
        }
        lemma_digits_value_nonneg(s.drop_last(), radix);
        assert(is_radix_digit(s[s.len() - 1], radix));
        assert(digits_value(s.drop_last(), radix) * radix >= 0) by (nonlinear_arith)
            requires
                digits_value(s.drop_last(), radix) >= 0,
        ;
    }
}

/// A number read from text is never negative.
pub proof fn lemma_unsigned_text_value_nonneg(s: Seq<char>, radix: nat)
    ensures
        unsigned_text_value(s, radix) matches Some(v) ==> v >= 0,
{
    let d = if s.len() > 0 && s[0] == '+' {
        s.drop_first()
    } else {
        s
    };
    if d.len() > 0 && all_radix_digits(d, radix) {
        lemma_digits_value_nonneg(d, radix);
    }
}

/// A longer all-digit string is worth at least as much as its prefix.
pub proof fn lemma_digits_value_prefix(s: Seq<char>, k: int, radix: nat)
    requires
        0 <= k <= s.len(),
        all_radix_digits(s, radix),
        radix >= 1,
    ensures
        digits_value(s, radix) >= digits_value(s.take(k), radix),
    decreases s.len() - k,
{
    if k < s.len() {
        lemma_digits_value_prefix(s, k + 1, radix);
        let p = s.take(k + 1);
        assert(p.drop_last() =~= s.take(k));
        assert(all_radix_digits(s.take(k), radix)) by {
            assert forall|i: int| 0 <= i < s.take(k).len() implies is_radix_digit(
                #[trigger] s.take(k)[i],
                radix,
            ) by {
                assert(s.take(k)[i] == s[i]);
            }
        }
        lemma_digits_value_nonneg(s.take(k), radix);
        assert(is_radix_digit(s[k], radix));
        assert(p.last() == s[k]);
        let a = digits_value(s.take(k), radix);
        assert(a * radix >= a) by (nonlinear_arith)
            requires
                a >= 0,
                radix >= 1,
        ;
        assert(digits_value(p, radix) == digits_value(p.drop_last(), radix) * radix + digit_value(
            p.last(),
        ));
        assert(digit_value(s[k]) >= 0);
        assert(digits_value(p, radix) >= a);
    } else {
        assert(s.take(k) =~= s);
    }
}

/// Reads an unsigned number in `radix` (2 to 10) from `s`, as std's unsigned
/// `from_str_radix` does for a type whose largest value is `max`.
pub fn parse_unsigned(s: &[char], radix: u32, max: u64) -> (r: Option<u64>)
    requires
        2 <= radix <= 10,
        max >= 9,
    ensures
        r == match unsigned_parse_spec(s@, radix as nat, max as int) {
            Some(v) => Some(v as u64),
            None => None::<u64>,
        },
{
    let start: usize = if s.len() > 0 && s[0] == '+' { 1 } else { 0 };
    let ghost d = if s@.len() > 0 && s@[0] == '+' { s@.drop_first() } else { s@ };
    proof {
        assert(d =~= s@.subrange(start as int, s@.len() as int));
    }
    if start == s.len() {
        return None;
    }
    let mut acc: u64 = 0;
    let mut i: usize = start;
    while i < s.len()
        invariant
            start <= i <= s.len(),
            2 <= radix <= 10,
            max >= 9,
            d == s@.subrange(start as int, s@.len() as int),
            d == (if s@.len() > 0 && s@[0] == '+' {
                s@.drop_first()
            } else {
                s@
            }),
            acc <= max,
            all_radix_digits(d.take(i - start), radix as nat),
            acc as int == digits_value(d.take(i - start), radix as nat),
        decreases s.len() - i,
    {
        let c = s[i];
        let ghost k: int = i - start;
        proof {
            assert(d[k] == c);
        }
        let cu = c as u32;
        proof {
            assert(cu == c as u32);
        }
        if cu < 48 || cu - 48 >= radix {
            proof {
                assert(!is_radix_digit(d[k], radix as nat));
                assert(!all_radix_digits(d, radix as nat));
                assert(unsigned_text_value(s@, radix as nat) is None);
            }
            return None;
        }
        let dv: u64 = (cu - 48) as u64;
        proof {
            assert(d.take(k + 1).drop_last() =~= d.take(k));
            assert(d.take(k + 1).last() == c);
            assert(is_radix_digit(c, radix as nat));
            assert(all_radix_digits(d.take(k + 1), radix as nat)) by {
                assert forall|j: int| 0 <= j < d.take(k + 1).len() implies is_radix_digit(
                    #[trigger] d.take(k + 1)[j],
                    radix as nat,
                ) by {
                    if j < k {
                        assert(d.take(k + 1)[j] == d.take(k)[j]);
                    }
                }
            }
        }
        let too_big = acc > (max - dv) / (radix as u64);
        if too_big {
            // the value read so far is already beyond `max`
            proof {
                let v = digits_value(d.take(k + 1), radix as nat);
                assert(v == acc * radix + dv);
                assert(acc * radix + dv > max) by (nonlinear_arith)
                    requires
                        acc > (max - dv) / (radix as int),
                        radix >= 2,
                        dv <= max,
                        acc >= 0,
                ;
                // whatever follows either is no digit or only makes it larger
                if all_radix_digits(d, radix as nat) {
                    lemma_digits_value_prefix(d, k + 1, radix as nat);
                }
            }
            return None;
        }
        proof {
            assert(acc * radix + dv <= max) by (nonlinear_arith)
                requires
                    acc <= (max - dv) / (radix as int),
                    radix >= 2,
                    dv <= max,
            ;
        }
        acc = acc * (radix as u64) + dv;
        i = i + 1;
    }
    proof {
        assert(d.take(s.len() - start) =~= d);
    }
    Some(acc)
}

/// What std's `i8::from_str` reads from `s`: an optional sign, then at least one
/// decimal digit, the value within `-128..=127`.
pub open spec fn i8_parse_spec(s: Seq<char>) -> Option<int> {
    if s.len() > 0 && s[0] == '-' {
        let d = s.drop_first();
        if d.len() > 0 && all_radix_digits(d, 10) && digits_value(d, 10) <= 128 {
            Some(-digits_value(d, 10))
        } else {
            None
        }
    } else {
        unsigned_parse_spec(s, 10, 127)
    }
}

/// Reads an `i8` as `str::parse::<i8>` does (see [`i8_parse_spec`]).
pub fn parse_i8(s: &[char]) -> (r: Option<i8>)
    ensures
        r is None <==> i8_parse_spec(s@) is None,
        r matches Some(x) ==> i8_parse_spec(s@) == Some(x as int),
{
    if s.len() > 0 && s[0] == '-' {
        let d = copy_range(s, 1, s.len());
        proof {
            assert(d@ =~= s@.drop_first());
        }
        if d.len() == 0 || d[0] == '+' {
            proof {
                if d@.len() > 0 {
                    assert(!is_radix_digit(d@[0], 10));
                }
            }
            return None;
        }
        proof {
            lemma_unsigned_text_value_nonneg(d@, 10);
        }
        match parse_unsigned(d.as_slice(), 10, 128) {
            Some(v) => {
                let r: i8 = if v == 128 { -128 } else { -(v as i8) };
                Some(r)
            },
            None => None,
        }
    } else {
        proof {
            lemma_unsigned_text_value_nonneg(s@, 10);
        }
        match parse_unsigned(s, 10, 127) {
            Some(v) => Some(v as i8),
            None => None,
        }
    }
}

/// Reads an unsigned decimal number no larger than `max`, as `str::parse` does for
/// an unsigned type whose largest value is `max`.
pub fn parse_decimal(s: &[char], max: u64) -> (r: Option<u64>)
    requires
        max >= 9,
    ensures
        r is None <==> unsigned_parse_spec(s@, 10, max as int) is None,
        r matches Some(x) ==> unsigned_parse_spec(s@, 10, max as int) == Some(x as int),
{
    proof {
        lemma_unsigned_text_value_nonneg(s@, 10);
    }
    parse_unsigned(s, 10, max)
}

/// What std's signed `from_str` reads from `s` for a type whose values run from
/// `-neg_max` to `max`: an optional sign, then at least one decimal digit, the value
/// within range.
pub open spec fn signed_parse_spec(s: Seq<char>, neg_max: int, max: int) -> Option<int> {
    if s.len() > 0 && s[0] == '-' {
        let d = s.drop_first();
        if d.len() > 0 && all_radix_digits(d, 10) && digits_value(d, 10) <= neg_max {
            Some(-digits_value(d, 10))
        } else {
            None
        }
    } else {
        unsigned_parse_spec(s, 10, max)
    }
}

/// Reads a signed decimal number between `-neg_max` and `max` (see
/// [`signed_parse_spec`]).
pub fn parse_signed(s: &[char], neg_max: u64, max: u64) -> (r: Option<i64>)
    requires
        9 <= neg_max <= 0x8000_0000_0000_0000,
        9 <= max <= 0x7fff_ffff_ffff_ffff,
    ensures
        r is None <==> signed_parse_spec(s@, neg_max as int, max as int) is None,
        r matches Some(x) ==> signed_parse_spec(s@, neg_max as int, max as int) == Some(
            x as int,
        ),
        r matches Some(x) ==> -(neg_max as int) <= x <= max,
{
    if s.len() > 0 && s[0] == '-' {
        let d = copy_range(s, 1, s.len());
        proof {
            assert(d@ =~= s@.drop_first());
        }
        if d.len() == 0 || d[0] == '+' {
            proof {
                if d@.len() > 0 {
                    assert(!is_radix_digit(d@[0], 10));
                }
            }
            return None;
        }
        proof {
            lemma_unsigned_text_value_nonneg(d@, 10);
        }
        match parse_unsigned(d.as_slice(), 10, neg_max) {
            Some(v) => {
                let r: i64 = if v == 0x8000_0000_0000_0000 {
                    -0x7fff_ffff_ffff_ffff - 1
                } else {
                    -(v as i64)
                };
                Some(r)
            },
            None => None,
        }
    } else {
        proof {
            lemma_unsigned_text_value_nonneg(s@, 10);
        }
        match parse_unsigned(s, 10, max) {
            Some(v) => Some(v as i64),
            None => None,
        }
    }
}

/// Reads an `i32` as `str::parse::<i32>` does.
pub fn parse_i32(s: &[char]) -> (r: Option<i32>)
    ensures
        r is None <==> signed_parse_spec(s@, 0x8000_0000, 0x7fff_ffff) is None,
        r matches Some(x) ==> signed_parse_spec(s@, 0x8000_0000, 0x7fff_ffff) == Some(x as int),
{
    match parse_signed(s, 0x8000_0000, 0x7fff_ffff) {
        Some(v) => Some(v as i32),
        None => None,
    }
}

/// Reads an `i64` as `str::parse::<i64>` does.
pub fn parse_i64(s: &[char]) -> (r: Option<i64>)
    ensures
        r is None <==> signed_parse_spec(s@, 0x8000_0000_0000_0000, 0x7fff_ffff_ffff_ffff) is None,
        r matches Some(x) ==> signed_parse_spec(s@, 0x8000_0000_0000_0000, 0x7fff_ffff_ffff_ffff)
            == Some(x as int),
{
    parse_signed(s, 0x8000_0000_0000_0000, 0x7fff_ffff_ffff_ffff)
}

/// `s` with leading spaces and tabs removed.
pub open spec fn trim_start_spec(s: Seq<char>) -> Seq<char>
    decreases s.len(),
{
    if s.len() > 0 && (s[0] == ' ' || s[0] == '\t') {
        trim_start_spec(s.drop_first())
    } else {
        s
    }
}

/// `s` without leading and trailing spaces and tabs.
pub open spec fn trim_spec(s: Seq<char>) -> Seq<char> {
    trim_start_spec(trim_end_spec(s))
}

/// Removes leading and trailing spaces and tabs.
pub fn trim(s: &[char]) -> (r: Vec<char>)
    ensures
        r@ == trim_spec(s@),
{
    let e = trim_end(s);
    let mut start: usize = 0;
    proof {
        assert(e@.skip(0) =~= e@);
    }
    while start < e.len() && (e[start] == ' ' || e[start] == '\t')
        invariant
            start <= e@.len(),
            trim_start_spec(e@) == trim_start_spec(e@.skip(start as int)),
        decreases e@.len() - start,
    {
        proof {
            assert(e@.skip(start as int).drop_first() =~= e@.skip(start + 1));
        }
        start = start + 1;
    }
    proof {
        assert(e@.subrange(start as int, e@.len() as int) =~= e@.skip(start as int));
    }
    copy_range(&e, start, e.len())
}

/// The words of `s`: its pieces between spaces, empty ones left out.
pub open spec fn words_spec(s: Seq<char>) -> Seq<Seq<char>> {
    split_spec(s, ' ').filter(|w: Seq<char>| w.len() > 0)
}

/// Splits `s` into its words (see [`words_spec`]).
pub fn words(s: &[char]) -> (r: Vec<Vec<char>>)
    ensures
        views(r@) == words_spec(s@),
{
    let pieces = split_chars(s, ' ');
    let ghost ps = split_spec(s@, ' ');
    let ghost f = |w: Seq<char>| w.len() > 0;
    let mut r: Vec<Vec<char>> = Vec::new();
    let mut i: usize = 0;
    while i < pieces.len()
        invariant
            i <= pieces@.len(),
            views(pieces@) == ps,
            ps == split_spec(s@, ' '),
            f == (|w: Seq<char>| w.len() > 0),
            views(r@) == ps.take(i as int).filter(f),
        decreases pieces@.len() - i,
    {
        proof {
            assert(ps.take(i + 1).drop_last() =~= ps.take(i as int));
            assert(ps.take(i + 1).last() == pieces@[i as int]@);
            ps.take(i as int).lemma_filter_push(ps[i as int], f);
            assert(ps.take(i as int).push(ps[i as int]) =~= ps.take(i + 1));
        }
        if pieces[i].len() > 0 {
            let ghost before = views(r@);
            let w = copy_range(&pieces[i], 0, pieces[i].len());
            proof {
                assert(w@ =~= pieces@[i as int]@);
            }
            r.push(w);
            proof {
                assert(views(r@) =~= before.push(w@));
            }
        }
        i = i + 1;
    }
    proof {
        assert(ps.take(pieces@.len() as int) =~= ps);
    }
    r
}

/// The fields of a tab-separated line, each without surrounding blanks.
pub open spec fn tab_fields(l: Seq<char>) -> Seq<Seq<char>> {
    split_spec(l, '\t').map_values(|f: Seq<char>| trim_spec(f))
}

/// Splits a line into its tab-separated fields (see [`tab_fields`]).
pub fn tab_fields_of(l: &[char]) -> (r: Vec<Vec<char>>)
    ensures
        views(r@) == tab_fields(l@),
{
    let pieces = split_chars(l, '\t');
    let ghost ps = split_spec(l@, '\t');
    let mut r: Vec<Vec<char>> = Vec::new();
    let mut i: usize = 0;
    while i < pieces.len()
        invariant
            i <= pieces@.len(),
            views(pieces@) == ps,
            ps == split_spec(l@, '\t'),
            views(r@) == ps.take(i as int).map_values(|f: Seq<char>| trim_spec(f)),
        decreases pieces@.len() - i,
    {
        let ghost before = views(r@);
        let t = trim(&pieces[i]);
        r.push(t);
        proof {
            assert(ps[i as int] == pieces@[i as int]@);
            assert(views(r@) =~= before.push(t@));
            assert(views(r@) =~= ps.take(i + 1).map_values(|f: Seq<char>| trim_spec(f)));
        }
        i = i + 1;
    }
    proof {
        assert(ps.take(pieces@.len() as int) =~= ps);
    }
    r
}

/// Whether `a` comes before `b` in the order of `str`'s comparison: character by
/// character by code point, a proper prefix first.
pub open spec fn seq_lt(a: Seq<char>, b: Seq<char>) -> bool
    decreases a.len(),
{
    if a.len() == 0 {
        b.len() > 0
    } else if b.len() == 0 {
        false
    } else if a[0] != b[0] {
        (a[0] as u32) < (b[0] as u32)
    } else {
        seq_lt(a.drop_first(), b.drop_first())
    }
}

/// Whether `a` comes before `b` (see [`seq_lt`]).
pub fn chars_lt(a: &[char], b: &[char]) -> (r: bool)
    ensures
        r == seq_lt(a@, b@),
{
    let mut i: usize = 0;
    proof {
        assert(a@.skip(0) =~= a@);
        assert(b@.skip(0) =~= b@);
    }
    while i < a.len() && i < b.len()
        invariant
            i <= a@.len(),
            i <= b@.len(),
            seq_lt(a@, b@) == seq_lt(a@.skip(i as int), b@.skip(i as int)),
        decreases a@.len() - i,
    {
        proof {
            assert(a@.skip(i as int)[0] == a@[i as int]);
            assert(b@.skip(i as int)[0] == b@[i as int]);
        }
        if a[i] != b[i] {
            return (a[i] as u32) < (b[i] as u32);
        }
        proof {
            assert(a@.skip(i as int).drop_first() =~= a@.skip(i + 1));
            assert(b@.skip(i as int).drop_first() =~= b@.skip(i + 1));
        }
        i = i + 1;
    }
    i == a.len() && i < b.len()
}

} // verus!
