//! Decimal degrees as written in the navigation data files, quantized to whole
//! micro-degrees.
//!
//! A number is an optional sign, at least one digit, and optionally a point followed
//! by at least one digit. It is rounded to six decimals, a seventh decimal of five or
//! more rounding the magnitude up. At most nine digits may stand before the point.
use vstd::prelude::*;

use crate::text::{all_radix_digits, digit_value, digits_value, is_radix_digit};

verus! {

/// Ten to the power `n`.
pub open spec fn pow10(n: nat) -> int
    decreases n,
{
    if n == 0 {
        1
    } else {
        10 * pow10((n - 1) as nat)
    }
}

/// The six-decimal value of the fraction digits `f`, rounded on the seventh.
pub open spec fn micro_fraction(f: Seq<char>) -> int {
    if f.len() <= 6 {
        digits_value(f, 10) * pow10((6 - f.len()) as nat)
    } else if digit_value(f[6]) >= 5 {
        digits_value(f.take(6), 10) + 1
    } else {
        digits_value(f.take(6), 10)
    }
}

/// The magnitude of an unsigned decimal number in micro-units.
pub open spec fn unsigned_micro(s: Seq<char>) -> Option<int> {
    let dot = crate::text::find_first(s, '.');
    let (i, f) = match dot {
        Some(k) => (s.take(k), s.skip(k + 1)),
        None => (s, seq![]),
    };
    if i.len() == 0 || i.len() > 9 || !all_radix_digits(i, 10) || !all_radix_digits(f, 10) || (
    dot is Some && f.len() == 0) {
        None
    } else {
        Some(digits_value(i, 10) * 1_000_000 + micro_fraction(f))
    }
}

/// A signed decimal number in micro-units (see the module's documentation).
pub open spec fn micro_value(s: Seq<char>) -> Option<int> {
    if s.len() > 0 && s[0] == '-' {
        match unsigned_micro(s.drop_first()) {
            Some(v) => Some(-v),
            None => None,
        }
    } else if s.len() > 0 && s[0] == '+' {
        unsigned_micro(s.drop_first())
    } else {
        unsigned_micro(s)
    }
}

pub proof fn lemma_digits_bound(s: Seq<char>)
    requires
        all_radix_digits(s, 10),
    ensures
        0 <= digits_value(s, 10) < pow10(s.len()),
    decreases s.len(),
{
    if s.len() > 0 {
        assert(all_radix_digits(s.drop_last(), 10)) by {
            assert forall|i: int| 0 <= i < s.drop_last().len() implies is_radix_digit(
                #[trigger] s.drop_last()[i],
                10,
            ) by {
                assert(s.drop_last()[i] == s[i]);
            }
        }
        lemma_digits_bound(s.drop_last());
        assert(is_radix_digit(s[s.len() - 1], 10));
    }
}

pub proof fn lemma_pow10_pos(n: nat)
    ensures
        1 <= pow10(n),
    decreases n,
{
    if n > 0 {
        lemma_pow10_pos((n - 1) as nat);
    }
}

pub proof fn lemma_pow10_mono(a: nat, b: nat)
    requires
        a <= b,
    ensures
        1 <= pow10(a) <= pow10(b),
    decreases b,
{
    lemma_pow10_pos(a);
    if b > a {
        lemma_pow10_mono(a, (b - 1) as nat);
    }
}

pub proof fn lemma_pow10_9()
    ensures
        pow10(9) == 1_000_000_000,
        pow10(6) == 1_000_000,
{
    reveal_with_fuel(pow10, 10);
}

/// Reads the digits of `s[from..to]` as a number.
pub fn read_digits(s: &[char], from: usize, to: usize) -> (r: Option<u64>)
    requires
        from <= to <= s.len(),
        to - from <= 9,
    ensures
        r is Some <==> all_radix_digits(s@.subrange(from as int, to as int), 10),
        r matches Some(v) ==> v == digits_value(s@.subrange(from as int, to as int), 10),
        r matches Some(v) ==> v < pow10((to - from) as nat),
{
    let mut acc: u64 = 0;
    let mut i = from;
    proof {
        assert(s@.subrange(from as int, from as int) =~= Seq::<char>::empty());
    }
    while i < to
        invariant
            from <= i <= to <= s.len(),
            to - from <= 9,
            all_radix_digits(s@.subrange(from as int, i as int), 10),
            acc == digits_value(s@.subrange(from as int, i as int), 10),
            acc < pow10((i - from) as nat),
        decreases to - i,
    {
        let c = s[i];
        let cu = c as u32;
        let ghost sub = s@.subrange(from as int, i + 1);
        proof {
            assert(sub.drop_last() =~= s@.subrange(from as int, i as int));
            assert(sub.last() == c);
        }
        if cu < 48 || cu > 57 {
            proof {
                assert(!is_radix_digit(c, 10));
                assert(s@.subrange(from as int, to as int)[i - from] == c);
            }
            return None;
        }
        proof {
            assert(all_radix_digits(sub, 10)) by {
                assert forall|k: int| 0 <= k < sub.len() implies is_radix_digit(#[trigger] sub[k], 10) by {
                    if k < sub.len() - 1 {
                        assert(sub[k] == s@.subrange(from as int, i as int)[k]);
                    }
                }
            }
            lemma_pow10_mono((i - from) as nat, 9);
            lemma_pow10_9();
            assert(pow10((i + 1 - from) as nat) == 10 * pow10((i - from) as nat));
        }
        acc = acc * 10 + (cu - 48) as u64;
        i = i + 1;
    }
    Some(acc)
}

/// Ten to the power `n`, for `n` up to nine.
fn pow10_u64(n: usize) -> (r: u64)
    requires
        n <= 9,
    ensures
        r == pow10(n as nat),
        r <= 1_000_000_000,
{
    let mut r: u64 = 1;
    let mut i: usize = 0;
    while i < n
        invariant
            i <= n <= 9,
            r == pow10(i as nat),
            r <= pow10(i as nat),
        decreases n - i,
    {
        proof {
            lemma_pow10_mono((i + 1) as nat, 9);
            lemma_pow10_9();
        }
        r = r * 10;
        i = i + 1;
    }
    proof {
        lemma_pow10_mono(n as nat, 9);
        lemma_pow10_9();
    }
    r
}

/// Reads an unsigned decimal number in micro-units (see [`unsigned_micro`]).
fn parse_unsigned_micro(u: &[char]) -> (r: Option<i64>)
    ensures
        r matches Some(v) ==> unsigned_micro(u@) == Some(v as int),
        r is None ==> unsigned_micro(u@) is None,
        r matches Some(v) ==> 0 <= v <= 1_000_000_000_000_000,
{
    let (int_part, frac) = crate::text::split_once(u, '.');
    let ghost dot = crate::text::find_first(u@, '.');
    proof {
        match dot {
            Some(k) => {
                assert(int_part@ == u@.take(k));
            },
            None => {
                assert(int_part@ == u@);
            },
        }
    }
    if int_part.len() == 0 || int_part.len() > 9 {
        return None;
    }
    proof {
        assert(int_part@.subrange(0, int_part@.len() as int) =~= int_part@);
    }
    let iv = match read_digits(&int_part, 0, int_part.len()) {
        None => {
            return None;
        },
        Some(v) => v,
    };
    proof {
        lemma_digits_bound(int_part@);
        lemma_pow10_mono(int_part@.len(), 9);
        lemma_pow10_9();
    }
    let fv: u64 = match frac {
        None => {
            proof {
                assert(all_radix_digits(Seq::<char>::empty(), 10));
                assert(digits_value(Seq::<char>::empty(), 10) == 0);
            }
            0
        },
        Some(f) => {
            proof {
                assert(f@ == u@.skip(dot.unwrap() + 1));
            }
            if f.len() == 0 {
                return None;
            }
            if f.len() <= 6 {
                proof {
                    assert(f@.subrange(0, f@.len() as int) =~= f@);
                }
                let v = match read_digits(&f, 0, f.len()) {
                    None => {
                        return None;
                    },
                    Some(v) => v,
                };
                let p = pow10_u64(6 - f.len());
                proof {
                    lemma_pow10_pos((6 - f@.len()) as nat);
                    lemma_digits_bound(f@);
                    lemma_pow10_mono(f@.len(), 6);
                    lemma_pow10_9();
                    assert(pow10(f@.len()) * pow10((6 - f@.len()) as nat) == pow10(6)) by {
                        lemma_pow10_add(f@.len(), (6 - f@.len()) as nat);
                    }
                    assert(v * p < 1_000_000) by (nonlinear_arith)
                        requires
                            v < pow10(f@.len()),
                            pow10(f@.len()) * p == 1_000_000,
                            p >= 1,
                    ;
                }
                v * p
            } else {
                proof {
                    assert(f@.take(6) =~= f@.subrange(0, 6));
                }
                let q = match read_digits(&f, 0, 6) {
                    None => {
                        proof {
                            assert(!all_radix_digits(f@, 10)) by {
                                let k = choose|k: int| 0 <= k < 6 && !is_radix_digit(#[trigger] f@.subrange(0, 6)[k], 10);
                                assert(f@.subrange(0, 6)[k] == f@[k]);
                            }
                        }
                        return None;
                    },
                    Some(q) => q,
                };
                let mut k: usize = 6;
                while k < f.len()
                    invariant
                        6 <= k <= f@.len(),
                        dot == crate::text::find_first(u@, '.'),
                        dot is Some,
                        f@ == u@.skip(dot.unwrap() + 1),
                        all_radix_digits(f@.subrange(0, 6), 10),
                        forall|j: int| 6 <= j < k ==> is_radix_digit(#[trigger] f@[j], 10),
                    decreases f@.len() - k,
                {
                    let cu = f[k] as u32;
                    if cu < 48 || cu > 57 {
                        proof {
                            assert(!is_radix_digit(f@[k as int], 10));
                            assert(!all_radix_digits(f@, 10));
                        }
                        return None;
                    }
                    k = k + 1;
                }
                proof {
                    assert forall|j: int| 0 <= j < f@.len() implies is_radix_digit(#[trigger] f@[j], 10) by {
                        if j < 6 {
                            assert(f@.subrange(0, 6)[j] == f@[j]);
                        }
                    }
                    lemma_digits_bound(f@.take(6));
                    lemma_pow10_9();
                    assert(pow10(6) == 1_000_000);
                }
                let d = f[6] as u32 - 48;
                if d >= 5 {
                    q + 1
                } else {
                    q
                }
            }
        },
    };
    proof {
        assert(fv <= 1_000_000);
    }
    Some((iv * 1_000_000 + fv) as i64)
}

proof fn lemma_pow10_add(a: nat, b: nat)
    ensures
        pow10(a) * pow10(b) == pow10(a + b),
    decreases a,
{
    if a > 0 {
        lemma_pow10_add((a - 1) as nat, b);
        assert(pow10(a) * pow10(b) == 10 * (pow10((a - 1) as nat) * pow10(b))) by (nonlinear_arith)
            requires
                pow10(a) == 10 * pow10((a - 1) as nat),
        ;
    }
}

/// The six-decimal value of fraction digits is at most one million.
proof fn lemma_micro_fraction_bound(f: Seq<char>)
    requires
        all_radix_digits(f, 10),
    ensures
        0 <= micro_fraction(f) <= 1_000_000,
{
    lemma_pow10_9();
    if f.len() <= 6 {
        lemma_digits_bound(f);
        lemma_pow10_add(f.len(), (6 - f.len()) as nat);
        lemma_pow10_pos((6 - f.len()) as nat);
        let d = digits_value(f, 10);
        let a = pow10(f.len());
        let b = pow10((6 - f.len()) as nat);
        assert(d * b <= a * b) by (nonlinear_arith)
            requires
                0 <= d < a,
                1 <= b,
        ;
        assert(0 <= d * b) by (nonlinear_arith)
            requires
                0 <= d,
                1 <= b,
        ;
    } else {
        let t = f.take(6);
        assert(all_radix_digits(t, 10)) by {
            assert forall|i: int| 0 <= i < t.len() implies is_radix_digit(#[trigger] t[i], 10) by {
                assert(t[i] == f[i]);
            }
        }
        lemma_digits_bound(t);
    }
}

/// A decimal number in micro-units lies within plus or minus 10^15.
pub proof fn lemma_micro_value_bound(s: Seq<char>)
    ensures
        micro_value(s) matches Some(v) ==> -1_000_000_000_000_000 <= v <= 1_000_000_000_000_000,
{
    let u = if s.len() > 0 && (s[0] == '-' || s[0] == '+') {
        s.drop_first()
    } else {
        s
    };
    if let Some(m) = unsigned_micro(u) {
        let dot = crate::text::find_first(u, '.');
        let (i, f) = match dot {
            Some(k) => (u.take(k), u.skip(k + 1)),
            None => (u, seq![]),
        };
        lemma_digits_bound(i);
        lemma_pow10_mono(i.len(), 9);
        lemma_pow10_9();
        lemma_micro_fraction_bound(f);
        assert(0 <= digits_value(i, 10) * 1_000_000 <= 999_999_999 * 1_000_000) by (nonlinear_arith)
            requires
                0 <= digits_value(i, 10) <= 999_999_999,
        ;
    }
}

/// Reads a signed decimal number in micro-units (see the module's documentation).
pub fn parse_micro(s: &[char]) -> (r: Option<i64>)
    ensures
        r matches Some(v) ==> micro_value(s@) == Some(v as int),
        r is None ==> micro_value(s@) is None,
{
    if s.len() > 0 && (s[0] == '-' || s[0] == '+') {
        let u = crate::text::copy_range(s, 1, s.len());
        proof {
            assert(u@ =~= s@.drop_first());
        }
        match parse_unsigned_micro(&u) {
            None => None,
            Some(v) => {
                if s[0] == '-' {
                    Some(-v)
                } else {
                    Some(v)
                }
            },
        }
    } else {
        parse_unsigned_micro(s)
    }
}

// ---------------------------------------------------------------------------
// Writing

/// The decimal digits of `n`, without leading zeros.
pub open spec fn decimal_text(n: nat) -> Seq<char>
    decreases n,
{
    if n < 10 {
        seq![((n + 48) as u8) as char]
    } else {
        decimal_text(n / 10).push(((n % 10 + 48) as u8) as char)
    }
}

/// Writes a number in decimal (see [`decimal_text`]).
pub fn format_decimal(n: u64) -> (r: Vec<char>)
    ensures
        r@ == decimal_text(n as nat),
    decreases n,
{
    if n < 10 {
        let mut r: Vec<char> = Vec::new();
        r.push(((n + 48) as u8) as char);
        proof {
            assert(r@ =~= seq![((n + 48) as u8) as char]);
        }
        r
    } else {
        let mut r = format_decimal(n / 10);
        r.push(((n % 10 + 48) as u8) as char);
        r
    }
}

/// The six decimals of `r` (below a million), zero-padded.
pub open spec fn six_decimals(r: int) -> Seq<char> {
    Seq::new(6, |i: int| (((r / pow10((5 - i) as nat)) % 10 + 48) as u8) as char)
}

/// A micro-degree value written with six decimals, as `format!("{:.6}")` writes the
/// degrees.
pub open spec fn micro_text(v: int) -> Seq<char> {
    let m = if v < 0 {
        -v
    } else {
        v
    };
    (if v < 0 {
        seq!['-']
    } else {
        seq![]
    }) + decimal_text((m / 1_000_000) as nat) + seq!['.'] + six_decimals(m % 1_000_000)
}

/// Writes a micro-degree value with six decimals (see [`micro_text`]).
pub fn format_micro(v: i64) -> (r: Vec<char>)
    ensures
        r@ == micro_text(v as int),
{
    let m: u64 = if v < 0 {
        if v == -0x7fff_ffff_ffff_ffff - 1 {
            0x8000_0000_0000_0000
        } else {
            (-v) as u64
        }
    } else {
        v as u64
    };
    let mut r: Vec<char> = Vec::new();
    if v < 0 {
        r.push('-');
    }
    let mut whole = format_decimal(m / 1_000_000);
    r.append(&mut whole);
    r.push('.');
    let frac = m % 1_000_000;
    let ghost before = r@;
    let mut i: usize = 0;
    let mut p: u64 = 100_000;
    proof {
        lemma_pow10_9();
        reveal_with_fuel(pow10, 6);
    }
    while i < 6
        invariant
            i <= 6,
            frac < 1_000_000,
            i < 6 ==> p == pow10((5 - i) as nat),
            r@ == before + six_decimals(frac as int).take(i as int),
        decreases 6 - i,
    {
        proof {
            lemma_pow10_pos((5 - i) as nat);
        }
        let d = (frac / p) % 10;
        r.push(((d + 48) as u8) as char);
        proof {
            assert(six_decimals(frac as int).take(i + 1) =~= six_decimals(frac as int).take(
                i as int,
            ).push(six_decimals(frac as int)[i as int]));
            reveal_with_fuel(pow10, 6);
        }
        p = p / 10;
        i = i + 1;
    }
    proof {
        assert(six_decimals(frac as int).take(6) =~= six_decimals(frac as int));
        if v < 0 {
            assert(r@ =~= seq!['-'] + decimal_text((m / 1_000_000) as nat) + seq!['.'] + six_decimals(frac as int));
        } else {
            assert(r@ =~= Seq::<char>::empty() + decimal_text((m / 1_000_000) as nat) + seq!['.'] + six_decimals(frac as int));
        }
    }
    r
}

/// `s` right-aligned in a field of `width` characters.
pub open spec fn pad_left(s: Seq<char>, width: nat) -> Seq<char> {
    if s.len() >= width {
        s
    } else {
        Seq::new((width - s.len()) as nat, |i: int| ' ') + s
    }
}

/// Right-aligns characters in a field (see [`pad_left`]).
pub fn pad_left_exec(s: &Vec<char>, width: usize) -> (r: Vec<char>)
    ensures
        r@ == pad_left(s@, width as nat),
{
    let mut r: Vec<char> = Vec::new();
    if s.len() < width {
        let n = width - s.len();
        let mut i: usize = 0;
        while i < n
            invariant
                i <= n,
                r@ == Seq::new(i as nat, |k: int| ' '),
            decreases n - i,
        {
            r.push(' ');
            proof {
                assert(r@ =~= Seq::new((i + 1) as nat, |k: int| ' '));
            }
            i = i + 1;
        }
    }
    let ghost before = r@;
    let mut k: usize = 0;
    while k < s.len()
        invariant
            k <= s@.len(),
            r@ == before + s@.take(k as int),
        decreases s@.len() - k,
    {
        r.push(s[k]);
        proof {
            assert(s@.take(k + 1) =~= s@.take(k as int).push(s@[k as int]));
        }
        k = k + 1;
    }
    proof {
        assert(s@.take(s@.len() as int) =~= s@);
        assert(r@ =~= pad_left(s@, width as nat));
    }
    r
}

} // verus!
