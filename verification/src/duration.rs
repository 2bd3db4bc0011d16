//! Job durations as tables show them: `850ms`, `12.5s`, `3.2m`.
//!
//! Seconds and minutes are printed with one decimal from the IEEE-754
//! double quotient of the milliseconds, as `format!("{:.1}", ms as f64 /
//! 1000.0)` does. The double is computed here exactly, with integers: a
//! quotient is rounded to 53 significant bits (nearest, ties to even), and
//! the exact value of that double is rounded to tenths (nearest, ties to
//! even, the rule of Rust's exact float formatting).
use vstd::prelude::*;

use crate::text::{decimal, digit_char, digit_str, no_escape, u64_text};

verus! {

// ---------------------------------------------------------------------------
// Integer model of the double-precision quotient
// ---------------------------------------------------------------------------

/// Two to the power `n`.
pub open spec fn two_pow(n: nat) -> nat
    decreases n,
{
    if n == 0 { 1 } else { 2 * two_pow((n - 1) as nat) }
}

/// The exponent of the highest power of two at most `n` (0 for `n < 2`).
pub open spec fn ilog2(n: nat) -> nat
    decreases n,
{
    if n < 2 { 0 } else { 1 + ilog2(n / 2) }
}

/// `n / d` rounded to the nearest integer, ties to the even one.
pub open spec fn round_half_even(n: nat, d: nat) -> nat {
    if d == 0 {
        0
    } else {
        let q = n / d;
        let r = n % d;
        if 2 * r < d {
            q
        } else if 2 * r > d {
            q + 1
        } else if q % 2 == 0 {
            q
        } else {
            q + 1
        }
    }
}

/// The quotient `num / den` (at least 1, below 2^53) rounded to a double,
/// then rounded to tenths: the number of tenths that `{:.1}` prints.
/// The double is `m / 2^s`, with `s` chosen so that `m` has 53 bits.
pub open spec fn tenths_of_quotient(num: nat, den: nat) -> nat {
    let k = ilog2(num / den);
    let s = (52 - k) as nat;
    round_half_even(10 * round_half_even(num * two_pow(s), den), two_pow(s))
}

/// The (integer) value of `n as f64`: `n` rounded to 53 significant bits.
pub open spec fn u64_as_double(n: nat) -> nat {
    if n < two_pow(53) {
        n
    } else {
        let b = (ilog2(n) - 52) as nat;
        round_half_even(n, two_pow(b)) * two_pow(b)
    }
}

/// A number of tenths written with one decimal: `125` is `12.5`.
pub open spec fn one_decimal(q: nat) -> Seq<char> {
    decimal(q / 10) + seq!['.', digit_char(q % 10)]
}

/// How a job duration is shown: `-` when unknown, whole milliseconds below a
/// second, seconds with one decimal below a minute, else minutes.
pub open spec fn duration_text(ms: Option<u64>) -> Seq<char> {
    match ms {
        None => seq!['-'],
        Some(ms) => if ms < 1000 {
            decimal(ms as nat) + seq!['m', 's']
        } else if ms < 60000 {
            one_decimal(tenths_of_quotient(ms as nat, 1000)) + seq!['s']
        } else {
            one_decimal(tenths_of_quotient(u64_as_double(ms as nat), 60000)) + seq!['m']
        },
    }
}

// ---------------------------------------------------------------------------
// Lemmas
// ---------------------------------------------------------------------------

proof fn lemma_two_pow_pos(n: nat)
    ensures
        two_pow(n) >= 1,
    decreases n,
{
    if n > 0 {
        lemma_two_pow_pos((n - 1) as nat);
    }
}

proof fn lemma_two_pow_mono(a: nat, b: nat)
    requires
        a <= b,
    ensures
        two_pow(a) <= two_pow(b),
    decreases b,
{
    if a < b {
        lemma_two_pow_mono(a, (b - 1) as nat);
        lemma_two_pow_pos((b - 1) as nat);
    }
}

proof fn lemma_two_pow_add(a: nat, b: nat)
    ensures
        two_pow(a + b) == two_pow(a) * two_pow(b),
    decreases a,
{
    if a > 0 {
        lemma_two_pow_add((a - 1) as nat, b);
        let x = two_pow((a - 1) as nat);
        let y = two_pow(b);
        assert(two_pow(a) == 2 * x);
        assert(((a + b) - 1) as nat == ((a - 1) as nat + b) as nat);
        assert(two_pow(a + b) == 2 * two_pow(((a - 1) as nat + b) as nat));
        assert(two_pow(((a - 1) as nat + b) as nat) == x * y);
        assert(2 * (x * y) == (2 * x) * y) by (nonlinear_arith);
        assert(two_pow(a + b) == two_pow(a) * two_pow(b));
    } else {
        assert(two_pow(a) == 1);
        assert(a + b == b);
    }
}

proof fn lemma_ilog2_bounds(n: nat)
    requires
        n >= 1,
    ensures
        two_pow(ilog2(n)) <= n < two_pow(ilog2(n) + 1),
    decreases n,
{
    if n >= 2 {
        let h = n / 2;
        lemma_ilog2_bounds(h);
        let l = ilog2(h);
        assert(ilog2(n) == l + 1);
        assert(two_pow(l + 1) == 2 * two_pow(l));
        assert(two_pow(l + 2) == 2 * two_pow(l + 1));
    } else {
        assert(two_pow(1) == 2 * two_pow(0));
    }
}

proof fn lemma_two_pow_values()
    ensures
        two_pow(11) == 2048,
        two_pow(52) == 4503599627370496,
        two_pow(53) == 9007199254740992,
        two_pow(64) == 18446744073709551616,
{
    reveal_with_fuel(two_pow, 65);
}

/// `ilog2(n) < e` when `n < 2^e`.
proof fn lemma_ilog2_below(n: nat, e: nat)
    requires
        1 <= n < two_pow(e),
    ensures
        ilog2(n) < e,
{
    lemma_ilog2_bounds(n);
    if ilog2(n) >= e {
        lemma_two_pow_mono(e, ilog2(n));
    }
}

// ---------------------------------------------------------------------------
// Executable pieces
// ---------------------------------------------------------------------------

fn ilog2_exec(n: u64) -> (k: u32)
    requires
        n >= 1,
    ensures
        k == ilog2(n as nat),
        k < 64,
{
    let mut x: u64 = n;
    let mut k: u32 = 0;
    proof {
        lemma_two_pow_values();
        lemma_ilog2_below(n as nat, 64);
    }
    while x >= 2
        invariant
            x >= 1,
            ilog2(n as nat) == k + ilog2(x as nat),
            ilog2(n as nat) < 64,
        decreases x,
    {
        x = x / 2;
        k = k + 1;
    }
    k
}

fn two_pow_exec(e: u32) -> (r: u128)
    requires
        e <= 64,
    ensures
        r == two_pow(e as nat),
{
    let mut r: u128 = 1;
    let mut i: u32 = 0;
    proof { lemma_two_pow_values(); }
    while i < e
        invariant
            i <= e <= 64,
            r == two_pow(i as nat),
            two_pow(64) == 18446744073709551616,
        decreases e - i,
    {
        proof { lemma_two_pow_mono((i + 1) as nat, 64); }
        r = r * 2;
        i = i + 1;
    }
    r
}

fn round_half_even_exec(n: u128, d: u128) -> (r: u128)
    requires
        d > 0,
        n / d < u128::MAX,
    ensures
        r == round_half_even(n as nat, d as nat),
        r <= n / d + 1,
{
    let q = n / d;
    let rem = n % d;
    if rem < d - rem {
        q
    } else if rem > d - rem {
        q + 1
    } else if q % 2 == 0 {
        q
    } else {
        q + 1
    }
}

/// The tenths that `{:.1}` prints for the double nearest to `num / den`.
fn tenths_exec(num: u128, den: u128) -> (q: u64)
    requires
        1 <= den <= 60000,
        den <= num,
        num / den < two_pow(53),
    ensures
        q == tenths_of_quotient(num as nat, den as nat),
{
    proof { lemma_two_pow_values(); }
    let ratio: u64 = (num / den) as u64;
    proof {
        assert(ratio >= 1) by (nonlinear_arith)
            requires ratio == num / den, den <= num, den >= 1;
        lemma_ilog2_below(ratio as nat, 53);
        lemma_ilog2_bounds(ratio as nat);
    }
    let k = ilog2_exec(ratio);
    let s: u32 = 52 - k;
    let p = two_pow_exec(s);
    proof {
        lemma_two_pow_add((k + 1) as nat, s as nat);
        assert((k + 1) as nat + s as nat == 53);
        let hi = two_pow((k + 1) as nat);
        assert(hi * p == two_pow(53));
        lemma_two_pow_pos(s as nat);
        assert(num < den * hi) by (nonlinear_arith)
            requires ratio == num / den, ratio < hi, den >= 1;
        assert(num * p < den * two_pow(53)) by (nonlinear_arith)
            requires num < den * hi, p >= 1, hi * p == two_pow(53);
        assert(den * two_pow(53) <= 60000 * 9007199254740992) by (nonlinear_arith)
            requires den <= 60000, two_pow(53) == 9007199254740992;
    }
    let scaled: u128 = num * p;
    proof {
        assert(scaled / den < two_pow(53)) by (nonlinear_arith)
            requires scaled < den * two_pow(53), den >= 1;
    }
    let m = round_half_even_exec(scaled, den);
    let tm: u128 = 10 * m;
    proof {
        lemma_two_pow_pos(s as nat);
        assert(tm / p <= tm) by (nonlinear_arith) requires p >= 1;
    }
    let q = round_half_even_exec(tm, p);
    q as u64
}

/// `n as f64`, as the integer it stands for.
fn u64_as_double_exec(n: u64) -> (r: u128)
    ensures
        r == u64_as_double(n as nat),
        n >= 60000 ==> 60000 <= r,
        r <= 18446744073709551616 + 2048,
{
    proof { lemma_two_pow_values(); }
    if n < 9007199254740992 {
        n as u128
    } else {
        let k = ilog2_exec(n);
        proof {
            lemma_ilog2_bounds(n as nat);
            if k < 53 {
                lemma_two_pow_mono(k as nat + 1, 53);
            }
        }
        let b: u32 = k - 52;
        let p = two_pow_exec(b);
        let n2: u128 = n as u128;
        proof {
            lemma_two_pow_mono(b as nat, 11);
            lemma_two_pow_pos(b as nat);
            lemma_two_pow_add(52, b as nat);
            assert(n2 >= two_pow(52) * p);
            assert(n2 / p >= two_pow(52)) by (nonlinear_arith)
                requires n2 >= two_pow(52) * p, p >= 1;
            assert(n2 / p <= n2) by (nonlinear_arith) requires p >= 1;
        }
        let a = round_half_even_exec(n2, p);
        proof {
            assert(a * p <= (n2 / p + 1) * p) by (nonlinear_arith)
                requires a <= n2 / p + 1, p >= 1;
            assert((n2 / p + 1) * p <= n2 + p) by (nonlinear_arith) requires p >= 1;
            assert(a * p >= 60000) by (nonlinear_arith)
                requires a >= n2 / p, n2 / p >= two_pow(52), two_pow(52) == 4503599627370496,
                    p >= 1;
        }
        a * p
    }
}

/// `q` tenths with one decimal.
fn one_decimal_text(q: u64) -> (res: String)
    ensures
        res@ == one_decimal(q as nat),
{
    let mut res = u64_text(q / 10);
    proof { reveal_strlit("."); }
    res.append(".");
    res.append(digit_str(q % 10));
    assert(res@ =~= one_decimal(q as nat));
    res
}

/// A job duration as tables show it.
pub fn format_duration(ms: Option<u64>) -> (res: String)
    ensures
        res@ == duration_text(ms),
{
    match ms {
        None => {
            proof { reveal_strlit("-"); }
            String::from_str("-")
        },
        Some(ms) => {
            if ms < 1000 {
                let mut res = u64_text(ms);
                proof { reveal_strlit("ms"); }
                res.append("ms");
                res
            } else if ms < 60000 {
                proof {
                    lemma_two_pow_values();
                    assert((ms as nat) / 1000 < two_pow(53));
                }
                let mut res = one_decimal_text(tenths_exec(ms as u128, 1000));
                proof { reveal_strlit("s"); }
                res.append("s");
                res
            } else {
                let a = u64_as_double_exec(ms);
                proof {
                    lemma_two_pow_values();
                    assert((a as nat) / 60000 < two_pow(53)) by (nonlinear_arith)
                        requires a <= 18446744073709551616 + 2048,
                            two_pow(53) == 9007199254740992;
                }
                let mut res = one_decimal_text(tenths_exec(a, 60000));
                proof { reveal_strlit("m"); }
                res.append("m");
                res
            }
        },
    }
}


/// Whether a character is a decimal digit.
pub open spec fn is_digit(c: char) -> bool {
    '0' <= c && c <= '9'
}

proof fn lemma_decimal_digits(n: nat)
    ensures
        decimal(n).len() >= 1,
        forall|i: int| 0 <= i < decimal(n).len() ==> is_digit(#[trigger] decimal(n)[i]),
    decreases n,
{
    if n >= 10 {
        lemma_decimal_digits(n / 10);
    }
}

/// The unit of a shown duration follows from its size: `-` exactly when
/// it is unknown; whole milliseconds, ending in `ms`, exactly below a
/// second; a number ending in a digit and `s` exactly from a second up to a
/// minute; and a number ending in a digit and `m` exactly from a minute on,
/// however long (there is no larger unit).
pub proof fn lemma_duration_unit(ms: Option<u64>)
    ensures
        (duration_text(ms) == seq!['-']) <==> ms is None,
        ms matches Some(m) ==> {
            let r = duration_text(ms);
            let n = r.len() as int;
            &&& n >= 3
            &&& (r[n - 1] == 's' && r[n - 2] == 'm') <==> m < 1000
            &&& (r[n - 1] == 's' && is_digit(r[n - 2])) <==> 1000 <= m < 60000
            &&& (r[n - 1] == 'm' && is_digit(r[n - 2])) <==> 60000 <= m
            &&& m < 1000 ==> r == decimal(m as nat) + seq!['m', 's']
        },
{
    if let Some(m) = ms {
        let r = duration_text(ms);
        if m < 1000 {
            lemma_decimal_digits(m as nat);
            assert(r[r.len() - 3] == decimal(m as nat)[decimal(m as nat).len() - 1]);
        } else {
            let q = if m < 60000 {
                tenths_of_quotient(m as nat, 1000)
            } else {
                tenths_of_quotient(u64_as_double(m as nat), 60000)
            };
            lemma_decimal_digits(q / 10);
            let d = one_decimal(q);
            assert(r == d + seq![r[r.len() - 1]]);
            assert(r[r.len() - 2] == digit_char(q % 10));
        }
        assert(r.len() >= 3);
        assert(r != seq!['-']);
    }
}

/// A shown duration holds no escape character: it is made of digits, a
/// point, its unit letters or a dash.
pub proof fn lemma_duration_no_escape(ms: Option<u64>)
    ensures
        no_escape(duration_text(ms)),
{
    let r = duration_text(ms);
    if let Some(m) = ms {
        if m < 1000 {
            lemma_decimal_digits(m as nat);
            let d = decimal(m as nat);
            assert forall|i: int| 0 <= i < r.len() implies r[i] != '\x1b' by {
                if i < d.len() {
                    assert(r[i] == d[i]);
                    assert(is_digit(d[i]));
                }
            }
        } else {
            let q = if m < 60000 {
                tenths_of_quotient(m as nat, 1000)
            } else {
                tenths_of_quotient(u64_as_double(m as nat), 60000)
            };
            lemma_decimal_digits(q / 10);
            let d = decimal(q / 10);
            assert forall|i: int| 0 <= i < r.len() implies r[i] != '\x1b' by {
                if i < d.len() {
                    assert(r[i] == d[i]);
                    assert(is_digit(d[i]));
                }
            }
        }
    }
}

} // verus!
