//! Durations: the time grammar that users type and the text the clock shows.
//!
//! Durations are whole milliseconds.  A duration is written as up to three
//! components, in this order, each optional: hours (`1.5h`), minutes (`25m` or
//! `25min`) and seconds (`45s`).  A component is a decimal number (`12`, `1.5`,
//! `.5`) followed directly by its unit letter(s), in any letter case; spaces may
//! separate one component from the next.  Reading stops at the first character
//! that does not continue this pattern, and whatever follows is ignored.
use vstd::arithmetic::div_mod::{lemma_div_denominator, lemma_hoist_over_denominator};
use vstd::prelude::*;

verus! {

/// Milliseconds in one hour.
pub const MILLIS_PER_HOUR: u64 = 3_600_000;

/// Milliseconds in one minute.
pub const MILLIS_PER_MINUTE: u64 = 60_000;

/// Milliseconds in one second.
pub const MILLIS_PER_SECOND: u64 = 1_000;

/// The units a duration component may carry.
#[derive(Clone, Copy, Debug, PartialEq, Eq, Structural)]
pub enum TimeUnit {
    Hour,
    Minute,
    Second,
}

// ---------------------------------------------------------------------------
// The grammar, as specifications over character sequences.
// ---------------------------------------------------------------------------

pub open spec fn is_digit(c: char) -> bool {
    48 <= (c as int) <= 57
}

/// Whether the `regex` crate's class `\d` (Unicode decimal digits) matches
/// the non-ASCII character `c`.
pub uninterp spec fn unicode_decimal_digit(c: char) -> bool;

/// A digit as the grammar reads it: an ASCII digit, or any other Unicode
/// decimal digit.  Only ASCII digits have a value; a number written with
/// another digit counts as zero.
pub open spec fn is_number_digit(c: char) -> bool {
    if (c as u32) < 128 {
        is_digit(c)
    } else {
        unicode_decimal_digit(c)
    }
}

/// The characters `s[i..j]` are all ASCII digits.
pub open spec fn ascii_digits(s: Seq<char>, i: int, j: int) -> bool {
    forall|k: int| i <= k < j ==> is_digit(#[trigger] s[k])
}

pub open spec fn digit_value(c: char) -> nat {
    ((c as int) - 48) as nat
}

pub open spec fn pow10(k: nat) -> nat
    decreases k,
{
    if k == 0 {
        1
    } else {
        10 * pow10((k - 1) as nat)
    }
}

/// The end of the run of ASCII digits that starts at `i`.
pub open spec fn digits_end(s: Seq<char>, i: int) -> int
    decreases s.len() - i,
{
    if 0 <= i < s.len() && is_number_digit(s[i]) {
        digits_end(s, i + 1)
    } else {
        i
    }
}

/// The end of the run of spaces that starts at `i`.
pub open spec fn spaces_end(s: Seq<char>, i: int) -> int
    decreases s.len() - i,
{
    if 0 <= i < s.len() && s[i] == ' ' {
        spaces_end(s, i + 1)
    } else {
        i
    }
}

/// The number that the digits `s[i..j]` write in decimal.
pub open spec fn digits_value(s: Seq<char>, i: int, j: int) -> nat
    decreases j - i,
{
    if j <= i {
        0
    } else {
        digits_value(s, i, j - 1) * 10 + digit_value(s[j - 1])
    }
}

/// The end of the longest decimal number (`digits`, `digits.digits` or
/// `.digits`) that starts at `p`; `p` itself when no number starts there.
pub open spec fn number_end(s: Seq<char>, p: int) -> int {
    let q = digits_end(s, p);
    if q + 1 < s.len() && s[q] == '.' && is_number_digit(s[q + 1]) {
        digits_end(s, q + 1)
    } else {
        q
    }
}

/// `floor(weight * 0.f)` where `f` are the digits `s[i..j]`.
pub open spec fn fraction_millis(s: Seq<char>, i: int, j: int, weight: nat) -> nat {
    (weight * digits_value(s, i, j)) / pow10((j - i) as nat)
}

/// The number starting at `p`, times `weight`, rounded down; zero when the
/// number is written with a digit other than an ASCII digit.
pub open spec fn number_millis(s: Seq<char>, p: int, weight: nat) -> nat {
    let q = digits_end(s, p);
    let e = number_end(s, p);
    if ascii_digits(s, p, q) && ascii_digits(s, q + 1, e) {
        digits_value(s, p, q) * weight + if e > q {
            fraction_millis(s, q + 1, e, weight)
        } else {
            0
        }
    } else {
        0
    }
}

pub open spec fn unit_weight(u: TimeUnit) -> nat {
    match u {
        TimeUnit::Hour => 3_600_000,
        TimeUnit::Minute => 60_000,
        TimeUnit::Second => 1_000,
    }
}

pub open spec fn is_letter_h(c: char) -> bool {
    c == 'h' || c == 'H'
}

pub open spec fn is_letter_m(c: char) -> bool {
    c == 'm' || c == 'M'
}

pub open spec fn is_letter_i(c: char) -> bool {
    c == 'i' || c == 'I'
}

pub open spec fn is_letter_n(c: char) -> bool {
    c == 'n' || c == 'N'
}

/// `s`, `S`, and the long s, which folds to `s`.
pub open spec fn is_letter_s(c: char) -> bool {
    c == 's' || c == 'S' || c == '\u{17f}'
}

/// How many characters the unit `u` takes at `e` (0: the unit is not there).
/// Minutes read `min` when it is there, else `m`.
pub open spec fn unit_len(s: Seq<char>, e: int, u: TimeUnit) -> int {
    match u {
        TimeUnit::Hour => if 0 <= e < s.len() && is_letter_h(s[e]) {
            1
        } else {
            0
        },
        TimeUnit::Minute => if 0 <= e && e + 2 < s.len() && is_letter_m(s[e]) && is_letter_i(
            s[e + 1],
        ) && is_letter_n(s[e + 2]) {
            3
        } else if 0 <= e < s.len() && is_letter_m(s[e]) {
            1
        } else {
            0
        },
        TimeUnit::Second => if 0 <= e < s.len() && is_letter_s(s[e]) {
            1
        } else {
            0
        },
    }
}

/// The end of the component with unit `u` that starts at `p`; `p` itself when
/// there is none.
pub open spec fn component_end(s: Seq<char>, p: int, u: TimeUnit) -> int {
    let e = number_end(s, p);
    let l = unit_len(s, e, u);
    if e > p && l > 0 {
        e + l
    } else {
        p
    }
}

/// The milliseconds of the component with unit `u` at `p` (0 when absent).
pub open spec fn component_millis(s: Seq<char>, p: int, u: TimeUnit) -> nat {
    if component_end(s, p, u) > p {
        number_millis(s, p, unit_weight(u))
    } else {
        0
    }
}

/// Where the next component may start: after this component and the spaces
/// that follow it, or `p` when there is no component at `p`.
pub open spec fn next_start(s: Seq<char>, p: int, u: TimeUnit) -> int {
    let c = component_end(s, p, u);
    if c > p {
        spaces_end(s, c)
    } else {
        p
    }
}

/// The exact number of milliseconds that `s` describes.
pub open spec fn time_millis(s: Seq<char>) -> nat {
    let p1 = next_start(s, 0, TimeUnit::Hour);
    let p2 = next_start(s, p1, TimeUnit::Minute);
    component_millis(s, 0, TimeUnit::Hour) + component_millis(s, p1, TimeUnit::Minute)
        + component_millis(s, p2, TimeUnit::Second)
}

/// What `parse_time` returns: the milliseconds `s` describes, held at
/// `i64::MAX` when they do not fit.
pub open spec fn parsed_millis(s: Seq<char>) -> i64 {
    if time_millis(s) <= i64::MAX {
        time_millis(s) as i64
    } else {
        i64::MAX
    }
}

// ---------------------------------------------------------------------------
// Lemmas about the grammar.
// ---------------------------------------------------------------------------

proof fn lemma_digits_end_bounds(s: Seq<char>, i: int)
    requires
        0 <= i <= s.len(),
    ensures
        i <= digits_end(s, i) <= s.len(),
        forall|k: int| i <= k < digits_end(s, i) ==> is_number_digit(#[trigger] s[k]),
        digits_end(s, i) < s.len() ==> !is_number_digit(s[digits_end(s, i)]),
    decreases s.len() - i,
{
    if i < s.len() && is_number_digit(s[i]) {
        lemma_digits_end_bounds(s, i + 1);
    }
}

proof fn lemma_spaces_end_bounds(s: Seq<char>, i: int)
    requires
        0 <= i <= s.len(),
    ensures
        i <= spaces_end(s, i) <= s.len(),
    decreases s.len() - i,
{
    if i < s.len() && s[i] == ' ' {
        lemma_spaces_end_bounds(s, i + 1);
    }
}

proof fn lemma_number_end_bounds(s: Seq<char>, p: int)
    requires
        0 <= p <= s.len(),
    ensures
        digits_end(s, p) <= number_end(s, p) <= s.len(),
        number_end(s, p) > digits_end(s, p) ==> number_end(s, p) >= digits_end(s, p) + 2,
        forall|k: int|
            digits_end(s, p) + 1 <= k < number_end(s, p) ==> is_number_digit(#[trigger] s[k]),
{
    lemma_digits_end_bounds(s, p);
    let q = digits_end(s, p);
    if q + 1 < s.len() && s[q] == '.' && is_number_digit(s[q + 1]) {
        lemma_digits_end_bounds(s, q + 1);
    }
}

proof fn lemma_pow10_positive(k: nat)
    ensures
        pow10(k) > 0,
    decreases k,
{
    if k > 0 {
        lemma_pow10_positive((k - 1) as nat);
    }
}

/// Reading the digits `s[k..j]` from the left: the first digit carries
/// `10^(j-k-1)`.
proof fn lemma_digits_value_prepend(s: Seq<char>, k: int, j: int)
    requires
        k < j,
    ensures
        digits_value(s, k, j) == digit_value(s[k]) * pow10((j - k - 1) as nat) + digits_value(
            s,
            k + 1,
            j,
        ),
    decreases j - k,
{
    if j == k + 1 {
        assert(digits_value(s, k, k) == 0);
        assert(digits_value(s, k + 1, j) == 0);
        assert(pow10(0) == 1);
        assert(digits_value(s, k, j) == digit_value(s[k]));
        assert(digit_value(s[k]) * pow10(0) == digit_value(s[k]));
    } else {
        lemma_digits_value_prepend(s, k, j - 1);
        let a = digit_value(s[k]);
        let p = pow10((j - k - 2) as nat);
        let v = digits_value(s, k + 1, j - 1);
        let last = digit_value(s[j - 1]);
        assert(digits_value(s, k, j) == digits_value(s, k, j - 1) * 10 + last);
        assert(digits_value(s, k + 1, j) == v * 10 + last);
        assert(digits_value(s, k, j - 1) == a * p + v);
        assert(pow10((j - k - 1) as nat) == 10 * p);
        assert((a * p + v) * 10 + last == a * (10 * p) + (v * 10 + last)) by (nonlinear_arith);
    }
}

proof fn lemma_digits_value_bound(s: Seq<char>, i: int, j: int)
    requires
        i <= j,
        forall|k: int| i <= k < j ==> is_digit(#[trigger] s[k]),
    ensures
        digits_value(s, i, j) < pow10((j - i) as nat),
    decreases j - i,
{
    if j > i {
        lemma_digits_value_bound(s, i, j - 1);
        assert(is_digit(s[j - 1]));
        assert(pow10((j - i) as nat) == 10 * pow10((j - 1 - i) as nat));
    }
}

/// One step of reading a fraction from its last digit towards its first.
proof fn lemma_fraction_step(w: nat, d: nat, n: nat, p: nat)
    requires
        p > 0,
    ensures
        (w * (d * p + n)) / (p * 10) == (d * w + (w * n) / p) / 10,
{
    let x = w * (d * p + n);
    assert(w * (d * p + n) == (w * n) + (d * w) * p) by (nonlinear_arith);
    lemma_div_denominator(x as int, p as int, 10);
    lemma_hoist_over_denominator((w * n) as int, (d * w) as int, p);
}

/// How many fraction digits the number at `p` has.
pub open spec fn fraction_digits(s: Seq<char>, p: int) -> nat {
    let q = digits_end(s, p);
    let e = number_end(s, p);
    if e > q {
        (e - q - 1) as nat
    } else {
        0
    }
}

/// The number at `p` times `weight`, exactly, scaled up by ten to the power
/// of its fraction digits (so that it is a whole number).
pub open spec fn number_scaled(s: Seq<char>, p: int, weight: nat) -> nat {
    let q = digits_end(s, p);
    let e = number_end(s, p);
    digits_value(s, p, q) * weight * pow10(fraction_digits(s, p)) + weight * digits_value(
        s,
        q + 1,
        e,
    )
}

/// The rounding bound: a component's milliseconds fall short of its exact
/// value by less than one millisecond.  In whole numbers: with `P` ten to the
/// power of the fraction digits, `millis * P <= exact * P < (millis + 1) * P`.
pub proof fn lemma_component_rounding(s: Seq<char>, p: int, weight: nat)
    requires
        0 <= p <= s.len(),
        ascii_digits(s, p, digits_end(s, p)),
        ascii_digits(s, digits_end(s, p) + 1, number_end(s, p)),
    ensures
        number_millis(s, p, weight) * pow10(fraction_digits(s, p)) <= number_scaled(s, p, weight),
        number_scaled(s, p, weight) < (number_millis(s, p, weight) + 1) * pow10(
            fraction_digits(s, p),
        ),
{
    let q = digits_end(s, p);
    let e = number_end(s, p);
    let big_p = pow10(fraction_digits(s, p));
    let i = digits_value(s, p, q);
    let f = weight * digits_value(s, q + 1, e);
    lemma_pow10_positive(fraction_digits(s, p));
    if e > q {
        assert(fraction_millis(s, q + 1, e, weight) == f / big_p);
        vstd::arithmetic::div_mod::lemma_fundamental_div_mod(f as int, big_p as int);
        let d = f / big_p;
        let r = f % big_p;
        assert(number_millis(s, p, weight) == i * weight + d);
        assert((i * weight + d) * big_p <= i * weight * big_p + f && i * weight * big_p + f < (i
            * weight + d + 1) * big_p) by (nonlinear_arith)
            requires
                f == big_p * d + r,
                0 <= r < big_p,
        ;
    } else {
        assert(digits_value(s, q + 1, e) == 0);
        assert(big_p == 1);
        assert(number_millis(s, p, weight) == i * weight);
        assert(weight * digits_value(s, q + 1, e) == 0) by (nonlinear_arith)
            requires
                digits_value(s, q + 1, e) == 0,
        ;
        assert(i * weight * big_p == i * weight && (i * weight + 1) * big_p == i * weight + 1)
            by (nonlinear_arith)
            requires
                big_p == 1,
        ;
    }
}

// ---------------------------------------------------------------------------
// Executable reading of durations.
// ---------------------------------------------------------------------------

fn is_digit_char(c: char) -> (b: bool)
    ensures
        b == is_digit(c),
{
    let code = c as u32;
    48 <= code && code <= 57
}

/// The `regex` crate's class `\d` (Unicode `Nd`) on one non-ASCII character.
///
/// Trusted: `Regex::new` accepts the fixed pattern `^\d$` (so `unwrap` does not
/// fail), and `is_match` tells whether the one-character text is in `\d`,
/// which is a property of the character alone.
#[verifier::external_body]
fn is_unicode_decimal_digit(c: char) -> (b: bool)
    requires
        (c as u32) >= 128,
    ensures
        b == unicode_decimal_digit(c),
{
    let mut buf = [0u8; 4];
    regex::Regex::new(r"^\d$").unwrap().is_match(c.encode_utf8(&mut buf))
}

fn is_number_digit_char(c: char) -> (b: bool)
    ensures
        b == is_number_digit(c),
{
    if (c as u32) < 128 {
        is_digit_char(c)
    } else {
        is_unicode_decimal_digit(c)
    }
}

/// Whether `cs[i..j]` are all ASCII digits.
fn all_ascii_digits(cs: &Vec<char>, i: usize, j: usize) -> (b: bool)
    requires
        i <= j <= cs.len(),
    ensures
        b == ascii_digits(cs@, i as int, j as int),
{
    let mut k = i;
    while k < j
        invariant
            i <= k <= j <= cs.len(),
            ascii_digits(cs@, i as int, k as int),
        decreases j - k,
    {
        if !is_digit_char(cs[k]) {
            return false;
        }
        k += 1;
    }
    true
}

fn digit_of(c: char) -> (d: u128)
    requires
        is_digit(c),
    ensures
        d == digit_value(c),
        d < 10,
{
    (c as u32 - 48) as u128
}

fn scan_digits(cs: &Vec<char>, p: usize) -> (q: usize)
    requires
        p <= cs.len(),
    ensures
        q == digits_end(cs@, p as int),
{
    let mut q = p;
    while q < cs.len() && is_number_digit_char(cs[q])
        invariant
            p <= q <= cs.len(),
            digits_end(cs@, p as int) == digits_end(cs@, q as int),
        decreases cs.len() - q,
    {
        q += 1;
    }
    q
}

fn scan_spaces(cs: &Vec<char>, p: usize) -> (q: usize)
    requires
        p <= cs.len(),
    ensures
        q == spaces_end(cs@, p as int),
{
    let mut q = p;
    while q < cs.len() && cs[q] == ' '
        invariant
            p <= q <= cs.len(),
            spaces_end(cs@, p as int) == spaces_end(cs@, q as int),
        decreases cs.len() - q,
    {
        q += 1;
    }
    q
}

fn scan_number(cs: &Vec<char>, p: usize) -> (e: usize)
    requires
        p <= cs.len(),
    ensures
        e == number_end(cs@, p as int),
{
    let q = scan_digits(cs, p);
    proof {
        lemma_digits_end_bounds(cs@, p as int);
    }
    if q < cs.len() && q + 1 < cs.len() && cs[q] == '.' && is_number_digit_char(cs[q + 1]) {
        scan_digits(cs, q + 1)
    } else {
        q
    }
}

/// The largest value `parse_time` reports; larger integer parts are held here.
const MILLIS_CAP: u128 = 9_223_372_036_854_775_807;

/// The decimal digits `cs[i..j]` as a number, held at `MILLIS_CAP`.
fn integer_value(cs: &Vec<char>, i: usize, j: usize) -> (n: u128)
    requires
        i <= j <= cs.len(),
        forall|k: int| i <= k < j ==> is_digit(#[trigger] cs@[k]),
    ensures
        n == if digits_value(cs@, i as int, j as int) <= MILLIS_CAP {
            digits_value(cs@, i as int, j as int)
        } else {
            MILLIS_CAP as nat
        },
{
    let mut n: u128 = 0;
    let mut k = i;
    while k < j
        invariant
            i <= k <= j <= cs.len(),
            forall|t: int| i <= t < j ==> is_digit(#[trigger] cs@[t]),
            n == if digits_value(cs@, i as int, k as int) <= MILLIS_CAP {
                digits_value(cs@, i as int, k as int)
            } else {
                MILLIS_CAP as nat
            },
        decreases j - k,
    {
        let d = digit_of(cs[k]);
        let m = n * 10 + d;
        n = if m <= MILLIS_CAP {
            m
        } else {
            MILLIS_CAP
        };
        k += 1;
    }
    n
}

/// `floor(weight * 0.f)` for the fraction digits `f = cs[i..j]`, read from the
/// last digit to the first.
fn fraction_value(cs: &Vec<char>, i: usize, j: usize, weight: u128) -> (r: u128)
    requires
        i <= j <= cs.len(),
        1 <= weight <= 3_600_000,
        forall|k: int| i <= k < j ==> is_digit(#[trigger] cs@[k]),
    ensures
        r == fraction_millis(cs@, i as int, j as int, weight as nat),
        r < weight,
{
    let mut r: u128 = 0;
    let mut k = j;
    proof {
        assert(digits_value(cs@, j as int, j as int) == 0);
    }
    while k > i
        invariant
            i <= k <= j <= cs.len(),
            1 <= weight <= 3_600_000,
            forall|t: int| i <= t < j ==> is_digit(#[trigger] cs@[t]),
            r == fraction_millis(cs@, k as int, j as int, weight as nat),
            r < weight,
        decreases k,
    {
        let d = digit_of(cs[k - 1]);
        proof {
            let n = digits_value(cs@, k as int, j as int);
            let p = pow10((j - k) as nat);
            lemma_pow10_positive((j - k) as nat);
            lemma_digits_value_prepend(cs@, k - 1, j as int);
            lemma_fraction_step(weight as nat, d as nat, n, p);
            assert(pow10((j - (k - 1)) as nat) == p * 10);
            lemma_digits_value_bound(cs@, k as int, j as int);
            assert(((weight as nat) * n) / p < weight) by (nonlinear_arith)
                requires
                    n < p,
                    p > 0,
                    weight >= 1,
            ;
            assert((d * weight + r) / 10 < weight) by (nonlinear_arith)
                requires
                    d < 10,
                    r < weight,
            ;
        }
        r = (d * weight + r) / 10;
        k -= 1;
    }
    r
}

fn unit_length(cs: &Vec<char>, e: usize, u: TimeUnit) -> (l: usize)
    requires
        e <= cs.len(),
    ensures
        l == unit_len(cs@, e as int, u),
{
    let n = cs.len();
    match u {
        TimeUnit::Hour => {
            if e < n && (cs[e] == 'h' || cs[e] == 'H') {
                1
            } else {
                0
            }
        },
        TimeUnit::Minute => {
            if e < n && n - e > 2 && (cs[e] == 'm' || cs[e] == 'M') && (cs[e + 1] == 'i' || cs[e + 1]
                == 'I') && (cs[e + 2] == 'n' || cs[e + 2] == 'N') {
                3
            } else if e < n && (cs[e] == 'm' || cs[e] == 'M') {
                1
            } else {
                0
            }
        },
        TimeUnit::Second => {
            if e < n && (cs[e] == 's' || cs[e] == 'S' || cs[e] == '\u{17f}') {
                1
            } else {
                0
            }
        },
    }
}

fn weight_of(u: TimeUnit) -> (w: u128)
    ensures
        w == unit_weight(u),
{
    match u {
        TimeUnit::Hour => 3_600_000,
        TimeUnit::Minute => 60_000,
        TimeUnit::Second => 1_000,
    }
}

/// Reads the component with unit `u` at `p`: where reading goes on, and its
/// milliseconds, exact unless they exceed `i64::MAX`.
fn read_component(cs: &Vec<char>, p: usize, u: TimeUnit) -> (res: (usize, u128))
    requires
        p <= cs.len(),
    ensures
        res.0 == next_start(cs@, p as int, u),
        res.0 <= cs.len(),
        res.1 <= MILLIS_CAP * 3_600_000 + 3_600_000,
        res.1 <= i64::MAX ==> res.1 == component_millis(cs@, p as int, u),
        res.1 > i64::MAX ==> component_millis(cs@, p as int, u) > i64::MAX,
{
    let s = Ghost(cs@);
    let q = scan_digits(cs, p);
    let e = scan_number(cs, p);
    proof {
        lemma_digits_end_bounds(s@, p as int);
        lemma_number_end_bounds(s@, p as int);
    }
    let l = unit_length(cs, e, u);
    let ascii = all_ascii_digits(cs, p, q) && (e == q || all_ascii_digits(cs, q + 1, e));
    if e > p && l > 0 && !ascii {
        let next = scan_spaces(cs, e + l);
        proof {
            lemma_spaces_end_bounds(s@, (e + l) as int);
        }
        (next, 0)
    } else if e > p && l > 0 {
        let w = weight_of(u);
        let n = integer_value(cs, p, q);
        let f = if e > q {
            fraction_value(cs, q + 1, e, w)
        } else {
            0
        };
        let ms = n * w + f;
        let next = scan_spaces(cs, e + l);
        proof {
            lemma_spaces_end_bounds(s@, (e + l) as int);
            let exact = digits_value(s@, p as int, q as int);
            if exact > MILLIS_CAP {
                assert(exact * w >= exact) by (nonlinear_arith)
                    requires
                        w >= 1,
                ;
                assert(n * w >= MILLIS_CAP) by (nonlinear_arith)
                    requires
                        w >= 1,
                        n == MILLIS_CAP,
                ;
            }
            assert(n * w <= MILLIS_CAP * 3_600_000) by (nonlinear_arith)
                requires
                    n <= MILLIS_CAP,
                    w <= 3_600_000,
            ;
        }
        (next, ms)
    } else {
        (p, 0)
    }
}

/// Reads a duration in the time grammar and returns its milliseconds.
///
/// Each component counts its number times its unit, rounded down to a whole
/// millisecond (so it falls short by less than a millisecond, see
/// `lemma_component_rounding`); the result is held at `i64::MAX` when larger.
/// Text that is not a duration reads as zero, and so does a number written
/// with digits other than ASCII digits.
pub fn parse_time(s: &str) -> (millis: i64)
    ensures
        millis == parsed_millis(s@),
        millis >= 0,
{
    let cs = crate::text::chars_of(s);
    let (p1, h) = read_component(&cs, 0, TimeUnit::Hour);
    let (p2, m) = read_component(&cs, p1, TimeUnit::Minute);
    let (_p3, sec) = read_component(&cs, p2, TimeUnit::Second);
    let total = h + m + sec;
    if total <= 9_223_372_036_854_775_807 {
        total as i64
    } else {
        i64::MAX
    }
}

// ---------------------------------------------------------------------------
// Showing durations.
// ---------------------------------------------------------------------------

pub open spec fn digit_char(d: nat) -> char {
    ((48 + d) as u8) as char
}

/// `n` in decimal, without leading zeros.
pub open spec fn decimal(n: nat) -> Seq<char>
    decreases n,
{
    if n < 10 {
        seq![digit_char(n)]
    } else {
        decimal(n / 10).push(digit_char(n % 10))
    }
}

/// `x` milliseconds shown in seconds: whole seconds, then, when there is a
/// fraction, a point and its digits without trailing zeros.
pub open spec fn seconds_text(x: nat) -> Seq<char> {
    let f = x % 1000;
    decimal(x / 1000) + if f == 0 {
        Seq::<char>::empty()
    } else if f % 100 == 0 {
        seq!['.', digit_char(f / 100)]
    } else if f % 10 == 0 {
        seq!['.', digit_char(f / 100), digit_char((f / 10) % 10)]
    } else {
        seq!['.', digit_char(f / 100), digit_char((f / 10) % 10), digit_char(f % 10)]
    }
}

/// The text shown for `millis`: whole hours with `h`, whole minutes with `min`,
/// the remaining seconds with `s`; a part that is zero is left out, but the
/// seconds are shown when nothing else is.  A negative value (a countdown that
/// went past zero) shows as minus its seconds within the minute.
pub open spec fn time_text(millis: int) -> Seq<char> {
    if millis >= 0 {
        hours_part(millis) + minutes_part(millis) + seconds_part(millis)
    } else {
        seq!['-'] + seconds_text(((-millis) % 60_000) as nat).push('s')
    }
}

/// `1h` for the whole hours of `millis`, nothing when there are none.
pub open spec fn hours_part(millis: int) -> Seq<char> {
    let h = millis / 3_600_000;
    if h > 0 {
        decimal(h as nat).push('h')
    } else {
        Seq::<char>::empty()
    }
}

/// `30min` for the whole minutes within the hour, nothing when there are none.
pub open spec fn minutes_part(millis: int) -> Seq<char> {
    let m = (millis % 3_600_000) / 60_000;
    if m > 0 {
        decimal(m as nat) + seq!['m', 'i', 'n']
    } else {
        Seq::<char>::empty()
    }
}

/// `5.5s` for the seconds within the minute; nothing when they are zero and an
/// hour or minute part is shown.
pub open spec fn seconds_part(millis: int) -> Seq<char> {
    let sec = millis % 60_000;
    if sec > 0 || (millis / 3_600_000 == 0 && (millis % 3_600_000) / 60_000 == 0) {
        seconds_text(sec as nat).push('s')
    } else {
        Seq::<char>::empty()
    }
}

fn digit_to_char(d: u64) -> (c: char)
    requires
        d < 10,
    ensures
        c == digit_char(d as nat),
        is_digit(c),
        digit_value(c) == d,
{
    ((d as u8) + 48) as char
}

/// Appends `n` in decimal.
pub(crate) fn push_decimal(v: &mut Vec<char>, n: u64)
    ensures
        final(v)@ == old(v)@ + decimal(n as nat),
    decreases n,
{
    if n >= 10 {
        push_decimal(v, n / 10);
    }
    v.push(digit_to_char(n % 10));
    proof {
        if n < 10 {
            assert(old(v)@ + decimal(n as nat) =~= old(v)@.push(digit_char(n as nat)));
        } else {
            assert(old(v)@ + decimal(n as nat) =~= (old(v)@ + decimal((n / 10) as nat)).push(
                digit_char((n % 10) as nat),
            ));
        }
    }
}

/// Appends `x` milliseconds shown in seconds.
fn push_seconds(v: &mut Vec<char>, x: u64)
    ensures
        final(v)@ == old(v)@ + seconds_text(x as nat),
{
    push_decimal(v, x / 1000);
    let f = x % 1000;
    if f != 0 {
        v.push('.');
        v.push(digit_to_char(f / 100));
        if f % 100 != 0 {
            v.push(digit_to_char((f / 10) % 10));
            if f % 10 != 0 {
                v.push(digit_to_char(f % 10));
            }
        }
    }
    proof {
        assert(v@ =~= old(v)@ + seconds_text(x as nat));
    }
}

/// Shows a duration as text: `1h30min`, `25min`, `45s`, `1.5s`, `0s`.
pub fn format_time(millis: i64) -> (text: String)
    ensures
        text@ == time_text(millis as int),
{
    let mut v: Vec<char> = Vec::new();
    if millis >= 0 {
        let ms = millis as u64;
        let h = ms / 3_600_000;
        let m = (ms % 3_600_000) / 60_000;
        let sec = ms % 60_000;
        if h > 0 {
            push_decimal(&mut v, h);
            v.push('h');
        }
        if m > 0 {
            push_decimal(&mut v, m);
            v.push('m');
            v.push('i');
            v.push('n');
        }
        if sec > 0 || (h == 0 && m == 0) {
            push_seconds(&mut v, sec);
            v.push('s');
        }
        proof {
            assert(v@ =~= time_text(millis as int));
        }
    } else {
        let magnitude: u64 = (-(millis + 1)) as u64 + 1;
        v.push('-');
        push_seconds(&mut v, magnitude % 60_000);
        v.push('s');
        proof {
            assert(v@ =~= time_text(millis as int));
        }
    }
    crate::text::string_of(&v)
}

// ---------------------------------------------------------------------------
// Shown durations read back as the same duration.
// ---------------------------------------------------------------------------

/// `t` occurs in `s` at position `p`.
pub open spec fn occurs_at(s: Seq<char>, p: int, t: Seq<char>) -> bool {
    &&& 0 <= p
    &&& p + t.len() <= s.len()
    &&& forall|k: int| 0 <= k < t.len() ==> s[p + k] == #[trigger] t[k]
}

proof fn lemma_digit_char(d: nat)
    requires
        d < 10,
    ensures
        is_digit(digit_char(d)),
        digit_value(digit_char(d)) == d,
{
}

proof fn lemma_decimal_digits(n: nat)
    ensures
        decimal(n).len() >= 1,
        forall|k: int| 0 <= k < decimal(n).len() ==> is_digit(#[trigger] decimal(n)[k]),
        digits_value(decimal(n), 0, decimal(n).len() as int) == n,
    decreases n,
{
    if n < 10 {
        lemma_digit_char(n);
        assert(digits_value(decimal(n), 0, 0) == 0);
    } else {
        lemma_decimal_digits(n / 10);
        lemma_digit_char(n % 10);
        let prefix = decimal(n / 10);
        let t = decimal(n);
        lemma_digits_value_same(t, prefix, 0, 0, prefix.len() as int);
    }
}

/// `digits_value` reads only the characters it covers.
proof fn lemma_digits_value_same(s: Seq<char>, t: Seq<char>, p: int, i: int, j: int)
    requires
        0 <= i <= j,
        j <= t.len(),
        0 <= p,
        p + j <= s.len(),
        forall|k: int| i <= k < j ==> s[p + k] == #[trigger] t[k],
    ensures
        digits_value(s, p + i, p + j) == digits_value(t, i, j),
    decreases j - i,
{
    if j > i {
        lemma_digits_value_same(s, t, p, i, j - 1);
        assert(s[p + (j - 1)] == t[j - 1]);
    }
}

/// `digits_end` stops exactly where the digits stop.
proof fn lemma_digits_end_at(s: Seq<char>, p: int, e: int)
    requires
        0 <= p <= e <= s.len(),
        forall|k: int| p <= k < e ==> is_number_digit(#[trigger] s[k]),
        e == s.len() || !is_number_digit(s[e]),
    ensures
        digits_end(s, p) == e,
    decreases e - p,
{
    if p < e {
        lemma_digits_end_at(s, p + 1, e);
    }
}

/// A whole number written in decimal and followed by a unit letter.
proof fn lemma_number_of_decimal(s: Seq<char>, p: int, n: nat, w: nat)
    requires
        occurs_at(s, p, decimal(n)),
        p + decimal(n).len() < s.len(),
        !is_number_digit(s[p + decimal(n).len()]),
        s[p + decimal(n).len()] != '.',
    ensures
        digits_end(s, p) == p + decimal(n).len(),
        number_end(s, p) == p + decimal(n).len(),
        number_millis(s, p, w) == n * w,
{
    let t = decimal(n);
    lemma_decimal_digits(n);
    assert forall|k: int| p <= k < p + t.len() implies is_digit(#[trigger] s[k]) by {
        assert(s[p + (k - p)] == t[k - p]);
    }
    lemma_digits_end_at(s, p, p + t.len());
    lemma_digits_value_same(s, t, p, 0, t.len() as int);
}

/// Scaling up and then down by the same factor gives the value back.
proof fn lemma_scale_down(x: nat, d: nat)
    requires
        d > 0,
    ensures
        (d * x) / d == x,
{
    vstd::arithmetic::div_mod::lemma_div_multiples_vanish_fancy(x as int, 0, d as int);
}

/// Milliseconds shown in seconds and followed by a unit letter.
proof fn lemma_number_of_seconds(s: Seq<char>, p: int, x: nat)
    requires
        occurs_at(s, p, seconds_text(x)),
        p + seconds_text(x).len() < s.len(),
        !is_number_digit(s[p + seconds_text(x).len()]),
        s[p + seconds_text(x).len()] != '.',
    ensures
        number_end(s, p) == p + seconds_text(x).len(),
        number_millis(s, p, 1000) == x,
{
    let whole = decimal(x / 1000);
    let t = seconds_text(x);
    let f = x % 1000;
    let q = p + whole.len();
    lemma_decimal_digits(x / 1000);
    assert forall|k: int| 0 <= k < whole.len() implies s[p + k] == #[trigger] whole[k] by {
        assert(t[k] == whole[k]);
    }
    assert forall|k: int| p <= k < q implies is_digit(#[trigger] s[k]) by {
        assert(s[p + (k - p)] == whole[k - p]);
    }
    lemma_digits_value_same(s, whole, p, 0, whole.len() as int);
    let fr = t.subrange(whole.len() as int, t.len() as int);
    assert(t =~= whole + fr);
    if f == 0 {
        assert(fr.len() == 0);
        lemma_digits_end_at(s, p, q);
        assert(x == (x / 1000) * 1000 + f);
    } else {
        assert(fr[0] == '.');
        assert(t[whole.len() as int] == '.');
        assert(s[p + whole.len()] == t[whole.len() as int]);
        lemma_digit_char(f / 100);
        lemma_digit_char((f / 10) % 10);
        lemma_digit_char(f % 10);
        lemma_digits_end_at(s, p, q);
        let e = p + t.len();
        let ds = fr.subrange(1, fr.len() as int);
        assert forall|k: int| 0 <= k < ds.len() implies s[q + 1 + k] == #[trigger] ds[k] by {
            assert(s[p + (whole.len() + 1 + k)] == t[whole.len() + 1 + k]);
        }
        assert forall|k: int| q + 1 <= k < e implies is_digit(#[trigger] s[k]) by {
            assert(s[q + 1 + (k - q - 1)] == ds[k - q - 1]);
        }
        lemma_digits_end_at(s, q + 1, e);
        lemma_digits_value_same(s, ds, q + 1, 0, ds.len() as int);
        let a = f / 100;
        let b = (f / 10) % 10;
        let c = f % 10;
        assert(f == 100 * a + 10 * b + c);
        if f % 100 == 0 {
            assert(ds =~= seq![digit_char(a)]);
            assert(digits_value(ds, 0, 0) == 0);
            assert(digits_value(ds, 0, 1) == a);
            assert(pow10(1) == 10) by {
                assert(pow10(0) == 1);
            }
            assert(fraction_millis(s, q + 1, e, 1000) == (1000 * a) / 10);
            assert(1000 * a == 10 * (100 * a));
            lemma_scale_down(100 * a, 10);
        } else if f % 10 == 0 {
            assert(ds =~= seq![digit_char(a), digit_char(b)]);
            assert(digits_value(ds, 0, 0) == 0);
            assert(digits_value(ds, 0, 1) == a);
            assert(digits_value(ds, 0, 2) == 10 * a + b);
            assert(pow10(2) == 100) by {
                assert(pow10(0) == 1);
                assert(pow10(1) == 10);
            }
            assert(fraction_millis(s, q + 1, e, 1000) == (1000 * (10 * a + b)) / 100);
            assert(1000 * (10 * a + b) == 100 * (100 * a + 10 * b));
            lemma_scale_down(100 * a + 10 * b, 100);
        } else {
            assert(ds =~= seq![digit_char(a), digit_char(b), digit_char(c)]);
            assert(digits_value(ds, 0, 0) == 0);
            assert(digits_value(ds, 0, 1) == a);
            assert(digits_value(ds, 0, 2) == 10 * a + b);
            assert(digits_value(ds, 0, 3) == 100 * a + 10 * b + c);
            assert(pow10(3) == 1000) by {
                assert(pow10(0) == 1);
                assert(pow10(1) == 10);
                assert(pow10(2) == 100);
            }
            assert(fraction_millis(s, q + 1, e, 1000) == (1000 * (100 * a + 10 * b + c)) / 1000);
            lemma_scale_down(100 * a + 10 * b + c, 1000);
        }
        assert(x == (x / 1000) * 1000 + f);
    }
}

/// The first character of a nonempty seconds part is a digit.
proof fn lemma_parts_start_with_digits(ms: int)
    requires
        ms >= 0,
    ensures
        minutes_part(ms).len() > 0 ==> is_digit(minutes_part(ms)[0]),
        seconds_part(ms).len() > 0 ==> is_digit(seconds_part(ms)[0]),
        hours_part(ms).len() > 0 ==> is_digit(hours_part(ms)[0]),
{
    lemma_decimal_digits((ms / 3_600_000) as nat);
    lemma_decimal_digits(((ms % 3_600_000) / 60_000) as nat);
    lemma_decimal_digits(((ms % 60_000) / 1000) as nat);
    if seconds_part(ms).len() > 0 {
        let x = (ms % 60_000) as nat;
        assert(seconds_text(x)[0] == decimal(x / 1000)[0]);
    }
}

/// `t` placed at `p` of `s`, as the concatenation shows.
proof fn lemma_occurs_in_concat(s: Seq<char>, x: Seq<char>, t: Seq<char>, y: Seq<char>)
    requires
        s == x + t + y,
    ensures
        occurs_at(s, x.len() as int, t),
{
    assert forall|k: int| 0 <= k < t.len() implies s[x.len() + k] == #[trigger] t[k] by {
        assert((x + t)[x.len() + k] == t[k]);
    }
}

/// Reading the seconds part of a shown duration, after the text `x`.
proof fn lemma_read_seconds_part(s: Seq<char>, x: Seq<char>, ms: int)
    requires
        ms >= 0,
        s == x + seconds_part(ms),
    ensures
        component_millis(s, x.len() as int, TimeUnit::Second) == ms % 60_000,
        seconds_part(ms).len() > 0 ==> component_end(s, x.len() as int, TimeUnit::Hour)
            == x.len() && component_end(s, x.len() as int, TimeUnit::Minute) == x.len(),
{
    let p = x.len() as int;
    let sp = seconds_part(ms);
    let v = (ms % 60_000) as nat;
    if sp.len() > 0 {
        let t = seconds_text(v);
        assert(sp == t.push('s'));
        assert(s =~= x + t + seq!['s']);
        lemma_occurs_in_concat(s, x, t, seq!['s']);
        assert(s[p + t.len()] == 's');
        lemma_number_of_seconds(s, p, v);
    } else {
        assert(p == s.len());
        assert(number_end(s, p) == p);
        assert(v == 0);
    }
}

/// Reading the minutes part, followed by the seconds part, after `x`.
proof fn lemma_read_minutes_part(s: Seq<char>, x: Seq<char>, ms: int)
    requires
        ms >= 0,
        s == x + minutes_part(ms) + seconds_part(ms),
    ensures
        next_start(s, x.len() as int, TimeUnit::Minute) == x.len() + minutes_part(ms).len(),
        component_millis(s, x.len() as int, TimeUnit::Minute) == ((ms % 3_600_000) / 60_000)
            * 60_000,
        minutes_part(ms).len() + seconds_part(ms).len() > 0 ==> component_end(
            s,
            x.len() as int,
            TimeUnit::Hour,
        ) == x.len(),
{
    let p = x.len() as int;
    let mp = minutes_part(ms);
    let sp = seconds_part(ms);
    let m = ((ms % 3_600_000) / 60_000) as nat;
    let b = p + mp.len();
    lemma_parts_start_with_digits(ms);
    if mp.len() > 0 {
        let t = decimal(m);
        assert(mp == t + seq!['m', 'i', 'n']);
        assert(s =~= x + t + (seq!['m', 'i', 'n'] + sp));
        lemma_occurs_in_concat(s, x, t, seq!['m', 'i', 'n'] + sp);
        let e = p + t.len();
        assert(s[e] == 'm' && s[e + 1] == 'i' && s[e + 2] == 'n') by {
            assert(s[e] == mp[t.len() as int]);
            assert(s[e + 1] == mp[t.len() as int + 1]);
            assert(s[e + 2] == mp[t.len() as int + 2]);
        }
        lemma_number_of_decimal(s, p, m, 60_000);
        assert(unit_len(s, e, TimeUnit::Minute) == 3);
        assert(component_end(s, p, TimeUnit::Minute) == b);
        if b < s.len() {
            assert(s[b] == sp[0]);
        }
        assert(spaces_end(s, b) == b);
    } else {
        assert(s =~= x + sp);
        lemma_read_seconds_part(s, x, ms);
        if sp.len() == 0 {
            assert(p == s.len());
            assert(number_end(s, p) == p);
        }
    }
}

/// Reading the hours part at the start of a shown duration.
proof fn lemma_read_hours_part(ms: int)
    requires
        ms >= 0,
    ensures
        next_start(time_text(ms), 0, TimeUnit::Hour) == hours_part(ms).len(),
        component_millis(time_text(ms), 0, TimeUnit::Hour) == (ms / 3_600_000) * 3_600_000,
{
    let h = (ms / 3_600_000) as nat;
    let hp = hours_part(ms);
    let rest = minutes_part(ms) + seconds_part(ms);
    let s = time_text(ms);
    let a = hp.len() as int;
    assert(s =~= hp + rest);
    lemma_parts_start_with_digits(ms);
    if h > 0 {
        let t = decimal(h);
        assert(hp == t.push('h'));
        assert(s =~= Seq::<char>::empty() + t + (seq!['h'] + rest));
        lemma_occurs_in_concat(s, Seq::<char>::empty(), t, seq!['h'] + rest);
        assert(s[t.len() as int] == 'h');
        lemma_number_of_decimal(s, 0, h, 3_600_000);
        assert(component_end(s, 0, TimeUnit::Hour) == a);
        if a < s.len() {
            assert(s[a] == rest[0]);
            if minutes_part(ms).len() == 0 {
                assert(rest =~= seconds_part(ms));
            }
        }
        assert(spaces_end(s, a) == a);
    } else {
        assert(a == 0);
        assert(s =~= Seq::<char>::empty() + minutes_part(ms) + seconds_part(ms));
        lemma_read_minutes_part(s, Seq::<char>::empty(), ms);
    }
}

/// The shown parts add up to the duration.
proof fn lemma_parts_add_up(ms: int)
    requires
        ms >= 0,
    ensures
        ms == (ms / 3_600_000) * 3_600_000 + ((ms % 3_600_000) / 60_000) * 60_000 + ms % 60_000,
{
    vstd::arithmetic::div_mod::lemma_fundamental_div_mod(ms, 3_600_000);
    vstd::arithmetic::div_mod::lemma_fundamental_div_mod(ms % 3_600_000, 60_000);
    vstd::arithmetic::div_mod::lemma_mod_mod(ms, 60_000, 60);
    assert(3_600_000 == 60_000 * 60);
    vstd::arithmetic::div_mod::lemma_mod_breakdown(ms, 60_000, 60);
}

/// Showing a duration and reading the text back gives the same duration.
pub proof fn lemma_parse_format_roundtrip(millis: i64)
    requires
        millis >= 0,
    ensures
        parsed_millis(time_text(millis as int)) == millis,
{
    let ms = millis as int;
    let hp = hours_part(ms);
    let mp = minutes_part(ms);
    let sp = seconds_part(ms);
    let s = time_text(ms);
    lemma_read_hours_part(ms);
    assert(s == hp + mp + sp);
    lemma_read_minutes_part(s, hp, ms);
    assert(s =~= (hp + mp) + sp);
    lemma_read_seconds_part(s, hp + mp, ms);
    lemma_parts_add_up(ms);
}

} // verus!
