//! Numeric text: which tokens are float literals, unsigned integers read from
//! and written to decimal text, and Euclid's greatest common divisor.
use vstd::prelude::*;

use vstd::arithmetic::div_mod::{lemma_fundamental_div_mod, lemma_mod_multiples_basic};

use crate::text::chars_of;

verus! {

pub open spec fn is_digit(c: char) -> bool {
    '0' <= c && c <= '9'
}

pub open spec fn all_digits(s: Seq<char>) -> bool {
    forall|i: int| 0 <= i < s.len() ==> is_digit(#[trigger] s[i])
}

pub open spec fn is_sign(c: char) -> bool {
    c == '+' || c == '-'
}

/// The text after one optional leading sign.
pub open spec fn unsigned_part(s: Seq<char>) -> Seq<char> {
    if s.len() > 0 && is_sign(s[0]) {
        s.drop_first()
    } else {
        s
    }
}

/// `s` spells a word whose letters are `lo` in lower case and `up` in upper
/// case, each letter in either case.
pub open spec fn matches_word(s: Seq<char>, lo: Seq<char>, up: Seq<char>) -> bool {
    &&& s.len() == lo.len()
    &&& s.len() == up.len()
    &&& forall|i: int| 0 <= i < s.len() ==> (#[trigger] s[i] == lo[i] || s[i] == up[i])
}

/// `Digit+ | Digit+ '.' Digit* | Digit* '.' Digit+`
pub open spec fn is_mantissa(m: Seq<char>) -> bool {
    ||| m.len() > 0 && all_digits(m)
    ||| exists|p: int|
        0 <= p < m.len() && m.len() > 1 && #[trigger] m[p] == '.' && all_digits(m.take(p))
            && all_digits(m.skip(p + 1))
}

/// `Sign? Digit+`
pub open spec fn is_exponent(x: Seq<char>) -> bool {
    unsigned_part(x).len() > 0 && all_digits(unsigned_part(x))
}

pub open spec fn is_exp_mark(c: char) -> bool {
    c == 'e' || c == 'E'
}

/// `Mantissa (('e' | 'E') Exponent)?`
pub open spec fn is_decimal(t: Seq<char>) -> bool {
    ||| is_mantissa(t)
    ||| exists|k: int|
        0 <= k < t.len() && is_exp_mark(#[trigger] t[k]) && is_mantissa(t.take(k))
            && is_exponent(t.skip(k + 1))
}

/// The text of a 64-bit float literal: an optional sign, then `inf`,
/// `infinity` or `nan` in any case, or a decimal number with an optional
/// exponent.
pub open spec fn is_float_literal(s: Seq<char>) -> bool {
    let t = unsigned_part(s);
    ||| matches_word(t, seq!['i', 'n', 'f'], seq!['I', 'N', 'F'])
    ||| matches_word(
        t,
        seq!['i', 'n', 'f', 'i', 'n', 'i', 't', 'y'],
        seq!['I', 'N', 'F', 'I', 'N', 'I', 'T', 'Y'],
    )
    ||| matches_word(t, seq!['n', 'a', 'n'], seq!['N', 'A', 'N'])
    ||| is_decimal(t)
}

/// The end of the run of digits that starts at `i`.
fn digit_run(v: &Vec<char>, i: usize) -> (j: usize)
    requires
        i <= v.len(),
    ensures
        i <= j <= v.len(),
        forall|x: int| i <= x < j ==> is_digit(#[trigger] v@[x]),
        j == v.len() || !is_digit(v@[j as int]),
{
    let mut j = i;
    while j < v.len() && '0' <= v[j] && v[j] <= '9'
        invariant
            i <= j <= v.len(),
            forall|x: int| i <= x < j ==> is_digit(#[trigger] v@[x]),
        decreases v.len() - j,
    {
        j = j + 1;
    }
    j
}

/// Whether `v[start..]` spells the word `lo` / `up`, each letter in either case.
fn matches_word_at(v: &Vec<char>, start: usize, lo: &str, up: &str) -> (r: bool)
    requires
        start <= v.len(),
    ensures
        r == matches_word(v@.skip(start as int), lo@, up@),
{
    let n = lo.unicode_len();
    if v.len() - start != n || up.unicode_len() != n {
        return false;
    }
    let mut i: usize = 0;
    while i < n
        invariant
            n == lo@.len(),
            n == up@.len(),
            v.len() - start == n,
            i <= n,
            forall|k: int| 0 <= k < i ==> (#[trigger] v@[start + k] == lo@[k] || v@[start + k] == up@[k]),
        decreases n - i,
    {
        let c = v[start + i];
        if c != lo.get_char(i) && c != up.get_char(i) {
            assert(v@.skip(start as int)[i as int] == c);
            return false;
        }
        i = i + 1;
    }
    assert forall|k: int| 0 <= k < n implies (#[trigger] v@.skip(start as int)[k] == lo@[k]
        || v@.skip(start as int)[k] == up@[k]) by {
        assert(v@.skip(start as int)[k] == v@[start + k]);
    }
    true
}

/// What a scan of `t` decides: `j1` ends its leading digits; where a point
/// follows them, `end` ends the digits after the point, else `end == j1`.
proof fn lemma_decimal_scan(t: Seq<char>, j1: int, end: int)
    requires
        0 <= j1 <= end <= t.len(),
        forall|x: int| 0 <= x < j1 ==> is_digit(#[trigger] t[x]),
        j1 == t.len() || !is_digit(t[j1]),
        j1 < t.len() && t[j1] == '.' ==> j1 < end && (forall|x: int|
            j1 < x < end ==> is_digit(#[trigger] t[x])) && (end == t.len() || !is_digit(t[end])),
        !(j1 < t.len() && t[j1] == '.') ==> end == j1,
    ensures
        is_decimal(t) <==> ({
            let dotted = j1 < t.len() && t[j1] == '.';
            &&& if dotted {
                end >= 2
            } else {
                end >= 1
            }
            &&& (end == t.len() || (is_exp_mark(t[end]) && is_exponent(t.skip(end + 1))))
        }),
{
    let dotted = j1 < t.len() && t[j1] == '.';
    let has_digit = if dotted {
        end >= 2
    } else {
        end >= 1
    };
    let m = t.take(end);
    if has_digit {
        if dotted {
            assert(m[j1] == '.');
            assert(all_digits(m.take(j1))) by {
                assert forall|i: int| 0 <= i < j1 implies is_digit(#[trigger] m.take(j1)[i]) by {
                    assert(m.take(j1)[i] == t[i]);
                }
            }
            assert(all_digits(m.skip(j1 + 1))) by {
                assert forall|i: int| 0 <= i < end - j1 - 1 implies is_digit(
                    #[trigger] m.skip(j1 + 1)[i],
                ) by {
                    assert(m.skip(j1 + 1)[i] == t[j1 + 1 + i]);
                }
            }
        } else {
            assert(all_digits(m)) by {
                assert forall|i: int| 0 <= i < end implies is_digit(#[trigger] m[i]) by {
                    assert(m[i] == t[i]);
                }
            }
        }
        assert(is_mantissa(m));
        if end == t.len() {
            assert(m =~= t);
        }
    }
    if is_mantissa(t) {
        if t.len() > 0 && all_digits(t) {
            if j1 < t.len() {
                assert(is_digit(t[j1]));
            }
        } else {
            let p = choose|p: int|
                0 <= p < t.len() && t.len() > 1 && #[trigger] t[p] == '.' && all_digits(t.take(p))
                    && all_digits(t.skip(p + 1));
            if p < j1 {
                assert(is_digit(t[p]));
            }
            if p > j1 {
                assert(t.take(p)[j1] == t[j1]);
            }
            assert(p == j1);
            if end < t.len() {
                assert(t.skip(p + 1)[end - p - 1] == t[end]);
            }
        }
    }
    if exists|k: int|
        0 <= k < t.len() && is_exp_mark(#[trigger] t[k]) && is_mantissa(t.take(k)) && is_exponent(
            t.skip(k + 1),
        ) {
        let k = choose|k: int|
            0 <= k < t.len() && is_exp_mark(#[trigger] t[k]) && is_mantissa(t.take(k))
                && is_exponent(t.skip(k + 1));
        let mk = t.take(k);
        if mk.len() > 0 && all_digits(mk) {
            if j1 < k {
                assert(mk[j1] == t[j1]);
            }
            if j1 > k {
                assert(is_digit(t[k]));
            }
            assert(j1 == k);
        } else {
            let p = choose|p: int|
                0 <= p < mk.len() && mk.len() > 1 && #[trigger] mk[p] == '.' && all_digits(
                    mk.take(p),
                ) && all_digits(mk.skip(p + 1));
            assert(t[p] == mk[p]);
            if p < j1 {
                assert(is_digit(t[p]));
            }
            if p > j1 {
                assert(mk.take(p)[j1] == t[j1]);
            }
            assert(p == j1);
            if end < k {
                assert(mk.skip(p + 1)[end - p - 1] == t[end]);
            }
            if end > k {
                assert(is_digit(t[k]));
            }
            assert(end == k);
        }
    }
}

/// Whether `v[start..]` is a decimal number with an optional exponent.
fn decimal_at(v: &Vec<char>, start: usize) -> (r: bool)
    requires
        start <= v.len(),
    ensures
        r == is_decimal(v@.skip(start as int)),
{
    let ghost t = v@.skip(start as int);
    let n = v.len();
    let j1 = digit_run(v, start);
    let mut end = j1;
    let dotted = j1 < n && v[j1] == '.';
    if dotted {
        end = digit_run(v, j1 + 1);
    }
    proof {
        assert forall|x: int| 0 <= x < j1 - start implies is_digit(#[trigger] t[x]) by {
            assert(t[x] == v@[start + x]);
        }
        if dotted {
            assert forall|x: int| j1 - start < x < end - start implies is_digit(#[trigger] t[x]) by {
                assert(t[x] == v@[start + x]);
            }
        }
        lemma_decimal_scan(t, j1 - start, end - start);
    }
    let has_digit = if dotted {
        end - start >= 2
    } else {
        end - start >= 1
    };
    if !has_digit {
        return false;
    }
    if end == n {
        return true;
    }
    if v[end] != 'e' && v[end] != 'E' {
        return false;
    }
    let mut k = end + 1;
    if k < n && (v[k] == '+' || v[k] == '-') {
        k = k + 1;
    }
    let j3 = digit_run(v, k);
    proof {
        let x = t.skip(end - start + 1);
        assert(x =~= v@.skip(end + 1));
        let d = unsigned_part(x);
        assert(d =~= v@.skip(k as int));
        if j3 == n && j3 > k {
            assert forall|i: int| 0 <= i < d.len() implies is_digit(#[trigger] d[i]) by {
                assert(d[i] == v@[k + i]);
            }
        }
        if j3 < n {
            assert(d[j3 - k] == v@[j3 as int]);
        }
    }
    j3 == n && j3 > k
}

/// Whether `s` is the text of a 64-bit float literal.
pub fn is_float_text(s: &str) -> (r: bool)
    ensures
        r == is_float_literal(s@),
{
    let v = chars_of(s);
    let start: usize = if v.len() > 0 && (v[0] == '+' || v[0] == '-') {
        1
    } else {
        0
    };
    proof {
        assert(unsigned_part(s@) =~= v@.skip(start as int));
        reveal_strlit("inf");
        reveal_strlit("INF");
        reveal_strlit("infinity");
        reveal_strlit("INFINITY");
        reveal_strlit("nan");
        reveal_strlit("NAN");
    }
    matches_word_at(&v, start, "inf", "INF") || matches_word_at(&v, start, "infinity", "INFINITY")
        || matches_word_at(&v, start, "nan", "NAN") || decimal_at(&v, start)
}

pub open spec fn digit_value(c: char) -> nat {
    if c == '1' {
        1
    } else if c == '2' {
        2
    } else if c == '3' {
        3
    } else if c == '4' {
        4
    } else if c == '5' {
        5
    } else if c == '6' {
        6
    } else if c == '7' {
        7
    } else if c == '8' {
        8
    } else if c == '9' {
        9
    } else {
        0
    }
}

/// The number that a run of decimal digits denotes.
pub open spec fn digits_value(d: Seq<char>) -> nat
    decreases d.len(),
{
    if d.len() == 0 {
        0
    } else {
        digits_value(d.drop_last()) * 10 + digit_value(d.last())
    }
}

/// The digits of an unsigned integer's text, after one optional `+`.
pub open spec fn uint_digits(s: Seq<char>) -> Seq<char> {
    if s.len() > 0 && s[0] == '+' {
        s.drop_first()
    } else {
        s
    }
}

/// The text of a `u64`: an optional `+`, then at least one decimal digit,
/// denoting at most `u64::MAX`.
pub open spec fn is_uint_text(s: Seq<char>) -> bool {
    let d = uint_digits(s);
    d.len() > 0 && all_digits(d) && digits_value(d) <= u64::MAX
}

pub open spec fn uint_value(s: Seq<char>) -> nat {
    digits_value(uint_digits(s))
}

proof fn lemma_digits_value_grows(d: Seq<char>, i: int)
    requires
        0 <= i <= d.len(),
    ensures
        digits_value(d.take(i)) <= digits_value(d),
    decreases d.len() - i,
{
    if i < d.len() {
        lemma_digits_value_grows(d, i + 1);
        assert(d.take(i + 1).drop_last() =~= d.take(i));
    } else {
        assert(d.take(i) =~= d);
    }
}

fn digit_of(c: char) -> (r: u64)
    ensures
        r == digit_value(c),
{
    if c == '1' {
        1
    } else if c == '2' {
        2
    } else if c == '3' {
        3
    } else if c == '4' {
        4
    } else if c == '5' {
        5
    } else if c == '6' {
        6
    } else if c == '7' {
        7
    } else if c == '8' {
        8
    } else if c == '9' {
        9
    } else {
        0
    }
}

/// Reads `s` as an unsigned 64-bit integer.
pub fn parse_uint(s: &str) -> (r: Option<u64>)
    ensures
        r == (if is_uint_text(s@) {
            Some(uint_value(s@) as u64)
        } else {
            None::<u64>
        }),
{
    let v = chars_of(s);
    let start: usize = if v.len() > 0 && v[0] == '+' {
        1
    } else {
        0
    };
    let ghost d = uint_digits(s@);
    assert(d =~= v@.skip(start as int));
    if start == v.len() {
        return None;
    }
    let mut value: u64 = 0;
    let mut i = start;
    while i < v.len()
        invariant
            d == uint_digits(s@),
            d == v@.skip(start as int),
            start <= i <= v.len(),
            value == digits_value(d.take(i - start)),
            all_digits(d.take(i - start)),
        decreases v.len() - i,
    {
        let c = v[i];
        assert(d[i - start] == c);
        if !('0' <= c && c <= '9') {
            assert(!is_digit(d[i - start]));
            return None;
        }
        assert(d.take(i - start + 1).drop_last() =~= d.take(i - start));
        let next = match value.checked_mul(10) {
            Some(t) => t.checked_add(digit_of(c)),
            None => None,
        };
        match next {
            Some(t) => {
                value = t;
            },
            None => {
                proof {
                    lemma_digits_value_grows(d, i - start + 1);
                    assert(d.take(i - start + 1).last() == c);
                    assert(digits_value(d.take(i - start + 1)) == value * 10 + digit_value(c));
                }
                return None;
            },
        }
        i = i + 1;
        assert(all_digits(d.take(i - start))) by {
            assert forall|x: int| 0 <= x < i - start implies is_digit(#[trigger] d.take(i - start)[x]) by {
                if x < i - start - 1 {
                    assert(d.take(i - start)[x] == d.take(i - start - 1)[x]);
                }
            }
        }
    }
    assert(d.take(i - start) =~= d);
    Some(value)
}

pub open spec fn digit_char(d: nat) -> char {
    if d == 1 {
        '1'
    } else if d == 2 {
        '2'
    } else if d == 3 {
        '3'
    } else if d == 4 {
        '4'
    } else if d == 5 {
        '5'
    } else if d == 6 {
        '6'
    } else if d == 7 {
        '7'
    } else if d == 8 {
        '8'
    } else if d == 9 {
        '9'
    } else {
        '0'
    }
}

/// The decimal text of `n`, without sign or leading zeros.
pub open spec fn decimal(n: nat) -> Seq<char>
    decreases n,
{
    if n < 10 {
        seq![digit_char(n)]
    } else {
        decimal(n / 10).push(digit_char(n % 10))
    }
}

fn digit_text(d: u64) -> (r: &'static str)
    requires
        d < 10,
    ensures
        r@ == seq![digit_char(d as nat)],
{
    proof {
        reveal_strlit("0");
        reveal_strlit("1");
        reveal_strlit("2");
        reveal_strlit("3");
        reveal_strlit("4");
        reveal_strlit("5");
        reveal_strlit("6");
        reveal_strlit("7");
        reveal_strlit("8");
        reveal_strlit("9");
    }
    if d == 1 {
        "1"
    } else if d == 2 {
        "2"
    } else if d == 3 {
        "3"
    } else if d == 4 {
        "4"
    } else if d == 5 {
        "5"
    } else if d == 6 {
        "6"
    } else if d == 7 {
        "7"
    } else if d == 8 {
        "8"
    } else if d == 9 {
        "9"
    } else {
        "0"
    }
}

/// Writes `n` in decimal.
pub fn uint_text(n: u64) -> (r: String)
    ensures
        r@ == decimal(n as nat),
    decreases n,
{
    if n < 10 {
        String::from_str(digit_text(n))
    } else {
        let mut s = uint_text(n / 10);
        s.append(digit_text(n % 10));
        s
    }
}

/// Euclid's algorithm.
pub open spec fn gcd_of(a: nat, b: nat) -> nat
    decreases b,
{
    if b == 0 {
        a
    } else {
        gcd_of(b, a % b)
    }
}

/// `d` divides `x`: `x` is a multiple of `d` (only 0 is a multiple of 0).
pub open spec fn divides(d: nat, x: nat) -> bool {
    if d == 0 {
        x == 0
    } else {
        x % d == 0
    }
}

/// Euclid's result is the greatest common divisor: it divides both values,
/// every common divisor divides it, and it is 0 only for two zeros.
pub proof fn lemma_gcd_of(a: nat, b: nat)
    ensures
        divides(gcd_of(a, b), a),
        divides(gcd_of(a, b), b),
        forall|d: nat| divides(d, a) && divides(d, b) ==> #[trigger] divides(d, gcd_of(a, b)),
        gcd_of(a, b) == 0 <==> a == 0 && b == 0,
    decreases b,
{
    if b > 0 {
        let q = a / b;
        let r = a % b;
        lemma_gcd_of(b, r);
        let g = gcd_of(b, r);
        assert(g > 0);
        lemma_fundamental_div_mod(a as int, b as int);
        lemma_fundamental_div_mod(b as int, g as int);
        lemma_fundamental_div_mod(r as int, g as int);
        let kb = b / g;
        let kr = r / g;
        assert(a == (kb * q + kr) * g) by (nonlinear_arith)
            requires
                a == b * q + r,
                b == g * kb,
                r == g * kr,
        ;
        lemma_mod_multiples_basic((kb * q + kr) as int, g as int);
        assert forall|d: nat| divides(d, a) && divides(d, b) implies #[trigger] divides(
            d,
            gcd_of(a, b),
        ) by {
            lemma_fundamental_div_mod(a as int, d as int);
            lemma_fundamental_div_mod(b as int, d as int);
            let ka = a / d;
            let kb2 = b / d;
            assert(r == (ka - kb2 * q) * d) by (nonlinear_arith)
                requires
                    a == b * q + r,
                    a == d * ka,
                    b == d * kb2,
            ;
            lemma_mod_multiples_basic(ka - kb2 * q, d as int);
            assert(divides(d, r));
        }
    } else {
        if a > 0 {
            lemma_mod_multiples_basic(1, a as int);
        }
    }
}

/// The greatest common divisor of `a` and `b`, by Euclid's algorithm.
pub fn gcd(a: u64, b: u64) -> (r: u64)
    ensures
        r == gcd_of(a as nat, b as nat),
        divides(r as nat, a as nat),
        divides(r as nat, b as nat),
        forall|d: nat| divides(d, a as nat) && divides(d, b as nat) ==> #[trigger] divides(d, r as nat),
        r == 0 <==> a == 0 && b == 0,
    decreases b,
{
    proof {
        lemma_gcd_of(a as nat, b as nat);
    }
    if b != 0 {
        gcd(b, a % b)
    } else {
        a
    }
}

} // verus!
