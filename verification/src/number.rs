//! Reading an integer from a numeral: the numerals of Rust's floating-point
//! grammar, their exact value truncated toward zero and saturated to the
//! range of `i64`; and the number words of header lines.

use vstd::prelude::*;
use crate::text::{
    lemma_trim_idempotent,
    chars_of, is_ascii_digit, lemma_run_fwd, run_fwd, skip_fwd, sub_vec, trim, trimmed, CharClass,
};

verus! {

/// A numeral as the float grammar writes it: `digits × 10^exponent` (the
/// digits before and after the point, concatenated; the exponent already
/// accounts for the point), with its sign.
pub struct Numeral {
    pub negative: bool,
    pub digits: Seq<char>,
    pub exponent: int,
}

/// ASCII lower case of one character.
pub open spec fn ascii_lower(c: char) -> char {
    if 'A' <= c && c <= 'Z' {
        ((c as u32) + 32) as char
    } else {
        c
    }
}

/// `s` equals the lower-case word `w`, ignoring ASCII case.
pub open spec fn matches_word(s: Seq<char>, w: Seq<char>) -> bool {
    &&& s.len() == w.len()
    &&& forall|i: int| 0 <= i < s.len() ==> ascii_lower(#[trigger] s[i]) == w[i]
}

/// Value of an ASCII digit.
pub open spec fn digit_value(c: char) -> nat {
    ((c as u32) - ('0' as u32)) as nat
}

/// A run of ASCII digits read as a decimal numeral.
pub open spec fn digits_value(s: Seq<char>) -> nat
    decreases s.len(),
{
    if s.len() == 0 {
        0
    } else {
        digits_value(s.drop_last()) * 10 + digit_value(s.last())
    }
}

/// Ten to the power `n`.
pub open spec fn pow10(n: nat) -> nat
    decreases n,
{
    if n == 0 {
        1
    } else {
        10 * pow10((n - 1) as nat)
    }
}

/// The numerals of Rust's grammar for `f64` literals (`str::parse::<f64>`),
/// with an optional sign: `[+-]? Number`, where
/// `Number ::= (Digit+ | Digit+ '.' Digit* | Digit* '.' Digit+) ([eE] [+-]? Digit+)?`.
/// The words `inf`, `infinity` and `nan`, which that grammar also accepts,
/// denote no integer and are not numerals here.
pub open spec fn signed_numeral(t: Seq<char>) -> Option<Numeral> {
    let signed = t.len() > 0 && (t[0] == '+' || t[0] == '-');
    let negative = t.len() > 0 && t[0] == '-';
    let r = if signed {
        t.drop_first()
    } else {
        t
    };
    numeral(r, negative)
}

/// The `Number` part of the grammar of [`signed_numeral`], after the sign.
pub open spec fn numeral(r: Seq<char>, negative: bool) -> Option<Numeral> {
    let a = run_fwd(r, 0, CharClass::AsciiDigit) as int;
    let dot = a < r.len() && r[a] == '.';
    let b = if dot {
        run_fwd(r, a + 1, CharClass::AsciiDigit) as int
    } else {
        0
    };
    let m = if dot {
        a + 1 + b
    } else {
        a
    };
    let digits = r.subrange(0, a) + r.subrange(m - b, m);
    if a + b == 0 {
        None
    } else if m == r.len() {
        Some(Numeral { negative, digits, exponent: -b })
    } else if r[m] == 'e' || r[m] == 'E' {
        let esigned = m + 1 < r.len() && (r[m + 1] == '+' || r[m + 1] == '-');
        let eneg = m + 1 < r.len() && r[m + 1] == '-';
        let p = if esigned {
            m + 2
        } else {
            m + 1
        };
        let c = run_fwd(r, p, CharClass::AsciiDigit) as int;
        if c > 0 && p + c == r.len() {
            let e = digits_value(r.subrange(p, r.len() as int)) as int;
            Some(
                Numeral {
                    negative,
                    digits,
                    exponent: (if eneg {
                        -e
                    } else {
                        e
                    }) - b,
                },
            )
        } else {
            None
        }
    } else {
        None
    }
}

/// `digits × 10^exponent` truncated toward zero.
pub open spec fn magnitude(digits: Seq<char>, exponent: int) -> nat {
    if exponent >= 0 {
        digits_value(digits) * pow10(exponent as nat)
    } else if digits.len() + exponent <= 0 {
        0
    } else {
        // dropping the last -exponent digits truncates toward zero
        digits_value(digits.subrange(0, digits.len() + exponent))
    }
}

/// The integer a numeral denotes, as `as i64` converts it: truncation
/// toward zero, and saturation at the bounds of `i64`.
pub open spec fn literal_to_i64(l: Numeral) -> i64 {
    let m = magnitude(l.digits, l.exponent);
    if l.negative {
        if m >= 0x8000_0000_0000_0000 {
            i64::MIN
        } else {
            (-m) as i64
        }
    } else {
        if m > i64::MAX {
            i64::MAX
        } else {
            m as i64
        }
    }
}

/// What `try_parse_num` returns for `s`: the integer of the trimmed text
/// read as a signed numeral (see [`signed_numeral`]), or `None` where it is
/// none. The value is that of the numeral itself, truncated toward zero.
pub open spec fn parsed_number(s: Seq<char>) -> Option<i64> {
    match signed_numeral(trim(s)) {
        Some(l) => Some(literal_to_i64(l)),
        None => None,
    }
}

proof fn lemma_pow10_ge1(n: nat)
    ensures
        pow10(n) >= 1,
    decreases n,
{
    if n > 0 {
        lemma_pow10_ge1((n - 1) as nat);
    }
}

proof fn lemma_pow10_mono(i: nat, j: nat)
    requires
        i <= j,
    ensures
        pow10(i) <= pow10(j),
    decreases j,
{
    if i < j {
        lemma_pow10_mono(i, (j - 1) as nat);
        lemma_pow10_ge1((j - 1) as nat);
    }
}

proof fn lemma_pow10_19()
    ensures
        pow10(19) == 10_000_000_000_000_000_000,
{
    reveal_with_fuel(pow10, 20);
}

/// `s` without its last `n` characters.
proof fn lemma_digits_value_push(s: Seq<char>, c: char)
    ensures
        digits_value(s.push(c)) == digits_value(s) * 10 + digit_value(c),
{
    assert(s.push(c).drop_last() =~= s);
}

/// `min(digits_value(v[lo..hi]), cap)`, computed without overflow.
fn saturated_digits(v: &Vec<char>, lo: usize, hi: usize, cap: u128) -> (r: u128)
    requires
        lo <= hi <= v@.len(),
        1 <= cap <= 0x4_0000_0000_0000_0000u128,
        forall|j: int| lo <= j < hi ==> is_ascii_digit(#[trigger] v@[j]),
    ensures
        r as int == if digits_value(v@.subrange(lo as int, hi as int)) < cap {
            digits_value(v@.subrange(lo as int, hi as int)) as int
        } else {
            cap as int
        },
{
    let mut acc: u128 = 0;
    let mut i = lo;
    assert(v@.subrange(lo as int, lo as int) =~= Seq::<char>::empty());
    while i < hi
        invariant
            lo <= i <= hi <= v@.len(),
            1 <= cap <= 0x4_0000_0000_0000_0000u128,
            forall|j: int| lo <= j < hi ==> is_ascii_digit(#[trigger] v@[j]),
            acc as int == if digits_value(v@.subrange(lo as int, i as int)) < cap {
                digits_value(v@.subrange(lo as int, i as int)) as int
            } else {
                cap as int
            },
        decreases hi - i,
    {
        let c = v[i];
        assert(is_ascii_digit(v@[i as int]));
        let d = (c as u32 - '0' as u32) as u128;
        proof {
            assert(v@.subrange(lo as int, i + 1) =~= v@.subrange(lo as int, i as int).push(c));
            lemma_digits_value_push(v@.subrange(lo as int, i as int), c);
        }
        if acc >= cap {
            acc = cap;
        } else {
            let t = acc * 10 + d;
            acc = if t > cap {
                cap
            } else {
                t
            };
        }
        i = i + 1;
    }
    acc
}

/// Does `v[p..]` equal the lower-case word `w`, ignoring ASCII case?
pub(crate) fn word_at(v: &Vec<char>, p: usize, w: &Vec<char>) -> (r: bool)
    requires
        p <= v@.len(),
    ensures
        r == matches_word(v@.subrange(p as int, v@.len() as int), w@),
{
    let ghost s = v@.subrange(p as int, v@.len() as int);
    let n = v.len();
    if n - p != w.len() {
        return false;
    }
    let mut i: usize = 0;
    while i < w.len()
        invariant
            p <= v@.len(),
            s == v@.subrange(p as int, v@.len() as int),
            s.len() == w@.len(),
            0 <= i <= w@.len(),
            n == v@.len(),
            n - p == w@.len(),
            forall|j: int| 0 <= j < i ==> ascii_lower(#[trigger] s[j]) == w@[j],
        decreases w@.len() - i,
    {
        let c = v[p + i];
        let lc = if 'A' <= c && c <= 'Z' {
            ((c as u8) + 32) as char
        } else {
            c
        };
        assert(lc == ascii_lower(s[i as int]));
        if lc != w[i] {
            return false;
        }
        i = i + 1;
    }
    true
}


/// `x` capped at 2^63.
pub open spec fn capped(x: nat) -> nat {
    if x < 0x8000_0000_0000_0000 {
        x
    } else {
        0x8000_0000_0000_0000
    }
}

proof fn lemma_big_scaled(dv: nat, n: nat)
    requires
        dv >= 1,
        n >= 19,
    ensures
        dv * pow10(n) >= 0x8000_0000_0000_0000,
{
    lemma_pow10_mono(19, n);
    lemma_pow10_19();
    let p = pow10(n);
    assert(dv * p >= p) by (nonlinear_arith)
        requires
            dv >= 1,
    ;
}

/// `capped(digits_value(digits) * 10^e)`.
fn capped_scaled(digits: &Vec<char>, e: u128) -> (acc: u128)
    requires
        forall|j: int| 0 <= j < digits@.len() ==> is_ascii_digit(#[trigger] digits@[j]),
    ensures
        acc as nat == capped(digits_value(digits@) * pow10(e as nat)),
{
    let cap: u128 = 0x8000_0000_0000_0000u128;
    let ghost dv = digits_value(digits@);
    let mut acc = saturated_digits(digits, 0, digits.len(), cap);
    assert(digits@.subrange(0, digits@.len() as int) =~= digits@);
    proof {
        assert(pow10(0) == 1);
        assert(dv * pow10(0) == dv) by (nonlinear_arith)
            requires
                pow10(0) == 1,
        ;
    }
    let mut j: u128 = 0;
    while j < e && acc != 0 && acc < cap
        invariant
            j <= e,
            cap == 0x8000_0000_0000_0000u128,
            acc as nat == capped(dv * pow10(j as nat)),
        decreases e - j,
    {
        proof {
            assert(pow10((j + 1) as nat) == 10 * pow10(j as nat));
            assert(dv * pow10((j + 1) as nat) == (dv * pow10(j as nat)) * 10) by (nonlinear_arith)
                requires
                    pow10((j + 1) as nat) == 10 * pow10(j as nat),
            ;
        }
        let t = acc * 10;
        acc = if t > cap {
            cap
        } else {
            t
        };
        j = j + 1;
    }
    proof {
        lemma_pow10_mono(j as nat, e as nat);
        lemma_pow10_ge1(j as nat);
        let pj = pow10(j as nat);
        let pe = pow10(e as nat);
        assert(dv * pj <= dv * pe) by (nonlinear_arith)
            requires
                pj <= pe,
        ;
        if acc == 0 {
            assert(dv == 0) by (nonlinear_arith)
                requires
                    dv * pj == 0,
                    pj >= 1,
            ;
            assert(dv * pe == 0) by (nonlinear_arith)
                requires
                    dv == 0,
            ;
        }
    }
    acc
}

/// `capped(magnitude(digits, exponent))` where the exponent is `±e_true - b`
/// and `e_sat` is the written exponent `e_true` saturated at 2^65.
fn capped_magnitude(
    digits: &Vec<char>,
    e_neg: bool,
    e_sat: u128,
    b: usize,
    Ghost(e_true): Ghost<int>,
) -> (acc: u128)
    requires
        forall|j: int| 0 <= j < digits@.len() ==> is_ascii_digit(#[trigger] digits@[j]),
        e_true >= 0,
        e_sat as int == if e_true < 0x2_0000_0000_0000_0000 {
            e_true
        } else {
            0x2_0000_0000_0000_0000
        },
    ensures
        acc as nat == capped(
            magnitude(
                digits@,
                (if e_neg {
                    -e_true
                } else {
                    e_true
                }) - b,
            ),
        ),
{
    let ghost exponent: int = (if e_neg {
        -e_true
    } else {
        e_true
    }) - b;
    let ghost dv = digits_value(digits@);
    let dlen = digits.len();
    if !e_neg && e_sat >= b as u128 {
        let big_e: u128 = e_sat - b as u128;
        let acc = capped_scaled(digits, big_e);
        proof {
            if e_true >= 0x2_0000_0000_0000_0000 {
                if dv >= 1 {
                    lemma_big_scaled(dv, big_e as nat);
                    lemma_big_scaled(dv, exponent as nat);
                } else {
                    let p1 = pow10(big_e as nat);
                    let p2 = pow10(exponent as nat);
                    assert(dv * p1 == 0 && dv * p2 == 0) by (nonlinear_arith)
                        requires
                            dv == 0,
                    ;
                }
            }
        }
        acc
    } else {
        let drop: u128 = if e_neg {
            e_sat + b as u128
        } else {
            b as u128 - e_sat
        };
        if drop == 0 {
            proof {
                assert(pow10(0) == 1);
                assert(dv * pow10(0) == dv) by (nonlinear_arith)
                    requires
                        pow10(0) == 1,
                ;
            }
            let acc = saturated_digits(digits, 0, dlen, 0x8000_0000_0000_0000u128);
            assert(digits@.subrange(0, dlen as int) =~= digits@);
            acc
        } else if drop >= dlen as u128 {
            0
        } else {
            let keep = dlen - drop as usize;
            saturated_digits(digits, 0, keep, 0x8000_0000_0000_0000u128)
        }
    }
}

/// The conversion of a numeral to `i64` (see [`numeral`]).
fn numeral_value(r: &Vec<char>, negative: bool) -> (res: Option<i64>)
    ensures
        res == match numeral(r@, negative) {
            Some(l) => Some(literal_to_i64(l)),
            None => None,
        },
{
    let len = r.len();
    let a = skip_fwd(r, 0, CharClass::AsciiDigit);
    let dot = a < len && r[a] == '.';
    let b = if dot {
        skip_fwd(r, a + 1, CharClass::AsciiDigit) - (a + 1)
    } else {
        0
    };
    let m = if dot {
        a + 1 + b
    } else {
        a
    };
    if a + b == 0 {
        return None;
    }
    proof {
        lemma_run_fwd(r@, 0, CharClass::AsciiDigit);
        if dot {
            lemma_run_fwd(r@, a + 1, CharClass::AsciiDigit);
        }
    }
    // the digits before and after the point, concatenated
    let mut digits = sub_vec(r, 0, a);
    let mut q = m - b;
    while q < m
        invariant
            a <= m - b <= q <= m <= len == r@.len(),
            digits@ == r@.subrange(0, a as int) + r@.subrange(m - b, q as int),
        decreases m - q,
    {
        digits.push(r[q]);
        q = q + 1;
        assert(r@.subrange(0, a as int) + r@.subrange(m - b, q as int) =~= (r@.subrange(
            0,
            a as int,
        ) + r@.subrange(m - b, q - 1)).push(r@[q - 1]));
    }
    assert(forall|j: int| 0 <= j < digits@.len() ==> is_ascii_digit(#[trigger] digits@[j]));
    // the exponent as written, saturated at 2^65, and its sign
    let mut e_sat: u128 = 0;
    let mut e_neg = false;
    let ghost mut e_true: int = 0;
    if m < len {
        if !(r[m] == 'e' || r[m] == 'E') {
            return None;
        }
        let esigned = m + 1 < len && (r[m + 1] == '+' || r[m + 1] == '-');
        e_neg = m + 1 < len && r[m + 1] == '-';
        let p = if esigned {
            m + 2
        } else {
            m + 1
        };
        let c_end = skip_fwd(r, p, CharClass::AsciiDigit);
        if !(c_end > p && c_end == len) {
            return None;
        }
        proof {
            lemma_run_fwd(r@, p as int, CharClass::AsciiDigit);
        }
        e_sat = saturated_digits(r, p, len, 0x2_0000_0000_0000_0000u128);
        proof {
            e_true = digits_value(r@.subrange(p as int, len as int)) as int;
        }
    }
    assert(numeral(r@, negative) == Some(
        Numeral {
            negative,
            digits: digits@,
            exponent: (if e_neg {
                -e_true
            } else {
                e_true
            }) - b,
        },
    ));
    let acc = capped_magnitude(&digits, e_neg, e_sat, b, Ghost(e_true));
    let cap: u128 = 0x8000_0000_0000_0000u128;
    let res: i64 = if negative {
        if acc >= cap {
            i64::MIN
        } else {
            -(acc as i64)
        }
    } else {
        if acc >= cap {
            i64::MAX
        } else {
            acc as i64
        }
    };
    Some(res)
}

/// The integer a string states: its trimmed text read as a signed numeral
/// of Rust's float grammar (digits, an optional point and fraction, an
/// optional exponent), truncated toward zero and saturated to `i64`;
/// `None` for anything else, the words `inf`, `infinity` and `nan`
/// included. The value is the numeral's exact value: it is not first
/// rounded to the nearest `f64`, so a numeral of more than about fifteen
/// significant digits may read one unit away from what a float conversion
/// would give (`0.99999999999999999999` reads as 0).
pub fn try_parse_num(s: &str) -> (r: Option<i64>)
    ensures
        r == parsed_number(s@),
{
    let v = chars_of(s);
    number_of(&v)
}

/// [`try_parse_num`] on a vector of characters.
pub fn number_of(v: &Vec<char>) -> (res: Option<i64>)
    ensures
        res == parsed_number(v@),
{
    let t = trimmed(v);
    let n = t.len();
    let signed = n > 0 && (t[0] == '+' || t[0] == '-');
    let negative = n > 0 && t[0] == '-';
    let r = if signed {
        sub_vec(&t, 1, n)
    } else {
        sub_vec(&t, 0, n)
    };
    assert(r@ == (if signed {
        t@.drop_first()
    } else {
        t@
    }));
    let len = r.len();
    assert(r@.subrange(0, len as int) =~= r@);
    numeral_value(&r, negative)
}


/// The number a header's number word names: `zero` to `twenty`, in any
/// ASCII case; `None` for any other word.
pub open spec fn word_number(w: Seq<char>) -> Option<i64> {
    if matches_word(w, seq!['z', 'e', 'r', 'o']) {
        Some(0)
    } else if matches_word(w, seq!['o', 'n', 'e']) {
        Some(1)
    } else if matches_word(w, seq!['t', 'w', 'o']) {
        Some(2)
    } else if matches_word(w, seq!['t', 'h', 'r', 'e', 'e']) {
        Some(3)
    } else if matches_word(w, seq!['f', 'o', 'u', 'r']) {
        Some(4)
    } else if matches_word(w, seq!['f', 'i', 'v', 'e']) {
        Some(5)
    } else if matches_word(w, seq!['s', 'i', 'x']) {
        Some(6)
    } else if matches_word(w, seq!['s', 'e', 'v', 'e', 'n']) {
        Some(7)
    } else if matches_word(w, seq!['e', 'i', 'g', 'h', 't']) {
        Some(8)
    } else if matches_word(w, seq!['n', 'i', 'n', 'e']) {
        Some(9)
    } else if matches_word(w, seq!['t', 'e', 'n']) {
        Some(10)
    } else if matches_word(w, seq!['e', 'l', 'e', 'v', 'e', 'n']) {
        Some(11)
    } else if matches_word(w, seq!['t', 'w', 'e', 'l', 'v', 'e']) {
        Some(12)
    } else if matches_word(w, seq!['t', 'h', 'i', 'r', 't', 'e', 'e', 'n']) {
        Some(13)
    } else if matches_word(w, seq!['f', 'o', 'u', 'r', 't', 'e', 'e', 'n']) {
        Some(14)
    } else if matches_word(w, seq!['f', 'i', 'f', 't', 'e', 'e', 'n']) {
        Some(15)
    } else if matches_word(w, seq!['s', 'i', 'x', 't', 'e', 'e', 'n']) {
        Some(16)
    } else if matches_word(w, seq!['s', 'e', 'v', 'e', 'n', 't', 'e', 'e', 'n']) {
        Some(17)
    } else if matches_word(w, seq!['e', 'i', 'g', 'h', 't', 'e', 'e', 'n']) {
        Some(18)
    } else if matches_word(w, seq!['n', 'i', 'n', 'e', 't', 'e', 'e', 'n']) {
        Some(19)
    } else if matches_word(w, seq!['t', 'w', 'e', 'n', 't', 'y']) {
        Some(20)
    } else {
        None
    }
}

/// The number a number word names (see [`word_number`]).
pub fn word_number_of(v: &Vec<char>) -> (r: Option<i64>)
    ensures
        r == word_number(v@),
{
    assert(v@.subrange(0, v@.len() as int) =~= v@);
    if word_at(v, 0, &vec!['z', 'e', 'r', 'o']) {
        return Some(0);
    }
    if word_at(v, 0, &vec!['o', 'n', 'e']) {
        return Some(1);
    }
    if word_at(v, 0, &vec!['t', 'w', 'o']) {
        return Some(2);
    }
    if word_at(v, 0, &vec!['t', 'h', 'r', 'e', 'e']) {
        return Some(3);
    }
    if word_at(v, 0, &vec!['f', 'o', 'u', 'r']) {
        return Some(4);
    }
    if word_at(v, 0, &vec!['f', 'i', 'v', 'e']) {
        return Some(5);
    }
    if word_at(v, 0, &vec!['s', 'i', 'x']) {
        return Some(6);
    }
    if word_at(v, 0, &vec!['s', 'e', 'v', 'e', 'n']) {
        return Some(7);
    }
    if word_at(v, 0, &vec!['e', 'i', 'g', 'h', 't']) {
        return Some(8);
    }
    if word_at(v, 0, &vec!['n', 'i', 'n', 'e']) {
        return Some(9);
    }
    if word_at(v, 0, &vec!['t', 'e', 'n']) {
        return Some(10);
    }
    if word_at(v, 0, &vec!['e', 'l', 'e', 'v', 'e', 'n']) {
        return Some(11);
    }
    if word_at(v, 0, &vec!['t', 'w', 'e', 'l', 'v', 'e']) {
        return Some(12);
    }
    if word_at(v, 0, &vec!['t', 'h', 'i', 'r', 't', 'e', 'e', 'n']) {
        return Some(13);
    }
    if word_at(v, 0, &vec!['f', 'o', 'u', 'r', 't', 'e', 'e', 'n']) {
        return Some(14);
    }
    if word_at(v, 0, &vec!['f', 'i', 'f', 't', 'e', 'e', 'n']) {
        return Some(15);
    }
    if word_at(v, 0, &vec!['s', 'i', 'x', 't', 'e', 'e', 'n']) {
        return Some(16);
    }
    if word_at(v, 0, &vec!['s', 'e', 'v', 'e', 'n', 't', 'e', 'e', 'n']) {
        return Some(17);
    }
    if word_at(v, 0, &vec!['e', 'i', 'g', 'h', 't', 'e', 'e', 'n']) {
        return Some(18);
    }
    if word_at(v, 0, &vec!['n', 'i', 'n', 'e', 't', 'e', 'e', 'n']) {
        return Some(19);
    }
    if word_at(v, 0, &vec!['t', 'w', 'e', 'n', 't', 'y']) {
        return Some(20);
    }
    None
}

/// Law: white space around a number does not change what it reads as.
pub proof fn lemma_number_ignores_surrounding_space(s: Seq<char>)
    ensures
        parsed_number(trim(s)) == parsed_number(s),
{
    lemma_trim_idempotent(s);
}

} // verus!
