//! Reading the text of a JSON number exactly, exponent form included, and
//! the exact scaling and rounding that bring it to tenths of a unit.
use vstd::arithmetic::div_mod::{
    lemma_basic_div, lemma_fundamental_div_mod, lemma_fundamental_div_mod_converse_div,
    lemma_mod_bound,
};
use vstd::prelude::*;

verus! {

/// Greatest number of decimal places a `Decimal` holds.
pub const MAX_SCALE: u32 = 38;

/// Greatest exponent value, as written after `e`, that is read.
pub const EXPONENT_CAP: u64 = 1_000_000_000;

/// The number `(-1)^negative * mantissa / 10^scale`.
pub struct Decimal {
    pub negative: bool,
    pub mantissa: u64,
    pub scale: u32,
}

pub open spec fn pow10(k: nat) -> int
    decreases k,
{
    if k == 0 {
        1
    } else {
        10 * pow10((k - 1) as nat)
    }
}

pub proof fn lemma_pow10_positive(k: nat)
    ensures
        pow10(k) >= 1,
    decreases k,
{
    if k > 0 {
        lemma_pow10_positive((k - 1) as nat);
    }
}

pub proof fn lemma_pow10_monotone(j: nat, k: nat)
    requires
        j <= k,
    ensures
        pow10(j) <= pow10(k),
    decreases k,
{
    lemma_pow10_positive(k);
    if j < k {
        lemma_pow10_monotone(j, (k - 1) as nat);
    }
}

impl Decimal {
    pub open spec fn wf(&self) -> bool {
        self.scale <= MAX_SCALE
    }

    /// The numerator over `10^scale`, with its sign.
    pub open spec fn numerator(&self) -> int {
        if self.negative {
            -(self.mantissa as int)
        } else {
            self.mantissa as int
        }
    }

    pub open spec fn denominator(&self) -> int {
        pow10(self.scale as nat)
    }
}

pub open spec fn is_digit(c: char) -> bool {
    '0' <= c && c <= '9'
}

pub open spec fn digit_value(c: char) -> int {
    c as int - '0' as int
}

/// Where a reader of JSON number text stands. Phases: 0 start, 1 after the
/// minus sign, 2 in the integer digits, 3 after the point, 4 in the
/// fraction digits, 5 after `e`, 6 after the exponent's sign, 7 in the
/// exponent digits.
pub struct NumberText {
    pub negative: bool,
    pub phase: int,
    pub mantissa: int,
    pub fraction_digits: int,
    pub exponent_negative: bool,
    pub exponent: int,
}

pub open spec fn number_start() -> NumberText {
    NumberText {
        negative: false,
        phase: 0,
        mantissa: 0,
        fraction_digits: 0,
        exponent_negative: false,
        exponent: 0,
    }
}

/// One character more of JSON number text, `None` where the grammar
/// `-? digits (. digits)? ([eE] [+-]? digits)?` does not allow it.
pub open spec fn step(t: NumberText, c: char) -> Option<NumberText> {
    if is_digit(c) {
        if t.phase <= 2 {
            Some(NumberText { phase: 2, mantissa: t.mantissa * 10 + digit_value(c), ..t })
        } else if t.phase <= 4 {
            Some(
                NumberText {
                    phase: 4,
                    mantissa: t.mantissa * 10 + digit_value(c),
                    fraction_digits: t.fraction_digits + 1,
                    ..t
                },
            )
        } else {
            Some(NumberText { phase: 7, exponent: t.exponent * 10 + digit_value(c), ..t })
        }
    } else if c == '-' && t.phase == 0 {
        Some(NumberText { phase: 1, negative: true, ..t })
    } else if c == '-' && t.phase == 5 {
        Some(NumberText { phase: 6, exponent_negative: true, ..t })
    } else if c == '+' && t.phase == 5 {
        Some(NumberText { phase: 6, ..t })
    } else if c == '.' && t.phase == 2 {
        Some(NumberText { phase: 3, ..t })
    } else if (c == 'e' || c == 'E') && (t.phase == 2 || t.phase == 4) {
        Some(NumberText { phase: 5, ..t })
    } else {
        None
    }
}

pub open spec fn scan(s: Seq<char>) -> Option<NumberText>
    decreases s.len(),
{
    if s.len() == 0 {
        Some(number_start())
    } else {
        match scan(s.drop_last()) {
            None => None,
            Some(t) => step(t, s.last()),
        }
    }
}

/// The reading of `s` where `s` is a whole JSON number.
pub open spec fn number_text(s: Seq<char>) -> Option<NumberText> {
    match scan(s) {
        Some(t) => if t.phase == 2 || t.phase == 4 || t.phase == 7 {
            Some(t)
        } else {
            None
        },
        None => None,
    }
}

/// A number as JSON writes it: `(-1)^negative * mantissa * 10^exponent`.
/// `integral` is set where it was written as digits alone.
pub struct Scientific {
    pub negative: bool,
    pub mantissa: u64,
    pub exponent: i128,
    pub integral: bool,
}

/// Why number text could not be read.
#[derive(Debug, Clone, Copy, PartialEq, Eq, Structural)]
pub enum NumberError {
    /// Not JSON number syntax.
    Malformed,
    /// Its digits exceed `u64::MAX`, or its written exponent `EXPONENT_CAP`.
    OutOfRange,
}

/// What reading `s` gives: the number it writes, or why there is none.
pub open spec fn number_of_text(s: Seq<char>) -> Result<Scientific, NumberError> {
    match number_text(s) {
        None => Err(NumberError::Malformed),
        Some(t) => if t.mantissa <= u64::MAX && t.exponent <= EXPONENT_CAP {
            Ok(
                Scientific {
                    negative: t.negative,
                    mantissa: t.mantissa as u64,
                    exponent: ((if t.exponent_negative {
                        -t.exponent
                    } else {
                        t.exponent
                    }) - t.fraction_digits) as i128,
                    integral: t.phase == 2,
                },
            )
        } else {
            Err(NumberError::OutOfRange)
        },
    }
}

proof fn lemma_scan_none_extends(s: Seq<char>, k: int)
    requires
        0 <= k <= s.len(),
        scan(s.subrange(0, k)) is None,
    ensures
        scan(s) is None,
    decreases s.len() - k,
{
    if k < s.len() {
        assert(s.subrange(0, k + 1).drop_last() == s.subrange(0, k));
        lemma_scan_none_extends(s, k + 1);
    } else {
        assert(s.subrange(0, k) == s);
    }
}

/// Where `scan` stands after `s`, or the start where it has stopped.
pub open spec fn scanned(s: Seq<char>) -> NumberText {
    match scan(s) {
        Some(t) => t,
        None => number_start(),
    }
}

/// Reads JSON number text, exponent form included.
pub fn parse_number(text: &Vec<char>) -> (r: Result<Scientific, NumberError>)
    ensures
        r == number_of_text(text@),
{
    let len = text.len();
    let mut i: usize = 0;
    let mut negative = false;
    let mut phase: u8 = 0;
    let mut m: u64 = 0;
    let mut m_big = false;
    let mut fraction: usize = 0;
    let mut exp_negative = false;
    let mut x: u64 = 0;
    let mut x_big = false;
    assert(text@.subrange(0, 0) == Seq::<char>::empty());
    while i < len
        invariant
            i <= len == text@.len(),
            scan(text@.subrange(0, i as int)) is Some,
            ({
                let t = scanned(text@.subrange(0, i as int));
                &&& t.negative == negative
                &&& t.phase == phase as int
                &&& t.mantissa >= 0
                &&& (if m_big { t.mantissa > u64::MAX } else { t.mantissa == m as int })
                &&& t.fraction_digits == fraction as int
                &&& fraction <= i
                &&& t.exponent_negative == exp_negative
                &&& t.exponent >= 0
                &&& (if x_big { t.exponent > EXPONENT_CAP } else { t.exponent == x as int && x <= EXPONENT_CAP })
            }),
        decreases len - i,
    {
        let c = text[i];
        let ghost prefix = text@.subrange(0, i as int + 1);
        assert(prefix.drop_last() == text@.subrange(0, i as int));
        assert(prefix.last() == c);
        if '0' <= c && c <= '9' {
            let d: u64 = c as u64 - '0' as u64;
            if phase <= 4 {
                if !m_big && m <= (u64::MAX - d) / 10 {
                    m = m * 10 + d;
                } else {
                    m_big = true;
                }
                if phase >= 3 {
                    fraction = fraction + 1;
                    phase = 4;
                } else {
                    phase = 2;
                }
            } else {
                if !x_big && x <= (EXPONENT_CAP - d) / 10 {
                    x = x * 10 + d;
                } else {
                    x_big = true;
                }
                phase = 7;
            }
        } else if c == '-' && phase == 0 {
            negative = true;
            phase = 1;
        } else if c == '-' && phase == 5 {
            exp_negative = true;
            phase = 6;
        } else if c == '+' && phase == 5 {
            phase = 6;
        } else if c == '.' && phase == 2 {
            phase = 3;
        } else if (c == 'e' || c == 'E') && (phase == 2 || phase == 4) {
            phase = 5;
        } else {
            proof {
                lemma_scan_none_extends(text@, i as int + 1);
            }
            return Err(NumberError::Malformed);
        }
        i = i + 1;
    }
    assert(text@.subrange(0, len as int) == text@);
    if !(phase == 2 || phase == 4 || phase == 7) {
        return Err(NumberError::Malformed);
    }
    if m_big || x_big {
        return Err(NumberError::OutOfRange);
    }
    let written: i128 = if exp_negative { -(x as i128) } else { x as i128 };
    Ok(
        Scientific {
            negative,
            mantissa: m,
            exponent: written - fraction as i128,
            integral: phase == 2,
        },
    )
}

/// `a / b` rounded to the nearest integer, halves away from zero.
pub open spec fn round_div(a: int, b: int) -> int {
    if a >= 0 {
        (2 * a + b) / (2 * b)
    } else {
        -((2 * -a + b) / (2 * b))
    }
}

impl Scientific {
    pub open spec fn signed_mantissa(&self) -> int {
        if self.negative {
            -(self.mantissa as int)
        } else {
            self.mantissa as int
        }
    }

    /// `factor` times the number is `numerator(factor) / denominator()`.
    pub open spec fn numerator(&self, factor: int) -> int {
        self.signed_mantissa() * factor * (if self.exponent >= 0 {
            pow10(self.exponent as nat)
        } else {
            1
        })
    }

    pub open spec fn denominator(&self) -> int {
        if self.exponent < 0 {
            pow10((-self.exponent) as nat)
        } else {
            1
        }
    }
}

/// `factor` times `n`, rounded down where `floor` is set, else to the
/// nearest integer with halves away from zero.
pub open spec fn scaled(n: Scientific, factor: int, floor: bool) -> int {
    if floor {
        n.numerator(factor) / n.denominator()
    } else {
        round_div(n.numerator(factor), n.denominator())
    }
}

pub open spec fn fits_i64(v: int) -> bool {
    -(i64::MAX as int) <= v <= i64::MAX
}

proof fn lemma_floor_of_negative(a: int, b: int)
    requires
        a >= 0,
        b > 0,
    ensures
        (-a) / b == -((a + b - 1) / b),
{
    let q = (a + b - 1) / b;
    let r = (a + b - 1) % b;
    lemma_fundamental_div_mod(a + b - 1, b);
    lemma_mod_bound(a + b - 1, b);
    assert(-a == (-q) * b + (b - 1 - r)) by (nonlinear_arith)
        requires
            a + b - 1 == b * q + r,
    ;
    lemma_fundamental_div_mod_converse_div(-a, b, -q, b - 1 - r);
}

proof fn lemma_whole_division(a: int)
    ensures
        a / 1 == a,
        round_div(a, 1) == a,
{
    lemma_fundamental_div_mod_converse_div(a, 1, a, 0);
    if a >= 0 {
        lemma_fundamental_div_mod_converse_div(2 * a + 1, 2, a, 1);
    } else {
        lemma_fundamental_div_mod_converse_div(2 * -a + 1, 2, -a, 1);
    }
}

proof fn lemma_pow10_values()
    ensures
        pow10(18) == 1_000_000_000_000_000_000,
        pow10(19) == 10_000_000_000_000_000_000,
        pow10(20) == 100_000_000_000_000_000_000,
        pow10(38) == 100_000_000_000_000_000_000_000_000_000_000_000_000,
        pow10(39) == 1_000_000_000_000_000_000_000_000_000_000_000_000_000,
{
    reveal_with_fuel(pow10, 40);
}

pub(crate) fn pow10_exec(k: u32) -> (r: u128)
    requires
        k <= MAX_SCALE,
    ensures
        r == pow10(k as nat),
        r <= 100_000_000_000_000_000_000_000_000_000_000_000_000,
{
    let mut r: u128 = 1;
    let mut i: u32 = 0;
    proof {
        lemma_pow10_values();
    }
    while i < k
        invariant
            i <= k <= MAX_SCALE,
            r == pow10(i as nat),
            pow10(38) == 100_000_000_000_000_000_000_000_000_000_000_000_000,
        decreases k - i,
    {
        proof {
            lemma_pow10_monotone((i + 1) as nat, MAX_SCALE as nat);
        }
        r = r * 10;
        i = i + 1;
    }
    proof {
        lemma_pow10_monotone(k as nat, MAX_SCALE as nat);
    }
    r
}

/// `factor` times `n`, rounded down where `floor` is set, else to the
/// nearest integer with halves away from zero; `None` where that integer
/// is beyond `i64::MAX` in magnitude.
pub fn scale_number(n: &Scientific, factor: u64, floor: bool) -> (r: Option<i64>)
    requires
        1 <= factor <= 36,
    ensures
        r == (if fits_i64(scaled(*n, factor as int, floor)) {
            Some(scaled(*n, factor as int, floor) as i64)
        } else {
            None::<i64>
        }),
{
    let ghost v = scaled(*n, factor as int, floor);
    assert(n.mantissa as int * factor as int <= 36 * 18_446_744_073_709_551_615) by (nonlinear_arith)
        requires
            factor <= 36,
            n.mantissa <= u64::MAX,
    ;
    let a: u128 = n.mantissa as u128 * factor as u128;
    let ghost big = if n.exponent >= 0 {
        pow10(n.exponent as nat)
    } else {
        1
    };
    proof {
        lemma_pow10_values();
        assert(n.numerator(factor as int) == (if n.negative { -(a * big) } else { a * big }))
            by (nonlinear_arith)
            requires
                a == n.mantissa as int * factor as int,
                n.signed_mantissa() == (if n.negative { -(n.mantissa as int) } else { n.mantissa as int }),
                n.numerator(factor as int) == n.signed_mantissa() * factor * big,
        ;
    }
    if a == 0 {
        proof {
            lemma_pow10_positive((if n.exponent < 0 { -n.exponent } else { 0 }) as nat);
            assert(n.numerator(factor as int) == 0) by (nonlinear_arith)
                requires
                    n.numerator(factor as int) == (if n.negative { -(a * big) } else { a * big }),
                    a == 0,
            ;
            lemma_basic_div(0, n.denominator());
            lemma_basic_div(n.denominator(), 2 * n.denominator());
        }
        return Some(0);
    }
    if n.exponent >= 0 {
        proof {
            lemma_whole_division(n.numerator(factor as int));
            lemma_pow10_positive(n.exponent as nat);
        }
        if n.exponent > 18 || a > i64::MAX as u128 {
            proof {
                if n.exponent > 18 {
                    lemma_pow10_monotone(19, n.exponent as nat);
                }
                assert(a * big >= big && a * big >= a) by (nonlinear_arith)
                    requires
                        a >= 1,
                        big >= 1,
                ;
            }
            return None;
        }
        proof {
            lemma_pow10_monotone(n.exponent as nat, 18);
        }
        let p = pow10_exec(n.exponent as u32);
        assert(a * p <= 9_223_372_036_854_775_807 * 1_000_000_000_000_000_000) by (nonlinear_arith)
            requires
                a <= i64::MAX,
                p <= 1_000_000_000_000_000_000,
        ;
        let product: u128 = a * p;
        assert(product == a * big);
        if product > i64::MAX as u128 {
            return None;
        }
        if n.negative {
            Some(-(product as i64))
        } else {
            Some(product as i64)
        }
    } else if n.exponent < -38 {
        let ghost k = (-n.exponent) as nat;
        proof {
            lemma_pow10_monotone(39, k);
            assert(2 * a + n.denominator() < 2 * n.denominator());
            lemma_basic_div(2 * a + n.denominator(), 2 * n.denominator());
            lemma_basic_div(a as int, n.denominator());
            if n.negative {
                lemma_floor_of_negative(a as int, n.denominator());
                lemma_fundamental_div_mod_converse_div(
                    a + n.denominator() - 1,
                    n.denominator(),
                    1,
                    a - 1,
                );
            }
        }
        if floor && n.negative {
            Some(-1)
        } else {
            Some(0)
        }
    } else {
        let b: u128 = pow10_exec((-n.exponent) as u32);
        proof {
            lemma_pow10_positive((-n.exponent) as nat);
        }
        let q: u128 = if floor {
            if n.negative {
                (a + b - 1) / b
            } else {
                a / b
            }
        } else {
            (2 * a + b) / (2 * b)
        };
        proof {
            if floor && n.negative {
                lemma_floor_of_negative(a as int, b as int);
            }
        }
        if q > i64::MAX as u128 {
            return None;
        }
        if n.negative {
            Some(-(q as i64))
        } else {
            Some(q as i64)
        }
    }
}

/// `n` divided by ten, exactly, as a `Decimal`.
pub open spec fn tenth_spec(n: Scientific) -> Option<Decimal> {
    if n.mantissa == 0 {
        Some(Decimal { negative: n.negative, mantissa: 0, scale: 0 })
    } else if n.exponent >= 1 {
        if n.mantissa * pow10((n.exponent - 1) as nat) <= u64::MAX {
            Some(
                Decimal {
                    negative: n.negative,
                    mantissa: (n.mantissa * pow10((n.exponent - 1) as nat)) as u64,
                    scale: 0,
                },
            )
        } else {
            None
        }
    } else if 1 - n.exponent <= MAX_SCALE {
        Some(Decimal { negative: n.negative, mantissa: n.mantissa, scale: (1 - n.exponent) as u32 })
    } else {
        None
    }
}

/// `n` divided by ten, exactly; `None` where that needs more than a `u64`
/// of digits or more than `MAX_SCALE` decimal places.
pub fn tenth_of(n: &Scientific) -> (r: Option<Decimal>)
    ensures
        r == tenth_spec(*n),
        r matches Some(d) ==> d.wf() && d.numerator() * 10 * n.denominator() == n.numerator(1)
            * d.denominator(),
{
    proof {
        lemma_pow10_values();
    }
    if n.mantissa == 0 {
        proof {
            assert(n.numerator(1) == 0) by (nonlinear_arith)
                requires
                    n.mantissa == 0,
                    n.numerator(1) == n.signed_mantissa() * 1 * (if n.exponent >= 0 {
                        pow10(n.exponent as nat)
                    } else {
                        1
                    }),
                    n.signed_mantissa() == (if n.negative { -(n.mantissa as int) } else { n.mantissa as int }),
            ;
        }
        let r = Decimal { negative: n.negative, mantissa: 0, scale: 0 };
        assert(r.numerator() == 0);
        assert(r.numerator() * 10 * n.denominator() == n.numerator(1) * r.denominator()) by (nonlinear_arith)
            requires
                r.numerator() == 0,
                n.numerator(1) == 0,
        ;
        return Some(r);
    }
    if n.exponent >= 1 {
        let ghost k = (n.exponent - 1) as nat;
        proof {
            lemma_pow10_positive(k);
        }
        if n.exponent > 20 {
            proof {
                lemma_pow10_monotone(20, k);
                assert(n.mantissa * pow10(k) >= pow10(k)) by (nonlinear_arith)
                    requires
                        n.mantissa >= 1,
                        pow10(k) >= 1,
                ;
            }
            return None;
        }
        proof {
            lemma_pow10_monotone(k, 19);
            reveal_with_fuel(pow10, 20);
        }
        let p = pow10_exec((n.exponent - 1) as u32);
        assert(n.mantissa as u128 * p <= 18_446_744_073_709_551_615 * 10_000_000_000_000_000_000) by (nonlinear_arith)
            requires
                p <= 10_000_000_000_000_000_000,
                n.mantissa <= u64::MAX,
        ;
        let product: u128 = n.mantissa as u128 * p;
        if product > u64::MAX as u128 {
            return None;
        }
        let r = Decimal { negative: n.negative, mantissa: product as u64, scale: 0 };
        proof {
            assert(pow10(n.exponent as nat) == 10 * pow10(k));
            assert(r.numerator() * 10 * n.denominator() == n.numerator(1) * r.denominator()) by (nonlinear_arith)
                requires
                    r.numerator() == (if n.negative { -(product as int) } else { product as int }),
                    product == n.mantissa * pow10(k),
                    n.denominator() == 1,
                    r.denominator() == 1,
                    n.numerator(1) == n.signed_mantissa() * 1 * pow10(n.exponent as nat),
                    n.signed_mantissa() == (if n.negative { -(n.mantissa as int) } else { n.mantissa as int }),
                    pow10(n.exponent as nat) == 10 * pow10(k),
            ;
        }
        Some(r)
    } else if n.exponent >= 1 - MAX_SCALE as i128 {
        let r = Decimal { negative: n.negative, mantissa: n.mantissa, scale: (1 - n.exponent) as u32 };
        proof {
            let k = (-n.exponent) as nat;
            assert(r.denominator() == 10 * pow10(k));
            assert(r.numerator() * 10 * n.denominator() == n.numerator(1) * r.denominator()) by (nonlinear_arith)
                requires
                    r.numerator() == n.signed_mantissa(),
                    n.denominator() == pow10(k),
                    r.denominator() == 10 * pow10(k),
                    n.numerator(1) == n.signed_mantissa() * 1 * 1,
            ;
        }
        Some(r)
    } else {
        None
    }
}

} // verus!
