//! The human-readable block that shows a `WeatherInfo`.
use crate::decimal::{lemma_pow10_positive, pow10, pow10_exec, MAX_SCALE};
use vstd::arithmetic::div_mod::{lemma_div_is_ordered_by_denominator, lemma_mod_decreases};
use crate::weather::WeatherInfo;
use vstd::prelude::*;
use vstd::string::StringExecFns;

verus! {

pub open spec fn digit_char(d: int) -> char {
    seq!['0', '1', '2', '3', '4', '5', '6', '7', '8', '9'][d]
}

/// `n` in decimal, without leading zeros.
pub open spec fn nat_text(n: nat) -> Seq<char>
    decreases n,
{
    if n < 10 {
        seq![digit_char(n as int)]
    } else {
        nat_text(n / 10) + seq![digit_char((n % 10) as int)]
    }
}

/// The last `width` decimal digits of `n`, leading zeros kept.
pub open spec fn padded_text(n: nat, width: nat) -> Seq<char>
    decreases width,
{
    if width == 0 {
        Seq::empty()
    } else {
        padded_text(n / 10, (width - 1) as nat) + seq![digit_char((n % 10) as int)]
    }
}

/// `m / 10^s` with the trailing zeros of its fraction dropped.
pub open spec fn trimmed(m: nat, s: nat) -> (nat, nat)
    decreases s,
{
    if s > 0 && m % 10 == 0 {
        trimmed(m / 10, (s - 1) as nat)
    } else {
        (m, s)
    }
}

/// The shortest decimal writing of `(-1)^negative * m / 10^s`: no trailing
/// zeros in the fraction, no point when the number is whole, no sign on zero.
pub open spec fn decimal_text(negative: bool, m: nat, s: nat) -> Seq<char> {
    let (m2, s2) = trimmed(m, s);
    let sign = if negative && m2 != 0 {
        seq!['-']
    } else {
        Seq::<char>::empty()
    };
    let whole = nat_text((m2 as int / pow10(s2)) as nat);
    if s2 == 0 {
        sign + whole
    } else {
        sign + whole + seq!['.'] + padded_text((m2 as int % pow10(s2)) as nat, s2)
    }
}

/// A number of tenths, written as a decimal.
pub open spec fn tenths_text(t: int) -> Seq<char> {
    decimal_text(t < 0, (if t < 0 { -t } else { t }) as nat, 1)
}

/// The text block: location, description, temperature, humidity, pressure
/// and wind, one per line.
pub open spec fn report_text(w: WeatherInfo) -> Seq<char> {
    "Location: "@ + w.location@ + ", "@ + w.country@ + "\nDescription: "@
        + w.weather_description@ + "\nCurrent temperature: "@ + tenths_text(
        w.temperature_tenths as int,
    ) + "\u{b0}C\nHumidity: "@ + nat_text(w.humidity as nat) + "%\nAir pressure: "@
        + decimal_text(w.pressure.negative, w.pressure.mantissa as nat, w.pressure.scale as nat)
        + " kPa\nWind: "@ + w.wind_cardinal_direction@ + " "@ + tenths_text(
        w.wind_speed_tenths as int,
    ) + " km/h"@
}

fn digit_str(d: u64) -> (r: &'static str)
    requires
        d < 10,
    ensures
        r@ == seq![digit_char(d as int)],
{
    proof {
        reveal_strlit("0");
        reveal_strlit("1");
        reveal_strlit("2");
        reveal_strlit("3");
        reveal_strlit("4");
        reveal_strlit("5");
        reveal_strlit("6");
        reveal_strlit("7");
        reveal_strlit("8");
        reveal_strlit("9");
    }
    let r = if d == 0 {
        "0"
    } else if d == 1 {
        "1"
    } else if d == 2 {
        "2"
    } else if d == 3 {
        "3"
    } else if d == 4 {
        "4"
    } else if d == 5 {
        "5"
    } else if d == 6 {
        "6"
    } else if d == 7 {
        "7"
    } else if d == 8 {
        "8"
    } else {
        "9"
    };
    assert(r@ =~= seq![digit_char(d as int)]);
    r
}

fn push_nat(out: &mut String, n: u64)
    ensures
        final(out)@ == old(out)@ + nat_text(n as nat),
    decreases n,
{
    if n >= 10 {
        push_nat(out, n / 10);
    }
    out.append(digit_str(n % 10));
    assert(final(out)@ =~= old(out)@ + nat_text(n as nat));
}

fn push_padded(out: &mut String, n: u64, width: u32)
    ensures
        final(out)@ == old(out)@ + padded_text(n as nat, width as nat),
    decreases width,
{
    if width > 0 {
        push_padded(out, n / 10, width - 1);
        out.append(digit_str(n % 10));
    }
    assert(final(out)@ =~= old(out)@ + padded_text(n as nat, width as nat));
}

fn push_decimal(out: &mut String, negative: bool, m: u64, s: u32)
    requires
        s <= MAX_SCALE,
    ensures
        final(out)@ == old(out)@ + decimal_text(negative, m as nat, s as nat),
{
    let mut m2: u64 = m;
    let mut s2: u32 = s;
    while s2 > 0 && m2 % 10 == 0
        invariant
            s2 <= MAX_SCALE,
            trimmed(m2 as nat, s2 as nat) == trimmed(m as nat, s as nat),
        decreases s2,
    {
        m2 = m2 / 10;
        s2 = s2 - 1;
    }
    let p = pow10_exec(s2);
    proof {
        lemma_pow10_positive(s2 as nat);
        lemma_div_is_ordered_by_denominator(m2 as int, 1, p as int);
        lemma_mod_decreases(m2 as nat, p as nat);
    }
    let whole: u64 = (m2 as u128 / p) as u64;
    let fraction: u64 = (m2 as u128 % p) as u64;
    if negative && m2 != 0 {
        out.append("-");
        proof {
            reveal_strlit("-");
        }
    }
    push_nat(out, whole);
    if s2 > 0 {
        out.append(".");
        proof {
            reveal_strlit(".");
        }
        push_padded(out, fraction, s2);
    }
    assert(final(out)@ =~= old(out)@ + decimal_text(negative, m as nat, s as nat));
}

fn push_tenths(out: &mut String, t: i64)
    ensures
        final(out)@ == old(out)@ + tenths_text(t as int),
{
    let magnitude: u64 = if t < 0 {
        (-(t as i128)) as u64
    } else {
        t as u64
    };
    push_decimal(out, t < 0, magnitude, 1);
}

/// The text block that shows `w`, one line per quantity.
pub fn render(w: &WeatherInfo) -> (r: String)
    requires
        w.pressure.scale <= MAX_SCALE,
    ensures
        r@ == report_text(*w),
{
    let mut out = String::new();
    out.append("Location: ");
    out.append(w.location.as_str());
    out.append(", ");
    out.append(w.country.as_str());
    out.append("\nDescription: ");
    out.append(w.weather_description.as_str());
    out.append("\nCurrent temperature: ");
    push_tenths(&mut out, w.temperature_tenths);
    out.append("\u{b0}C\nHumidity: ");
    push_nat(&mut out, w.humidity);
    out.append("%\nAir pressure: ");
    push_decimal(&mut out, w.pressure.negative, w.pressure.mantissa, w.pressure.scale);
    out.append(" kPa\nWind: ");
    out.append(w.wind_cardinal_direction.as_str());
    out.append(" ");
    push_tenths(&mut out, w.wind_speed_tenths);
    out.append(" km/h");
    assert(out@ =~= report_text(*w));
    out
}

} // verus!
