//! Mapping a wind bearing onto the eight points of the compass.
use vstd::arithmetic::div_mod::{lemma_hoist_over_denominator, lemma_mod_multiples_vanish};
use vstd::prelude::*;

verus! {

/// Which of the eight sectors (0 = north, clockwise) a bearing given in tenths
/// of a degree falls in: `floor((degrees + 22.5) / 45) mod 8`.
pub open spec fn cardinal_index(tenths: int) -> int {
    ((tenths + 225) / 450) % 8
}

/// The name of sector `index` of the eight-point compass rose.
pub open spec fn cardinal_name(index: int) -> Seq<char> {
    if index == 0 {
        seq!['N']
    } else if index == 1 {
        seq!['N', 'E']
    } else if index == 2 {
        seq!['E']
    } else if index == 3 {
        seq!['S', 'E']
    } else if index == 4 {
        seq!['S']
    } else if index == 5 {
        seq!['S', 'W']
    } else if index == 6 {
        seq!['W']
    } else {
        seq!['N', 'W']
    }
}

/// The compass point of a bearing given in tenths of a degree.
pub open spec fn cardinal_of(tenths: int) -> Seq<char> {
    cardinal_name(cardinal_index(tenths))
}

/// A bearing and the same bearing turned any whole number of times round
/// the circle name the same compass point.
pub proof fn cardinal_is_periodic(tenths: int, turns: int)
    ensures
        cardinal_of(tenths + 3600 * turns) == cardinal_of(tenths),
{
    lemma_hoist_over_denominator(tenths + 225, 8 * turns, 450);
    assert(tenths + 225 + (8 * turns) * 450 == tenths + 3600 * turns + 225) by (nonlinear_arith);
    lemma_mod_multiples_vanish(turns, (tenths + 225) / 450, 8);
    assert(8 * turns + (tenths + 225) / 450 == (tenths + 225) / 450 + 8 * turns);
}

/// The compass point (`N`, `NE`, ..., `NW`) of a wind bearing given in tenths
/// of a degree. Any bearing is accepted; it is taken modulo a full turn.
pub fn deg_to_cardinal(tenths_of_degree: i64) -> (r: String)
    ensures
        r@ == cardinal_of(tenths_of_degree as int),
{
    // Shift by a whole number of turns so that the dividend is never negative.
    let turns: u128 = 2_562_047_788_015_216;
    let shifted: u128 = (tenths_of_degree as i128 + 225 + 3600 * turns as i128) as u128;
    let index: u128 = (shifted / 450) % 8;
    proof {
        cardinal_is_periodic(tenths_of_degree as int, turns as int);
        assert(shifted as int == (tenths_of_degree as int + 3600 * turns as int) + 225);
        assert(index as int == cardinal_index(tenths_of_degree as int + 3600 * turns as int));
    }
    let name: &str = if index == 0 {
        "N"
    } else if index == 1 {
        "NE"
    } else if index == 2 {
        "E"
    } else if index == 3 {
        "SE"
    } else if index == 4 {
        "S"
    } else if index == 5 {
        "SW"
    } else if index == 6 {
        "W"
    } else {
        "NW"
    };
    proof {
        reveal_strlit("N");
        reveal_strlit("NE");
        reveal_strlit("E");
        reveal_strlit("SE");
        reveal_strlit("S");
        reveal_strlit("SW");
        reveal_strlit("W");
        reveal_strlit("NW");
        assert(name@ == cardinal_name(index as int));
    }
    name.to_owned()
}

} // verus!
