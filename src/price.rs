use vstd::prelude::*;

use crate::detail::{zone_models, Zone, ZoneModel};
use crate::text::chars_of;

verus! {

/// Prices are decimal numerals: digits with at most one `.`, at least one digit, a value below
/// 10^18 when the point is ignored, and at most 18 digits after the point.
pub const MAX_MANTISSA: u64 = 999_999_999_999_999_999;

pub const MAX_SCALE: usize = 18;

pub open spec fn pow10(e: nat) -> nat
    decreases e,
{
    if e == 0 {
        1
    } else {
        10 * pow10((e - 1) as nat)
    }
}

pub open spec fn is_digit(c: char) -> bool {
    '0' <= c && c <= '9'
}

pub open spec fn digit_value(c: char) -> nat {
    (c as u32 - '0' as u32) as nat
}

/// A numeral read so far: its digits as one integer, how many digits, whether a point was
/// seen, and how many digits follow it.
pub struct NumeralModel {
    pub mantissa: nat,
    pub digits: nat,
    pub dot: bool,
    pub scale: nat,
}

pub open spec fn numeral(s: Seq<char>) -> Option<NumeralModel>
    decreases s.len(),
{
    if s.len() == 0 {
        Some(NumeralModel { mantissa: 0, digits: 0, dot: false, scale: 0 })
    } else {
        match numeral(s.drop_last()) {
            None => None,
            Some(p) => {
                let c = s.last();
                if is_digit(c) {
                    Some(
                        NumeralModel {
                            mantissa: p.mantissa * 10 + digit_value(c),
                            digits: p.digits + 1,
                            dot: p.dot,
                            scale: if p.dot {
                                p.scale + 1
                            } else {
                                0
                            },
                        },
                    )
                } else if c == '.' && !p.dot {
                    Some(NumeralModel { dot: true, ..p })
                } else {
                    None
                }
            },
        }
    }
}

/// The value of a price text in units of 10^-18, when the text is a price.
pub open spec fn price_value(s: Seq<char>) -> Option<nat> {
    match numeral(s) {
        Some(p) => if p.digits >= 1 && p.mantissa <= MAX_MANTISSA && p.scale <= MAX_SCALE {
            Some(p.mantissa * pow10((MAX_SCALE - p.scale) as nat))
        } else {
            None
        },
        None => None,
    }
}

proof fn lemma_pow10_bound(e: nat)
    requires
        e <= 18,
    ensures
        1 <= pow10(e) <= 1_000_000_000_000_000_000,
    decreases e,
{
    reveal_with_fuel(pow10, 19);
    if e > 0 {
        lemma_pow10_bound((e - 1) as nat);
    }
}

fn pow10_exec(e: usize) -> (r: u128)
    requires
        e <= 18,
    ensures
        r == pow10(e as nat),
{
    let mut r: u128 = 1;
    let mut i: usize = 0;
    while i < e
        invariant
            i <= e <= 18,
            r == pow10(i as nat),
        decreases e - i,
    {
        proof {
            lemma_pow10_bound(i as nat);
        }
        r = r * 10;
        i = i + 1;
    }
    r
}

/// The value of a price text in units of 10^-18; `None` when the text is not a price.
pub fn parse_price(text: &str) -> (r: Option<u128>)
    ensures
        match r {
            Some(v) => price_value(text@) == Some(v as nat),
            None => price_value(text@) is None,
        },
{
    let chars = chars_of(text);
    let n = chars.len();
    let mut ok = true;
    let mut mantissa: u64 = 0;
    let mut big = false;
    let mut digits: usize = 0;
    let mut dot = false;
    let mut scale: usize = 0;
    let mut i: usize = 0;
    assert(text@.take(0) =~= Seq::<char>::empty());
    while i < n
        invariant
            chars@ == text@,
            n == chars@.len(),
            i <= n,
            digits <= i,
            scale <= digits,
            ok == numeral(text@.take(i as int)) is Some,
            ok ==> ({
                let p = numeral(text@.take(i as int))->0;
                &&& p.digits == digits
                &&& p.dot == dot
                &&& p.scale == scale
                &&& big == (p.mantissa > MAX_MANTISSA)
                &&& !big ==> p.mantissa == mantissa
            }),
        decreases n - i,
    {
        let c = chars[i];
        let ghost pre = text@.take(i as int);
        proof {
            assert(text@.take(i + 1).drop_last() =~= pre);
            assert(text@.take(i + 1).last() == c);
        }
        if ok {
            if '0' <= c && c <= '9' {
                let d = (c as u32 - '0' as u32) as u64;
                if !big {
                    if mantissa > (MAX_MANTISSA - d) / 10 {
                        big = true;
                    } else {
                        mantissa = mantissa * 10 + d;
                    }
                }
                digits = digits + 1;
                if dot {
                    scale = scale + 1;
                } else {
                    scale = 0;
                }
            } else if c == '.' && !dot {
                dot = true;
            } else {
                ok = false;
            }
        }
        i = i + 1;
    }
    assert(text@.take(n as int) =~= text@);
    if ok && digits >= 1 && !big && scale <= MAX_SCALE {
        let p = pow10_exec(MAX_SCALE - scale);
        proof {
            lemma_pow10_bound((MAX_SCALE - scale) as nat);
            assert(mantissa as nat * p as nat <= MAX_MANTISSA as nat * 1_000_000_000_000_000_000)
                by (nonlinear_arith)
                requires
                    mantissa <= MAX_MANTISSA,
                    p <= 1_000_000_000_000_000_000u128,
            ;
        }
        Some(mantissa as u128 * p)
    } else {
        None
    }
}

/// The values of the zones' prices, `None` where a zone's price is not a price.
pub open spec fn zone_prices(zones: Seq<ZoneModel>) -> Seq<Option<nat>> {
    zones.map_values(|z: ZoneModel| price_value(z.price))
}

/// Position `i` holds the lowest value of `vs` (or the highest, when `highest`), and is the
/// first position that does.
pub open spec fn is_first_extreme(vs: Seq<Option<nat>>, i: int, highest: bool) -> bool {
    &&& 0 <= i < vs.len()
    &&& vs[i] is Some
    &&& forall|j: int|
        0 <= j < vs.len() && #[trigger] vs[j] is Some ==> if highest {
            vs[j]->0 <= vs[i]->0
        } else {
            vs[i]->0 <= vs[j]->0
        }
    &&& forall|j: int|
        0 <= j < i && #[trigger] vs[j] is Some ==> if highest {
            vs[j]->0 < vs[i]->0
        } else {
            vs[i]->0 < vs[j]->0
        }
}

/// The first zone with the lowest price (or the highest, when `highest`); `None` when no zone
/// has a price.
pub fn extreme_zone(zones: &Vec<Zone>, highest: bool) -> (r: Option<usize>)
    ensures
        match r {
            Some(i) => is_first_extreme(zone_prices(zone_models(zones@)), i as int, highest),
            None => forall|j: int|
                0 <= j < zones@.len() ==> #[trigger] zone_prices(zone_models(zones@))[j] is None,
        },
{
    let ghost vs = zone_prices(zone_models(zones@));
    let mut best: Option<usize> = None;
    let mut best_value: u128 = 0;
    let mut i: usize = 0;
    while i < zones.len()
        invariant
            vs == zone_prices(zone_models(zones@)),
            i <= zones@.len(),
            match best {
                Some(b) => {
                    &&& b < i
                    &&& vs[b as int] == Some(best_value as nat)
                    &&& forall|j: int|
                        0 <= j < i && #[trigger] vs[j] is Some ==> if highest {
                            vs[j]->0 <= best_value
                        } else {
                            best_value <= vs[j]->0
                        }
                    &&& forall|j: int|
                        0 <= j < b && #[trigger] vs[j] is Some ==> if highest {
                            vs[j]->0 < best_value
                        } else {
                            best_value < vs[j]->0
                        }
                },
                None => forall|j: int| 0 <= j < i ==> #[trigger] vs[j] is None,
            },
        decreases zones@.len() - i,
    {
        let v = parse_price(zones[i].price.as_str());
        assert(vs[i as int] == price_value(zones@[i as int].price@));
        match v {
            Some(x) => {
                let better = match best {
                    None => true,
                    Some(_) => if highest {
                        x > best_value
                    } else {
                        x < best_value
                    },
                };
                if better {
                    best = Some(i);
                    best_value = x;
                }
            },
            None => {},
        }
        i = i + 1;
    }
    best
}

} // verus!
