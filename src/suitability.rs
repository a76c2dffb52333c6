//! Which forecast periods are good for a ride.

use vstd::prelude::*;
use crate::forecast::Period;
use crate::wind::{parse_wind_speed, wind_speed_of};

verus! {

/// The riding policy on plain values. Daytime, a chance of precipitation under
/// 25%, and one of two bands: 50..=65 F with wind under 13 mph, or above 65 up
/// to 83 F with wind of at most 18 mph. 65 F itself is in the cooler band only.
pub open spec fn good_conditions(is_daytime: bool, precipitation: int, temperature: int, wind: int) -> bool {
    &&& is_daytime
    &&& precipitation < 25
    &&& {
        ||| (50 <= temperature <= 65 && wind < 13)
        ||| (65 < temperature <= 83 && wind <= 18)
    }
}

/// The policy applied to a period, with the wind read from its descriptor.
pub open spec fn period_suitable(p: Period) -> bool {
    good_conditions(
        p.is_daytime,
        p.probability_of_precipitation.value as int,
        p.temperature as int,
        wind_speed_of(p.wind_speed@),
    )
}

/// Whether `p` is a good period for a ride.
pub fn is_suitable(p: &Period) -> (r: bool)
    ensures
        r == period_suitable(*p),
{
    if !p.is_daytime || p.probability_of_precipitation.value >= 25 {
        return false;
    }
    if 50 <= p.temperature && p.temperature <= 65 {
        parse_wind_speed(p.wind_speed.as_str()) < 13
    } else if 65 < p.temperature && p.temperature <= 83 {
        parse_wind_speed(p.wind_speed.as_str()) <= 18
    } else {
        false
    }
}

/// A period in the dark, or with a chance of precipitation of 25% or more,
/// is never suitable, whatever its temperature and wind.
pub proof fn lemma_night_or_wet_excluded(p: Period)
    requires
        !p.is_daytime || p.probability_of_precipitation.value >= 25,
    ensures
        !period_suitable(p),
{
}

/// Raising the chance of precipitation never makes a suitable period more so:
/// a period that differs from a suitable one only by a higher chance is
/// suitable exactly while that chance stays under 25%.
pub proof fn lemma_precipitation_monotone(p: Period, q: Period)
    requires
        period_suitable(p),
        q.is_daytime == p.is_daytime,
        q.temperature == p.temperature,
        q.wind_speed@ == p.wind_speed@,
        q.probability_of_precipitation.value >= p.probability_of_precipitation.value,
    ensures
        period_suitable(q) == (q.probability_of_precipitation.value < 25),
{
}

/// The suitable periods of `ps`, in their order.
pub open spec fn suitable_only(ps: Seq<Period>) -> Seq<Period>
    decreases ps.len(),
{
    if ps.len() == 0 {
        ps
    } else if period_suitable(ps.last()) {
        suitable_only(ps.drop_last()).push(ps.last())
    } else {
        suitable_only(ps.drop_last())
    }
}

/// The periods that a sequence of borrowed periods points at.
pub open spec fn pointed_to(s: Seq<&Period>) -> Seq<Period> {
    s.map_values(|p: &Period| *p)
}

/// The periods of `periods` that are good for a ride, in their order.
pub fn select_suitable(periods: &Vec<Period>) -> (r: Vec<&Period>)
    ensures
        pointed_to(r@) == suitable_only(periods@),
{
    let mut r: Vec<&Period> = Vec::new();
    let mut i: usize = 0;
    while i < periods.len()
        invariant
            i <= periods@.len(),
            pointed_to(r@) == suitable_only(periods@.subrange(0, i as int)),
        decreases periods@.len() - i,
    {
        let p = &periods[i];
        let ghost prefix = periods@.subrange(0, i as int);
        assert(periods@.subrange(0, i + 1).drop_last() =~= prefix);
        if is_suitable(p) {
            r.push(p);
            assert(pointed_to(r@) =~= suitable_only(prefix).push(*p));
        } else {
            assert(pointed_to(r@) =~= suitable_only(prefix));
        }
        i = i + 1;
    }
    assert(periods@.subrange(0, periods@.len() as int) =~= periods@);
    r
}

} // verus!
