//! The tier state machine.
//!
//! `get_duty_cycle` maps the current tier index and a fresh temperature
//! reading to the next tier index and the duty cycle to apply. Promotion is
//! immediate: reaching the current band's upper bound moves up one tier.
//! Demotion is damped by hysteresis: the reading must drop below the current
//! band's lower bound by more than three tenths of the *previous* band's
//! width before the controller moves down, which prevents the fan from
//! hunting when the temperature sits near a boundary. The asymmetry is
//! deliberate: false negatives on cooling are cheap, false positives on
//! overheating are not.
//!
//! At the top tier no promotion happens (the last band is unbounded above),
//! and at tier 0 no demotion happens (its lower bound is the absolute floor;
//! a reading below it stays at tier 0).

use vstd::prelude::*;

verus! {

use crate::tiers::{spec_tier, tier_at, TIER_COUNT};

/// The hysteresis margin for demoting out of tier `i`: three tenths of the
/// previous band's width, in millidegrees Celsius.
pub open spec fn hysteresis_buffer(i: int) -> int
    recommends
        1 <= i < TIER_COUNT,
{
    3 * (spec_tier(i - 1).max_temp - spec_tier(i - 1).min_temp) / 10
}

/// The tier that follows tier `i` on reading `t` (millidegrees Celsius).
pub open spec fn spec_next_tier(i: int, t: int) -> int
    recommends
        0 <= i < TIER_COUNT,
{
    if t >= spec_tier(i).max_temp {
        if i + 1 < TIER_COUNT {
            i + 1
        } else {
            i
        }
    } else if t < spec_tier(i).min_temp {
        if i > 0 && t < spec_tier(i).min_temp - hysteresis_buffer(i) {
            i - 1
        } else {
            i
        }
    } else {
        i
    }
}

/// Advance the state machine one step: from the current tier index and a
/// temperature reading in millidegrees Celsius to the next tier index and
/// the duty cycle to apply, in thousandths of full scale. The duty cycle is
/// always the one of the band the controller ends up in.
pub fn get_duty_cycle(cycle_idx: usize, temp: i64) -> (r: (usize, u32))
    requires
        cycle_idx < TIER_COUNT,
    ensures
        r.0 < TIER_COUNT,
        r.0 == spec_next_tier(cycle_idx as int, temp as int),
        r.1 == spec_tier(r.0 as int).duty,
{
    let tier = tier_at(cycle_idx);

    if temp >= tier.max_temp {
        if cycle_idx + 1 < TIER_COUNT {
            // Move up to the next tier.
            let next = tier_at(cycle_idx + 1);
            (cycle_idx + 1, next.duty)
        } else {
            // The top band is unbounded above: stay.
            (cycle_idx, tier.duty)
        }
    } else if temp < tier.min_temp {
        if cycle_idx > 0 {
            // Demote only once the reading is more than the hysteresis
            // margin below this band, to prevent ping-ponging back and
            // forth across the boundary.
            let prev = tier_at(cycle_idx - 1);
            proof {
                crate::tiers::lemma_table_bounds();
            }
            let buffer = 3 * (prev.max_temp - prev.min_temp) / 10;
            if temp < tier.min_temp - buffer {
                (cycle_idx - 1, prev.duty)
            } else {
                (cycle_idx, tier.duty)
            }
        } else {
            // Tier 0 has the absolute floor: a reading below it stays.
            (cycle_idx, tier.duty)
        }
    } else {
        // Still within the current band.
        (cycle_idx, tier.duty)
    }
}

/// Promotion is boundary-triggered: a reading at (or above) the current
/// band's upper bound always moves up one tier, for every tier that has one
/// above it.
pub proof fn lemma_promote_at_boundary(i: int, t: int)
    requires
        0 <= i < TIER_COUNT - 1,
        t >= spec_tier(i).max_temp,
    ensures
        spec_next_tier(i, t) == i + 1,
{
}

/// A reading inside the current band never changes the tier.
pub proof fn lemma_stay_in_band(i: int, t: int)
    requires
        0 <= i < TIER_COUNT,
        spec_tier(i).min_temp <= t < spec_tier(i).max_temp,
    ensures
        spec_next_tier(i, t) == i,
{
}

/// Hysteresis: a reading below the current band's lower bound demotes
/// exactly when it undercuts the bound by more than the hysteresis margin;
/// inside the margin the controller stays put.
pub proof fn lemma_hysteresis(i: int, t: int)
    requires
        1 <= i < TIER_COUNT,
        t < spec_tier(i).min_temp,
    ensures
        t < spec_tier(i).min_temp - hysteresis_buffer(i) ==> spec_next_tier(i, t) == i - 1,
        t >= spec_tier(i).min_temp - hysteresis_buffer(i) ==> spec_next_tier(i, t) == i,
{
    crate::tiers::lemma_table_well_formed();
}

/// The readings on which tier `i` is a fixed point of the state machine:
/// everything from the hysteresis threshold (the band's lower bound at tier
/// 0, which never demotes) up to, but excluding, the band's upper bound
/// (unbounded at the top tier, which never promotes).
pub open spec fn stable_temp(i: int, t: int) -> bool
    recommends
        0 <= i < TIER_COUNT,
{
    &&& (i + 1 < TIER_COUNT ==> t < spec_tier(i).max_temp)
    &&& (i > 0 ==> t >= spec_tier(i).min_temp - hysteresis_buffer(i))
}

/// A reading in the stable range of tier `i` leaves the controller at `i`.
pub proof fn lemma_stable_fixed_point(i: int, t: int)
    requires
        0 <= i < TIER_COUNT,
        stable_temp(i, t),
    ensures
        spec_next_tier(i, t) == i,
{
}

/// Where the controller ends up after feeding a whole sequence of readings,
/// in order, starting from tier `i`.
pub open spec fn run_temps(i: int, ts: Seq<int>) -> int
    decreases ts.len(),
{
    if ts.len() == 0 {
        i
    } else {
        run_temps(spec_next_tier(i, ts[0]), ts.subrange(1, ts.len() as int))
    }
}

/// No oscillation: a sequence of readings that all lie in the stable range
/// of tier `i` — in particular one oscillating strictly between the band's
/// lower bound and the hysteresis threshold — never moves the controller off
/// tier `i`.
pub proof fn lemma_no_oscillation(i: int, ts: Seq<int>)
    requires
        0 <= i < TIER_COUNT,
        forall|k: int| 0 <= k < ts.len() ==> stable_temp(i, #[trigger] ts[k]),
    ensures
        run_temps(i, ts) == i,
    decreases ts.len(),
{
    if ts.len() > 0 {
        lemma_stable_fixed_point(i, ts[0]);
        lemma_no_oscillation(i, ts.subrange(1, ts.len() as int));
    }
}

/// Idempotence at steady state: with an in-band reading the step returns the
/// unchanged tier, and repeating the step with the same reading returns the
/// same tier and duty cycle every time.
pub proof fn lemma_steady_state_idempotent(i: int, t: int)
    requires
        0 <= i < TIER_COUNT,
        spec_tier(i).min_temp <= t < spec_tier(i).max_temp,
    ensures
        spec_next_tier(i, t) == i,
        spec_next_tier(spec_next_tier(i, t), t) == spec_next_tier(i, t),
{
}

} // verus!
