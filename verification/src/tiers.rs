//! The duty-cycle tier table.
//!
//! A tier is one band of the lookup table: a temperature range together with
//! the fan duty cycle to apply while the temperature sits in that range. The
//! table is an ordered, gapless sequence of bands: each band starts where the
//! previous one ends, and both the temperature bounds and the duty cycles
//! grow with the index. The last band has no effective upper bound: the state
//! machine never promotes past it.
//!
//! Temperatures are in millidegrees Celsius; duty cycles in thousandths of
//! full scale (0 is off, 1000 is full speed).

use vstd::prelude::*;

verus! {

/// Number of bands in the table.
pub const TIER_COUNT: usize = 12;

/// One band of the lookup table.
#[derive(Clone, Copy, Debug, PartialEq, Eq, Structural)]
pub struct Tier {
    /// Fan duty cycle for this band, in thousandths of full scale.
    pub duty: u32,
    /// Lower temperature bound of the band (inclusive), in millidegrees Celsius.
    pub min_temp: i64,
    /// Upper temperature bound of the band (exclusive for staying; reaching it
    /// promotes), in millidegrees Celsius. For the last band this value is
    /// never compared against: the band is unbounded above.
    pub max_temp: i64,
}

/// The fixed tier table: 0% below 30 °C, stepping up at every 5 °C from
/// 30 °C to 80 °C, 100% from 80 °C on.
pub open spec fn spec_tier(i: int) -> Tier {
    if i <= 0 {
        Tier { duty: 0, min_temp: 0, max_temp: 30000 }
    } else if i == 1 {
        Tier { duty: 200, min_temp: 30000, max_temp: 35000 }
    } else if i == 2 {
        Tier { duty: 400, min_temp: 35000, max_temp: 40000 }
    } else if i == 3 {
        Tier { duty: 600, min_temp: 40000, max_temp: 45000 }
    } else if i == 4 {
        Tier { duty: 650, min_temp: 45000, max_temp: 50000 }
    } else if i == 5 {
        Tier { duty: 700, min_temp: 50000, max_temp: 55000 }
    } else if i == 6 {
        Tier { duty: 750, min_temp: 55000, max_temp: 60000 }
    } else if i == 7 {
        Tier { duty: 800, min_temp: 60000, max_temp: 65000 }
    } else if i == 8 {
        Tier { duty: 850, min_temp: 65000, max_temp: 70000 }
    } else if i == 9 {
        Tier { duty: 900, min_temp: 70000, max_temp: 75000 }
    } else if i == 10 {
        Tier { duty: 950, min_temp: 75000, max_temp: 80000 }
    } else {
        Tier { duty: 1000, min_temp: 80000, max_temp: 256000 }
    }
}

/// Number of tiers in the table.
pub fn tier_count() -> (n: usize)
    ensures
        n == TIER_COUNT,
{
    TIER_COUNT
}

/// Band lookup. The state machine keeps indices in range by construction, so
/// an out-of-range index never occurs in correct usage.
pub fn tier_at(i: usize) -> (t: Tier)
    requires
        i < TIER_COUNT,
    ensures
        t == spec_tier(i as int),
{
    if i == 0 {
        Tier { duty: 0, min_temp: 0, max_temp: 30000 }
    } else if i == 1 {
        Tier { duty: 200, min_temp: 30000, max_temp: 35000 }
    } else if i == 2 {
        Tier { duty: 400, min_temp: 35000, max_temp: 40000 }
    } else if i == 3 {
        Tier { duty: 600, min_temp: 40000, max_temp: 45000 }
    } else if i == 4 {
        Tier { duty: 650, min_temp: 45000, max_temp: 50000 }
    } else if i == 5 {
        Tier { duty: 700, min_temp: 50000, max_temp: 55000 }
    } else if i == 6 {
        Tier { duty: 750, min_temp: 55000, max_temp: 60000 }
    } else if i == 7 {
        Tier { duty: 800, min_temp: 60000, max_temp: 65000 }
    } else if i == 8 {
        Tier { duty: 850, min_temp: 65000, max_temp: 70000 }
    } else if i == 9 {
        Tier { duty: 900, min_temp: 70000, max_temp: 75000 }
    } else if i == 10 {
        Tier { duty: 950, min_temp: 75000, max_temp: 80000 }
    } else {
        Tier { duty: 1000, min_temp: 80000, max_temp: 256000 }
    }
}

/// The table is contiguous and monotone: every band starts exactly where the
/// previous one ends, every band is non-empty, and duty cycles strictly grow
/// with the index.
pub proof fn lemma_table_well_formed()
    ensures
        forall|i: int| 1 <= i < TIER_COUNT ==> spec_tier(i).min_temp == spec_tier(i - 1).max_temp,
        forall|i: int| 0 <= i < TIER_COUNT ==> spec_tier(i).min_temp < spec_tier(i).max_temp,
        forall|i: int| 1 <= i < TIER_COUNT ==> spec_tier(i - 1).duty < #[trigger] spec_tier(i).duty,
{
}

/// Every band's bounds and duty cycle lie in a small fixed range; used to rule
/// out arithmetic overflow in the state machine.
pub proof fn lemma_table_bounds()
    ensures
        forall|i: int| 0 <= i < TIER_COUNT ==> 0 <= spec_tier(i).min_temp,
        forall|i: int| 0 <= i < TIER_COUNT ==> spec_tier(i).max_temp <= 256000,
        forall|i: int| 0 <= i < TIER_COUNT ==> spec_tier(i).duty <= 1000,
{
}

} // verus!
