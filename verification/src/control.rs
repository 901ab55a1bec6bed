//! The per-iteration decisions of the control loop.
//!
//! The loop itself lives in the surrounding binary: it reads the sensor file,
//! drives the PWM peripheral, sleeps, and watches the interrupt flag. Each
//! iteration it hands what it observed — whether cancellation was requested,
//! and the raw text of the sensor file if it could be read — to
//! [`Controller::step`], which makes every decision: stop, fail, or advance
//! the tier state machine and command a new duty cycle. A failed read or
//! malformed text is fatal and produces no duty-cycle command, so the sink is
//! never driven on a bad reading.

use vstd::prelude::*;

verus! {

use crate::cycle::{get_duty_cycle, spec_next_tier};
use crate::reading::{fits_reading, parse_millidegrees, reading_val, spec_trim, valid_reading};
use crate::tiers::{spec_tier, TIER_COUNT};

/// The closed set of fatal conditions: bad configuration detected at
/// startup, an unreadable or malformed temperature source, and a PWM
/// peripheral that rejects a command.
#[derive(Clone, Copy, Debug, PartialEq, Eq, Structural)]
pub enum ControlError {
    Config,
    Io,
    Hardware,
}

/// What the loop must do after one step: stop cleanly, stop with a fatal
/// error, or apply a duty cycle (in thousandths of full scale) and sleep.
#[derive(Clone, Copy, Debug, PartialEq, Eq, Structural)]
pub enum StepAction {
    Stop,
    Fail(ControlError),
    SetDuty(u32),
}

/// The single piece of state carried across loop iterations: the current
/// tier index.
pub struct Controller {
    pub tier: usize,
}

impl Controller {
    /// The tier index is always a valid table index.
    pub open spec fn wf(&self) -> bool {
        self.tier < TIER_COUNT
    }

    /// A controller starts at the lowest tier.
    pub fn new() -> (c: Controller)
        ensures
            c.wf(),
            c.tier == 0,
    {
        Controller { tier: 0 }
    }

    /// One iteration's decision. `cancelled` is the interrupt flag as
    /// observed at the top of the iteration; `raw` is the text read from the
    /// temperature source, or `None` if it could not be read.
    ///
    /// Cancellation wins over everything and stops the loop cleanly. An
    /// unreadable source or malformed text is a fatal I/O error and leaves
    /// the tier untouched. A good reading advances the tier state machine
    /// and commands the duty cycle of the resulting tier.
    pub fn step(&mut self, cancelled: bool, raw: Option<&str>) -> (a: StepAction)
        requires
            old(self).wf(),
        ensures
            final(self).wf(),
            cancelled ==> a == StepAction::Stop && final(self).tier == old(self).tier,
            !cancelled && raw is None ==> a == StepAction::Fail(ControlError::Io)
                && final(self).tier == old(self).tier,
            raw matches Some(s) ==> (!cancelled && !(valid_reading(spec_trim(s@))
                && fits_reading(reading_val(spec_trim(s@)))) ==> a == StepAction::Fail(
                ControlError::Io,
            ) && final(self).tier == old(self).tier),
            raw matches Some(s) ==> (!cancelled && valid_reading(spec_trim(s@)) && fits_reading(
                reading_val(spec_trim(s@)),
            ) ==> final(self).tier == spec_next_tier(
                old(self).tier as int,
                reading_val(spec_trim(s@)),
            ) && a == StepAction::SetDuty(spec_tier(final(self).tier as int).duty)),
    {
        if cancelled {
            return StepAction::Stop;
        }
        match raw {
            None => StepAction::Fail(ControlError::Io),
            Some(text) => {
                match parse_millidegrees(text) {
                    None => StepAction::Fail(ControlError::Io),
                    Some(temp) => {
                        let (next, duty) = get_duty_cycle(self.tier, temp);
                        self.tier = next;
                        StepAction::SetDuty(duty)
                    },
                }
            },
        }
    }
}

} // verus!
