//! The hardware PWM channel selector.
//!
//! The board offers two hardware PWM channels. The peripheral itself is
//! driven by the surrounding binary; this type only names the channel the
//! operator picked, so that the choice can be validated and carried around
//! as a plain value.

use vstd::prelude::*;

verus! {

/// One of the two hardware PWM channels.
#[derive(Clone, Copy, Debug, PartialEq, Eq, Structural)]
pub enum Channel {
    Pwm0,
    Pwm1,
}

impl Channel {
    /// The channel's number, as the operator writes it.
    pub fn number(&self) -> (n: u8)
        ensures
            self is Pwm0 ==> n == 0,
            self is Pwm1 ==> n == 1,
    {
        match self {
            Channel::Pwm0 => 0,
            Channel::Pwm1 => 1,
        }
    }

    /// The channel's display name.
    pub fn label(&self) -> (s: String)
        ensures
            self is Pwm0 ==> s@ == "Channel PWM0"@,
            self is Pwm1 ==> s@ == "Channel PWM1"@,
    {
        match self {
            Channel::Pwm0 => "Channel PWM0".to_owned(),
            Channel::Pwm1 => "Channel PWM1".to_owned(),
        }
    }
}

} // verus!
