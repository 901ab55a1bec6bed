//! Thermal-throttling fan controller.
//!
//! The controller samples a temperature sensor on a fixed interval, maps the
//! reading to a fan duty cycle through a tiered lookup table with hysteresis,
//! and drives a hardware PWM output accordingly. This crate holds the decision
//! logic: the tier table, the tier state machine, the parsing of sensor
//! readings, the per-iteration control step, and the validation of
//! configuration values. The surrounding binary does the actual I/O (reading
//! the sensor file, driving the PWM peripheral, handling the interrupt signal)
//! and feeds plain values into these functions.
//!
//! Temperatures are held in millidegrees Celsius, the unit the sensor file
//! itself uses, and duty cycles in thousandths of full scale, so that every
//! rule of the controller is exact integer arithmetic.

pub mod config;
pub mod control;
pub mod cycle;
pub mod logger;
pub mod pwm;
pub mod reading;
pub mod tiers;
