use fan_controller::config::{duty_cycle_range, hardware_pwm_channel, is_log_level};
use fan_controller::control::{ControlError, Controller, StepAction};
use fan_controller::cycle::get_duty_cycle;
use fan_controller::logger::Logger;
use fan_controller::pwm::Channel;
use fan_controller::reading::parse_millidegrees;
use fan_controller::tiers::{tier_at, tier_count};

#[test]
fn table_has_twelve_tiers() {
    assert_eq!(tier_count(), 12);
}

#[test]
fn table_is_contiguous_and_monotone() {
    for i in 1..tier_count() {
        let prev = tier_at(i - 1);
        let cur = tier_at(i);
        assert_eq!(cur.min_temp, prev.max_temp);
        assert!(prev.duty < cur.duty);
    }
    for i in 0..tier_count() {
        let t = tier_at(i);
        assert!(t.min_temp < t.max_temp);
    }
}

#[test]
fn table_boundary_values() {
    let first = tier_at(0);
    assert_eq!(first.duty, 0);
    assert_eq!(first.min_temp, 0);
    assert_eq!(first.max_temp, 30_000);
    let fifth = tier_at(5);
    assert_eq!(fifth.duty, 700);
    assert_eq!(fifth.min_temp, 50_000);
    assert_eq!(fifth.max_temp, 55_000);
    let last = tier_at(11);
    assert_eq!(last.duty, 1000);
    assert_eq!(last.min_temp, 80_000);
}

#[test]
fn promotes_exactly_at_upper_bound() {
    for i in 0..tier_count() - 1 {
        let band = tier_at(i);
        let (next, duty) = get_duty_cycle(i, band.max_temp);
        assert_eq!(next, i + 1);
        assert_eq!(duty, tier_at(i + 1).duty);
    }
}

#[test]
fn stays_within_band() {
    for i in 0..tier_count() {
        let band = tier_at(i);
        let (next, duty) = get_duty_cycle(i, band.min_temp);
        assert_eq!(next, i);
        assert_eq!(duty, band.duty);
        let (next, duty) = get_duty_cycle(i, band.max_temp - 1);
        assert_eq!(next, i);
        assert_eq!(duty, band.duty);
    }
}

#[test]
fn top_tier_never_promotes() {
    let last = tier_count() - 1;
    let (next, duty) = get_duty_cycle(last, 300_000);
    assert_eq!(next, last);
    assert_eq!(duty, 1000);
}

#[test]
fn tier_zero_never_demotes() {
    let (next, duty) = get_duty_cycle(0, -5_000);
    assert_eq!(next, 0);
    assert_eq!(duty, 0);
}

#[test]
fn hysteresis_holds_just_under_the_bound() {
    // 0.1 degC under the bound is well inside the 1.5 degC margin
    // (three tenths of the previous 5 degC band): stay.
    for i in 1..tier_count() {
        let band = tier_at(i);
        let (next, duty) = get_duty_cycle(i, band.min_temp - 100);
        assert_eq!(next, i);
        assert_eq!(duty, band.duty);
    }
}

#[test]
fn demotes_past_the_hysteresis_margin() {
    for i in 1..tier_count() {
        let band = tier_at(i);
        let prev = tier_at(i - 1);
        let buffer = 3 * (prev.max_temp - prev.min_temp) / 10;
        // Exactly at the threshold: stay.
        let (next, _) = get_duty_cycle(i, band.min_temp - buffer);
        assert_eq!(next, i);
        // One millidegree past it: demote.
        let (next, duty) = get_duty_cycle(i, band.min_temp - buffer - 1);
        assert_eq!(next, i - 1);
        assert_eq!(duty, prev.duty);
    }
}

#[test]
fn oscillation_near_the_bound_never_changes_tier() {
    // Tier 5 starts at 50 degC with a 1.5 degC hysteresis margin. Readings
    // hopping between just under the bound and just above the threshold
    // leave the tier alone forever.
    let mut tier = 5;
    for round in 0..50 {
        let temp = if round % 2 == 0 { 49_900 } else { 48_600 };
        let (next, duty) = get_duty_cycle(tier, temp);
        assert_eq!(next, 5);
        assert_eq!(duty, 700);
        tier = next;
    }
}

#[test]
fn steady_state_is_idempotent() {
    let mut tier = 7;
    for _ in 0..20 {
        let (next, duty) = get_duty_cycle(tier, 62_500);
        assert_eq!(next, 7);
        assert_eq!(duty, 800);
        tier = next;
    }
}

#[test]
fn scenario_warming_from_cold() {
    // Start at tier 0 and feed 32 degC: past the 30 degC bound, so the
    // controller promotes to tier 1 and commands its 20% duty cycle.
    let (next, duty) = get_duty_cycle(0, 32_000);
    assert_eq!(next, 1);
    assert_eq!(duty, 200);
}

#[test]
fn scenario_cooling_past_the_margin() {
    // Start at tier 5 (50-55 degC) and feed 46 degC: the previous band is
    // 45-50 degC, so the margin is 1.5 degC and the threshold 48.5 degC;
    // 46 degC undercuts it, so the controller demotes to tier 4.
    let (next, duty) = get_duty_cycle(5, 46_000);
    assert_eq!(next, 4);
    assert_eq!(duty, 650);
}

#[test]
fn parses_plain_reading() {
    assert_eq!(parse_millidegrees("47600"), Some(47_600));
}

#[test]
fn parses_reading_with_trailing_newline() {
    assert_eq!(parse_millidegrees("47600\n"), Some(47_600));
}

#[test]
fn parses_reading_with_surrounding_whitespace() {
    assert_eq!(parse_millidegrees(" \t-250 \r\n"), Some(-250));
}

#[test]
fn parses_reading_with_plus_sign() {
    assert_eq!(parse_millidegrees("+5"), Some(5));
}

#[test]
fn parses_reading_with_leading_zeros() {
    assert_eq!(parse_millidegrees("007"), Some(7));
}

#[test]
fn rejects_empty_reading() {
    assert_eq!(parse_millidegrees(""), None);
    assert_eq!(parse_millidegrees("  \n"), None);
}

#[test]
fn rejects_malformed_reading() {
    assert_eq!(parse_millidegrees("abc"), None);
    assert_eq!(parse_millidegrees("12a"), None);
    assert_eq!(parse_millidegrees("1 2"), None);
    assert_eq!(parse_millidegrees("-"), None);
    assert_eq!(parse_millidegrees("+"), None);
    assert_eq!(parse_millidegrees("12.5"), None);
}

#[test]
fn rejects_oversized_reading() {
    assert_eq!(parse_millidegrees("9223372036854775807"), Some(i64::MAX));
    assert_eq!(parse_millidegrees("9223372036854775808"), None);
    assert_eq!(parse_millidegrees("99999999999999999999999"), None);
}

#[test]
fn controller_runs_a_warming_session() {
    let mut c = Controller::new();
    assert_eq!(c.tier, 0);
    assert_eq!(c.step(false, Some("32000\n")), StepAction::SetDuty(200));
    assert_eq!(c.tier, 1);
    assert_eq!(c.step(false, Some("36000\n")), StepAction::SetDuty(400));
    assert_eq!(c.tier, 2);
    assert_eq!(c.step(false, Some("36000\n")), StepAction::SetDuty(400));
    assert_eq!(c.tier, 2);
}

#[test]
fn controller_stops_on_cancellation() {
    // The flag wins over everything: the loop performs no further I/O and
    // exits cleanly on the very next iteration.
    let mut c = Controller::new();
    assert_eq!(c.step(false, Some("40000")), StepAction::SetDuty(200));
    assert_eq!(c.step(true, Some("41000")), StepAction::Stop);
    assert_eq!(c.tier, 1);
}

#[test]
fn controller_fails_on_malformed_reading() {
    // Malformed text is a fatal I/O error: no duty cycle is commanded, so
    // the sink is not driven that iteration, and the tier is untouched.
    let mut c = Controller::new();
    assert_eq!(c.step(false, Some("32000")), StepAction::SetDuty(200));
    let action = c.step(false, Some("not a number"));
    assert_eq!(action, StepAction::Fail(ControlError::Io));
    assert!(!matches!(action, StepAction::SetDuty(_)));
    assert_eq!(c.tier, 1);
}

#[test]
fn controller_fails_on_unreadable_source() {
    let mut c = Controller::new();
    assert_eq!(c.step(false, None), StepAction::Fail(ControlError::Io));
    assert_eq!(c.tier, 0);
}

#[test]
fn error_kinds_are_distinct() {
    assert_ne!(ControlError::Config, ControlError::Io);
    assert_ne!(ControlError::Io, ControlError::Hardware);
    assert_ne!(ControlError::Config, ControlError::Hardware);
}

#[test]
fn accepts_known_log_levels() {
    for level in ["TRACE", "DEBUG", "INFO", "WARN", "ERROR", "OFF"] {
        assert!(is_log_level(level).is_ok());
    }
}

#[test]
fn rejects_unknown_log_level() {
    let err = is_log_level("VERBOSE").unwrap_err();
    assert_eq!(
        err,
        "Unknown log level.\nShould be one of: TRACE, DEBUG, INFO, WARN, ERROR, OFF"
    );
    assert!(is_log_level("debug").is_err());
    assert!(is_log_level("").is_err());
}

#[test]
fn accepts_hardware_channels() {
    assert!(hardware_pwm_channel("0").is_ok());
    assert!(hardware_pwm_channel("1").is_ok());
}

#[test]
fn rejects_bad_hardware_channel() {
    assert_eq!(
        hardware_pwm_channel("2").unwrap_err(),
        "Value has to be either 0 or 1"
    );
    assert!(hardware_pwm_channel("01").is_err());
    assert!(hardware_pwm_channel("").is_err());
}

#[test]
fn accepts_duty_cycles_in_range() {
    for ok in ["0", "1", "0.5", "1.0", "0.999", ".5", "1.", "+0.3", "00.25", "01", "-0.0", "-0"] {
        assert!(duty_cycle_range(ok).is_ok(), "expected {ok:?} to pass");
    }
}

#[test]
fn rejects_duty_cycle_below_zero() {
    assert_eq!(duty_cycle_range("-0.1").unwrap_err(), "Value can't be below 0.0");
    assert_eq!(duty_cycle_range("-2").unwrap_err(), "Value can't be below 0.0");
}

#[test]
fn rejects_duty_cycle_above_one() {
    assert_eq!(duty_cycle_range("1.0001").unwrap_err(), "Value can't be above 1.0");
    assert_eq!(duty_cycle_range("2").unwrap_err(), "Value can't be above 1.0");
    assert_eq!(duty_cycle_range("10"), Err("Value can't be above 1.0".to_string()));
}

#[test]
fn rejects_unparseable_duty_cycle() {
    for bad in ["", "abc", ".", "1.2.3", "+", "-", "0x1", "1,5", " 0.5"] {
        assert_eq!(
            duty_cycle_range(bad).unwrap_err(),
            "Unable to parse duty cycle",
            "expected {bad:?} to be unparseable"
        );
    }
}

#[test]
fn channel_numbers() {
    assert_eq!(Channel::Pwm0.number(), 0);
    assert_eq!(Channel::Pwm1.number(), 1);
    assert_eq!(Channel::Pwm0, Channel::Pwm0);
    assert_ne!(Channel::Pwm0, Channel::Pwm1);
}

#[test]
fn channel_labels() {
    assert_eq!(Channel::Pwm0.label(), "Channel PWM0");
    assert_eq!(Channel::Pwm1.label(), "Channel PWM1");
}

#[test]
fn logger_enables_everything() {
    assert!(Logger.enabled());
}
