use lumd::backlight::{
    advance, begin_adjustment, continue_transition, debounce, is_retarget,
    read_and_adjust_ambient_light, sample_target, Adjustment, Transition,
};
use lumd::config::Config;

fn config() -> Config {
    Config {
        min_brightness: 1,
        brightness_offset: 0,
        sample_interval_secs: 3,
        transition_steps: 10,
        step_delay_ms: 10,
        brightness_threshold: 8,
        manual_adjustment_amount: 8,
    }
}

/// Runs a whole cycle with the sensor showing `lux` at every sample, and
/// returns the interpolated writes, the closing write and whether the cycle
/// reports a change.
fn run(current: i32, lux: i64, max: i32, cfg: &Config, offset: i32, instant: bool, force: bool)
    -> (Vec<i32>, Option<i32>, bool)
{
    let mut steps = Vec::new();
    let mut m = read_and_adjust_ambient_light(current, Some(lux), max, cfg, offset, instant, force);
    for _ in 0..1000 {
        match m {
            Adjustment::Unchanged => return (steps, None, false),
            Adjustment::Done { write, .. } => return (steps, write, true),
            Adjustment::Step { value, next, .. } => {
                steps.push(value);
                m = continue_transition(&next, Some(lux), max, cfg, offset);
            }
        }
    }
    panic!("the cycle did not end");
}

#[test]
fn gradual_transition_takes_ten_steps_and_ends_on_target() {
    let (steps, closing, changed) = run(50, 700_000, 100, &config(), 0, false, false);
    assert_eq!(steps, vec![50, 52, 54, 56, 58, 60, 62, 64, 66, 68]);
    assert_eq!(closing, Some(70));
    assert!(changed);
}

#[test]
fn gradual_transition_downwards() {
    let (steps, closing, changed) = run(70, 500_000, 100, &config(), 0, false, false);
    assert_eq!(steps, vec![70, 68, 66, 64, 62, 60, 58, 56, 54, 52]);
    assert_eq!(closing, Some(50));
    assert!(changed);
}

#[test]
fn steps_pause_before_every_write_but_the_first() {
    let cfg = config();
    let first = read_and_adjust_ambient_light(50, Some(700_000), 100, &cfg, 0, false, false);
    let next = match first {
        Adjustment::Step { pause_ms, value, next } => {
            assert_eq!(pause_ms, 0);
            assert_eq!(value, 50);
            assert_eq!(next, Transition { start: 50, target: 70, step: 0, current: 50 });
            next
        }
        other => panic!("unexpected move {:?}", other),
    };
    let second = continue_transition(&next, Some(700_000), 100, &cfg, 0);
    assert_eq!(
        second,
        Adjustment::Step {
            pause_ms: 10,
            value: 52,
            next: Transition { start: 50, target: 70, step: 1, current: 52 },
        }
    );
}

#[test]
fn equal_target_without_force_is_a_no_op() {
    let m = read_and_adjust_ambient_light(70, Some(700_000), 100, &config(), 0, false, false);
    assert_eq!(m, Adjustment::Unchanged);
    assert!(!m.changed());
    let instant = read_and_adjust_ambient_light(70, Some(700_000), 100, &config(), 0, true, false);
    assert_eq!(instant, Adjustment::Unchanged);
}

#[test]
fn small_change_is_debounced() {
    // 50 -> 58 is exactly the threshold: not more than it.
    let m = read_and_adjust_ambient_light(50, Some(580_000), 100, &config(), 0, false, false);
    assert_eq!(m, Adjustment::Unchanged);
    // 50 -> 59 exceeds it.
    let m = read_and_adjust_ambient_light(50, Some(590_000), 100, &config(), 0, false, false);
    assert!(m.changed());
    assert_eq!(debounce(50, 58, 8, false), 50);
    assert_eq!(debounce(50, 42, 8, false), 50);
    assert_eq!(debounce(50, 59, 8, false), 59);
    assert_eq!(debounce(50, 41, 8, false), 41);
    assert_eq!(debounce(50, 51, 8, true), 51);
    assert_eq!(debounce(50, 50, 8, true), 50);
}

#[test]
fn instant_cycle_writes_the_target_once() {
    let m = read_and_adjust_ambient_light(50, Some(520_000), 100, &config(), 0, true, false);
    assert_eq!(m, Adjustment::Done { pause_ms: 0, write: Some(52) });
    assert!(m.changed());
    let m = read_and_adjust_ambient_light(50, Some(5_000_000), 100, &config(), 40, true, false);
    assert_eq!(m, Adjustment::Done { pause_ms: 0, write: Some(100) });
}

#[test]
fn forced_cycle_runs_even_on_target() {
    let (steps, closing, changed) = run(70, 700_000, 100, &config(), 0, false, true);
    assert_eq!(steps, vec![70; 10]);
    assert_eq!(closing, None);
    assert!(changed);
    let m = read_and_adjust_ambient_light(70, Some(700_000), 100, &config(), 0, true, true);
    assert_eq!(m, Adjustment::Done { pause_ms: 0, write: Some(70) });
}

#[test]
fn forced_cycle_accepts_a_small_change() {
    let (steps, closing, changed) = run(50, 520_000, 100, &config(), 0, false, true);
    assert_eq!(steps, vec![50, 50, 50, 51, 51, 51, 51, 51, 52, 52]);
    assert_eq!(closing, None);
    assert!(changed);
}

#[test]
fn failed_sensor_read_leaves_everything_alone() {
    let m = read_and_adjust_ambient_light(50, None, 100, &config(), 0, false, false);
    assert_eq!(m, Adjustment::Unchanged);
    let m = read_and_adjust_ambient_light(50, None, 100, &config(), 0, true, true);
    assert_eq!(m, Adjustment::Unchanged);
}

#[test]
fn failed_sensor_read_mid_transition_is_tolerated() {
    let t = Transition { start: 50, target: 70, step: 3, current: 56 };
    let m = continue_transition(&t, None, 100, &config(), 0);
    assert_eq!(
        m,
        Adjustment::Step {
            pause_ms: 10,
            value: 58,
            next: Transition { start: 50, target: 70, step: 4, current: 58 },
        }
    );
}

#[test]
fn large_change_mid_transition_restarts_from_the_present_value() {
    let t = Transition { start: 50, target: 70, step: 3, current: 56 };
    // The sensor now calls for 20: more than the threshold away from 70.
    let m = continue_transition(&t, Some(200_000), 100, &config(), 0);
    assert_eq!(
        m,
        Adjustment::Step {
            pause_ms: 0,
            value: 56,
            next: Transition { start: 56, target: 20, step: 0, current: 56 },
        }
    );
    // A change within the threshold does not.
    let m = continue_transition(&t, Some(780_000), 100, &config(), 0);
    assert_eq!(
        m,
        Adjustment::Step {
            pause_ms: 10,
            value: 58,
            next: Transition { start: 50, target: 70, step: 4, current: 58 },
        }
    );
}

#[test]
fn last_step_is_followed_by_the_corrective_write() {
    let t = Transition { start: 50, target: 70, step: 9, current: 68 };
    let m = continue_transition(&t, Some(700_000), 100, &config(), 0);
    assert_eq!(m, Adjustment::Done { pause_ms: 10, write: Some(70) });
    let there = Transition { start: 70, target: 70, step: 9, current: 70 };
    let m = continue_transition(&there, None, 100, &config(), 0);
    assert_eq!(m, Adjustment::Done { pause_ms: 10, write: None });
    let huge = Transition { start: 50, target: 70, step: u32::MAX, current: 68 };
    let m = advance(&huge, None, &config());
    assert_eq!(m, Adjustment::Done { pause_ms: 10, write: Some(70) });
}

#[test]
fn zero_steps_go_straight_to_the_corrective_write() {
    let mut cfg = config();
    cfg.transition_steps = 0;
    let m = read_and_adjust_ambient_light(50, Some(700_000), 100, &cfg, 0, false, false);
    assert_eq!(m, Adjustment::Done { pause_ms: 0, write: Some(70) });
    let m = begin_adjustment(70, 70, &cfg, false, true);
    assert_eq!(m, Adjustment::Done { pause_ms: 0, write: None });
}

#[test]
fn target_is_offset_and_clamped() {
    let cfg = config();
    assert_eq!(sample_target(300_000, 100, &cfg, 40), 70);
    assert_eq!(sample_target(900_000, 100, &cfg, 40), 100);
    assert_eq!(sample_target(0, 100, &cfg, -40), 1);
    assert_eq!(sample_target(300_000, 100, &cfg, i32::MAX), 100);
    assert_eq!(sample_target(300_000, 100, &cfg, i32::MIN), 1);
    let mut high_floor = config();
    high_floor.min_brightness = 40;
    assert_eq!(sample_target(100_000, 100, &high_floor, 0), 40);
}

#[test]
fn retarget_needs_a_difference_above_the_threshold() {
    assert!(!is_retarget(70, 70, 8, true));
    assert!(!is_retarget(70, 78, 8, false));
    assert!(is_retarget(70, 79, 8, false));
    assert!(is_retarget(70, 61, 8, false));
    assert!(is_retarget(70, 71, 8, true));
    assert!(is_retarget(70, 71, -1, false));
    assert!(is_retarget(i32::MIN, i32::MAX, i32::MAX, false));
}

#[test]
fn writes_stay_within_the_limits() {
    let cfg = config();
    for lux in [0i64, 1, 999, 250_000, 999_999, 1_000_000, 50_000_000] {
        for current in [1, 17, 50, 100] {
            let (steps, closing, _) = run(current, lux, 100, &cfg, 0, false, true);
            for v in steps.iter().chain(closing.iter()) {
                assert!(1 <= *v && *v <= 100);
            }
        }
    }
}
