//! The brightness transition engine.
//!
//! One adjustment cycle is a short dialogue with the devices. The engine
//! takes the brightness that the backlight shows and a sample of the sensor,
//! and says what to do: nothing, one write, or the first write of a gradual
//! transition. During a transition the caller pauses, writes, samples the
//! sensor again and asks for the next move, until the engine says that the
//! cycle is over. The engine itself touches no device: it decides.

use crate::config::Config;
use crate::device::{
    clamp, lemma_lerp_between, lemma_lerp_endpoints, lerp, lerp_spec, lux_brightness,
    lux_to_brightness,
};
use vstd::prelude::*;

verus! {

/// A gradual transition under way.
#[derive(Clone, Copy, Debug, PartialEq, Eq, Structural)]
pub struct Transition {
    /// The brightness from which the transition set out.
    pub start: i32,
    /// The brightness that it is heading for.
    pub target: i32,
    /// The index of the step whose value was handed out last.
    pub step: u32,
    /// The value handed out last, which the backlight now shows.
    pub current: i32,
}

/// What the engine asks of its caller next.
#[derive(Clone, Copy, Debug, PartialEq, Eq, Structural)]
pub enum Adjustment {
    /// Nothing is written and the cycle reports no change.
    Unchanged,
    /// The cycle ends and reports a change. After a pause of `pause_ms`
    /// milliseconds `write` goes to the backlight, if there is one.
    Done { pause_ms: u64, write: Option<i32> },
    /// After a pause of `pause_ms` milliseconds `value` goes to the
    /// backlight; the sensor is then sampled again and the transition
    /// continued from `next`.
    Step { pause_ms: u64, value: i32, next: Transition },
}

impl Adjustment {
    /// Whether the cycle, as far as it has come, has changed anything.
    pub open spec fn changed_spec(self) -> bool {
        !(self is Unchanged)
    }

    /// Whether this move ends the cycle.
    pub open spec fn is_final(self) -> bool {
        !(self is Step)
    }

    /// The value that this move sends to the backlight, if any.
    pub open spec fn written(self) -> Option<i32> {
        match self {
            Adjustment::Unchanged => None,
            Adjustment::Done { write, .. } => write,
            Adjustment::Step { value, .. } => Some(value),
        }
    }

    /// The brightness that the backlight shows once the move's write is
    /// done, where it showed `before`.
    pub open spec fn shown_after(self, before: i32) -> i32 {
        match self.written() {
            Some(value) => value,
            None => before,
        }
    }

    /// Tells the brightness that the backlight shows once the move's write
    /// is done, where it showed `before`.
    pub fn brightness_after(&self, before: i32) -> (shown: i32)
        ensures
            shown == self.shown_after(before),
    {
        match self {
            Adjustment::Unchanged => before,
            Adjustment::Done { write: Some(value), .. } => *value,
            Adjustment::Done { write: None, .. } => before,
            Adjustment::Step { value, .. } => *value,
        }
    }

    /// Whether the cycle reports a change.
    pub fn changed(&self) -> (changed: bool)
        ensures
            changed == self.changed_spec(),
    {
        match self {
            Adjustment::Unchanged => false,
            _ => true,
        }
    }
}

/// The brightness that a sample calls for: the sensor's level plus the
/// offset, kept above `min` and otherwise below `max`.
pub open spec fn target_for(millilux: int, max: int, min: int, offset: int) -> int {
    clamp(lux_brightness(millilux, max) + offset, min, max)
}

/// The distance between two levels.
pub open spec fn distance(a: int, b: int) -> int {
    if a >= b {
        a - b
    } else {
        b - a
    }
}

/// Whether a freshly computed target replaces the one in force: it must
/// differ, and by more than the threshold unless the cycle is urgent.
pub open spec fn replaces(previous: int, candidate: int, threshold: int, urgent: bool) -> bool {
    candidate != previous && (distance(candidate, previous) > threshold || urgent)
}

/// The target in force after a candidate has been weighed against it.
pub open spec fn debounced(previous: int, candidate: int, threshold: int, urgent: bool) -> int {
    if replaces(previous, candidate, threshold, urgent) {
        candidate
    } else {
        previous
    }
}

/// The closing move of a step loop: a corrective write, unless the backlight
/// already shows the target.
pub open spec fn closing(current: i32, target: i32, pause_ms: u64) -> Adjustment {
    Adjustment::Done { pause_ms, write: if current != target { Some(target) } else { None } }
}

/// The opening move of a step loop from `current` towards `target`.
pub open spec fn opening(current: i32, target: i32, steps: u32, pause_ms: u64) -> Adjustment {
    if steps == 0 {
        closing(current, target, pause_ms)
    } else {
        Adjustment::Step {
            pause_ms,
            value: current,
            next: Transition { start: current, target, step: 0, current },
        }
    }
}

/// The first move of a cycle, given the target that the sample calls for.
pub open spec fn first_move(
    current: i32,
    candidate: i32,
    config: Config,
    instant: bool,
    force: bool,
) -> Adjustment {
    let target = debounced(
        current as int,
        candidate as int,
        config.brightness_threshold as int,
        instant || force,
    ) as i32;
    if !force && current == target {
        Adjustment::Unchanged
    } else if instant {
        Adjustment::Done { pause_ms: 0, write: Some(target) }
    } else {
        opening(current, target, config.transition_steps, 0)
    }
}

/// The next move of a transition when the sensor gave nothing new: the next
/// interpolated step, or the closing move after the last, each after the
/// pause between steps.
pub open spec fn onward(t: Transition, config: Config) -> Adjustment {
    let steps = config.transition_steps;
    if t.step + 1 < steps {
        let value = lerp_spec(t.start as int, t.target as int, t.step + 1, steps as int) as i32;
        Adjustment::Step {
            pause_ms: config.step_delay_ms,
            value,
            next: Transition {
                start: t.start,
                target: t.target,
                step: (t.step + 1) as u32,
                current: value,
            },
        }
    } else {
        closing(t.current, t.target, config.step_delay_ms)
    }
}

/// The next move of a transition, given the target that a fresh sample calls
/// for, if the sensor could be read.
pub open spec fn next_move(t: Transition, candidate: Option<i32>, config: Config) -> Adjustment {
    match candidate {
        Some(c) if replaces(t.target as int, c as int, config.brightness_threshold as int, false) =>
            opening(t.current, c, config.transition_steps, 0),
        _ => onward(t, config),
    }
}

/// Whether a move keeps the backlight within `min..=max`.
pub open spec fn within(m: Adjustment, min: int, max: int) -> bool {
    match m {
        Adjustment::Unchanged => true,
        Adjustment::Done { write, .. } => write is Some ==> min <= write->0 <= max,
        Adjustment::Step { value, next, .. } => min <= value <= max && next.within(min, max),
    }
}

impl Transition {
    /// Whether both ends and the present value lie within `min..=max`.
    pub open spec fn within(self, min: int, max: int) -> bool {
        min <= self.start <= max && min <= self.target <= max && min <= self.current <= max
    }
}

/// The values that go to the backlight from a move on, in their order, when
/// the samples taken after the steps call for the targets `later`, `None`
/// standing for a sensor that could not be read. The cycle is followed for
/// as long as there are samples.
pub open spec fn writes_from(m: Adjustment, later: Seq<Option<i32>>, config: Config) -> Seq<i32>
    decreases later.len(),
{
    match m {
        Adjustment::Unchanged => Seq::empty(),
        Adjustment::Done { write: None, .. } => Seq::empty(),
        Adjustment::Done { write: Some(value), .. } => seq![value],
        Adjustment::Step { value, next, .. } => if later.len() == 0 {
            seq![value]
        } else {
            seq![value] + writes_from(next_move(next, later[0], config), later.skip(1), config)
        },
    }
}

/// A cycle that is not forced and finds the backlight on its target reports
/// no change and writes nothing.
pub proof fn lemma_idle_cycle_writes_nothing(
    current: i32,
    candidate: i32,
    config: Config,
    instant: bool,
    later: Seq<Option<i32>>,
)
    requires
        debounced(current as int, candidate as int, config.brightness_threshold as int, instant)
            == current,
    ensures
        first_move(current, candidate, config, instant, false) is Unchanged,
        !first_move(current, candidate, config, instant, false).changed_spec(),
        writes_from(first_move(current, candidate, config, instant, false), later, config)
            == Seq::<i32>::empty(),
{
}

/// An instant cycle that is forced, or that finds the backlight off the
/// target that the sample calls for, writes once: that target.
pub proof fn lemma_instant_cycle_writes_once(
    current: i32,
    candidate: i32,
    config: Config,
    force: bool,
    later: Seq<Option<i32>>,
)
    requires
        force || candidate != current,
    ensures
        first_move(current, candidate, config, true, force) == (Adjustment::Done {
            pause_ms: 0,
            write: Some(candidate),
        }),
        writes_from(first_move(current, candidate, config, true, force), later, config)
            == seq![candidate],
{
}

/// A sample that calls for a target within the threshold of the backlight's
/// value moves nothing, unless the cycle is instant or forced.
pub proof fn lemma_small_change_is_ignored(current: i32, candidate: i32, config: Config)
    requires
        distance(candidate as int, current as int) <= config.brightness_threshold,
    ensures
        debounced(current as int, candidate as int, config.brightness_threshold as int, false)
            == current,
        first_move(current, candidate, config, false, false) is Unchanged,
{
}

/// A sample that calls for a target within the threshold of the one in
/// flight leaves the transition on its course.
pub proof fn lemma_small_change_keeps_course(t: Transition, candidate: i32, config: Config)
    requires
        distance(candidate as int, t.target as int) <= config.brightness_threshold,
    ensures
        next_move(t, Some(candidate), config) == onward(t, config),
        next_move(t, Some(candidate), config) matches Adjustment::Step { next, .. }
            ==> next.target == t.target && next.start == t.start,
{
}

/// The closing move of a step loop leaves the backlight exactly on the
/// target, whatever the last step wrote.
pub proof fn lemma_closing_reaches_target(current: i32, target: i32, pause_ms: u64)
    ensures
        closing(current, target, pause_ms).shown_after(current) == target,
        closing(current, target, pause_ms).is_final(),
        closing(current, target, pause_ms).changed_spec(),
{
}

/// Whether each target that the samples call for lies within `min..=max`.
pub open spec fn targets_within(later: Seq<Option<i32>>, min: int, max: int) -> bool {
    forall|i: int| 0 <= i < later.len() ==> (#[trigger] later[i] matches Some(c) ==> min <= c <= max)
}

/// A move that keeps the backlight within its limits is followed by such
/// moves only, as long as the samples call for targets within the limits.
pub proof fn lemma_next_move_within(
    t: Transition,
    candidate: Option<i32>,
    config: Config,
    min: int,
    max: int,
)
    requires
        t.within(min, max),
        candidate matches Some(c) ==> min <= c <= max,
    ensures
        within(next_move(t, candidate, config), min, max),
{
    if config.transition_steps > 0 {
        lemma_lerp_between(
            t.start as int,
            t.target as int,
            t.step + 1,
            config.transition_steps as int,
        );
    }
}

/// Every value that a cycle writes lies within the limits, provided that
/// the backlight was within them at the start and that the samples call for
/// targets within them.
pub proof fn lemma_writes_within(
    m: Adjustment,
    later: Seq<Option<i32>>,
    config: Config,
    min: int,
    max: int,
)
    requires
        within(m, min, max),
        targets_within(later, min, max),
    ensures
        forall|i: int|
            0 <= i < writes_from(m, later, config).len() ==> min <= #[trigger] writes_from(
                m,
                later,
                config,
            )[i] <= max,
    decreases later.len(),
{
    match m {
        Adjustment::Step { value, next, .. } => {
            if later.len() > 0 {
                let following = next_move(next, later[0], config);
                lemma_next_move_within(next, later[0], config, min, max);
                assert forall|i: int| 0 <= i < later.skip(1).len() implies (
                #[trigger] later.skip(1)[i] matches Some(c) ==> min <= c <= max) by {
                    assert(later.skip(1)[i] == later[i + 1]);
                }
                lemma_writes_within(following, later.skip(1), config, min, max);
                let rest = writes_from(following, later.skip(1), config);
                let all = writes_from(m, later, config);
                assert(all == seq![value] + rest);
                assert forall|i: int| 0 <= i < all.len() implies min <= #[trigger] all[i]
                    <= max by {
                    if i > 0 {
                        assert(all[i] == rest[i - 1]);
                    }
                }
            }
        },
        _ => {},
    }
}

/// Whether none of the targets that the samples call for replaces `target`.
pub open spec fn steady(target: i32, later: Seq<Option<i32>>, config: Config) -> bool {
    forall|i: int|
        0 <= i < later.len() ==> (#[trigger] later[i] matches Some(c) ==> !replaces(
            target as int,
            c as int,
            config.brightness_threshold as int,
            false,
        ))
}

/// The interpolated values of the steps `from..steps` of a transition.
pub open spec fn steps_from(start: i32, target: i32, from: int, steps: int) -> Seq<i32> {
    Seq::new(
        (steps - from) as nat,
        |i: int| lerp_spec(start as int, target as int, from + i, steps) as i32,
    )
}

/// The corrective write that follows the last step, if it is needed.
pub open spec fn correction(last: i32, target: i32) -> Seq<i32> {
    if last != target {
        seq![target]
    } else {
        Seq::empty()
    }
}

/// A transition that no sample disturbs writes each of its remaining steps
/// once, in order, and then the target itself unless the last step reached it.
pub proof fn lemma_steady_transition(
    t: Transition,
    pause_ms: u64,
    later: Seq<Option<i32>>,
    config: Config,
)
    requires
        t.step < config.transition_steps,
        t.current == lerp_spec(
            t.start as int,
            t.target as int,
            t.step as int,
            config.transition_steps as int,
        ),
        later.len() == config.transition_steps - t.step,
        steady(t.target, later, config),
    ensures
        writes_from(Adjustment::Step { pause_ms, value: t.current, next: t }, later, config)
            == steps_from(t.start, t.target, t.step as int, config.transition_steps as int)
            + correction(
            lerp_spec(
                t.start as int,
                t.target as int,
                config.transition_steps - 1,
                config.transition_steps as int,
            ) as i32,
            t.target,
        ),
    decreases config.transition_steps - t.step,
{
    let steps = config.transition_steps;
    let m = Adjustment::Step { pause_ms, value: t.current, next: t };
    let following = next_move(t, later[0], config);
    assert(following == onward(t, config));
    assert(writes_from(m, later, config) == seq![t.current] + writes_from(
        following,
        later.skip(1),
        config,
    ));
    let rest = steps_from(t.start, t.target, t.step as int, steps as int);
    if t.step + 1 < steps {
        let value = lerp_spec(t.start as int, t.target as int, t.step + 1, steps as int) as i32;
        let next = Transition {
            start: t.start,
            target: t.target,
            step: (t.step + 1) as u32,
            current: value,
        };
        lemma_lerp_between(t.start as int, t.target as int, t.step + 1, steps as int);
        assert(following == Adjustment::Step { pause_ms: config.step_delay_ms, value, next });
        assert forall|i: int| 0 <= i < later.skip(1).len() implies (
        #[trigger] later.skip(1)[i] matches Some(c) ==> !replaces(
            t.target as int,
            c as int,
            config.brightness_threshold as int,
            false,
        )) by {
            assert(later.skip(1)[i] == later[i + 1]);
        }
        lemma_steady_transition(next, config.step_delay_ms, later.skip(1), config);
        assert(rest =~= seq![t.current] + steps_from(
            t.start,
            t.target,
            t.step + 1,
            steps as int,
        ));
    } else {
        assert(following == closing(t.current, t.target, config.step_delay_ms));
        assert(rest =~= seq![t.current]);
        assert(later.skip(1).len() == 0);
    }
}

/// A gradual cycle that no sample disturbs writes one interpolated value
/// for each step, the first being the value it starts from, and ends with
/// the backlight exactly on the target.
pub proof fn lemma_steady_cycle(
    current: i32,
    target: i32,
    later: Seq<Option<i32>>,
    config: Config,
)
    requires
        config.transition_steps > 0,
        later.len() == config.transition_steps,
        steady(target, later, config),
    ensures
        writes_from(opening(current, target, config.transition_steps, 0), later, config)
            == steps_from(current, target, 0, config.transition_steps as int) + correction(
            lerp_spec(
                current as int,
                target as int,
                config.transition_steps - 1,
                config.transition_steps as int,
            ) as i32,
            target,
        ),
        steps_from(current, target, 0, config.transition_steps as int).len()
            == config.transition_steps,
        steps_from(current, target, 0, config.transition_steps as int)[0] == current,
{
    lemma_lerp_endpoints(current as int, target as int, config.transition_steps as int);
    let t = Transition { start: current, target, step: 0, current };
    lemma_steady_transition(t, 0, later, config);
}

/// Computes the target that a sample calls for.
pub fn sample_target(
    millilux: i64,
    max_brightness: i32,
    config: &Config,
    offset: i32,
) -> (target: i32)
    requires
        max_brightness >= 1,
    ensures
        target == target_for(
            millilux as int,
            max_brightness as int,
            config.min_brightness as int,
            offset as int,
        ),
        config.min_brightness <= max_brightness ==> config.min_brightness <= target
            <= max_brightness,
{
    let raised: i64 = lux_to_brightness(millilux, max_brightness) as i64 + offset as i64;
    if raised < config.min_brightness as i64 {
        config.min_brightness
    } else if raised > max_brightness as i64 {
        max_brightness
    } else {
        raised as i32
    }
}

/// Weighs a freshly computed target against the one in force.
pub fn debounce(previous: i32, candidate: i32, threshold: i32, urgent: bool) -> (target: i32)
    ensures
        target == debounced(previous as int, candidate as int, threshold as int, urgent),
        target == previous || target == candidate,
        !urgent && distance(candidate as int, previous as int) <= threshold ==> target == previous,
{
    if is_retarget(previous, candidate, threshold, urgent) {
        candidate
    } else {
        previous
    }
}

/// Decides whether a freshly computed target replaces the one in force.
pub fn is_retarget(previous: i32, candidate: i32, threshold: i32, urgent: bool) -> (yes: bool)
    ensures
        yes == replaces(previous as int, candidate as int, threshold as int, urgent),
{
    let gap: i64 = if candidate >= previous {
        candidate as i64 - previous as i64
    } else {
        previous as i64 - candidate as i64
    };
    candidate != previous && (gap > threshold as i64 || urgent)
}

fn close(current: i32, target: i32, pause_ms: u64) -> (m: Adjustment)
    ensures
        m == closing(current, target, pause_ms),
{
    Adjustment::Done { pause_ms, write: if current != target { Some(target) } else { None } }
}

fn open(current: i32, target: i32, steps: u32, pause_ms: u64) -> (m: Adjustment)
    ensures
        m == opening(current, target, steps, pause_ms),
{
    if steps == 0 {
        close(current, target, pause_ms)
    } else {
        Adjustment::Step {
            pause_ms,
            value: current,
            next: Transition { start: current, target, step: 0, current },
        }
    }
}

/// Makes the first move of a cycle from the target that the sample calls for.
pub fn begin_adjustment(
    current: i32,
    candidate: i32,
    config: &Config,
    instant: bool,
    force: bool,
) -> (m: Adjustment)
    ensures
        m == first_move(current, candidate, *config, instant, force),
        !force && debounced(
            current as int,
            candidate as int,
            config.brightness_threshold as int,
            instant,
        ) == current ==> m is Unchanged,
        instant && (force || candidate != current) ==> m == (Adjustment::Done {
            pause_ms: 0,
            write: Some(candidate),
        }),
{
    let target = debounce(current, candidate, config.brightness_threshold, instant || force);
    if !force && current == target {
        Adjustment::Unchanged
    } else if instant {
        Adjustment::Done { pause_ms: 0, write: Some(target) }
    } else {
        open(current, target, config.transition_steps, 0)
    }
}

/// Starts an adjustment cycle.
///
/// `current` is the brightness that the backlight shows and `sample` the
/// illuminance in thousandths of a lux, or `None` where the sensor could not
/// be read: the cycle then ends at once, with nothing written.
pub fn read_and_adjust_ambient_light(
    current: i32,
    sample: Option<i64>,
    max_brightness: i32,
    config: &Config,
    offset: i32,
    instant: bool,
    force: bool,
) -> (m: Adjustment)
    requires
        max_brightness >= 1,
    ensures
        sample is None ==> m is Unchanged,
        sample is Some ==> m == first_move(
            current,
            target_for(
                sample->0 as int,
                max_brightness as int,
                config.min_brightness as int,
                offset as int,
            ) as i32,
            *config,
            instant,
            force,
        ),
        config.min_brightness <= current <= max_brightness ==> within(
            m,
            config.min_brightness as int,
            max_brightness as int,
        ),
{
    match sample {
        None => Adjustment::Unchanged,
        Some(millilux) => {
            let candidate = sample_target(millilux, max_brightness, config, offset);
            begin_adjustment(current, candidate, config, instant, force)
        },
    }
}

/// Makes the next move of a transition from the target that a fresh sample
/// calls for, if there is one.
pub fn advance(transition: &Transition, candidate: Option<i32>, config: &Config) -> (m: Adjustment)
    ensures
        m == next_move(*transition, candidate, *config),
        m.changed_spec(),
{
    let steps = config.transition_steps;
    if let Some(c) = candidate {
        if is_retarget(transition.target, c, config.brightness_threshold, false) {
            return open(transition.current, c, steps, 0);
        }
    }
    if transition.step < steps && transition.step + 1 < steps {
        let value = lerp(transition.start, transition.target, transition.step + 1, steps);
        Adjustment::Step {
            pause_ms: config.step_delay_ms,
            value,
            next: Transition {
                start: transition.start,
                target: transition.target,
                step: transition.step + 1,
                current: value,
            },
        }
    } else {
        close(transition.current, transition.target, config.step_delay_ms)
    }
}

/// Continues a transition after the write that the last move asked for.
///
/// `sample` is the illuminance read after that write, or `None` where the
/// sensor could not be read: the transition then goes on as it was.
pub fn continue_transition(
    transition: &Transition,
    sample: Option<i64>,
    max_brightness: i32,
    config: &Config,
    offset: i32,
) -> (m: Adjustment)
    requires
        max_brightness >= 1,
    ensures
        sample is None ==> m == onward(*transition, *config),
        sample is Some ==> m == next_move(
            *transition,
            Some(
                target_for(
                    sample->0 as int,
                    max_brightness as int,
                    config.min_brightness as int,
                    offset as int,
                ) as i32,
            ),
            *config,
        ),
        m.changed_spec(),
        config.min_brightness <= max_brightness && transition.within(
            config.min_brightness as int,
            max_brightness as int,
        ) ==> within(m, config.min_brightness as int, max_brightness as int),
{
    let candidate = match sample {
        None => None,
        Some(millilux) => Some(sample_target(millilux, max_brightness, config, offset)),
    };
    proof {
        if config.transition_steps > 0 {
            lemma_lerp_between(
                transition.start as int,
                transition.target as int,
                transition.step + 1,
                config.transition_steps as int,
            );
        }
    }
    advance(transition, candidate, config)
}

} // verus!
