use vstd::prelude::*;

verus! {

/// Direction in which the stepper motor turns, or `Stop` to hold the step line low.
#[derive(Clone, Copy, Debug, PartialEq, Eq, Structural)]
pub enum Direction {
    Forward,
    Backward,
    Stop,
}

impl Default for Direction {
    fn default() -> (r: Direction)
        ensures
            r == Direction::Forward,
    {
        Direction::Forward
    }
}

/// State of the step pulse generator.
#[derive(Clone, Copy, Debug, PartialEq, Eq, Structural)]
pub struct StepperState {
    pub direction: Direction,
    /// Commanded speed; 0 means stopped.
    pub speed: u32,
    /// Level of the step line while pulsing: `true` is high.
    pub clock_level: bool,
    /// Ticks counted since the step line last changed level, this one included.
    pub elapsed_ticks: u32,
}

/// Levels to drive on the stepper driver's two lines after a tick.
#[derive(Clone, Copy, Debug, PartialEq, Eq, Structural)]
pub struct PinLevels {
    /// Level for the direction line, or `None` to leave it as it is.
    pub dir_pin: Option<bool>,
    /// Level for the step line: `true` is high.
    pub clk: bool,
}

/// One pulse of a driver that waits in place: the direction line's level, and
/// how long to wait after raising the step line and again after lowering it.
#[derive(Clone, Copy, Debug, PartialEq, Eq, Structural)]
pub struct BlockingPulse {
    pub dir_level: bool,
    pub half_period: u32,
}

/// The blocking pulse for direction `d` at `speed`, with a wait of
/// `base_period / speed` on each level; none for `Stop` or speed 0.
pub open spec fn blocking_pulse_of(d: Direction, speed: u32, base_period: u32) -> Option<
    BlockingPulse,
> {
    if d == Direction::Stop || speed == 0 {
        None
    } else {
        Some(
            BlockingPulse {
                dir_level: d == Direction::Forward,
                half_period: (base_period / speed) as u32,
            },
        )
    }
}

/// The direction line's level for a direction; `Stop` leaves it alone.
pub open spec fn dir_pin_level(d: Direction) -> Option<bool> {
    match d {
        Direction::Forward => Some(true),
        Direction::Backward => Some(false),
        Direction::Stop => None,
    }
}

/// Ticks the step line stays at one level when the timer runs at `tick_frequency`
/// ticks per time unit and the speed is `speed` (not 0) pulses per time unit.
pub open spec fn half_period_ticks(tick_frequency: u32, speed: u32) -> u32
    recommends
        speed != 0,
{
    (tick_frequency / speed) as u32
}

/// One timer tick of the generator in state `s`: the state after it and the
/// levels to drive. With direction `Stop` or speed 0 the step line is forced low
/// and the state is kept. Otherwise, once `half_period_ticks` have been counted
/// the level flips and counting restarts with this tick; else this tick is counted.
pub open spec fn tick(s: StepperState, tick_frequency: u32) -> (StepperState, PinLevels) {
    let dir_pin = dir_pin_level(s.direction);
    if s.direction == Direction::Stop || s.speed == 0 {
        (s, PinLevels { dir_pin, clk: false })
    } else {
        let next = if s.elapsed_ticks >= half_period_ticks(tick_frequency, s.speed) {
            StepperState { clock_level: !s.clock_level, elapsed_ticks: 1, ..s }
        } else {
            StepperState { elapsed_ticks: (s.elapsed_ticks + 1) as u32, ..s }
        };
        (next, PinLevels { dir_pin, clk: next.clock_level })
    }
}

/// Non-blocking step pulse generator for a stepper driver with a direction line
/// and a step line. It is advanced once per timer tick and says which levels to
/// drive; the caller owns the lines.
pub struct StepperWithDriver {
    state: StepperState,
}

impl View for StepperWithDriver {
    type V = StepperState;

    closed spec fn view(&self) -> StepperState {
        self.state
    }
}

impl StepperWithDriver {
    /// A generator turning forward at `initial_speed`, with the step line high
    /// and no tick counted yet.
    pub fn new(initial_speed: u32) -> (r: StepperWithDriver)
        ensures
            r@ == (StepperState {
                direction: Direction::Forward,
                speed: initial_speed,
                clock_level: true,
                elapsed_ticks: 0,
            }),
    {
        StepperWithDriver {
            state: StepperState {
                direction: Direction::default(),
                speed: initial_speed,
                clock_level: true,
                elapsed_ticks: 0,
            },
        }
    }

    /// Sets the direction; the lines change at the next tick.
    pub fn set_dir(&mut self, dir: Direction)
        ensures
            final(self)@ == (StepperState { direction: dir, ..old(self)@ }),
    {
        self.state.direction = dir;
    }

    /// Sets the speed; 0 stops pulsing.
    pub fn set_speed(&mut self, speed: u32)
        ensures
            final(self)@ == (StepperState { speed: speed, ..old(self)@ }),
    {
        self.state.speed = speed;
    }

    /// The current state.
    pub fn state(&self) -> (r: StepperState)
        ensures
            r == self@,
    {
        self.state
    }

    /// The pulse a blocking driver makes in the current state, given the period
    /// of one pulse at speed 1; `None` when stopped, and then the lines are left
    /// as they are.
    pub fn blocking_pulse(&self, base_period: u32) -> (r: Option<BlockingPulse>)
        ensures
            r == blocking_pulse_of(self@.direction, self@.speed, base_period),
    {
        let speed = self.state.speed;
        if self.state.direction == Direction::Stop || speed == 0 {
            return None;
        }
        Some(
            BlockingPulse {
                dir_level: self.state.direction == Direction::Forward,
                half_period: base_period / speed,
            },
        )
    }

    /// Advances the generator by one tick of a timer that runs at
    /// `timer_freq_micros` ticks per time unit, and returns the levels to drive.
    pub fn steps_with_timer(&mut self, timer_freq_micros: u32) -> (r: PinLevels)
        ensures
            (final(self)@, r) == tick(old(self)@, timer_freq_micros),
    {
        let dir_pin = match self.state.direction {
            Direction::Forward => Some(true),
            Direction::Backward => Some(false),
            Direction::Stop => None,
        };
        if self.state.direction == Direction::Stop || self.state.speed == 0 {
            return PinLevels { dir_pin, clk: false };
        }
        let waiting_time = timer_freq_micros / self.state.speed;
        if self.state.elapsed_ticks >= waiting_time {
            self.state.elapsed_ticks = 1;
            self.state.clock_level = !self.state.clock_level;
        } else {
            self.state.elapsed_ticks = self.state.elapsed_ticks + 1;
        }
        PinLevels { dir_pin, clk: self.state.clock_level }
    }
}

/// The state after `n` ticks from `s`, and the levels driven at each, in order.
pub open spec fn run_ticks(s: StepperState, tick_frequency: u32, n: nat) -> (
    StepperState,
    Seq<PinLevels>,
)
    decreases n,
{
    if n == 0 {
        (s, Seq::empty())
    } else {
        let (s1, out) = tick(s, tick_frequency);
        let (last, outs) = run_ticks(s1, tick_frequency, (n - 1) as nat);
        (last, seq![out] + outs)
    }
}

/// At speed 0 the step line never toggles: however many ticks run, it is driven
/// low at every one of them and the state does not change.
pub proof fn lemma_zero_speed_never_toggles(s: StepperState, tick_frequency: u32, n: nat)
    requires
        s.speed == 0,
    ensures
        run_ticks(s, tick_frequency, n).0 == s,
        run_ticks(s, tick_frequency, n).1.len() == n,
        forall|i: int| 0 <= i < n ==> !(#[trigger] run_ticks(s, tick_frequency, n).1[i]).clk,
    decreases n,
{
    if n > 0 {
        lemma_zero_speed_never_toggles(s, tick_frequency, (n - 1) as nat);
        let outs = run_ticks(s, tick_frequency, n).1;
        let rest = run_ticks(s, tick_frequency, (n - 1) as nat).1;
        assert(outs =~= seq![tick(s, tick_frequency).1] + rest);
        assert forall|i: int| 0 <= i < n implies !(#[trigger] outs[i]).clk by {
            if i > 0 {
                assert(outs[i] == rest[i - 1]);
            }
        }
    }
}

proof fn lemma_level_held(s: StepperState, tick_frequency: u32)
    requires
        s.direction != Direction::Stop,
        s.speed != 0,
        1 <= s.elapsed_ticks <= half_period_ticks(tick_frequency, s.speed),
    ensures
        ({
            let t = half_period_ticks(tick_frequency, s.speed) as int;
            let n = (t - s.elapsed_ticks + 1) as nat;
            let outs = run_ticks(s, tick_frequency, n).1;
            &&& outs.len() == n
            &&& forall|i: int| 0 <= i < n - 1 ==> (#[trigger] outs[i]).clk == s.clock_level
            &&& outs[n - 1].clk != s.clock_level
            &&& run_ticks(s, tick_frequency, n).0 == (StepperState {
                clock_level: !s.clock_level,
                elapsed_ticks: 1,
                ..s
            })
        }),
    decreases half_period_ticks(tick_frequency, s.speed) - s.elapsed_ticks,
{
    let t = half_period_ticks(tick_frequency, s.speed) as int;
    let n = (t - s.elapsed_ticks + 1) as nat;
    let (s1, out) = tick(s, tick_frequency);
    let outs = run_ticks(s, tick_frequency, n).1;
    let rest = run_ticks(s1, tick_frequency, (n - 1) as nat);
    assert(outs == seq![out] + rest.1);
    if s.elapsed_ticks < t {
        lemma_level_held(s1, tick_frequency);
        assert forall|i: int| 0 <= i < n - 1 implies (#[trigger] outs[i]).clk == s.clock_level by {
            if i > 0 {
                assert(outs[i] == rest.1[i - 1]);
            }
        }
        assert(outs[n - 1] == rest.1[n - 2]);
    } else {
        assert(rest.1 =~= Seq::<PinLevels>::empty());
    }
}

/// While the direction is not `Stop` and the speed is not 0, the step line
/// makes a square wave whose half-period is `half_period_ticks` ticks (at least
/// one): right after a change of level it holds for that many ticks, counting
/// the tick of the change, and changes again at the next.
pub proof fn lemma_half_period(s: StepperState, tick_frequency: u32)
    requires
        s.direction != Direction::Stop,
        s.speed != 0,
        s.elapsed_ticks == 1,
    ensures
        ({
            let t = if half_period_ticks(tick_frequency, s.speed) == 0 {
                1
            } else {
                half_period_ticks(tick_frequency, s.speed) as int
            };
            let outs = run_ticks(s, tick_frequency, t as nat).1;
            &&& outs.len() == t
            &&& forall|i: int| 0 <= i < t - 1 ==> (#[trigger] outs[i]).clk == s.clock_level
            &&& outs[t - 1].clk != s.clock_level
        }),
{
    if half_period_ticks(tick_frequency, s.speed) == 0 {
        assert(run_ticks(tick(s, tick_frequency).0, tick_frequency, 0).1 == Seq::<
            PinLevels,
        >::empty());
        assert(run_ticks(s, tick_frequency, 1).1 =~= seq![tick(s, tick_frequency).1]);
    } else {
        lemma_level_held(s, tick_frequency);
    }
}

} // verus!
