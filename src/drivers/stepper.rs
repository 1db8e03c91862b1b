use vstd::prelude::*;

verus! {

/// Direction of a stepper motor that has no stop state of its own.
#[derive(Clone, Copy, Debug, PartialEq, Eq, Structural)]
pub enum Directions {
    Forward,
    Backward,
}

impl Default for Directions {
    fn default() -> (r: Directions)
        ensures
            r == Directions::Forward,
    {
        Directions::Forward
    }
}

/// Operations of a stepper motor driver that pulses with a blocking delay.
pub trait Stepper {
    /// Turns the motor by `steps` steps, calling `delay` with each wait.
    fn steps<F: FnMut(u32)>(&mut self, steps: usize, delay: F);

    /// Releases the motor.
    fn stop(&mut self);

    /// Keeps the motor energized at its position.
    fn hold(&mut self);

    fn set_dir(&mut self, dir: Directions);

    fn set_speed(&mut self, speed: u32);

    fn set_acceleration(&mut self, acceleration: i32);
}

} // verus!
