use vstd::prelude::*;

verus! {

/// Duty at 90 degrees for a servo calibrated with `duty_on_zero` at 0 degrees.
pub open spec fn duty_on_90_of(duty_on_zero: int) -> int {
    3 * duty_on_zero
}

/// Duty added per degree, rounded down: the span from 0 to 90 degrees over 90.
pub open spec fn duty_per_degree_of(duty_on_zero: int) -> int {
    (duty_on_90_of(duty_on_zero) - duty_on_zero) / 90
}

/// Duty for `angle`, clamped to `max_angle`, on a servo calibrated with
/// `duty_on_zero` at 0 degrees.
pub open spec fn angle_duty(duty_on_zero: int, max_angle: int, angle: int) -> int {
    let clamped = if angle > max_angle {
        max_angle
    } else {
        angle
    };
    duty_per_degree_of(duty_on_zero) * clamped + duty_on_zero
}

/// Calibration is usable when every duty it yields fits in 16 bits.
pub open spec fn calibration_fits(duty_on_zero: int, max_angle: int) -> bool {
    duty_on_90_of(duty_on_zero) <= u16::MAX && angle_duty(duty_on_zero, max_angle, max_angle)
        <= u16::MAX
}

/// Linear map from a commanded angle to the PWM duty of a servo, clamped to a
/// maximum angle. The caller drives the PWM channel with the duty it returns.
pub struct Servo {
    duty_on_zero: u16,
    duty_on_90: u16,
    duty_per_degree: u16,
    max_angle: u16,
}

impl Servo {
    #[verifier::type_invariant]
    spec fn calibrated(self) -> bool {
        &&& self.duty_on_90 == duty_on_90_of(self.duty_on_zero as int)
        &&& self.duty_per_degree == duty_per_degree_of(self.duty_on_zero as int)
        &&& calibration_fits(self.duty_on_zero as int, self.max_angle as int)
    }

    /// Duty at 0 degrees.
    pub closed spec fn spec_duty_on_zero(self) -> u16 {
        self.duty_on_zero
    }

    /// Largest angle the servo is driven to.
    pub closed spec fn spec_max_angle(self) -> u16 {
        self.max_angle
    }

    /// A servo whose duty is `duty_on_zero` at 0 degrees and three times that at
    /// 90 degrees, driven to at most `max_angle` degrees.
    pub fn new(duty_on_zero: u16, max_angle: u16) -> (r: Servo)
        requires
            calibration_fits(duty_on_zero as int, max_angle as int),
        ensures
            r.spec_duty_on_zero() == duty_on_zero,
            r.spec_max_angle() == max_angle,
    {
        let duty_on_90 = duty_on_zero * 3;
        let duty_per_degree = (duty_on_90 - duty_on_zero) / 90;
        Servo { duty_on_zero, duty_on_90, duty_per_degree, max_angle }
    }

    /// As `new`, or `None` when the calibration yields a duty past 16 bits.
    pub fn try_new(duty_on_zero: u16, max_angle: u16) -> (r: Option<Servo>)
        ensures
            r is Some <==> calibration_fits(duty_on_zero as int, max_angle as int),
            r matches Some(servo) ==> servo.spec_duty_on_zero() == duty_on_zero
                && servo.spec_max_angle() == max_angle,
    {
        if duty_on_zero > u16::MAX / 3 {
            return None;
        }
        let duty_per_degree = (duty_on_zero * 3 - duty_on_zero) / 90;
        proof {
            assert(duty_per_degree * max_angle <= 728 * 65535) by (nonlinear_arith)
                requires
                    duty_per_degree <= 728,
                    max_angle <= 65535,
            ;
        }
        let top: u64 = duty_per_degree as u64 * max_angle as u64 + duty_on_zero as u64;
        if top > u16::MAX as u64 {
            return None;
        }
        Some(Servo::new(duty_on_zero, max_angle))
    }

    /// The duty for `angle`, clamped to the maximum angle.
    pub fn set_angle(&self, angle: u16) -> (r: u16)
        ensures
            r == angle_duty(
                self.spec_duty_on_zero() as int,
                self.spec_max_angle() as int,
                angle as int,
            ),
    {
        proof {
            use_type_invariant(self);
        }
        let mut angle = angle;
        if angle > self.max_angle {
            angle = self.max_angle;
        }
        proof {
            assert(self.duty_per_degree * angle <= self.duty_per_degree * self.max_angle)
                by (nonlinear_arith)
                requires
                    angle <= self.max_angle,
            ;
        }
        self.duty_per_degree * angle + self.duty_on_zero
    }

    /// The duty for 90 degrees.
    pub fn center(&self) -> (r: u16)
        ensures
            r == duty_on_90_of(self.spec_duty_on_zero() as int),
    {
        proof {
            use_type_invariant(self);
        }
        self.duty_on_90
    }
}

/// An angle past the maximum gives the same duty as the maximum itself.
pub proof fn lemma_angle_clamped(duty_on_zero: u16, max_angle: u16, angle: u16)
    requires
        angle > max_angle,
    ensures
        angle_duty(duty_on_zero as int, max_angle as int, angle as int) == angle_duty(
            duty_on_zero as int,
            max_angle as int,
            max_angle as int,
        ),
{
}

} // verus!
