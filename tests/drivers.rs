use pico_motor_control::drivers::servo::Servo;
use pico_motor_control::drivers::stepper::Directions;
use pico_motor_control::drivers::stepper_with_driver::{
    BlockingPulse, Direction, PinLevels, StepperState, StepperWithDriver,
};

#[test]
fn zero_speed_never_toggles() {
    let mut stepper = StepperWithDriver::new(0);
    let before = stepper.state();
    for _ in 0..1000 {
        let levels = stepper.steps_with_timer(1000);
        assert_eq!(levels, PinLevels { dir_pin: Some(true), clk: false });
    }
    assert_eq!(stepper.state(), before);
}

#[test]
fn zero_speed_after_pulsing_holds_the_line_low() {
    let mut stepper = StepperWithDriver::new(1);
    for _ in 0..5 {
        stepper.steps_with_timer(2);
    }
    stepper.set_speed(0);
    let before = stepper.state();
    for _ in 0..10 {
        assert!(!stepper.steps_with_timer(2).clk);
    }
    assert_eq!(stepper.state(), before);
}

#[test]
fn new_stepper_state() {
    let stepper = StepperWithDriver::new(5);
    assert_eq!(
        stepper.state(),
        StepperState { direction: Direction::Forward, speed: 5, clock_level: true, elapsed_ticks: 0 }
    );
}

#[test]
fn step_line_half_period_is_frequency_over_speed() {
    // 1000 ticks per unit at speed 5: the level holds for 200 ticks.
    let mut stepper = StepperWithDriver::new(5);
    let mut levels = Vec::new();
    for _ in 0..801 {
        levels.push(stepper.steps_with_timer(1000).clk);
    }
    assert!(levels[..200].iter().all(|l| *l));
    assert!(levels[200..400].iter().all(|l| !*l));
    assert!(levels[400..600].iter().all(|l| *l));
    assert!(levels[600..800].iter().all(|l| !*l));
    assert!(levels[800]);
}

#[test]
fn small_half_period_sequence() {
    let mut stepper = StepperWithDriver::new(1);
    let clk: Vec<bool> = (0..7).map(|_| stepper.steps_with_timer(2).clk).collect();
    assert_eq!(clk, vec![true, true, false, false, true, true, false]);
}

#[test]
fn speed_above_frequency_toggles_every_tick() {
    let mut stepper = StepperWithDriver::new(50);
    let clk: Vec<bool> = (0..4).map(|_| stepper.steps_with_timer(10).clk).collect();
    assert_eq!(clk, vec![false, true, false, true]);
}

#[test]
fn direction_drives_the_direction_line() {
    let mut stepper = StepperWithDriver::new(5);
    assert_eq!(stepper.steps_with_timer(1000).dir_pin, Some(true));
    stepper.set_dir(Direction::Backward);
    assert_eq!(stepper.steps_with_timer(1000).dir_pin, Some(false));
    assert_eq!(stepper.state().direction, Direction::Backward);
}

#[test]
fn stop_direction_forces_the_step_line_low() {
    let mut stepper = StepperWithDriver::new(5);
    stepper.set_dir(Direction::Stop);
    let before = stepper.state();
    for _ in 0..500 {
        assert_eq!(stepper.steps_with_timer(1000), PinLevels { dir_pin: None, clk: false });
    }
    assert_eq!(stepper.state(), before);
}

#[test]
fn set_speed_changes_only_the_speed() {
    let mut stepper = StepperWithDriver::new(5);
    stepper.set_speed(7);
    assert_eq!(
        stepper.state(),
        StepperState { direction: Direction::Forward, speed: 7, clock_level: true, elapsed_ticks: 0 }
    );
}

#[test]
fn default_directions() {
    assert_eq!(Direction::default(), Direction::Forward);
    assert_eq!(Directions::default(), Directions::Forward);
}

#[test]
fn servo_duty_is_linear_in_the_angle() {
    let servo = Servo::new(1640, 180);
    // 90 degrees span 3280 duty: 36 per degree, rounded down.
    assert_eq!(servo.set_angle(0), 1640);
    assert_eq!(servo.set_angle(1), 1676);
    assert_eq!(servo.set_angle(90), 4880);
    assert_eq!(servo.set_angle(180), 8120);
}

#[test]
fn servo_center_is_three_times_the_zero_duty() {
    let servo = Servo::new(1640, 180);
    assert_eq!(servo.center(), 4920);
}

#[test]
fn servo_angle_past_the_maximum_is_clamped() {
    let servo = Servo::new(1640, 180);
    assert_eq!(servo.set_angle(181), servo.set_angle(180));
    assert_eq!(servo.set_angle(999), servo.set_angle(180));
    assert_eq!(servo.set_angle(u16::MAX), 8120);
}

#[test]
fn servo_checked_construction() {
    let servo = Servo::try_new(1640, 180).unwrap();
    assert_eq!(servo.set_angle(180), 8120);
    // Three times the zero duty does not fit in 16 bits.
    assert!(Servo::try_new(30000, 0).is_none());
    // 485 per degree over 180 degrees overflows; over 90 it fits.
    assert!(Servo::try_new(21845, 180).is_none());
    assert_eq!(Servo::try_new(21845, 90).unwrap().set_angle(90), 65495);
}

#[test]
fn blocking_pulse_waits_base_period_over_speed() {
    let mut stepper = StepperWithDriver::new(4);
    assert_eq!(stepper.blocking_pulse(1000), Some(BlockingPulse { dir_level: true, half_period: 250 }));
    stepper.set_dir(Direction::Backward);
    stepper.set_speed(3);
    assert_eq!(stepper.blocking_pulse(1000), Some(BlockingPulse { dir_level: false, half_period: 333 }));
}

#[test]
fn blocking_pulse_none_when_stopped() {
    let mut stepper = StepperWithDriver::new(0);
    assert_eq!(stepper.blocking_pulse(1000), None);
    stepper.set_speed(10);
    stepper.set_dir(Direction::Stop);
    assert_eq!(stepper.blocking_pulse(1000), None);
}
