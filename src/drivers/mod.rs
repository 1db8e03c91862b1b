pub mod servo;
pub mod stepper;
pub mod stepper_with_driver;

pub use servo::Servo;
pub use stepper_with_driver::StepperWithDriver;
