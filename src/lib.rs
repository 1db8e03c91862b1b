//! Command handling for a stepper motor and a servo driven over a serial link:
//! the byte protocol parser, the bounded queues that carry bytes and commands
//! between execution contexts, the timer-driven step pulse generator and the
//! servo angle to duty mapping.
pub mod channel;
pub mod drivers;
pub mod parser;
