use pico_motor_control::channel::{
    ByteChannel, CommandChannel, BYTE_CHANNEL_CAPACITY, COMMAND_CHANNEL_CAPACITY,
};
use pico_motor_control::drivers::stepper_with_driver::Direction;
use pico_motor_control::parser::Message;

#[test]
fn byte_channel_refuses_one_past_capacity_and_keeps_order() {
    let mut channel = ByteChannel::new();
    for i in 0..BYTE_CHANNEL_CAPACITY {
        assert_eq!(channel.enqueue(10 + i as u8), Ok(()));
    }
    assert_eq!(channel.enqueue(99), Err(99));
    for i in 0..BYTE_CHANNEL_CAPACITY {
        assert_eq!(channel.dequeue(), Some(10 + i as u8));
    }
    assert_eq!(channel.dequeue(), None);
}

#[test]
fn byte_channel_capacity_is_seven() {
    assert_eq!(BYTE_CHANNEL_CAPACITY, 7);
}

#[test]
fn empty_byte_channel_dequeues_nothing() {
    let mut channel = ByteChannel::new();
    assert_eq!(channel.dequeue(), None);
}

#[test]
fn byte_channel_takes_more_after_a_dequeue() {
    let mut channel = ByteChannel::new();
    for i in 0..BYTE_CHANNEL_CAPACITY {
        assert_eq!(channel.enqueue(i as u8), Ok(()));
    }
    assert_eq!(channel.dequeue(), Some(0));
    assert_eq!(channel.enqueue(50), Ok(()));
    assert_eq!(channel.enqueue(51), Err(51));
    for i in 1..BYTE_CHANNEL_CAPACITY {
        assert_eq!(channel.dequeue(), Some(i as u8));
    }
    assert_eq!(channel.dequeue(), Some(50));
}

#[test]
fn command_round_trip() {
    let commands = [
        Message::StepperMotorSpeed(123),
        Message::StepperMotorDir(Direction::Backward),
        Message::ServoAngle(180),
    ];
    for command in commands {
        let mut channel = CommandChannel::new();
        assert_eq!(channel.enqueue(command), Ok(()));
        assert_eq!(channel.dequeue(), Some(command));
        assert_eq!(channel.dequeue(), None);
    }
}

#[test]
fn command_channel_holds_one_command() {
    assert_eq!(COMMAND_CHANNEL_CAPACITY, 1);
    let mut channel = CommandChannel::new();
    assert_eq!(channel.enqueue(Message::ServoAngle(1)), Ok(()));
    assert_eq!(channel.enqueue(Message::ServoAngle(2)), Err(Message::ServoAngle(2)));
    assert_eq!(channel.dequeue(), Some(Message::ServoAngle(1)));
    assert_eq!(channel.dequeue(), None);
}
