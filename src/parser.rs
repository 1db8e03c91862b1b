use vstd::prelude::*;
use crate::channel::ByteChannel;
use crate::drivers::stepper_with_driver::Direction;

verus! {

/// Size of the ring buffer that carries raw bytes from the receiver to the parser.
pub const MESSAGE_BUFFER_SIZE: usize = 8;

/// A decoded command.
#[derive(Clone, Copy, Debug, PartialEq, Eq, Structural)]
pub enum Message {
    StepperMotorSpeed(u32),
    StepperMotorDir(Direction),
    ServoAngle(u16),
}

/// Prefix bytes that select the shape of a command's payload.
pub struct ComCodePrefixes;

impl ComCodePrefixes {
    pub const STEPPER_MOTOR_SPEED: u8 = 83;
    pub const SERVO_ANGLE: u8 = 65;
    pub const STEPPER_MOTOR_DIR: u8 = 68;
}

/// Payload bytes of a direction command.
pub struct StepperMotorDir;

impl StepperMotorDir {
    pub const FORWARD: u8 = 70;
    pub const BACKWARDS: u8 = 66;
    pub const STOP: u8 = 83;
}

/// Text reported back over the serial link when no command could be parsed.
pub const PARSE_ERROR_DESCRIPTION: &'static str = "This data can't be parsed \n";

/// Failure to parse a command; it carries a fixed, human-readable description.
#[derive(Clone, Copy, Debug, PartialEq, Eq)]
pub struct ParseDataError {
    description: &'static str,
}

impl View for ParseDataError {
    type V = Seq<char>;

    /// The description carried.
    closed spec fn view(&self) -> Seq<char> {
        self.description@
    }
}

/// What every parse error describes itself as.
pub open spec fn parse_error_text() -> Seq<char> {
    PARSE_ERROR_DESCRIPTION@
}

impl ParseDataError {
    pub fn new() -> (r: ParseDataError)
        ensures
            r@ == parse_error_text(),
    {
        ParseDataError { description: PARSE_ERROR_DESCRIPTION }
    }

    pub fn describe(&self) -> (r: &'static str)
        ensures
            r@ == self@,
    {
        self.description
    }
}

/// Number of decimal digits in a speed or angle payload.
pub const DIGIT_COUNT: usize = 3;

/// An ASCII decimal digit, `'0'` to `'9'`.
pub open spec fn is_digit(b: u8) -> bool {
    48 <= b <= 57
}

/// Every byte of `s` is an ASCII decimal digit.
pub open spec fn all_digits(s: Seq<u8>) -> bool {
    forall|i: int| 0 <= i < s.len() ==> is_digit(#[trigger] s[i])
}

/// The number that the ASCII digits `s` spell in decimal, most significant first.
pub open spec fn decimal_value(s: Seq<u8>) -> int
    decreases s.len(),
{
    if s.len() == 0 {
        0
    } else {
        10 * decimal_value(s.drop_last()) + (s.last() - 48)
    }
}

/// The number a digit payload at the front of `rest` carries: `None` unless the
/// first three bytes are there and are all digits.
pub open spec fn digits_payload(rest: Seq<u8>) -> Option<u16> {
    if rest.len() >= DIGIT_COUNT && all_digits(rest.take(DIGIT_COUNT as int)) {
        Some(decimal_value(rest.take(DIGIT_COUNT as int)) as u16)
    } else {
        None
    }
}

/// How many bytes of `rest` a payload of `size` bytes takes: all of it, or what
/// there is when the stream ends first.
pub open spec fn payload_taken(rest: Seq<u8>, size: nat) -> nat {
    if rest.len() < size {
        rest.len()
    } else {
        size
    }
}

/// `10` to the power `n`.
pub open spec fn pow10(n: nat) -> int
    decreases n,
{
    if n == 0 {
        1
    } else {
        10 * pow10((n - 1) as nat)
    }
}

/// The direction a direction payload byte selects.
pub open spec fn direction_of(b: u8) -> Option<Direction> {
    if b == StepperMotorDir::FORWARD {
        Some(Direction::Forward)
    } else if b == StepperMotorDir::BACKWARDS {
        Some(Direction::Backward)
    } else if b == StepperMotorDir::STOP {
        Some(Direction::Stop)
    } else {
        None
    }
}

/// The command that prefix byte `prefix` starts when `rest` follows it, and how
/// many bytes of `rest` its payload takes. A payload is taken whole, or up to the
/// end of `rest` when that comes first, whether or not it is well formed; a byte
/// that is no prefix takes nothing and starts no command.
pub open spec fn command_after(prefix: u8, rest: Seq<u8>) -> (Option<Message>, nat) {
    if prefix == ComCodePrefixes::SERVO_ANGLE || prefix == ComCodePrefixes::STEPPER_MOTOR_SPEED {
        let taken = payload_taken(rest, DIGIT_COUNT as nat);
        match digits_payload(rest) {
            Some(v) => (
                Some(
                    if prefix == ComCodePrefixes::SERVO_ANGLE {
                        Message::ServoAngle(v)
                    } else {
                        Message::StepperMotorSpeed(v as u32)
                    },
                ),
                taken,
            ),
            None => (None, taken),
        }
    } else if prefix == ComCodePrefixes::STEPPER_MOTOR_DIR {
        if rest.len() == 0 {
            (None, 0)
        } else {
            match direction_of(rest[0]) {
                Some(d) => (Some(Message::StepperMotorDir(d)), 1),
                None => (None, 1),
            }
        }
    } else {
        (None, 0)
    }
}

/// The first complete, well-formed command in the byte stream `s`, scanning
/// from the front, and how many bytes the scan consumes to reach it; `None`
/// when the stream runs out first, in which case all of it is consumed.
pub open spec fn parse_stream(s: Seq<u8>) -> (Option<Message>, nat)
    decreases s.len(),
{
    if s.len() == 0 {
        (None, 0)
    } else {
        let rest = s.drop_first();
        let (m, taken) = command_after(s[0], rest);
        if m is Some {
            (m, 1 + taken)
        } else {
            let (m2, n2) = parse_stream(rest.skip(taken as int));
            (m2, 1 + taken + n2)
        }
    }
}

/// Any three ASCII digits after the servo prefix parse as the angle they spell,
/// `100 * v0 + 10 * v1 + v2` where each `vi` is the value of a digit, and the
/// whole command is consumed.
pub proof fn lemma_servo_angle_digits(d0: u8, d1: u8, d2: u8)
    requires
        is_digit(d0),
        is_digit(d1),
        is_digit(d2),
    ensures
        parse_stream(seq![ComCodePrefixes::SERVO_ANGLE, d0, d1, d2]) == (
            Some(Message::ServoAngle((100 * (d0 - 48) + 10 * (d1 - 48) + (d2 - 48)) as u16)),
            4nat,
        ),
{
    let s = seq![ComCodePrefixes::SERVO_ANGLE, d0, d1, d2];
    let rest = s.drop_first();
    let payload = rest.take(DIGIT_COUNT as int);
    assert(payload =~= seq![d0, d1, d2]);
    assert(payload.drop_last() =~= seq![d0, d1]);
    assert(payload.drop_last().drop_last() =~= seq![d0]);
    assert(payload.drop_last().drop_last().drop_last() =~= Seq::<u8>::empty());
    assert(all_digits(payload));
    reveal_with_fuel(decimal_value, 4);
    assert(decimal_value(payload) == 100 * (d0 - 48) + 10 * (d1 - 48) + (d2 - 48));
}

/// Reads a three-digit decimal payload. All three bytes are taken, or as many as
/// the channel holds, even when one of them is not a digit.
fn parse_digits(consumer: &mut ByteChannel) -> (r: Option<u16>)
    ensures
        r == digits_payload(old(consumer)@),
        final(consumer)@ == old(consumer)@.skip(
            payload_taken(old(consumer)@, DIGIT_COUNT as nat) as int,
        ),
{
    let ghost s = consumer@;
    let mut sum: u16 = 0;
    let mut valid: bool = true;
    let mut i: usize = 0;
    while i < DIGIT_COUNT
        invariant
            s == old(consumer)@,
            i <= DIGIT_COUNT,
            i <= s.len(),
            consumer@ == s.skip(i as int),
            valid == all_digits(s.take(i as int)),
            valid ==> sum as int == decimal_value(s.take(i as int)),
            valid ==> sum < pow10(i as nat),
        decreases DIGIT_COUNT - i,
    {
        let ghost before = s.take(i as int);
        let next = consumer.dequeue();
        match next {
            None => {
                assert(s.skip(i as int) =~= s.skip(s.len() as int));
                return None;
            },
            Some(b) => {
                let ghost after = s.take(i + 1);
                assert(after.drop_last() =~= before);
                assert(forall|j: int| 0 <= j < i ==> after[j] == before[j]);
                if valid && 48 <= b && b <= 57 {
                    assert(pow10(i as nat) <= 100 && pow10((i + 1) as nat) == 10 * pow10(
                        i as nat,
                    )) by {
                        reveal_with_fuel(pow10, 3);
                    }
                    assert(sum * 10 + (b - 48) < pow10((i + 1) as nat));
                    sum = sum * 10 + (b - 48) as u16;
                } else {
                    assert(!is_digit(after[i as int]) || !all_digits(before));
                    valid = false;
                }
                assert(consumer@ =~= s.skip(i + 1));
            },
        }
        i = i + 1;
    }
    if valid {
        Some(sum)
    } else {
        None
    }
}

/// Consumes bytes from `consumer` until it holds a complete, well-formed
/// command, and returns it. Bytes that are no prefix are skipped; a prefix whose
/// payload is malformed or cut short is dropped with that payload, and the scan
/// goes on after it. When the channel runs empty first, the error comes back.
pub fn parse_data(consumer: &mut ByteChannel) -> (r: Result<Message, ParseDataError>)
    ensures
        final(consumer)@ == old(consumer)@.skip(parse_stream(old(consumer)@).1 as int),
        match parse_stream(old(consumer)@).0 {
            Some(m) => r == Ok::<Message, ParseDataError>(m),
            None => r is Err && r->Err_0@ == parse_error_text(),
        },
{
    let ghost s0 = consumer@;
    let ghost mut k: nat = 0;
    loop
        invariant
            s0 == old(consumer)@,
            k <= s0.len(),
            consumer@ == s0.skip(k as int),
            parse_stream(s0) == (parse_stream(consumer@).0, k + parse_stream(consumer@).1),
        decreases consumer@.len(),
    {
        let next = consumer.dequeue();
        match next {
            None => {
                return Err(ParseDataError::new());
            },
            Some(character) => {
                let ghost rest = consumer@;
                let parsed: Option<Message> = if character == ComCodePrefixes::SERVO_ANGLE {
                    let digits = parse_digits(consumer);
                    match digits {
                        Some(v) => Some(Message::ServoAngle(v)),
                        None => None,
                    }
                } else if character == ComCodePrefixes::STEPPER_MOTOR_DIR {
                    let payload = consumer.dequeue();
                    match payload {
                        Some(c) => {
                            if c == StepperMotorDir::FORWARD {
                                Some(Message::StepperMotorDir(Direction::Forward))
                            } else if c == StepperMotorDir::BACKWARDS {
                                Some(Message::StepperMotorDir(Direction::Backward))
                            } else if c == StepperMotorDir::STOP {
                                Some(Message::StepperMotorDir(Direction::Stop))
                            } else {
                                None
                            }
                        },
                        None => None,
                    }
                } else if character == ComCodePrefixes::STEPPER_MOTOR_SPEED {
                    let digits = parse_digits(consumer);
                    match digits {
                        Some(v) => Some(Message::StepperMotorSpeed(v as u32)),
                        None => None,
                    }
                } else {
                    None
                };
                let ghost taken = command_after(character, rest).1;
                assert(parsed == command_after(character, rest).0);
                assert(consumer@ == rest.skip(taken as int));
                assert(s0.skip(k as int).drop_first().skip(taken as int) =~= s0.skip(
                    (k + 1 + taken) as int,
                ));
                match parsed {
                    Some(m) => {
                        return Ok(m);
                    },
                    None => {
                        proof {
                            k = k + 1 + taken;
                        }
                    },
                }
            },
        }
    }
}

} // verus!
