use bytes::Bytes;
use bytes::BytesMut;
use ecc608_swi::codec::encode_uart_to_swi;
use ecc608_swi::ecc::Ecc;
use ecc608_swi::engine::Command;
use ecc608_swi::error::Error;
use ecc608_swi::error::Reply;
use ecc608_swi::port::Action;
use ecc608_swi::port::Event;
use ecc608_swi::port::Profile;
use ecc608_swi::port::Step;
use ecc608_swi::retry::CMD_RETRIES;
use ecc608_swi::retry::CMD_RETRY_WAIT;

const FRAME: [u8; 7] = [0x07, 0x1B, 0x00, 0x00, 0x00, 0x24, 0xCD];

fn device() -> Ecc {
    Ecc::from_path("/dev/ttyAMA0", 0).unwrap()
}

fn samples_of(logical: &[u8]) -> BytesMut {
    let symbols = encode_uart_to_swi(&BytesMut::from(logical));
    let masked: Vec<u8> = symbols.iter().map(|symbol| symbol & 0x7F).collect();
    BytesMut::from(&masked[..])
}

fn fault(recoverable: bool) -> Reply {
    Reply::DeviceError { code: if recoverable { 0xFF } else { 0x0F }, recoverable }
}

/// A line that does what it is asked. Every read brings the next of `reads`,
/// and every reply is read as the next of `readings`.
struct Line {
    reads: Vec<BytesMut>,
    readings: Vec<Reply>,
    fail_open_of: Option<usize>,
    actions: Vec<Action>,
}

impl Line {
    fn new(reads: Vec<BytesMut>, readings: Vec<Reply>) -> Line {
        Line { reads, readings, fail_open_of: None, actions: Vec::new() }
    }

    fn count(&self, wanted: &Action) -> usize {
        self.actions.iter().filter(|action| *action == wanted).count()
    }

    fn opens(&self) -> usize {
        self.actions.iter().filter(|action| matches!(action, Action::Open(_))).count()
    }

    fn perform(&mut self, action: Action) -> Event {
        let event = match &action {
            Action::Open(_) => {
                if self.fail_open_of == Some(self.opens()) {
                    Event::Failed
                } else {
                    Event::Completed
                }
            }
            Action::Write(bytes) => Event::Written(bytes.len()),
            Action::Read(limit) => {
                if self.reads.is_empty() {
                    Event::Failed
                } else {
                    let mut read = self.reads.remove(0);
                    read.truncate(*limit);
                    Event::Received(read)
                }
            }
            Action::Classify(_) => {
                if self.readings.is_empty() {
                    Event::Classified(Reply::Malformed)
                } else {
                    Event::Classified(self.readings.remove(0))
                }
            }
            _ => Event::Completed,
        };
        self.actions.push(action);
        event
    }

    fn run(&mut self, begun: Step<Command, Result<Bytes, Error>>) -> Result<Bytes, Error> {
        let mut step = begun;
        for _ in 0..10_000 {
            match step {
                Step::Perform(command, action) => {
                    let event = self.perform(action);
                    step = command.step(event);
                }
                Step::Finish(result) => return result,
            }
        }
        panic!("the command does not end");
    }
}

fn status() -> BytesMut {
    samples_of(&[0x88, 0x04, 0x11, 0x33, 0x43])
}

fn answer() -> BytesMut {
    samples_of(&[0x88, 0x07, 0x00, 0x00, 0x60, 0x02, 0x80, 0x38])
}

fn awake() -> Reply {
    Reply::Data(Bytes::from_static(&[0x11]))
}

#[test]
fn command_returns_the_payload() {
    let mut line = Line::new(
        vec![status(), answer()],
        vec![awake(), Reply::Data(Bytes::from_static(&[0x00, 0x00, 0x60, 0x02]))],
    );
    let begun = device().send_command(BytesMut::from(&FRAME[..]), 1_000).unwrap();
    let result = line.run(begun);
    assert_eq!(result, Ok(Bytes::from_static(&[0x00, 0x00, 0x60, 0x02])));
    assert_eq!(line.count(&Action::Open(Profile::Wake)), 1);
    assert_eq!(line.count(&Action::Wait(CMD_RETRY_WAIT)), 0);
}

#[test]
fn command_goes_through_wake_exchange_reading_and_sleep() {
    let mut line = Line::new(
        vec![status(), answer()],
        vec![awake(), Reply::Data(Bytes::from_static(&[0x01]))],
    );
    let begun = device().send_command(BytesMut::from(&FRAME[..]), 1_000).unwrap();
    line.run(begun).unwrap();
    let flag = BytesMut::from(&[0xFDu8, 0xFD, 0xFD, 0xFF, 0xFD, 0xFD, 0xFD, 0xFF][..]);
    let expected = vec![
        Action::Open(Profile::Wake),
        Action::Write(BytesMut::from(&[0x00u8][..])),
        Action::Wait(1_500),
        Action::Close,
        Action::Open(Profile::Command),
        Action::Write(flag.clone()),
        Action::Wait(5_000),
        Action::Read(40),
        Action::Classify(BytesMut::from(&[0x04u8, 0x11, 0x33, 0x43][..])),
        Action::Close,
        Action::Open(Profile::Command),
        Action::Clear,
        Action::Write(encode_uart_to_swi(&BytesMut::from(&FRAME[..]))),
        Action::Wait(56 * 45),
        Action::Drain(56),
        Action::Wait(1_000),
        Action::Clear,
        Action::Write(flag),
        Action::Wait(40_000),
        Action::Read(1208),
        Action::Close,
        Action::Classify(BytesMut::from(&[0x07u8, 0x00, 0x00, 0x60, 0x02, 0x80, 0x38][..])),
        Action::Open(Profile::Command),
        Action::Write(BytesMut::from(&[0xFDu8, 0xFD, 0xFF, 0xFF, 0xFD, 0xFD, 0xFF, 0xFF][..])),
        Action::Close,
    ];
    assert_eq!(line.actions, expected);
}

#[test]
fn command_without_sleep_leaves_the_device_awake() {
    let mut line =
        Line::new(vec![status(), answer()], vec![awake(), Reply::Data(Bytes::from_static(&[9]))]);
    let begun =
        device().send_command_retries(BytesMut::from(&FRAME[..]), 10, false, 1).unwrap();
    assert_eq!(line.run(begun), Ok(Bytes::from_static(&[9])));
    assert_eq!(line.opens(), 3);
    assert_eq!(line.actions.last(), Some(&Action::Classify(BytesMut::from(
        &[0x07u8, 0x00, 0x00, 0x60, 0x02, 0x80, 0x38][..]
    ))));
}

#[test]
fn command_surfaces_a_fatal_fault_on_its_first_occurrence() {
    let mut line = Line::new(vec![status(), answer()], vec![awake(), fault(false)]);
    let begun =
        device().send_command_retries(BytesMut::from(&FRAME[..]), 10, false, 10).unwrap();
    assert_eq!(line.run(begun), Err(Error::Device { code: 0x0F, recoverable: false }));
    assert_eq!(line.count(&Action::Open(Profile::Wake)), 1);
    assert_eq!(line.count(&Action::Wait(CMD_RETRY_WAIT)), 0);
}

#[test]
fn command_surfaces_a_fatal_fault_after_the_sleep() {
    let mut line = Line::new(vec![status(), answer()], vec![awake(), fault(false)]);
    let begun = device().send_command(BytesMut::from(&FRAME[..]), 10).unwrap();
    assert_eq!(line.run(begun), Err(Error::Device { code: 0x0F, recoverable: false }));
    assert_eq!(line.count(&Action::Open(Profile::Wake)), 1);
    assert_eq!(
        line.count(&Action::Write(BytesMut::from(
            &[0xFDu8, 0xFD, 0xFF, 0xFF, 0xFD, 0xFD, 0xFF, 0xFF][..]
        ))),
        1
    );
}

#[test]
fn command_surfaces_a_fatal_fault_on_a_later_attempt() {
    let mut line = Line::new(
        vec![status(), answer(), status(), answer(), status(), answer()],
        vec![awake(), fault(true), awake(), fault(true), awake(), fault(false)],
    );
    let begun =
        device().send_command_retries(BytesMut::from(&FRAME[..]), 10, false, 10).unwrap();
    assert_eq!(line.run(begun), Err(Error::Device { code: 0x0F, recoverable: false }));
    assert_eq!(line.count(&Action::Open(Profile::Wake)), 3);
    assert_eq!(line.count(&Action::Wait(CMD_RETRY_WAIT)), 2);
}

#[test]
fn command_retries_a_recoverable_fault_up_to_its_bound() {
    for retries in [1u8, 2, 3, 10] {
        let mut reads = Vec::new();
        let mut readings = Vec::new();
        for _ in 0..20 {
            reads.push(status());
            reads.push(answer());
            readings.push(awake());
            readings.push(fault(true));
        }
        let mut line = Line::new(reads, readings);
        let begun = device()
            .send_command_retries(BytesMut::from(&FRAME[..]), 10, false, retries)
            .unwrap();
        assert_eq!(line.run(begun), Err(Error::Timeout));
        assert_eq!(line.count(&Action::Open(Profile::Wake)), retries as usize);
        assert_eq!(line.count(&Action::Wait(CMD_RETRY_WAIT)), retries as usize);
    }
}

#[test]
fn command_sends_the_same_frame_on_every_attempt() {
    let mut line = Line::new(
        vec![status(), answer(), status(), answer()],
        vec![awake(), fault(true), awake(), Reply::Data(Bytes::new())],
    );
    let begun =
        device().send_command_retries(BytesMut::from(&FRAME[..]), 10, false, 5).unwrap();
    assert_eq!(line.run(begun), Ok(Bytes::new()));
    assert_eq!(line.count(&Action::Write(encode_uart_to_swi(&BytesMut::from(&FRAME[..])))), 2);
}

#[test]
fn command_succeeds_after_recoverable_faults() {
    let mut line = Line::new(
        vec![status(), answer(), status(), answer(), status(), answer()],
        vec![
            awake(),
            fault(true),
            awake(),
            Reply::Malformed,
            awake(),
            Reply::Data(Bytes::from_static(&[7, 7])),
        ],
    );
    let begun = device().send_command(BytesMut::from(&FRAME[..]), 10).unwrap();
    assert_eq!(line.run(begun), Ok(Bytes::from_static(&[7, 7])));
    assert_eq!(line.count(&Action::Open(Profile::Wake)), 3);
    assert_eq!(line.count(&Action::Wait(CMD_RETRY_WAIT)), 2);
}

#[test]
fn command_gives_the_pass_up_on_a_parse_failure() {
    let mut line = Line::new(vec![status(), answer()], vec![awake(), Reply::ParseFailure]);
    let begun = device().send_command(BytesMut::from(&FRAME[..]), 10).unwrap();
    assert_eq!(line.run(begun), Err(Error::Timeout));
    assert_eq!(line.count(&Action::Open(Profile::Wake)), 1);
    assert_eq!(line.count(&Action::Wait(CMD_RETRY_WAIT)), 1);
    assert_eq!(line.actions.last(), Some(&Action::Wait(100_000)));
}

#[test]
fn command_retries_a_wake_that_fails() {
    let mut line = Line::new(
        vec![status(), status(), answer()],
        vec![Reply::Malformed, awake(), Reply::Data(Bytes::from_static(&[1]))],
    );
    let begun = device().send_command(BytesMut::from(&FRAME[..]), 10).unwrap();
    assert_eq!(line.run(begun), Ok(Bytes::from_static(&[1])));
    assert_eq!(line.count(&Action::Open(Profile::Wake)), 2);
    assert_eq!(line.count(&Action::Wait(CMD_RETRY_WAIT)), 1);
}

#[test]
fn command_times_out_when_the_device_never_wakes() {
    assert_eq!(CMD_RETRIES, 10);
    let mut line = Line::new(Vec::new(), Vec::new());
    let begun = device().send_command(BytesMut::from(&FRAME[..]), 10).unwrap();
    assert_eq!(line.run(begun), Err(Error::Timeout));
    assert_eq!(line.count(&Action::Open(Profile::Wake)), 10);
    assert_eq!(line.count(&Action::Wait(CMD_RETRY_WAIT)), 10);
}

#[test]
fn command_retries_an_exchange_that_times_out() {
    let flag_only = samples_of(&[0x88]);
    let mut line = Line::new(
        vec![status(), flag_only.clone(), flag_only, status(), answer()],
        vec![awake(), awake(), Reply::Data(Bytes::from_static(&[2]))],
    );
    let begun = device().send_command(BytesMut::from(&FRAME[..]), 10).unwrap();
    assert_eq!(line.run(begun), Ok(Bytes::from_static(&[2])));
    assert_eq!(line.count(&Action::Open(Profile::Wake)), 2);
    assert_eq!(line.count(&Action::Wait(50_000)), 2);
    assert_eq!(line.count(&Action::Wait(CMD_RETRY_WAIT)), 1);
}

#[test]
fn command_with_no_attempt_times_out_at_once() {
    let begun = device().send_command_retries(BytesMut::from(&FRAME[..]), 10, true, 0).unwrap();
    match begun {
        Step::Finish(result) => assert_eq!(result, Err(Error::Timeout)),
        Step::Perform(_, action) => panic!("went on with {:?}", action),
    }
}

#[test]
fn command_ends_where_the_port_does_not_open() {
    for failing in 0..4 {
        let mut line = Line::new(
            vec![status(), answer()],
            vec![awake(), Reply::Data(Bytes::from_static(&[1]))],
        );
        line.fail_open_of = Some(failing);
        let begun = device().send_command(BytesMut::from(&FRAME[..]), 10).unwrap();
        assert_eq!(line.run(begun), Err(Error::PortFailure));
        assert_eq!(line.opens(), failing + 1);
        assert_eq!(line.count(&Action::Wait(CMD_RETRY_WAIT)), 0);
    }
}

#[test]
fn command_takes_an_event_that_is_no_reading_for_a_malformed_reply() {
    let mut line = Line::new(vec![status()], vec![awake()]);
    let mut step = device().send_command_retries(BytesMut::from(&FRAME[..]), 10, false, 1).unwrap();
    let mut answered = false;
    loop {
        match step {
            Step::Perform(command, Action::Read(1208)) => {
                line.actions.push(Action::Read(1208));
                step = command.step(Event::Received(answer()));
            }
            Step::Perform(command, Action::Classify(bytes)) if bytes.len() == 7 => {
                answered = true;
                step = command.step(Event::Completed);
            }
            Step::Perform(command, action) => {
                let event = line.perform(action);
                step = command.step(event);
            }
            Step::Finish(result) => {
                assert_eq!(result, Err(Error::Timeout));
                break;
            }
        }
    }
    assert!(answered);
    assert_eq!(line.count(&Action::Wait(CMD_RETRY_WAIT)), 1);
}

#[test]
fn command_asks_for_thirty_one_actions_an_attempt_at_most() {
    for retries in [1u8, 2, 5, 10] {
        let mut reads = Vec::new();
        let mut readings = Vec::new();
        for _ in 0..retries {
            reads.push(status());
            reads.push(samples_of(&[0x88]));
            reads.push(answer());
            readings.push(awake());
            readings.push(fault(true));
        }
        let mut line = Line::new(reads, readings);
        let begun = device()
            .send_command_retries(BytesMut::from(&FRAME[..]), 10, true, retries)
            .unwrap();
        assert_eq!(line.run(begun), Err(Error::Timeout));
        assert_eq!(line.actions.len(), 30 * retries as usize);
        assert!(line.actions.len() <= 31 * retries as usize);
    }
}

#[test]
fn command_ends_whatever_it_is_told() {
    for retries in [1u8, 3, 10] {
        for seed in 0..50usize {
            let mut step =
                device().send_command_retries(BytesMut::from(&FRAME[..]), 1, seed % 2 == 0, retries);
            let mut begun = step.take().unwrap();
            let mut actions = 0usize;
            let mut turn = seed;
            loop {
                match begun {
                    Step::Perform(command, _) => {
                        actions += 1;
                        turn = turn.wrapping_mul(31).wrapping_add(7);
                        let event = match turn % 6 {
                            0 => Event::Completed,
                            1 => Event::Failed,
                            2 => Event::Written(turn % 100),
                            3 => Event::Received(answer()),
                            4 => Event::Received(samples_of(&[0x88])),
                            _ => Event::Classified(fault(turn % 4 != 0)),
                        };
                        begun = command.step(event);
                    }
                    Step::Finish(_) => break,
                }
            }
            assert!(actions <= 31 * retries as usize);
        }
    }
}

#[test]
fn command_retries_a_wake_whose_status_reports_a_fault() {
    for wake_reading in [fault(false), fault(true), Reply::ParseFailure, Reply::Malformed] {
        let mut line = Line::new(
            vec![status(), status(), answer()],
            vec![wake_reading, awake(), Reply::Data(Bytes::from_static(&[1]))],
        );
        let begun = device().send_command(BytesMut::from(&FRAME[..]), 10).unwrap();
        assert_eq!(line.run(begun), Ok(Bytes::from_static(&[1])));
        assert_eq!(line.count(&Action::Open(Profile::Wake)), 2);
        assert_eq!(line.count(&Action::Wait(CMD_RETRY_WAIT)), 1);
        assert_eq!(line.count(&Action::Clear), 2);
    }
}

#[test]
fn command_times_out_when_every_wake_reports_a_fault() {
    let mut readings = Vec::new();
    let mut reads = Vec::new();
    for _ in 0..5 {
        readings.push(fault(false));
        reads.push(status());
    }
    let mut line = Line::new(reads, readings);
    let begun = device().send_command_retries(BytesMut::from(&FRAME[..]), 10, true, 5).unwrap();
    assert_eq!(line.run(begun), Err(Error::Timeout));
    assert_eq!(line.count(&Action::Open(Profile::Wake)), 5);
    assert_eq!(line.count(&Action::Wait(CMD_RETRY_WAIT)), 5);
    assert_eq!(line.count(&Action::Clear), 0);
}
