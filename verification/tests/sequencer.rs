use bytes::Bytes;
use bytes::BytesMut;
use ecc608_swi::codec::encode_uart_to_swi;
use ecc608_swi::ecc::Ecc;
use ecc608_swi::error::Error;
use ecc608_swi::error::Reply;
use ecc608_swi::port::Action;
use ecc608_swi::port::Event;
use ecc608_swi::port::Profile;
use ecc608_swi::port::Step;
use ecc608_swi::sequencer::Sleep;
use ecc608_swi::sequencer::Wake;
use ecc608_swi::sequencer::WAKE_DELAY;
use ecc608_swi::sequencer::WAKE_SETTLE;

fn device() -> Ecc {
    Ecc::from_path("/dev/ttyS0", 0x60).unwrap()
}

fn samples_of(logical: &[u8]) -> BytesMut {
    let symbols = encode_uart_to_swi(&BytesMut::from(logical));
    let masked: Vec<u8> = symbols.iter().map(|symbol| symbol & 0x7F).collect();
    BytesMut::from(&masked[..])
}

fn go_on<M, T: std::fmt::Debug>(step: Step<M, T>) -> (M, Action) {
    match step {
        Step::Perform(machine, action) => (machine, action),
        Step::Finish(result) => panic!("ended with {:?}", result),
    }
}

fn end<M, T>(step: Step<M, T>) -> T {
    match step {
        Step::Perform(_, action) => panic!("went on with {:?}", action),
        Step::Finish(result) => result,
    }
}

/// Takes a wake up to the point where the status is handed out.
fn wake_until_classify(read: Event) -> (Wake, Action) {
    let (wake, action) = device().send_wake();
    assert_eq!(action, Action::Open(Profile::Wake));
    let (wake, action) = go_on(wake.step(Event::Completed));
    assert_eq!(action, Action::Write(BytesMut::from(&[0x00u8][..])));
    let (wake, action) = go_on(wake.step(Event::Written(1)));
    assert_eq!(action, Action::Wait(WAKE_DELAY));
    let (wake, action) = go_on(wake.step(Event::Completed));
    assert_eq!(action, Action::Close);
    let (wake, action) = go_on(wake.step(Event::Completed));
    assert_eq!(action, Action::Open(Profile::Command));
    let (wake, action) = go_on(wake.step(Event::Completed));
    assert_eq!(
        action,
        Action::Write(BytesMut::from(&[0xFDu8, 0xFD, 0xFD, 0xFF, 0xFD, 0xFD, 0xFD, 0xFF][..]))
    );
    let (wake, action) = go_on(wake.step(Event::Written(8)));
    assert_eq!(action, Action::Wait(WAKE_SETTLE));
    let (wake, action) = go_on(wake.step(Event::Completed));
    assert_eq!(action, Action::Read(40));
    go_on(wake.step(read))
}

#[test]
fn sleep_writes_the_request_and_releases_the_port() {
    let (sleep, action) = device().send_sleep();
    assert_eq!(action, Action::Open(Profile::Command));
    let (sleep, action) = go_on(sleep.step(Event::Completed));
    assert_eq!(
        action,
        Action::Write(BytesMut::from(&[0xFDu8, 0xFD, 0xFF, 0xFF, 0xFD, 0xFD, 0xFF, 0xFF][..]))
    );
    let (sleep, action) = go_on(sleep.step(Event::Written(8)));
    assert_eq!(action, Action::Close);
    assert_eq!(end(sleep.step(Event::Completed)), Ok(()));
}

#[test]
fn sleep_does_not_look_at_the_write() {
    let (sleep, _) = device().send_sleep();
    let (sleep, _) = go_on(sleep.step(Event::Completed));
    let (sleep, action) = go_on(sleep.step(Event::Failed));
    assert_eq!(action, Action::Close);
    assert_eq!(end(sleep.step(Event::Failed)), Ok(()));
}

#[test]
fn sleep_fails_where_the_port_does_not_open() {
    let (sleep, _) = device().send_sleep();
    assert_eq!(end(sleep.step(Event::Failed)), Err(Error::PortFailure));
    let (sleep, _) = device().send_sleep();
    assert_eq!(end(sleep.step(Event::Written(3))), Err(Error::PortFailure));
}

#[test]
fn wake_hands_the_status_to_the_command_layer() {
    let (wake, action) = wake_until_classify(Event::Received(samples_of(&[
        0x88, 0x04, 0x11, 0x33, 0x43,
    ])));
    assert_eq!(action, Action::Classify(BytesMut::from(&[0x04u8, 0x11, 0x33, 0x43][..])));
    let (wake, action) = go_on(wake.step(Event::Classified(Reply::Data(Bytes::new()))));
    assert_eq!(action, Action::Close);
    assert_eq!(end(wake.step(Event::Completed)), Ok(()));
}

#[test]
fn wake_succeeds_only_on_a_response_that_reports_no_failure() {
    let (wake, _) = wake_until_classify(Event::Received(samples_of(&[0x88, 0x04, 0x11, 0x33, 0x43])));
    let (wake, action) = go_on(wake.step(Event::Classified(Reply::Data(Bytes::from_static(&[0x11])))));
    assert_eq!(action, Action::Close);
    assert_eq!(end(wake.step(Event::Completed)), Ok(()));
}

#[test]
fn wake_fails_on_a_status_that_reports_a_fault() {
    let (wake, _) = wake_until_classify(Event::Received(samples_of(&[0x88, 0x04, 0x0F, 0x33, 0x43])));
    let (wake, action) =
        go_on(wake.step(Event::Classified(Reply::DeviceError { code: 0x0F, recoverable: false })));
    assert_eq!(action, Action::Close);
    assert_eq!(
        end(wake.step(Event::Completed)),
        Err(Error::Device { code: 0x0F, recoverable: false })
    );
    let (wake, _) = wake_until_classify(Event::Received(samples_of(&[0x88, 0x04, 0xFF, 0x33, 0x43])));
    let (wake, action) =
        go_on(wake.step(Event::Classified(Reply::DeviceError { code: 0xFF, recoverable: true })));
    assert_eq!(action, Action::Close);
    assert_eq!(
        end(wake.step(Event::Completed)),
        Err(Error::Device { code: 0xFF, recoverable: true })
    );
}

#[test]
fn wake_fails_on_a_status_that_reports_a_parse_failure() {
    let (wake, _) = wake_until_classify(Event::Received(samples_of(&[0x88, 0x04, 0x03, 0x33, 0x43])));
    let (wake, action) = go_on(wake.step(Event::Classified(Reply::ParseFailure)));
    assert_eq!(action, Action::Close);
    assert_eq!(end(wake.step(Event::Completed)), Err(Error::ParseFailure));
}

#[test]
fn wake_fails_on_a_malformed_status() {
    let (wake, action) = wake_until_classify(Event::Received(samples_of(&[0x88, 0xFF])));
    assert_eq!(action, Action::Classify(BytesMut::from(&[0xFFu8, 0x00, 0x00, 0x00][..])));
    let (wake, action) = go_on(wake.step(Event::Classified(Reply::Malformed)));
    assert_eq!(action, Action::Close);
    assert_eq!(end(wake.step(Event::Completed)), Err(Error::ParseFailure));
}

#[test]
fn wake_fails_where_the_status_is_not_read() {
    let (wake, _) = wake_until_classify(Event::Received(BytesMut::new()));
    let (wake, action) = go_on(wake.step(Event::Completed));
    assert_eq!(action, Action::Close);
    assert_eq!(end(wake.step(Event::Completed)), Err(Error::ParseFailure));
}

#[test]
fn wake_decodes_zeros_where_the_read_fails() {
    let (_, action) = wake_until_classify(Event::Failed);
    assert_eq!(action, Action::Classify(BytesMut::from(&[0x00u8, 0x00, 0x00, 0x00][..])));
}

#[test]
fn wake_does_not_look_at_the_write_of_the_pulse() {
    let (wake, _) = device().send_wake();
    let (wake, _) = go_on(wake.step(Event::Completed));
    let (_, action) = go_on(wake.step(Event::Failed));
    assert_eq!(action, Action::Wait(WAKE_DELAY));
}

#[test]
fn wake_fails_where_the_port_does_not_open() {
    let (wake, _) = device().send_wake();
    assert_eq!(end(wake.step(Event::Failed)), Err(Error::PortFailure));
}

#[test]
fn wake_fails_where_the_port_does_not_open_again() {
    let (wake, _) = device().send_wake();
    let (wake, _) = go_on(wake.step(Event::Completed));
    let (wake, _) = go_on(wake.step(Event::Written(1)));
    let (wake, _) = go_on(wake.step(Event::Completed));
    let (wake, action) = go_on(wake.step(Event::Completed));
    assert_eq!(action, Action::Open(Profile::Command));
    assert_eq!(end(wake.step(Event::Failed)), Err(Error::PortFailure));
}

#[test]
fn wake_releases_the_port_where_the_flag_is_not_written() {
    let (wake, _) = device().send_wake();
    let (wake, _) = go_on(wake.step(Event::Completed));
    let (wake, _) = go_on(wake.step(Event::Written(1)));
    let (wake, _) = go_on(wake.step(Event::Completed));
    let (wake, _) = go_on(wake.step(Event::Completed));
    let (wake, _) = go_on(wake.step(Event::Completed));
    let (wake, action) = go_on(wake.step(Event::Failed));
    assert_eq!(action, Action::Close);
    assert_eq!(end(wake.step(Event::Completed)), Err(Error::PortFailure));
}

#[test]
fn wake_is_slower_and_wider_than_commands() {
    assert_eq!(Profile::Wake.baud_rate(), 115_200);
    assert_eq!(Profile::Wake.data_bits(), 8);
    assert_eq!(Profile::Wake.stop_bits(), 1);
    assert_eq!(Profile::Command.baud_rate(), 230_400);
    assert_eq!(Profile::Command.data_bits(), 7);
    assert_eq!(Profile::Command.stop_bits(), 1);
    assert!(Profile::Wake.baud_rate() < Profile::Command.baud_rate());
}

#[test]
fn sequences_begin_anew_each_time() {
    let (_, first): (Sleep, Action) = device().send_sleep();
    let (_, second): (Sleep, Action) = device().send_sleep();
    assert_eq!(first, second);
    let (_, first): (Wake, Action) = device().send_wake();
    let (_, second): (Wake, Action) = device().send_wake();
    assert_eq!(first, second);
}
