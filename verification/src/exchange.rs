//! The frame exchanger: one frame out, one reply back.
//!
//! The line is shared, so what the host writes comes back to it. The
//! exchanger writes the frame, waits while it is on the line, reads its echo
//! away, gives the device time to work, and then polls for the reply with a
//! transmit flag.

use crate::buffer;
use crate::buffer::held;
use crate::codec::encode_uart_to_swi;
use crate::codec::encoded;
use crate::error::Error;
use crate::frame::declared_len;
use crate::frame::extract_reply;
use crate::frame::pulse;
use crate::frame::reply_of;
use crate::frame::sendable;
use crate::frame::transmission_time;
use crate::frame::BYTE_TIME;
use crate::frame::MAX_LOGICAL_FRAME;
use crate::frame::MAX_PHYSICAL_FRAME;
use crate::frame::TRANSMIT_FLAG;
use crate::port::Action;
use crate::port::ActionView;
use crate::port::Event;
use crate::port::EventView;
use crate::port::Profile;
use crate::port::Step;
use crate::port::StepView;
use crate::retry::RetryPolicy;
use bytes::BytesMut;
use vstd::prelude::*;

verus! {

/// The time between a transmit flag and the read that follows it, in
/// microseconds.
pub const FLAG_SETTLE: u64 = 40_000;

/// The number of bytes that a read brings where the device has not answered:
/// the echo of the flag.
pub const FLAG_ECHO: usize = 8;

/// A read that brings more bytes than this holds a reply: the echo of the flag
/// and the length byte are sixteen.
pub const REPLY_THRESHOLD: usize = 16;

/// Where an exchange stands: the action that it waits on.
#[derive(Clone, Copy, Debug, PartialEq, Eq)]
pub enum ExchangeStage {
    /// The port is being opened.
    Opening,
    /// What the port has buffered is being discarded.
    Clearing,
    /// The frame is being written.
    Sending,
    /// The frame is on the line; this many bytes of it were written.
    Transmitting(usize),
    /// The echo of the frame is being read away.
    Draining,
    /// The device is working on the command.
    Processing,
    /// What the port has buffered is being discarded before the first poll.
    Flushing,
    /// The transmit flag of the poll with this number is being written.
    Flagging(u8),
    /// The device is given time to answer the poll with this number.
    Settling(u8),
    /// The answer to the poll with this number is being read.
    Reading(u8),
    /// The poll with this number brought the flag alone; its wait runs.
    Pausing(u8),
    /// The port is being released; the error, if the exchange failed.
    Closing(Option<Error>),
}

/// What a read brought, as far as polling looks at it.
#[derive(Clone, Copy, Debug, PartialEq, Eq)]
pub enum Catch {
    /// More than the flag and a length byte: a reply.
    Reply,
    /// The echo of the flag and nothing else.
    FlagOnly,
    /// Anything else, a failed read too.
    Nothing,
}

/// What a read that brought `len` bytes is to polling.
pub open spec fn catch_of(len: nat) -> Catch {
    if len > REPLY_THRESHOLD {
        Catch::Reply
    } else if len == FLAG_ECHO {
        Catch::FlagOnly
    } else {
        Catch::Nothing
    }
}

/// One exchange of a frame for a reply.
#[derive(Debug)]
pub struct Exchange {
    frame: BytesMut,
    delay: u64,
    polls: RetryPolicy,
    stage: ExchangeStage,
    reply: BytesMut,
}

/// An [`Exchange`] by the bytes it holds.
pub struct ExchangeView {
    /// The logical frame to send.
    pub frame: Seq<u8>,
    /// The time the device is given to work, in microseconds.
    pub delay: u64,
    /// The bound on polls, and the wait after one that brought the flag alone.
    pub polls: RetryPolicy,
    /// Where the exchange stands.
    pub stage: ExchangeStage,
    /// The logical reply, once one has come.
    pub reply: Seq<u8>,
}

impl View for Exchange {
    type V = ExchangeView;

    closed spec fn view(&self) -> ExchangeView {
        ExchangeView {
            frame: held(self.frame),
            delay: self.delay,
            polls: self.polls,
            stage: self.stage,
            reply: held(self.reply),
        }
    }
}

/// The view of a step of an exchange.
pub open spec fn exchange_step_view(step: Step<Exchange, Result<BytesMut, Error>>) -> StepView<
    ExchangeView,
    Result<Seq<u8>, Error>,
> {
    match step {
        Step::Perform(exchange, action) => StepView::Perform(exchange@, action@),
        Step::Finish(Ok(reply)) => StepView::Finish(Ok(held(reply))),
        Step::Finish(Err(error)) => StepView::Finish(Err(error)),
    }
}

impl ExchangeView {
    /// This exchange at another stage.
    pub open spec fn at(self, stage: ExchangeStage) -> ExchangeView {
        ExchangeView { stage, ..self }
    }

    /// The exchange gives up: the port is released, and `error` is what it
    /// ends with.
    pub open spec fn fail(self, error: Error) -> StepView<ExchangeView, Result<Seq<u8>, Error>> {
        StepView::Perform(self.at(ExchangeStage::Closing(Some(error))), ActionView::Close)
    }

    /// The poll with the number `poll` begins with its transmit flag, where the
    /// policy allows a poll with that number; else the exchange times out.
    pub open spec fn poll(self, poll: int) -> StepView<ExchangeView, Result<Seq<u8>, Error>> {
        if 0 <= poll < self.polls.max_attempts {
            StepView::Perform(
                self.at(ExchangeStage::Flagging(poll as u8)),
                ActionView::Write(encoded(seq![TRANSMIT_FLAG])),
            )
        } else {
            self.fail(Error::Timeout)
        }
    }

    /// What the exchange does with what the poll with the number `poll` read.
    pub open spec fn caught(self, poll: u8, event: EventView) -> StepView<
        ExchangeView,
        Result<Seq<u8>, Error>,
    > {
        match event {
            EventView::Received(samples) => match catch_of(samples.len()) {
                Catch::Reply => match reply_of(samples) {
                    Ok(reply) => StepView::Perform(
                        ExchangeView { reply, ..self.at(ExchangeStage::Closing(None)) },
                        ActionView::Close,
                    ),
                    Err(error) => self.fail(error),
                },
                Catch::FlagOnly => StepView::Perform(
                    self.at(ExchangeStage::Pausing(poll)),
                    ActionView::Wait(self.polls.delay),
                ),
                Catch::Nothing => self.poll(poll + 1),
            },
            _ => self.poll(poll + 1),
        }
    }

    /// What the exchange does when told `event`.
    pub open spec fn next(self, event: EventView) -> StepView<
        ExchangeView,
        Result<Seq<u8>, Error>,
    > {
        match self.stage {
            ExchangeStage::Opening => match event {
                EventView::Completed => StepView::Perform(
                    self.at(ExchangeStage::Clearing),
                    ActionView::Clear,
                ),
                _ => StepView::Finish(Err(Error::PortFailure)),
            },
            ExchangeStage::Clearing => StepView::Perform(
                self.at(ExchangeStage::Sending),
                ActionView::Write(encoded(self.frame)),
            ),
            ExchangeStage::Sending => match event {
                EventView::Written(count) => StepView::Perform(
                    self.at(ExchangeStage::Transmitting(count)),
                    ActionView::Wait(transmission_time(self.frame.len()) as u64),
                ),
                _ => self.fail(Error::PortFailure),
            },
            ExchangeStage::Transmitting(count) => StepView::Perform(
                self.at(ExchangeStage::Draining),
                ActionView::Drain(count),
            ),
            ExchangeStage::Draining => StepView::Perform(
                self.at(ExchangeStage::Processing),
                ActionView::Wait(self.delay),
            ),
            ExchangeStage::Processing => StepView::Perform(
                self.at(ExchangeStage::Flushing),
                ActionView::Clear,
            ),
            ExchangeStage::Flushing => self.poll(0),
            ExchangeStage::Flagging(poll) => match event {
                EventView::Written(_) => StepView::Perform(
                    self.at(ExchangeStage::Settling(poll)),
                    ActionView::Wait(FLAG_SETTLE),
                ),
                _ => self.fail(Error::PortFailure),
            },
            ExchangeStage::Settling(poll) => StepView::Perform(
                self.at(ExchangeStage::Reading(poll)),
                ActionView::Read(MAX_PHYSICAL_FRAME),
            ),
            ExchangeStage::Reading(poll) => self.caught(poll, event),
            ExchangeStage::Pausing(poll) => self.poll(poll + 1),
            ExchangeStage::Closing(None) => StepView::Finish(Ok(self.reply)),
            ExchangeStage::Closing(Some(error)) => StepView::Finish(Err(error)),
        }
    }

}

impl Exchange {
    /// What holds of every exchange: its frame can be sent.
    #[verifier::type_invariant]
    spec fn sound(self) -> bool {
        sendable(held(self.frame).len())
    }

    /// Begins an exchange of `frame`, after which the device is given `delay`
    /// microseconds to work: the port is to be opened for commands.
    pub(crate) fn start(frame: BytesMut, delay: u64) -> (begun: (Exchange, Action))
        requires
            sendable(held(frame).len()),
        ensures
            begun.0@ == (ExchangeView {
                frame: held(frame),
                delay,
                polls: RetryPolicy::receive_spec(),
                stage: ExchangeStage::Opening,
                reply: Seq::<u8>::empty(),
            }),
            begun.1@ == ActionView::Open(Profile::Command),
    {
        let exchange = Exchange {
            frame,
            delay,
            polls: RetryPolicy::receive(),
            stage: ExchangeStage::Opening,
            reply: buffer::with_capacity(0),
        };
        (exchange, Action::Open(Profile::Command))
    }

    fn at(self, stage: ExchangeStage) -> (moved: Exchange)
        ensures
            moved@ == self@.at(stage),
    {
        proof {
            use_type_invariant(&self);
        }
        Exchange { stage, ..self }
    }

    fn fail(self, error: Error) -> (step: Step<Exchange, Result<BytesMut, Error>>)
        ensures
            exchange_step_view(step) == self@.fail(error),
    {
        Step::Perform(self.at(ExchangeStage::Closing(Some(error))), Action::Close)
    }

    fn poll_after(self, poll: u8) -> (step: Step<Exchange, Result<BytesMut, Error>>)
        ensures
            exchange_step_view(step) == self@.poll(poll + 1),
    {
        if self.polls.allows_after(poll) {
            Step::Perform(self.at(ExchangeStage::Flagging(poll + 1)), Action::Write(pulse(TRANSMIT_FLAG)))
        } else {
            self.fail(Error::Timeout)
        }
    }

    fn first_poll(self) -> (step: Step<Exchange, Result<BytesMut, Error>>)
        ensures
            exchange_step_view(step) == self@.poll(0),
    {
        if self.polls.max_attempts > 0 {
            Step::Perform(self.at(ExchangeStage::Flagging(0)), Action::Write(pulse(TRANSMIT_FLAG)))
        } else {
            self.fail(Error::Timeout)
        }
    }

    fn caught(self, poll: u8, event: Event) -> (step: Step<Exchange, Result<BytesMut, Error>>)
        ensures
            exchange_step_view(step) == self@.caught(poll, event@),
    {
        match event {
            Event::Received(samples) => {
                let len: usize = buffer::len(&samples);
                if len > REPLY_THRESHOLD {
                    match extract_reply(samples) {
                        Ok(reply) => {
                            proof {
                                use_type_invariant(&self);
                            }
                            Step::Perform(
                                Exchange { reply, stage: ExchangeStage::Closing(None), ..self },
                                Action::Close,
                            )
                        },
                        Err(error) => self.fail(error),
                    }
                } else if len == FLAG_ECHO {
                    let wait: u64 = self.polls.delay;
                    Step::Perform(self.at(ExchangeStage::Pausing(poll)), Action::Wait(wait))
                } else {
                    self.poll_after(poll)
                }
            },
            _ => self.poll_after(poll),
        }
    }

    /// Takes the exchange one action further.
    pub fn step(self, event: Event) -> (step: Step<Exchange, Result<BytesMut, Error>>)
        ensures
            exchange_step_view(step) == self@.next(event@),
    {
        proof {
            use_type_invariant(&self);
        }
        match self.stage {
            ExchangeStage::Opening => match event {
                Event::Completed => Step::Perform(self.at(ExchangeStage::Clearing), Action::Clear),
                _ => Step::Finish(Err(Error::PortFailure)),
            },
            ExchangeStage::Clearing => {
                let symbols = encode_uart_to_swi(&self.frame);
                Step::Perform(self.at(ExchangeStage::Sending), Action::Write(symbols))
            },
            ExchangeStage::Sending => match event {
                Event::Written(count) => {
                    let len: usize = buffer::len(&self.frame);
                    let time: u64 = (len as u64) * 8 * BYTE_TIME;
                    Step::Perform(self.at(ExchangeStage::Transmitting(count)), Action::Wait(time))
                },
                _ => self.fail(Error::PortFailure),
            },
            ExchangeStage::Transmitting(count) => Step::Perform(
                self.at(ExchangeStage::Draining),
                Action::Drain(count),
            ),
            ExchangeStage::Draining => {
                let delay: u64 = self.delay;
                Step::Perform(self.at(ExchangeStage::Processing), Action::Wait(delay))
            },
            ExchangeStage::Processing => Step::Perform(
                self.at(ExchangeStage::Flushing),
                Action::Clear,
            ),
            ExchangeStage::Flushing => self.first_poll(),
            ExchangeStage::Flagging(poll) => match event {
                Event::Written(_) => Step::Perform(
                    self.at(ExchangeStage::Settling(poll)),
                    Action::Wait(FLAG_SETTLE),
                ),
                _ => self.fail(Error::PortFailure),
            },
            ExchangeStage::Settling(poll) => Step::Perform(
                self.at(ExchangeStage::Reading(poll)),
                Action::Read(MAX_PHYSICAL_FRAME),
            ),
            ExchangeStage::Reading(poll) => self.caught(poll, event),
            ExchangeStage::Pausing(poll) => self.poll_after(poll),
            ExchangeStage::Closing(None) => Step::Finish(Ok(self.reply)),
            ExchangeStage::Closing(Some(error)) => Step::Finish(Err(error)),
        }
    }
}

impl ExchangeView {
    /// What the exchange has come to when it was told `events` one after the
    /// other: the step that the last of them yields, or the result that ended
    /// the exchange before.
    pub open spec fn after(self, events: Seq<EventView>) -> StepView<
        ExchangeView,
        Result<Seq<u8>, Error>,
    >
        recommends
            events.len() > 0,
        decreases events.len(),
    {
        if events.len() <= 1 {
            self.next(events[0])
        } else {
            match self.next(events[0]) {
                StepView::Perform(exchange, _) => exchange.after(events.drop_first()),
                StepView::Finish(result) => StepView::Finish(result),
            }
        }
    }

    /// How the exchange ends when it is told `events` one after the other;
    /// none where it does not end with the last of them.
    pub open spec fn ending(self, events: Seq<EventView>) -> Option<Result<Seq<u8>, Error>>
        decreases events.len(),
    {
        if events.len() == 0 {
            None
        } else {
            match self.next(events[0]) {
                StepView::Perform(exchange, _) => exchange.ending(events.drop_first()),
                StepView::Finish(result) => if events.len() == 1 {
                    Some(result)
                } else {
                    None
                },
            }
        }
    }

    /// Whether the four events from `at` on are one poll that brought the
    /// echo of the flag and nothing else: the flag was written, and the read
    /// brought eight bytes.
    pub open spec fn flag_only_round(events: Seq<EventView>, at: int) -> bool {
        &&& events[at] is Written
        &&& events[at + 2] matches EventView::Received(samples) && samples.len() == FLAG_ECHO
    }
}

/// A poll that reads a reply whose declared length is above the largest
/// frame makes the exchange release the port and end with a timeout.
pub proof fn lemma_oversized_reply_ends_exchange(
    exchange: ExchangeView,
    poll: u8,
    samples: Seq<u8>,
    event: EventView,
)
    requires
        exchange.stage == ExchangeStage::Reading(poll),
        samples.len() > REPLY_THRESHOLD,
        declared_len(samples) > MAX_LOGICAL_FRAME,
    ensures
        exchange.next(EventView::Received(samples)) == exchange.fail(Error::Timeout),
        exchange.after(seq![EventView::Received(samples), event]) == StepView::<
            ExchangeView,
            Result<Seq<u8>, Error>,
        >::Finish(Err(Error::Timeout)),
{
    let events = seq![EventView::Received(samples), event];
    assert(events.drop_first() =~= seq![event]);
    reveal_with_fuel(ExchangeView::after, 3);
}

/// A poll that reads more than sixteen bytes ends the polling, whichever
/// poll it is: the port is released, and the exchange ends with the reply cut
/// out of what was read.
pub proof fn lemma_reply_ends_polling(
    exchange: ExchangeView,
    poll: u8,
    samples: Seq<u8>,
    event: EventView,
)
    requires
        exchange.stage == ExchangeStage::Reading(poll),
        samples.len() > REPLY_THRESHOLD,
    ensures
        exchange.next(EventView::Received(samples)) matches StepView::Perform(_, action)
            && action == ActionView::Close,
        exchange.after(seq![EventView::Received(samples), event]) == StepView::<
            ExchangeView,
            Result<Seq<u8>, Error>,
        >::Finish(reply_of(samples)),
{
    let events = seq![EventView::Received(samples), event];
    assert(events.drop_first() =~= seq![event]);
    reveal_with_fuel(ExchangeView::after, 3);
}

/// Polls that bring the echo of the flag and nothing else, every one that the
/// policy allows, end in a timeout: after the wait of the last one the port
/// is released, and the exchange has failed.
pub proof fn lemma_flag_only_polls_time_out(
    exchange: ExchangeView,
    poll: u8,
    events: Seq<EventView>,
)
    requires
        exchange.stage == ExchangeStage::Flagging(poll),
        poll < exchange.polls.max_attempts,
        events.len() == 4 * (exchange.polls.max_attempts - poll),
        forall|k: int|
            0 <= k < exchange.polls.max_attempts - poll ==> ExchangeView::flag_only_round(
                events,
                #[trigger] (4 * k),
            ),
    ensures
        exchange.after(events) == exchange.fail(Error::Timeout),
    decreases exchange.polls.max_attempts - poll,
{
    let rest1 = events.drop_first();
    let rest2 = rest1.drop_first();
    let rest3 = rest2.drop_first();
    let rest4 = rest3.drop_first();
    assert(ExchangeView::flag_only_round(events, 4 * 0int));
    assert(rest1[0] == events[1] && rest2[0] == events[2] && rest3[0] == events[3]);
    let settling = exchange.at(ExchangeStage::Settling(poll));
    let reading = exchange.at(ExchangeStage::Reading(poll));
    let pausing = exchange.at(ExchangeStage::Pausing(poll));
    assert(exchange.next(events[0]) == StepView::<ExchangeView, Result<Seq<u8>, Error>>::Perform(
        settling,
        ActionView::Wait(FLAG_SETTLE),
    ));
    assert(settling.next(events[1]) == StepView::<ExchangeView, Result<Seq<u8>, Error>>::Perform(
        reading,
        ActionView::Read(MAX_PHYSICAL_FRAME),
    ));
    assert(reading.next(events[2]) == StepView::<ExchangeView, Result<Seq<u8>, Error>>::Perform(
        pausing,
        ActionView::Wait(exchange.polls.delay),
    ));
    assert(pausing.next(events[3]) == exchange.poll(poll + 1));
    assert(exchange.after(events) == settling.after(rest1));
    assert(settling.after(rest1) == reading.after(rest2));
    assert(reading.after(rest2) == pausing.after(rest3));
    if poll + 1 < exchange.polls.max_attempts {
        let flagging = exchange.at(ExchangeStage::Flagging((poll + 1) as u8));
        assert(pausing.after(rest3) == flagging.after(rest4));
        assert forall|k: int|
            0 <= k < flagging.polls.max_attempts - (poll + 1) implies ExchangeView::flag_only_round(
            rest4,
            #[trigger] (4 * k),
        ) by {
            assert(ExchangeView::flag_only_round(events, 4 * (k + 1)));
            assert(rest4[4 * k] == events[4 * (k + 1)]);
            assert(rest4[4 * k + 2] == events[4 * (k + 1) + 2]);
        }
        lemma_flag_only_polls_time_out(flagging, (poll + 1) as u8, rest4);
        assert(flagging.fail(Error::Timeout) == exchange.fail(Error::Timeout));
    } else {
        assert(rest3.len() == 1);
    }
}

/// An exchange that meets no failure, and whose first poll reads a reply,
/// takes eleven actions and ends with the reply cut out of what was read.
pub proof fn lemma_exchange_runs_through(
    exchange: ExchangeView,
    events: Seq<EventView>,
    samples: Seq<u8>,
)
    requires
        exchange.stage == ExchangeStage::Opening,
        exchange.polls.max_attempts > 0,
        events.len() == 11,
        events[0] is Completed,
        events[2] is Written,
        events[7] is Written,
        events[9] == EventView::Received(samples),
        samples.len() > REPLY_THRESHOLD,
    ensures
        exchange.ending(events) == Some(reply_of(samples)),
{
    reveal_with_fuel(ExchangeView::ending, 12);
    let e1 = events.drop_first();
    let e2 = e1.drop_first();
    let e3 = e2.drop_first();
    let e4 = e3.drop_first();
    let e5 = e4.drop_first();
    let e6 = e5.drop_first();
    let e7 = e6.drop_first();
    let e8 = e7.drop_first();
    let e9 = e8.drop_first();
    let e10 = e9.drop_first();
    assert(e2[0] == events[2] && e7[0] == events[7] && e9[0] == events[9]);
    assert(e10.len() == 1);
}

impl ExchangeView {
    /// The number of the poll that runs at this stage, if one does.
    pub open spec fn poll_number(self) -> Option<u8> {
        match self.stage {
            ExchangeStage::Flagging(poll) => Some(poll),
            ExchangeStage::Settling(poll) => Some(poll),
            ExchangeStage::Reading(poll) => Some(poll),
            ExchangeStage::Pausing(poll) => Some(poll),
            _ => None,
        }
    }

    /// Whether the poll that runs at this stage, if one does, is one that the
    /// policy allows.
    pub open spec fn within_bound(self) -> bool {
        self.poll_number() matches Some(poll) ==> poll < self.polls.max_attempts
    }

    /// The most actions that the exchange still asks for after the one that
    /// it waits on: four for every poll that the policy still allows, those
    /// that lead up to the first poll, and the release of the port.
    pub open spec fn steps_left(self) -> int {
        match self.stage {
            ExchangeStage::Opening => 4 * self.polls.max_attempts + 7,
            ExchangeStage::Clearing => 4 * self.polls.max_attempts + 6,
            ExchangeStage::Sending => 4 * self.polls.max_attempts + 5,
            ExchangeStage::Transmitting(_) => 4 * self.polls.max_attempts + 4,
            ExchangeStage::Draining => 4 * self.polls.max_attempts + 3,
            ExchangeStage::Processing => 4 * self.polls.max_attempts + 2,
            ExchangeStage::Flushing => 4 * self.polls.max_attempts + 1,
            ExchangeStage::Flagging(poll) => 4 * (self.polls.max_attempts - poll),
            ExchangeStage::Settling(poll) => 4 * (self.polls.max_attempts - poll) - 1,
            ExchangeStage::Reading(poll) => 4 * (self.polls.max_attempts - poll) - 2,
            ExchangeStage::Pausing(poll) => 4 * (self.polls.max_attempts - poll) - 3,
            ExchangeStage::Closing(_) => 0,
        }
    }
}

/// An exchange ends, whatever it is told: every step that does not end it
/// leaves fewer actions to ask for, and none leaves less than none.
pub proof fn lemma_exchange_ends(exchange: ExchangeView, event: EventView)
    requires
        exchange.within_bound(),
    ensures
        exchange.steps_left() >= 0,
        exchange.next(event) matches StepView::Perform(moved, _) ==> 0 <= moved.steps_left()
            < exchange.steps_left(),
{
}

/// A step never touches the frame, the time for the device or the policy,
/// and never begins a poll that the policy does not allow: the number of the
/// poll never falls, grows by one at most, and stays below the bound.
pub proof fn lemma_polls_are_bounded(exchange: ExchangeView, event: EventView)
    requires
        exchange.within_bound(),
    ensures
        exchange.next(event) matches StepView::Perform(moved, _) ==> {
            &&& moved.frame == exchange.frame
            &&& moved.delay == exchange.delay
            &&& moved.polls == exchange.polls
            &&& moved.within_bound()
            &&& (exchange.poll_number() matches Some(poll) ==> (moved.poll_number() matches Some(
                later,
            ) ==> poll <= later <= poll + 1))
        },
{
}

/// An exchange ends only where the port did not open or has been released,
/// and it does not ask for the port again.
pub proof fn lemma_exchange_releases_the_port(exchange: ExchangeView, event: EventView)
    ensures
        exchange.next(event) is Finish ==> exchange.stage is Closing || (exchange.stage is Opening
            && !(event is Completed)),
        exchange.next(event) matches StepView::Perform(_, action) ==> !(action is Open),
{
}

} // verus!
