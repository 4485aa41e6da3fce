//! The bus sequencer: the pulse that wakes the device and the one that sends
//! it to sleep.

use crate::buffer;
use crate::codec::encoded;
use crate::error::Error;
use crate::error::Reply;
use crate::frame::acknowledgment_of;
use crate::frame::extract_acknowledgment;
use crate::frame::pulse;
use crate::frame::single;
use crate::frame::SLEEP_REQUEST;
use crate::frame::TRANSMIT_FLAG;
use crate::frame::WAKE_REQUEST;
use crate::frame::WAKE_RESPONSE_SIZE;
use crate::port::step_view;
use crate::port::Action;
use crate::port::ActionView;
use crate::port::Event;
use crate::port::EventView;
use crate::port::Profile;
use crate::port::Step;
use crate::port::StepView;
use vstd::prelude::*;

verus! {

/// The time the device needs after the wake pulse, in microseconds.
pub const WAKE_DELAY: u64 = 1_500;

/// The time between the flag that follows a wake pulse and the read of the
/// status, in microseconds.
pub const WAKE_SETTLE: u64 = 5_000;

/// Where the sleep sequence stands: the action that it waits on.
#[derive(Clone, Copy, Debug, PartialEq, Eq)]
pub enum SleepStage {
    /// The port is being opened.
    Opening,
    /// The sleep request is being written.
    Writing,
    /// The port is being released.
    Closing,
}

/// The sequence that sends the device to sleep. Nothing is read back, and
/// whether the request could be written is not looked at.
#[derive(Debug)]
pub struct Sleep {
    stage: SleepStage,
}

impl View for Sleep {
    type V = SleepStage;

    closed spec fn view(&self) -> SleepStage {
        self.stage
    }
}

impl Sleep {
    /// What the sequence does in `stage` when told `event`.
    pub open spec fn next(stage: SleepStage, event: EventView) -> StepView<
        SleepStage,
        Result<(), Error>,
    > {
        match stage {
            SleepStage::Opening => match event {
                EventView::Completed => StepView::Perform(
                    SleepStage::Writing,
                    ActionView::Write(encoded(seq![SLEEP_REQUEST])),
                ),
                _ => StepView::Finish(Err(Error::PortFailure)),
            },
            SleepStage::Writing => StepView::Perform(SleepStage::Closing, ActionView::Close),
            SleepStage::Closing => StepView::Finish(Ok(())),
        }
    }

    /// The most actions that the sequence still asks for after the one that
    /// it waits on in `stage`.
    pub open spec fn steps_left(stage: SleepStage) -> nat {
        match stage {
            SleepStage::Opening => 2,
            SleepStage::Writing => 1,
            SleepStage::Closing => 0,
        }
    }

    /// How the sequence ends when it is told `events` one after the other
    /// from `stage` on; none where it does not end with the last of them.
    pub open spec fn ending(stage: SleepStage, events: Seq<EventView>) -> Option<Result<(), Error>>
        decreases events.len(),
    {
        if events.len() == 0 {
            None
        } else {
            match Sleep::next(stage, events[0]) {
                StepView::Perform(stage, _) => Sleep::ending(stage, events.drop_first()),
                StepView::Finish(result) => if events.len() == 1 {
                    Some(result)
                } else {
                    None
                },
            }
        }
    }

    /// Begins the sequence: the port is to be opened for commands.
    pub(crate) fn start() -> (begun: (Sleep, Action))
        ensures
            begun.0@ == SleepStage::Opening,
            begun.1@ == ActionView::Open(Profile::Command),
    {
        (Sleep { stage: SleepStage::Opening }, Action::Open(Profile::Command))
    }

    /// Takes the sequence one action further.
    pub fn step(self, event: Event) -> (step: Step<Sleep, Result<(), Error>>)
        ensures
            step_view(step) == Sleep::next(self@, event@),
    {
        match self.stage {
            SleepStage::Opening => match event {
                Event::Completed => Step::Perform(
                    Sleep { stage: SleepStage::Writing },
                    Action::Write(pulse(SLEEP_REQUEST)),
                ),
                _ => Step::Finish(Err(Error::PortFailure)),
            },
            SleepStage::Writing => Step::Perform(Sleep { stage: SleepStage::Closing }, Action::Close),
            SleepStage::Closing => Step::Finish(Ok(())),
        }
    }
}

/// Where the wake sequence stands: the action that it waits on.
#[derive(Clone, Copy, Debug, PartialEq, Eq)]
pub enum WakeStage {
    /// The port is being opened for the pulse.
    Opening,
    /// The wake request is being written.
    Pulsing,
    /// The device is given time to wake.
    Holding,
    /// The port is being released after the pulse.
    Releasing,
    /// The port is being opened for commands.
    Reopening,
    /// The transmit flag is being written.
    Flagging,
    /// The device is given time to answer.
    Settling,
    /// The status is being read.
    Reading,
    /// The command layer is reading the status.
    Classifying,
    /// The port is being released; the error, if the wake failed.
    Closing(Option<Error>),
}

/// The sequence that wakes the device and checks its answer: the device is
/// awake only where the command layer reads the status that it sent as a
/// response that reports no failure.
#[derive(Debug)]
pub struct Wake {
    stage: WakeStage,
}

impl View for Wake {
    type V = WakeStage;

    closed spec fn view(&self) -> WakeStage {
        self.stage
    }
}

impl Wake {
    /// The failure that a wake has come to when the command layer was asked
    /// for the status and `event` came back; none where the device is awake.
    /// The device is awake only where the status is read as a response that
    /// reports no failure. A fault that the status reports is the failure of
    /// the wake; a parse failure, a status that is no response, and an event
    /// that is no reading are a parse failure.
    pub open spec fn verdict(event: EventView) -> Option<Error> {
        match event {
            EventView::Classified(Reply::Data(_)) => None,
            EventView::Classified(Reply::DeviceError { code, recoverable }) => Some(
                Error::Device { code, recoverable },
            ),
            _ => Some(Error::ParseFailure),
        }
    }

    /// The samples that a read brought; none where it brought no bytes.
    pub open spec fn samples(event: EventView) -> Seq<u8> {
        match event {
            EventView::Received(bytes) => bytes,
            _ => Seq::<u8>::empty(),
        }
    }

    /// What the sequence does in `stage` when told `event`.
    pub open spec fn next(stage: WakeStage, event: EventView) -> StepView<
        WakeStage,
        Result<(), Error>,
    > {
        match stage {
            WakeStage::Opening => match event {
                EventView::Completed => StepView::Perform(
                    WakeStage::Pulsing,
                    ActionView::Write(seq![WAKE_REQUEST]),
                ),
                _ => StepView::Finish(Err(Error::PortFailure)),
            },
            WakeStage::Pulsing => StepView::Perform(WakeStage::Holding, ActionView::Wait(WAKE_DELAY)),
            WakeStage::Holding => StepView::Perform(WakeStage::Releasing, ActionView::Close),
            WakeStage::Releasing => StepView::Perform(
                WakeStage::Reopening,
                ActionView::Open(Profile::Command),
            ),
            WakeStage::Reopening => match event {
                EventView::Completed => StepView::Perform(
                    WakeStage::Flagging,
                    ActionView::Write(encoded(seq![TRANSMIT_FLAG])),
                ),
                _ => StepView::Finish(Err(Error::PortFailure)),
            },
            WakeStage::Flagging => match event {
                EventView::Written(_) => StepView::Perform(
                    WakeStage::Settling,
                    ActionView::Wait(WAKE_SETTLE),
                ),
                _ => StepView::Perform(
                    WakeStage::Closing(Some(Error::PortFailure)),
                    ActionView::Close,
                ),
            },
            WakeStage::Settling => StepView::Perform(
                WakeStage::Reading,
                ActionView::Read(WAKE_RESPONSE_SIZE),
            ),
            WakeStage::Reading => StepView::Perform(
                WakeStage::Classifying,
                ActionView::Classify(acknowledgment_of(Wake::samples(event))),
            ),
            WakeStage::Classifying => StepView::Perform(
                WakeStage::Closing(Wake::verdict(event)),
                ActionView::Close,
            ),
            WakeStage::Closing(None) => StepView::Finish(Ok(())),
            WakeStage::Closing(Some(error)) => StepView::Finish(Err(error)),
        }
    }

    /// The most actions that the sequence still asks for after the one that
    /// it waits on in `stage`.
    pub open spec fn steps_left(stage: WakeStage) -> nat {
        match stage {
            WakeStage::Opening => 9,
            WakeStage::Pulsing => 8,
            WakeStage::Holding => 7,
            WakeStage::Releasing => 6,
            WakeStage::Reopening => 5,
            WakeStage::Flagging => 4,
            WakeStage::Settling => 3,
            WakeStage::Reading => 2,
            WakeStage::Classifying => 1,
            WakeStage::Closing(_) => 0,
        }
    }

    /// How the sequence ends when it is told `events` one after the other
    /// from `stage` on; none where it does not end with the last of them.
    pub open spec fn ending(stage: WakeStage, events: Seq<EventView>) -> Option<Result<(), Error>>
        decreases events.len(),
    {
        if events.len() == 0 {
            None
        } else {
            match Wake::next(stage, events[0]) {
                StepView::Perform(stage, _) => Wake::ending(stage, events.drop_first()),
                StepView::Finish(result) => if events.len() == 1 {
                    Some(result)
                } else {
                    None
                },
            }
        }
    }

    /// Begins the sequence: the port is to be opened for the pulse.
    pub(crate) fn start() -> (begun: (Wake, Action))
        ensures
            begun.0@ == WakeStage::Opening,
            begun.1@ == ActionView::Open(Profile::Wake),
    {
        (Wake { stage: WakeStage::Opening }, Action::Open(Profile::Wake))
    }

    /// Takes the sequence one action further.
    pub fn step(self, event: Event) -> (step: Step<Wake, Result<(), Error>>)
        ensures
            step_view(step) == Wake::next(self@, event@),
    {
        match self.stage {
            WakeStage::Opening => match event {
                Event::Completed => Step::Perform(
                    Wake { stage: WakeStage::Pulsing },
                    Action::Write(single(WAKE_REQUEST)),
                ),
                _ => Step::Finish(Err(Error::PortFailure)),
            },
            WakeStage::Pulsing => Step::Perform(
                Wake { stage: WakeStage::Holding },
                Action::Wait(WAKE_DELAY),
            ),
            WakeStage::Holding => Step::Perform(Wake { stage: WakeStage::Releasing }, Action::Close),
            WakeStage::Releasing => Step::Perform(
                Wake { stage: WakeStage::Reopening },
                Action::Open(Profile::Command),
            ),
            WakeStage::Reopening => match event {
                Event::Completed => Step::Perform(
                    Wake { stage: WakeStage::Flagging },
                    Action::Write(pulse(TRANSMIT_FLAG)),
                ),
                _ => Step::Finish(Err(Error::PortFailure)),
            },
            WakeStage::Flagging => match event {
                Event::Written(_) => Step::Perform(
                    Wake { stage: WakeStage::Settling },
                    Action::Wait(WAKE_SETTLE),
                ),
                _ => Step::Perform(
                    Wake { stage: WakeStage::Closing(Some(Error::PortFailure)) },
                    Action::Close,
                ),
            },
            WakeStage::Settling => Step::Perform(
                Wake { stage: WakeStage::Reading },
                Action::Read(WAKE_RESPONSE_SIZE),
            ),
            WakeStage::Reading => {
                let samples = match event {
                    Event::Received(bytes) => bytes,
                    _ => buffer::with_capacity(0),
                };
                Step::Perform(
                    Wake { stage: WakeStage::Classifying },
                    Action::Classify(extract_acknowledgment(samples)),
                )
            },
            WakeStage::Classifying => {
                let verdict = match event {
                    Event::Classified(Reply::Data(_)) => None,
                    Event::Classified(Reply::DeviceError { code, recoverable }) => Some(
                        Error::Device { code, recoverable },
                    ),
                    _ => Some(Error::ParseFailure),
                };
                Step::Perform(Wake { stage: WakeStage::Closing(verdict) }, Action::Close)
            },
            WakeStage::Closing(None) => Step::Finish(Ok(())),
            WakeStage::Closing(Some(error)) => Step::Finish(Err(error)),
        }
    }
}

/// A sequence ends only where the port did not open or has been released,
/// and it asks for the port only at its beginning or when it has released it.
pub proof fn lemma_sequences_release_the_port(sleep: SleepStage, wake: WakeStage, event: EventView)
    ensures
        Sleep::next(sleep, event) is Finish ==> sleep is Closing || (sleep is Opening
            && !(event is Completed)),
        Wake::next(wake, event) is Finish ==> wake is Closing || ((wake is Opening
            || wake is Reopening) && !(event is Completed)),
        Sleep::next(sleep, event) matches StepView::Perform(_, action) ==> !(action is Open),
        Wake::next(wake, event) matches StepView::Perform(_, action) ==> (action is Open
            <==> wake is Releasing),
        Wake::next(wake, event) matches StepView::Perform(_, action) ==> (action is Open
            ==> action == ActionView::Open(Profile::Command)),
{
}

/// A sequence ends, whatever it is told: every step that does not end it
/// leaves fewer actions to ask for. A sleep takes three actions at most, a
/// wake ten.
pub proof fn lemma_sequences_end(sleep: SleepStage, wake: WakeStage, event: EventView)
    ensures
        Sleep::next(sleep, event) matches StepView::Perform(moved, _) ==> Sleep::steps_left(moved)
            < Sleep::steps_left(sleep),
        Wake::next(wake, event) matches StepView::Perform(moved, _) ==> Wake::steps_left(moved)
            < Wake::steps_left(wake),
        Sleep::steps_left(SleepStage::Opening) == 2,
        Wake::steps_left(WakeStage::Opening) == 9,
{
}

/// A sleep sequence whose port opens takes three actions and succeeds,
/// whatever the write and the release come to.
pub proof fn lemma_sleep_runs_through(events: Seq<EventView>)
    requires
        events.len() == 3,
        events[0] is Completed,
    ensures
        Sleep::ending(SleepStage::Opening, events) == Some(Ok::<(), Error>(())),
{
    reveal_with_fuel(Sleep::ending, 4);
    let e1 = events.drop_first();
    let e2 = e1.drop_first();
    assert(e2.len() == 1);
}

/// A wake succeeds on a status exactly where the command layer reads the
/// status as a response that reports no failure. A status that reports a
/// fault fails the wake with that fault, a status that reports a parse
/// failure and one that is no response fail it with a parse failure.
pub proof fn lemma_wake_verdict(reply: Reply)
    ensures
        Wake::verdict(EventView::Classified(reply)) is None <==> reply.class_spec() is None,
        reply matches Reply::DeviceError { code, recoverable } ==> Wake::verdict(
            EventView::Classified(reply),
        ) == Some(Error::Device { code, recoverable }),
        reply is ParseFailure || reply is Malformed ==> Wake::verdict(
            EventView::Classified(reply),
        ) == Some(Error::ParseFailure),
        forall|event: EventView| !(event is Classified) ==> Wake::verdict(event) == Some(
            Error::ParseFailure,
        ),
{
}

/// A wake whose port opens and whose flag is written takes ten actions. It
/// ends with the device awake where the status is read as a response that
/// reports no failure, and with the failure of [`Wake::verdict`] where not.
pub proof fn lemma_wake_runs_through(events: Seq<EventView>)
    requires
        events.len() == 10,
        events[0] is Completed,
        events[4] is Completed,
        events[5] is Written,
    ensures
        Wake::ending(WakeStage::Opening, events) == Some(
            match Wake::verdict(events[8]) {
                None => Ok::<(), Error>(()),
                Some(error) => Err::<(), Error>(error),
            },
        ),
        Wake::ending(WakeStage::Opening, events) == Some(Ok::<(), Error>(())) <==> (
        events[8] matches EventView::Classified(reply) && reply.class_spec() is None),
{
    reveal_with_fuel(Wake::ending, 11);
    let e1 = events.drop_first();
    let e2 = e1.drop_first();
    let e3 = e2.drop_first();
    let e4 = e3.drop_first();
    let e5 = e4.drop_first();
    let e6 = e5.drop_first();
    let e7 = e6.drop_first();
    let e8 = e7.drop_first();
    let e9 = e8.drop_first();
    assert(e4[0] == events[4] && e5[0] == events[5] && e8[0] == events[8]);
    assert(e9.len() == 1);
}

} // verus!
