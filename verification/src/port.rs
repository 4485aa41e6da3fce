//! What the transport asks of the serial port, and what it is told.
//!
//! The transport never touches the port. An operation hands out one
//! [`Action`] at a time; the host carries it out and answers with an
//! [`Event`].

use crate::buffer::held;
use crate::error::Reply;
use bytes::BytesMut;
use vstd::prelude::*;

verus! {

/// The electrical settings of the port for one phase of the protocol.
#[derive(Clone, Copy, Debug, PartialEq, Eq)]
pub enum Profile {
    /// For the wake pulse.
    Wake,
    /// For commands and responses.
    Command,
}

impl Profile {
    /// The baud rate of this profile.
    pub open spec fn baud_rate_spec(self) -> u32 {
        match self {
            Profile::Wake => 115_200,
            Profile::Command => 230_400,
        }
    }

    /// The number of data bits of this profile.
    pub open spec fn data_bits_spec(self) -> u8 {
        match self {
            Profile::Wake => 8,
            Profile::Command => 7,
        }
    }

    /// The baud rate of this profile. The wake profile is the slower one.
    pub fn baud_rate(&self) -> (baud: u32)
        ensures
            baud == self.baud_rate_spec(),
            Profile::Wake.baud_rate_spec() < Profile::Command.baud_rate_spec(),
    {
        match self {
            Profile::Wake => 115_200,
            Profile::Command => 230_400,
        }
    }

    /// The number of data bits of this profile: eight to wake, seven after.
    pub fn data_bits(&self) -> (bits: u8)
        ensures
            bits == self.data_bits_spec(),
    {
        match self {
            Profile::Wake => 8,
            Profile::Command => 7,
        }
    }

    /// The number of stop bits, which is one in both profiles.
    pub fn stop_bits(&self) -> (bits: u8)
        ensures
            bits == 1,
    {
        1
    }
}

/// The wake profile is the slower one and has eight data bits; the command
/// profile has seven.
pub proof fn lemma_profiles()
    ensures
        Profile::Wake.baud_rate_spec() < Profile::Command.baud_rate_spec(),
        Profile::Wake.data_bits_spec() == 8,
        Profile::Command.data_bits_spec() == 7,
{
}

/// One thing for the host to do.
#[derive(Debug, PartialEq, Eq)]
pub enum Action {
    /// Open the port with this profile.
    Open(Profile),
    /// Release the port.
    Close,
    /// Discard what the port has buffered, in both directions.
    Clear,
    /// Write these bytes.
    Write(BytesMut),
    /// Read this many bytes and discard them.
    Drain(usize),
    /// Read once, this many bytes at most.
    Read(usize),
    /// Suspend for this many microseconds.
    Wait(u64),
    /// Have the command layer say what this logical reply is.
    Classify(BytesMut),
}

/// How the last action went.
#[derive(Debug, PartialEq, Eq)]
pub enum Event {
    /// It was carried out.
    Completed,
    /// It could not be carried out.
    Failed,
    /// This many bytes were written.
    Written(usize),
    /// These bytes were read.
    Received(BytesMut),
    /// The command layer's reading of the reply.
    Classified(Reply),
}

/// An [`Action`] by the bytes it carries.
pub enum ActionView {
    Open(Profile),
    Close,
    Clear,
    Write(Seq<u8>),
    Drain(usize),
    Read(usize),
    Wait(u64),
    Classify(Seq<u8>),
}

/// An [`Event`] by the bytes it carries.
pub enum EventView {
    Completed,
    Failed,
    Written(usize),
    Received(Seq<u8>),
    Classified(Reply),
}

impl View for Action {
    type V = ActionView;

    open spec fn view(&self) -> ActionView {
        match *self {
            Action::Open(profile) => ActionView::Open(profile),
            Action::Close => ActionView::Close,
            Action::Clear => ActionView::Clear,
            Action::Write(bytes) => ActionView::Write(held(bytes)),
            Action::Drain(count) => ActionView::Drain(count),
            Action::Read(limit) => ActionView::Read(limit),
            Action::Wait(micros) => ActionView::Wait(micros),
            Action::Classify(bytes) => ActionView::Classify(held(bytes)),
        }
    }
}

impl View for Event {
    type V = EventView;

    open spec fn view(&self) -> EventView {
        match *self {
            Event::Completed => EventView::Completed,
            Event::Failed => EventView::Failed,
            Event::Written(count) => EventView::Written(count),
            Event::Received(bytes) => EventView::Received(held(bytes)),
            Event::Classified(reply) => EventView::Classified(reply),
        }
    }
}

/// What a step of an operation yields: the operation as it goes on, with the
/// next action, or the result that ends it.
#[derive(Debug)]
pub enum Step<M, T> {
    /// The operation goes on: carry out the action and report the event.
    Perform(M, Action),
    /// The operation is over.
    Finish(T),
}

/// A [`Step`] by the views of its parts.
pub enum StepView<M, T> {
    Perform(M, ActionView),
    Finish(T),
}

/// The view of a step whose result holds no buffer.
pub open spec fn step_view<M: View, T>(step: Step<M, T>) -> StepView<M::V, T> {
    match step {
        Step::Perform(machine, action) => StepView::Perform(machine@, action@),
        Step::Finish(result) => StepView::Finish(result),
    }
}

} // verus!
