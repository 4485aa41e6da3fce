//! The device, and the operations that begin on it.

use crate::buffer::held;
use crate::digest::sha256;
use crate::digest::DIGEST_SIZE;
use crate::digest::sha256_digest;
use crate::engine::Command;
use crate::engine::Plan;
use crate::engine::PlanView;
use crate::error::Error;
use crate::exchange::Exchange;
use crate::exchange::ExchangeStage;
use crate::exchange::ExchangeView;
use crate::frame::can_send;
use crate::frame::sendable;
use crate::port::step_view;
use crate::port::Action;
use crate::port::ActionView;
use crate::port::Profile;
use crate::port::Step;
use crate::retry::RetryPolicy;
use crate::retry::CMD_RETRIES;
use crate::sequencer::Sleep;
use crate::sequencer::SleepStage;
use crate::sequencer::Wake;
use crate::sequencer::WakeStage;
use crate::sign::SignStep;
use crate::sign::Signing;
use crate::sign::SigningView;
use bytes::Bytes;
use bytes::BytesMut;
use vstd::prelude::*;

verus! {

/// A secure element behind a serial device.
///
/// It holds the path of the device and nothing else: the port is opened anew
/// for every phase of an operation, and no state outlives an operation.
#[derive(Debug)]
pub struct Ecc {
    port: String,
}

impl Ecc {
    /// The path of the serial device.
    pub closed spec fn path(&self) -> Seq<char> {
        self.port@
    }

    /// The device behind the serial device at `path`. The bus address is not
    /// looked at: the single-wire interface has none.
    pub fn from_path(path: &str, address: u16) -> (ecc: Result<Ecc, Error>)
        ensures
            ecc is Ok,
            ecc->Ok_0.path() == path@,
    {
        Ok(Ecc { port: path.to_owned() })
    }

    /// The path of the serial device.
    pub fn port(&self) -> (path: &str)
        ensures
            path@ == self.path(),
    {
        self.port.as_str()
    }

    /// Begins the sequence that wakes the device.
    pub fn send_wake(&self) -> (begun: (Wake, Action))
        ensures
            begun.0@ == WakeStage::Opening,
            begun.1@ == ActionView::Open(Profile::Wake),
    {
        Wake::start()
    }

    /// Begins the sequence that sends the device to sleep.
    pub fn send_sleep(&self) -> (begun: (Sleep, Action))
        ensures
            begun.0@ == SleepStage::Opening,
            begun.1@ == ActionView::Open(Profile::Command),
    {
        Sleep::start()
    }

    /// Begins one exchange of the frame in `buf` for a reply, the device
    /// being given `delay` microseconds to work. There is no exchange where
    /// the frame cannot be sent.
    pub fn send_recv_buf(&self, delay: u64, buf: BytesMut) -> (begun: Option<(Exchange, Action)>)
        ensures
            begun is Some <==> sendable(held(buf).len()),
            begun matches Some(pair) ==> pair.0@ == (ExchangeView {
                frame: held(buf),
                delay,
                polls: RetryPolicy::receive_spec(),
                stage: ExchangeStage::Opening,
                reply: Seq::<u8>::empty(),
            }) && pair.1@ == ActionView::Open(Profile::Command),
    {
        if can_send(&buf) {
            Some(Exchange::start(buf, delay))
        } else {
            None
        }
    }

    /// Begins a command with the usual number of tries, after which the
    /// device is sent to sleep. There is no command where the frame cannot be
    /// sent.
    pub fn send_command(&self, frame: BytesMut, delay: u64) -> (begun: Option<
        Step<Command, Result<Bytes, Error>>,
    >)
        ensures
            begun is Some <==> sendable(held(frame).len()),
            begun matches Some(step) ==> step_view(step) == PlanView::fresh(
                held(frame),
                delay,
                true,
                CMD_RETRIES,
            ).begin(),
    {
        self.send_command_retries(frame, delay, true, CMD_RETRIES)
    }

    /// Begins a command that is tried `retries` times at most, the device
    /// being given `delay` microseconds to work on it; with `sleep` the
    /// device is sent to sleep once a reply has come. There is no command
    /// where the frame cannot be sent.
    pub fn send_command_retries(
        &self,
        frame: BytesMut,
        delay: u64,
        sleep: bool,
        retries: u8,
    ) -> (begun: Option<Step<Command, Result<Bytes, Error>>>)
        ensures
            begun is Some <==> sendable(held(frame).len()),
            begun matches Some(step) ==> step_view(step) == PlanView::fresh(
                held(frame),
                delay,
                sleep,
                retries,
            ).begin(),
    {
        if can_send(&frame) {
            Some(Plan::start(frame, delay, sleep, retries))
        } else {
            None
        }
    }

    /// Begins a signature over `data` with the key in `key_slot`: the digest
    /// of `data` is taken, thirty-two bytes, and the signature is made over
    /// it.
    pub fn sign(&self, key_slot: u8, data: &[u8]) -> (step: SignStep)
        ensures
            step@ == SigningView::fresh(key_slot, sha256(data@)).begin(),
            sha256(data@).len() == DIGEST_SIZE,
    {
        self.sign_digest(key_slot, sha256_digest(data))
    }

    /// Begins a signature over the message with the digest `digest`, with the
    /// key in `key_slot`.
    pub fn sign_digest(&self, key_slot: u8, digest: Vec<u8>) -> (step: SignStep)
        ensures
            step@ == SigningView::fresh(key_slot, digest@).begin(),
    {
        Signing::start(key_slot, digest)
    }
}

} // verus!
