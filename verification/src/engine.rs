//! The command retry engine: wake the device, exchange the frame, have the
//! reply read, and try again where that may help.
//!
//! One attempt is a wake, an exchange and the command layer's reading of the
//! reply. A wake or an exchange that fails, and a reply that reports a
//! failure that may clear, are followed by a wait and, while the policy
//! allows, another attempt; when the attempts are used up the command times
//! out. A reply that reports a fault that will not clear ends the command at
//! once, and so does a port that fails.

use crate::buffer;
use crate::buffer::held;
use crate::error::Error;
use crate::error::ErrorClass;
use crate::error::Reply;
use crate::exchange::lemma_exchange_ends;
use crate::exchange::lemma_polls_are_bounded;
use crate::exchange::Exchange;
use crate::exchange::ExchangeStage;
use crate::exchange::ExchangeView;
use crate::frame::sendable;
use crate::port::step_view;
use crate::port::Action;
use crate::port::ActionView;
use crate::port::Event;
use crate::port::EventView;
use crate::port::Profile;
use crate::port::Step;
use crate::port::StepView;
use crate::retry::RetryPolicy;
use crate::sequencer::Sleep;
use crate::sequencer::SleepStage;
use crate::sequencer::Wake;
use crate::sequencer::WakeStage;
use bytes::Bytes;
use bytes::BytesMut;
use vstd::prelude::*;

verus! {

/// Where a command stands within its attempt.
#[derive(Debug)]
pub enum CommandStage {
    /// The device is being woken.
    Waking(Wake),
    /// The frame is being exchanged for a reply.
    Exchanging(Exchange),
    /// The command layer is reading the reply.
    Classifying,
    /// The device is being sent to sleep; the reply waits to be judged.
    Sleeping(Sleep, Reply),
    /// The wait after a failed attempt runs; whether the pass is given up
    /// after it.
    BackingOff(bool),
}

/// A [`CommandStage`] by the views of its parts.
pub enum CommandStageView {
    Waking(WakeStage),
    Exchanging(ExchangeView),
    Classifying,
    Sleeping(SleepStage, Reply),
    BackingOff(bool),
}

impl View for CommandStage {
    type V = CommandStageView;

    open spec fn view(&self) -> CommandStageView {
        match *self {
            CommandStage::Waking(wake) => CommandStageView::Waking(wake@),
            CommandStage::Exchanging(exchange) => CommandStageView::Exchanging(exchange@),
            CommandStage::Classifying => CommandStageView::Classifying,
            CommandStage::Sleeping(sleep, reply) => CommandStageView::Sleeping(sleep@, reply),
            CommandStage::BackingOff(abort) => CommandStageView::BackingOff(abort),
        }
    }
}

/// What a command is to do, and how far it has come: all of it but the stage
/// of the attempt that runs.
#[derive(Debug)]
pub struct Plan {
    frame: BytesMut,
    delay: u64,
    sleep: bool,
    policy: RetryPolicy,
    attempt: u8,
}

/// A [`Plan`] by the bytes it holds.
pub struct PlanView {
    /// The logical frame of the command.
    pub frame: Seq<u8>,
    /// The time the device is given to work on it, in microseconds.
    pub delay: u64,
    /// Whether the device is sent to sleep once a reply has come.
    pub sleep: bool,
    /// The bound on attempts, and the wait after a failed one.
    pub policy: RetryPolicy,
    /// The number of the attempt that runs, the first being number 0.
    pub attempt: u8,
}

impl View for Plan {
    type V = PlanView;

    closed spec fn view(&self) -> PlanView {
        PlanView {
            frame: held(self.frame),
            delay: self.delay,
            sleep: self.sleep,
            policy: self.policy,
            attempt: self.attempt,
        }
    }
}

/// One command on its way through the attempts that its policy allows.
#[derive(Debug)]
pub struct Command {
    plan: Plan,
    stage: CommandStage,
}

/// A [`Command`] by the views of its parts.
pub struct CommandView {
    /// What the command is to do, and the number of the attempt that runs.
    pub plan: PlanView,
    /// Where that attempt stands.
    pub stage: CommandStageView,
}

impl View for Command {
    type V = CommandView;

    closed spec fn view(&self) -> CommandView {
        CommandView { plan: self.plan@, stage: self.stage@ }
    }
}

/// What a step of a command yields.
pub type CommandStep = StepView<CommandView, Result<Bytes, Error>>;

/// What the command layer made of the reply; an event that is no reading
/// counts as a malformed reply.
pub open spec fn reading(event: EventView) -> Reply {
    match event {
        EventView::Classified(reply) => reply,
        _ => Reply::Malformed,
    }
}

impl PlanView {
    /// The plan of a command as it begins.
    pub open spec fn fresh(frame: Seq<u8>, delay: u64, sleep: bool, retries: u8) -> PlanView {
        PlanView { frame, delay, sleep, policy: RetryPolicy::command_spec(retries), attempt: 0 }
    }

    /// The command with this plan at `stage`.
    pub open spec fn at(self, stage: CommandStageView) -> CommandView {
        CommandView { plan: self, stage }
    }

    /// The exchange of this plan's frame, as it begins.
    pub open spec fn exchange(self) -> ExchangeView {
        ExchangeView {
            frame: self.frame,
            delay: self.delay,
            polls: RetryPolicy::receive_spec(),
            stage: ExchangeStage::Opening,
            reply: Seq::<u8>::empty(),
        }
    }

    /// An attempt begins by waking the device.
    pub open spec fn attempt_begins(self) -> CommandStep {
        StepView::Perform(
            self.at(CommandStageView::Waking(WakeStage::Opening)),
            ActionView::Open(Profile::Wake),
        )
    }

    /// The command begins: with no attempt allowed it times out at once, else
    /// the first attempt begins.
    pub open spec fn begin(self) -> CommandStep {
        if self.policy.max_attempts == 0 {
            StepView::Finish(Err(Error::Timeout))
        } else {
            self.attempt_begins()
        }
    }

    /// The device is awake: the exchange begins.
    pub open spec fn woken(self) -> CommandStep {
        StepView::Perform(
            self.at(CommandStageView::Exchanging(self.exchange())),
            ActionView::Open(Profile::Command),
        )
    }

    /// The wait after a failed attempt begins. With `abort` the pass is given
    /// up after it.
    pub open spec fn back_off(self, abort: bool) -> CommandStep {
        StepView::Perform(
            self.at(CommandStageView::BackingOff(abort)),
            ActionView::Wait(self.policy.delay),
        )
    }

    /// The wake or the exchange failed with `error`, so that no reply came to
    /// be judged. A port that fails ends the command. Any other failure, a
    /// fault that the wake status reports among them, is followed by the wait
    /// and, while the policy allows, by another attempt: the whole cycle
    /// begins again with the wake.
    pub open spec fn failed(self, error: Error) -> CommandStep {
        if error == Error::PortFailure {
            StepView::Finish(Err(Error::PortFailure))
        } else {
            self.back_off(false)
        }
    }

    /// The reply is judged by its class. A payload ends the command with
    /// success, and a fault that will not clear ends it with that fault. A
    /// parse failure is followed by the wait and gives the pass up. A fault
    /// that may clear, and a reply that is no response, are followed by the
    /// wait.
    pub open spec fn judged(self, reply: Reply) -> CommandStep {
        match reply.class_spec() {
            None => StepView::Finish(Ok(reply->Data_0)),
            Some(ErrorClass::Fatal) => StepView::Finish(
                Err(Error::Device { code: reply->code, recoverable: false }),
            ),
            Some(ErrorClass::ParseFailure) => self.back_off(true),
            Some(ErrorClass::Recoverable) => self.back_off(false),
            Some(ErrorClass::Timeout) => self.back_off(false),
        }
    }

    /// The command layer has read the reply: the device is sent to sleep
    /// first where that was asked for, and the reply is judged.
    pub open spec fn classified(self, reply: Reply) -> CommandStep {
        if self.sleep {
            StepView::Perform(
                self.at(CommandStageView::Sleeping(SleepStage::Opening, reply)),
                ActionView::Open(Profile::Command),
            )
        } else {
            self.judged(reply)
        }
    }

    /// The wait after a failed attempt is over: the next attempt begins,
    /// unless the pass is given up or the policy allows no more.
    pub open spec fn resumed(self, abort: bool) -> CommandStep {
        if abort || !self.policy.allows_after_spec(self.attempt) {
            StepView::Finish(Err(Error::Timeout))
        } else {
            (PlanView { attempt: (self.attempt + 1) as u8, ..self }).attempt_begins()
        }
    }
}

impl CommandView {
    /// What the command does when told `event`.
    pub open spec fn next(self, event: EventView) -> CommandStep {
        match self.stage {
            CommandStageView::Waking(wake) => match Wake::next(wake, event) {
                StepView::Perform(wake, action) => StepView::Perform(
                    self.plan.at(CommandStageView::Waking(wake)),
                    action,
                ),
                StepView::Finish(Ok(_)) => self.plan.woken(),
                StepView::Finish(Err(error)) => self.plan.failed(error),
            },
            CommandStageView::Exchanging(exchange) => match exchange.next(event) {
                StepView::Perform(exchange, action) => StepView::Perform(
                    self.plan.at(CommandStageView::Exchanging(exchange)),
                    action,
                ),
                StepView::Finish(Ok(reply)) => StepView::Perform(
                    self.plan.at(CommandStageView::Classifying),
                    ActionView::Classify(reply),
                ),
                StepView::Finish(Err(error)) => self.plan.failed(error),
            },
            CommandStageView::Classifying => self.plan.classified(reading(event)),
            CommandStageView::Sleeping(sleep, reply) => match Sleep::next(sleep, event) {
                StepView::Perform(sleep, action) => StepView::Perform(
                    self.plan.at(CommandStageView::Sleeping(sleep, reply)),
                    action,
                ),
                StepView::Finish(Ok(_)) => self.plan.judged(reply),
                StepView::Finish(Err(error)) => StepView::Finish(Err(error)),
            },
            CommandStageView::BackingOff(abort) => self.plan.resumed(abort),
        }
    }
}

impl Plan {
    /// What holds of every plan: its frame can be sent, and the attempt that
    /// runs is one that the policy allows.
    #[verifier::type_invariant]
    spec fn sound(self) -> bool {
        sendable(held(self.frame).len()) && self.attempt < self.policy.max_attempts
    }

    /// Begins the command `frame`, after which the device is given `delay`
    /// microseconds to work. The command is tried `retries` times at most;
    /// with `sleep` the device is sent to sleep once a reply has come.
    pub(crate) fn start(frame: BytesMut, delay: u64, sleep: bool, retries: u8) -> (step: Step<
        Command,
        Result<Bytes, Error>,
    >)
        requires
            sendable(held(frame).len()),
        ensures
            step_view(step) == PlanView::fresh(held(frame), delay, sleep, retries).begin(),
    {
        if retries == 0 {
            return Step::Finish(Err(Error::Timeout));
        }
        let plan = Plan { frame, delay, sleep, policy: RetryPolicy::command(retries), attempt: 0 };
        plan.attempt_begins()
    }

    fn attempt_begins(self) -> (step: Step<Command, Result<Bytes, Error>>)
        ensures
            step_view(step) == self@.attempt_begins(),
    {
        let (wake, action) = Wake::start();
        Step::Perform(Command { plan: self, stage: CommandStage::Waking(wake) }, action)
    }

    fn woken(self) -> (step: Step<Command, Result<Bytes, Error>>)
        ensures
            step_view(step) == self@.woken(),
    {
        proof {
            use_type_invariant(&self);
        }
        let (exchange, action) = Exchange::start(buffer::duplicate(&self.frame), self.delay);
        Step::Perform(Command { plan: self, stage: CommandStage::Exchanging(exchange) }, action)
    }

    fn back_off(self, abort: bool) -> (step: Step<Command, Result<Bytes, Error>>)
        ensures
            step_view(step) == self@.back_off(abort),
    {
        let wait: u64 = self.policy.delay;
        Step::Perform(Command { plan: self, stage: CommandStage::BackingOff(abort) }, Action::Wait(wait))
    }

    fn failed(self, error: Error) -> (step: Step<Command, Result<Bytes, Error>>)
        ensures
            step_view(step) == self@.failed(error),
    {
        match error {
            Error::PortFailure => Step::Finish(Err(Error::PortFailure)),
            _ => self.back_off(false),
        }
    }

    fn judged(self, reply: Reply) -> (step: Step<Command, Result<Bytes, Error>>)
        ensures
            step_view(step) == self@.judged(reply),
    {
        match reply {
            Reply::Data(payload) => Step::Finish(Ok(payload)),
            Reply::DeviceError { code, recoverable } => if recoverable {
                self.back_off(false)
            } else {
                Step::Finish(Err(Error::Device { code, recoverable: false }))
            },
            Reply::ParseFailure => self.back_off(true),
            Reply::Malformed => self.back_off(false),
        }
    }

    fn classified(self, reply: Reply) -> (step: Step<Command, Result<Bytes, Error>>)
        ensures
            step_view(step) == self@.classified(reply),
    {
        if self.sleep {
            let (sleep, action) = Sleep::start();
            Step::Perform(Command { plan: self, stage: CommandStage::Sleeping(sleep, reply) }, action)
        } else {
            self.judged(reply)
        }
    }

    fn resumed(self, abort: bool) -> (step: Step<Command, Result<Bytes, Error>>)
        ensures
            step_view(step) == self@.resumed(abort),
    {
        proof {
            use_type_invariant(&self);
        }
        if abort || !self.policy.allows_after(self.attempt) {
            Step::Finish(Err(Error::Timeout))
        } else {
            let plan = Plan { attempt: self.attempt + 1, ..self };
            plan.attempt_begins()
        }
    }
}

impl Command {
    /// Takes the command one action further.
    pub fn step(self, event: Event) -> (step: Step<Command, Result<Bytes, Error>>)
        ensures
            step_view(step) == self@.next(event@),
    {
        let Command { plan, stage } = self;
        match stage {
            CommandStage::Waking(wake) => match wake.step(event) {
                Step::Perform(wake, action) => Step::Perform(
                    Command { plan, stage: CommandStage::Waking(wake) },
                    action,
                ),
                Step::Finish(Ok(_)) => plan.woken(),
                Step::Finish(Err(error)) => plan.failed(error),
            },
            CommandStage::Exchanging(exchange) => match exchange.step(event) {
                Step::Perform(exchange, action) => Step::Perform(
                    Command { plan, stage: CommandStage::Exchanging(exchange) },
                    action,
                ),
                Step::Finish(Ok(reply)) => Step::Perform(
                    Command { plan, stage: CommandStage::Classifying },
                    Action::Classify(reply),
                ),
                Step::Finish(Err(error)) => plan.failed(error),
            },
            CommandStage::Classifying => {
                let reply = match event {
                    Event::Classified(reply) => reply,
                    _ => Reply::Malformed,
                };
                plan.classified(reply)
            },
            CommandStage::Sleeping(sleep, reply) => match sleep.step(event) {
                Step::Perform(sleep, action) => Step::Perform(
                    Command { plan, stage: CommandStage::Sleeping(sleep, reply) },
                    action,
                ),
                Step::Finish(Ok(_)) => plan.judged(reply),
                Step::Finish(Err(error)) => Step::Finish(Err(error)),
            },
            CommandStage::BackingOff(abort) => plan.resumed(abort),
        }
    }
}

impl CommandView {
    /// What the command has come to when it was told `events` one after the
    /// other: the step that the last of them yields, or the result that ended
    /// the command before.
    pub open spec fn after(self, events: Seq<EventView>) -> CommandStep
        recommends
            events.len() > 0,
        decreases events.len(),
    {
        if events.len() <= 1 {
            self.next(events[0])
        } else {
            match self.next(events[0]) {
                StepView::Perform(command, _) => command.after(events.drop_first()),
                StepView::Finish(result) => StepView::Finish(result),
            }
        }
    }
}

/// A fault that will not clear ends the command with that fault as soon as
/// the reply is judged, whatever the number of the attempt and however many
/// the policy would still allow.
pub proof fn lemma_fatal_fault_surfaces(plan: PlanView, code: u8)
    ensures
        plan.judged(Reply::DeviceError { code, recoverable: false }) == StepView::<
            CommandView,
            Result<Bytes, Error>,
        >::Finish(Err(Error::Device { code, recoverable: false })),
{
}

/// A fault that may clear is followed by the wait of the policy. After the
/// wait the next attempt begins where the policy allows one; where it allows
/// none, and only there, the command times out.
pub proof fn lemma_recoverable_fault_retries(plan: PlanView, code: u8, event: EventView)
    ensures
        plan.judged(Reply::DeviceError { code, recoverable: true }) == plan.back_off(false),
        plan.at(CommandStageView::BackingOff(false)).next(event) == plan.resumed(false),
        plan.policy.allows_after_spec(plan.attempt) ==> plan.resumed(false) == (PlanView {
            attempt: (plan.attempt + 1) as u8,
            ..plan
        }).attempt_begins(),
        !plan.policy.allows_after_spec(plan.attempt) ==> plan.resumed(false) == StepView::<
            CommandView,
            Result<Bytes, Error>,
        >::Finish(Err(Error::Timeout)),
{
}

/// A parse failure is followed by the wait of the policy, and then the
/// command times out: the attempts that the policy would still allow are not
/// made.
pub proof fn lemma_parse_failure_gives_up(plan: PlanView, event: EventView)
    ensures
        plan.judged(Reply::ParseFailure) == plan.back_off(true),
        plan.at(CommandStageView::BackingOff(true)).next(event) == StepView::<
            CommandView,
            Result<Bytes, Error>,
        >::Finish(Err(Error::Timeout)),
{
}

impl CommandView {
    /// Whether the command is one that can come about: the attempt that runs
    /// is one that the policy allows, and the exchange that runs, if one
    /// does, polls within the bound for polls.
    pub open spec fn sound(self) -> bool {
        &&& self.plan.attempt < self.plan.policy.max_attempts
        &&& self.stage matches CommandStageView::Exchanging(exchange) ==> exchange.polls
            == RetryPolicy::receive_spec() && exchange.within_bound()
    }

    /// The most actions that the attempt that runs still asks for after the
    /// one that the command waits on.
    pub open spec fn attempt_left(self) -> int {
        match self.stage {
            CommandStageView::Waking(wake) => Wake::steps_left(wake) as int + 21,
            CommandStageView::Exchanging(exchange) => exchange.steps_left() + 5,
            CommandStageView::Classifying => 4,
            CommandStageView::Sleeping(sleep, _) => Sleep::steps_left(sleep) as int + 1,
            CommandStageView::BackingOff(_) => 0,
        }
    }

    /// The most actions that the command still asks for after the one that
    /// it waits on: thirty-one for every attempt that the policy still
    /// allows, and those of the attempt that runs.
    pub open spec fn steps_left(self) -> int {
        31 * (self.plan.policy.max_attempts - self.plan.attempt - 1) + self.attempt_left()
    }
}

/// A command ends, whatever it is told: every step that does not end it
/// leaves fewer actions to ask for, so that a command tried `n` times asks
/// for `31 * n` actions at most.
pub proof fn lemma_command_ends(command: CommandView, event: EventView)
    requires
        command.sound(),
    ensures
        command.steps_left() >= 0,
        command.next(event) matches StepView::Perform(moved, _) ==> moved.sound() && 0
            <= moved.steps_left() < command.steps_left(),
{
    match command.stage {
        CommandStageView::Exchanging(exchange) => {
            lemma_exchange_ends(exchange, event);
            lemma_polls_are_bounded(exchange, event);
        },
        _ => {},
    }
}

/// A command that begins is one that can come about, and has at most
/// `31 * retries` actions before it, the first among them.
pub proof fn lemma_command_begins_sound(frame: Seq<u8>, delay: u64, sleep: bool, retries: u8)
    ensures
        PlanView::fresh(frame, delay, sleep, retries).begin() matches StepView::Perform(
            command,
            _,
        ) ==> command.sound() && command.steps_left() == 31 * retries - 1,
{
}

/// A step never touches what the command was given: the frame, the time for
/// the device, the sleep after the reply and the policy stay as they are.
/// The number of the attempt never falls, grows by one at most, and stays
/// below the bound of the policy.
pub proof fn lemma_budget_is_kept(command: CommandView, event: EventView)
    requires
        command.plan.attempt < command.plan.policy.max_attempts,
    ensures
        command.next(event) matches StepView::Perform(moved, _) ==> {
            &&& moved.plan.frame == command.plan.frame
            &&& moved.plan.delay == command.plan.delay
            &&& moved.plan.sleep == command.plan.sleep
            &&& moved.plan.policy == command.plan.policy
            &&& command.plan.attempt <= moved.plan.attempt <= command.plan.attempt + 1
            &&& moved.plan.attempt < moved.plan.policy.max_attempts
            &&& moved.plan.attempt != command.plan.attempt ==> command.stage
                == CommandStageView::BackingOff(false)
        },
{
}

/// A command asks for the port at the wake profile only to begin an attempt:
/// the first, when the command begins, and each later one when the wait after
/// a failed attempt is over.
pub proof fn lemma_wake_profile_begins_attempt(command: CommandView, event: EventView)
    requires
        command.next(event) matches StepView::Perform(_, action) && action == ActionView::Open(
            Profile::Wake,
        ),
    ensures
        command.stage == CommandStageView::BackingOff(false),
        command.next(event) == (PlanView {
            attempt: (command.plan.attempt + 1) as u8,
            ..command.plan
        }).attempt_begins(),
{
}

/// A command ends only where no port is held: the sequence or the exchange
/// that ran has released it, or it did not open.
pub proof fn lemma_command_releases_the_port(command: CommandView, event: EventView)
    requires
        command.next(event) is Finish,
    ensures
        match command.stage {
            CommandStageView::Waking(wake) => wake is Closing || ((wake is Opening
                || wake is Reopening) && !(event is Completed)),
            CommandStageView::Exchanging(exchange) => exchange.stage is Closing || (
            exchange.stage is Opening && !(event is Completed)),
            CommandStageView::Sleeping(sleep, _) => sleep is Closing || (sleep is Opening && !(
            event is Completed)),
            CommandStageView::Classifying => true,
            CommandStageView::BackingOff(_) => true,
        },
{
}

/// The events of one attempt that comes to a reply, up to the point where the
/// reply is judged.
pub struct Attempt {
    /// What the wake is told.
    pub wake: Seq<EventView>,
    /// What the exchange is told.
    pub exchange: Seq<EventView>,
    /// What comes back when the command layer is asked to read the reply.
    pub reading: EventView,
    /// What the sleep sequence is told; nothing where the command asks for
    /// no sleep.
    pub sleep: Seq<EventView>,
    /// What comes back from the wait that follows the attempt.
    pub wait: EventView,
}

impl Attempt {
    /// The events of the attempt in their order, up to the point where the
    /// reply is judged.
    pub open spec fn events(self) -> Seq<EventView> {
        self.wake + self.exchange + seq![self.reading] + self.sleep
    }

    /// The events of the attempt and of the wait after it.
    pub open spec fn round(self) -> Seq<EventView> {
        self.events() + seq![self.wait]
    }

    /// Whether the attempt comes to a reply that the command layer reads as
    /// `reply`: the device wakes, the exchange brings a reply, and the device
    /// is sent to sleep where the plan asks for it.
    pub open spec fn brings(self, plan: PlanView, reply: Reply) -> bool {
        &&& Wake::ending(WakeStage::Opening, self.wake) == Some(Ok::<(), Error>(()))
        &&& plan.exchange().ending(self.exchange) matches Some(Ok(_))
        &&& reading(self.reading) == reply
        &&& if plan.sleep {
            Sleep::ending(SleepStage::Opening, self.sleep) == Some(Ok::<(), Error>(()))
        } else {
            self.sleep.len() == 0
        }
    }

    /// Whether the attempt comes to a failure that may clear: a fault of that
    /// kind, or a reply that is no response.
    pub open spec fn fails_recoverably(self, plan: PlanView) -> bool {
        &&& reading(self.reading).class_spec() matches Some(class) && (class
            == ErrorClass::Recoverable || class == ErrorClass::Timeout)
        &&& self.brings(plan, reading(self.reading))
    }
}

/// The events of `attempts`, each with its wait, one after the other.
pub open spec fn rounds(attempts: Seq<Attempt>) -> Seq<EventView>
    decreases attempts.len(),
{
    if attempts.len() == 0 {
        Seq::<EventView>::empty()
    } else {
        attempts[0].round() + rounds(attempts.drop_first())
    }
}

/// Telling a command two runs of events one after the other is telling it
/// the first run, and then telling what it has become the second.
pub proof fn lemma_after_concat(
    command: CommandView,
    first: Seq<EventView>,
    rest: Seq<EventView>,
)
    requires
        first.len() > 0,
        rest.len() > 0,
        command.after(first) is Perform,
    ensures
        command.after(first + rest) == command.after(first)->Perform_0.after(rest),
    decreases first.len(),
{
    let all = first + rest;
    assert(all[0] == first[0]);
    if first.len() == 1 {
        assert(all.drop_first() =~= rest);
    } else {
        assert(all.drop_first() =~= first.drop_first() + rest);
        match command.next(first[0]) {
            StepView::Perform(moved, _) => {
                lemma_after_concat(moved, first.drop_first(), rest);
            },
            StepView::Finish(_) => {},
        }
    }
}

/// While the device is being woken the command does what the wake sequence
/// does. When the sequence ends, the exchange begins where the device is
/// awake; where it is not, a port that failed ends the command and any other
/// failure is followed by the wait.
pub proof fn lemma_wake_within(plan: PlanView, wake: WakeStage, events: Seq<EventView>)
    requires
        Wake::ending(wake, events) is Some,
    ensures
        plan.at(CommandStageView::Waking(wake)).after(events) == (match Wake::ending(
            wake,
            events,
        )->Some_0 {
            Ok(_) => plan.woken(),
            Err(error) => plan.failed(error),
        }),
    decreases events.len(),
{
    match Wake::next(wake, events[0]) {
        StepView::Perform(moved, _) => {
            lemma_wake_within(plan, moved, events.drop_first());
        },
        StepView::Finish(_) => {},
    }
}

/// While the frame is being exchanged the command does what the exchange
/// does. When the exchange ends, its reply goes to the command layer; where
/// it brought none, a port that failed ends the command and any other failure
/// is followed by the wait.
pub proof fn lemma_exchange_within(plan: PlanView, exchange: ExchangeView, events: Seq<EventView>)
    requires
        exchange.ending(events) is Some,
    ensures
        plan.at(CommandStageView::Exchanging(exchange)).after(events) == (match exchange.ending(
            events,
        )->Some_0 {
            Ok(reply) => StepView::Perform(
                plan.at(CommandStageView::Classifying),
                ActionView::Classify(reply),
            ),
            Err(error) => plan.failed(error),
        }),
    decreases events.len(),
{
    match exchange.next(events[0]) {
        StepView::Perform(moved, _) => {
            lemma_exchange_within(plan, moved, events.drop_first());
        },
        StepView::Finish(_) => {},
    }
}

/// While the device is being sent to sleep the command does what the sleep
/// sequence does. When the sequence ends, the reply that waited is judged;
/// where the port did not open, the command ends with that failure.
pub proof fn lemma_sleep_within(
    plan: PlanView,
    sleep: SleepStage,
    reply: Reply,
    events: Seq<EventView>,
)
    requires
        Sleep::ending(sleep, events) is Some,
    ensures
        plan.at(CommandStageView::Sleeping(sleep, reply)).after(events) == (match Sleep::ending(
            sleep,
            events,
        )->Some_0 {
            Ok(_) => plan.judged(reply),
            Err(error) => StepView::Finish(Err(error)),
        }),
    decreases events.len(),
{
    match Sleep::next(sleep, events[0]) {
        StepView::Perform(moved, _) => {
            lemma_sleep_within(plan, moved, reply, events.drop_first());
        },
        StepView::Finish(_) => {},
    }
}

/// A wake that fails is tried again, whatever its failure but a port that
/// failed: the wait of the policy follows, and after it the next attempt
/// where the policy allows one, a timeout where it allows none. A status that
/// reports a fault, one that reports a parse failure and one that is no
/// response all fail the wake in this way.
pub proof fn lemma_failed_wake_is_tried_again(
    plan: PlanView,
    events: Seq<EventView>,
    error: Error,
    wait: EventView,
)
    requires
        Wake::ending(WakeStage::Opening, events) == Some(Err::<(), Error>(error)),
        error != Error::PortFailure,
    ensures
        plan.at(CommandStageView::Waking(WakeStage::Opening)).after(events) == plan.back_off(
            false,
        ),
        plan.at(CommandStageView::BackingOff(false)).next(wait) == plan.resumed(false),
{
    lemma_wake_within(plan, WakeStage::Opening, events);
}

/// A port that fails while the device is being woken ends the command at
/// once.
pub proof fn lemma_failed_port_ends_command(plan: PlanView, events: Seq<EventView>)
    requires
        Wake::ending(WakeStage::Opening, events) == Some(Err::<(), Error>(Error::PortFailure)),
    ensures
        plan.at(CommandStageView::Waking(WakeStage::Opening)).after(events) == StepView::<
            CommandView,
            Result<Bytes, Error>,
        >::Finish(Err(Error::PortFailure)),
{
    lemma_wake_within(plan, WakeStage::Opening, events);
}

/// An attempt that comes to a reply ends in the judgement of that reply:
/// whatever the wake, the exchange and the sleep sequence are told on their
/// way, the command does with the reply what [`PlanView::judged`] says.
pub proof fn lemma_attempt_is_judged(plan: PlanView, attempt: Attempt, reply: Reply)
    requires
        attempt.brings(plan, reply),
    ensures
        plan.at(CommandStageView::Waking(WakeStage::Opening)).after(attempt.events())
            == plan.judged(reply),
{
    let waking = plan.at(CommandStageView::Waking(WakeStage::Opening));
    let exchanging = plan.at(CommandStageView::Exchanging(plan.exchange()));
    let classifying = plan.at(CommandStageView::Classifying);
    let read = seq![attempt.reading];
    lemma_wake_within(plan, WakeStage::Opening, attempt.wake);
    lemma_exchange_within(plan, plan.exchange(), attempt.exchange);
    assert(waking.after(attempt.wake) == plan.woken());
    assert(exchanging.after(attempt.exchange)->Perform_0 == classifying);
    assert(classifying.after(read) == plan.classified(reply));
    if plan.sleep {
        let sleeping = plan.at(CommandStageView::Sleeping(SleepStage::Opening, reply));
        lemma_sleep_within(plan, SleepStage::Opening, reply, attempt.sleep);
        lemma_after_concat(classifying, read, attempt.sleep);
        assert(classifying.after(read + attempt.sleep) == plan.judged(reply));
        lemma_after_concat(exchanging, attempt.exchange, read + attempt.sleep);
        lemma_after_concat(waking, attempt.wake, attempt.exchange + (read + attempt.sleep));
        assert(attempt.events() =~= attempt.wake + (attempt.exchange + (read + attempt.sleep)));
    } else {
        lemma_after_concat(exchanging, attempt.exchange, read);
        lemma_after_concat(waking, attempt.wake, attempt.exchange + read);
        assert(attempt.events() =~= attempt.wake + (attempt.exchange + read));
    }
}

/// A fault that will not clear ends the command on the attempt that meets it,
/// once the device has been sent to sleep where that was asked for: the
/// number of the attempt and the bound of the policy play no part.
pub proof fn lemma_fatal_fault_ends_command(plan: PlanView, attempt: Attempt, code: u8)
    requires
        attempt.brings(plan, Reply::DeviceError { code, recoverable: false }),
    ensures
        plan.at(CommandStageView::Waking(WakeStage::Opening)).after(attempt.events())
            == StepView::<CommandView, Result<Bytes, Error>>::Finish(
            Err(Error::Device { code, recoverable: false }),
        ),
{
    lemma_attempt_is_judged(plan, attempt, Reply::DeviceError { code, recoverable: false });
}

/// An attempt that comes to a payload ends the command with that payload.
pub proof fn lemma_payload_ends_command(plan: PlanView, attempt: Attempt, payload: Bytes)
    requires
        attempt.brings(plan, Reply::Data(payload)),
    ensures
        plan.at(CommandStageView::Waking(WakeStage::Opening)).after(attempt.events())
            == StepView::<CommandView, Result<Bytes, Error>>::Finish(Ok(payload)),
{
    lemma_attempt_is_judged(plan, attempt, Reply::Data(payload));
}

/// Attempts that each come to a failure that may clear are made one after the
/// other, each followed by the wait of the policy. While the policy allows
/// another attempt the command goes on with it; when the last attempt that
/// the policy allows has failed, and not before, the command times out.
pub proof fn lemma_recoverable_faults_use_every_attempt(plan: PlanView, attempts: Seq<Attempt>)
    requires
        attempts.len() > 0,
        plan.attempt + attempts.len() <= plan.policy.max_attempts,
        forall|i: int| 0 <= i < attempts.len() ==> (#[trigger] attempts[i]).fails_recoverably(plan),
    ensures
        plan.at(CommandStageView::Waking(WakeStage::Opening)).after(rounds(attempts)) == (if plan.attempt
            + attempts.len() == plan.policy.max_attempts {
            StepView::<CommandView, Result<Bytes, Error>>::Finish(Err(Error::Timeout))
        } else {
            (PlanView { attempt: (plan.attempt + attempts.len()) as u8, ..plan }).attempt_begins()
        }),
    decreases attempts.len(),
{
    let waking = plan.at(CommandStageView::Waking(WakeStage::Opening));
    let first = attempts[0];
    let rest = attempts.drop_first();
    let wait = seq![first.wait];
    assert(first.fails_recoverably(plan));
    lemma_attempt_is_judged(plan, first, reading(first.reading));
    let backing = plan.at(CommandStageView::BackingOff(false));
    assert(waking.after(first.events()) == plan.back_off(false));
    assert(first.events().len() > 0);
    lemma_after_concat(waking, first.events(), wait);
    assert(backing.after(wait) == plan.resumed(false));
    assert(waking.after(first.round()) == plan.resumed(false));
    if rest.len() == 0 {
        assert(rounds(rest) =~= Seq::<EventView>::empty());
        assert(rounds(attempts) =~= first.round());
    } else {
        let moved = PlanView { attempt: (plan.attempt + 1) as u8, ..plan };
        assert(plan.resumed(false) == moved.attempt_begins());
        assert forall|i: int| 0 <= i < rest.len() implies (#[trigger] rest[i]).fails_recoverably(
            moved,
        ) by {
            assert(rest[i] == attempts[i + 1]);
            assert(attempts[i + 1].fails_recoverably(plan));
            assert(moved.exchange() == plan.exchange());
        }
        lemma_recoverable_faults_use_every_attempt(moved, rest);
        assert(rounds(rest).len() > 0) by {
            assert(rounds(rest) == rest[0].round() + rounds(rest.drop_first()));
        }
        lemma_after_concat(waking, first.round(), rounds(rest));
    }
}

} // verus!
