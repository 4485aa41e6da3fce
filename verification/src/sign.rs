//! The two-phase signature: load the digest of the message into the device,
//! then ask for a signature over it.
//!
//! Each phase is one run of a command. The two are tried as a pair: when
//! either fails, the device is sent to sleep and the pair begins again with
//! the first phase, while the policy allows.

use crate::error::Error;
use crate::retry::RetryPolicy;
use bytes::Bytes;
use vstd::prelude::*;

verus! {

/// The phases of a signature.
#[derive(Clone, Copy, Debug, PartialEq, Eq)]
pub enum Phase {
    /// The digest is loaded into the device.
    LoadDigest,
    /// The device signs what was loaded.
    Sign,
}

/// One run of a command that the signature asks for.
#[derive(Clone, Copy, Debug, PartialEq, Eq)]
pub struct Run {
    /// The phase whose command is to run.
    pub phase: Phase,
    /// Whether the device is sent to sleep before the command.
    pub sleep_first: bool,
    /// Whether the device is sent to sleep once the command has its reply.
    pub sleep: bool,
    /// The number of times the command is tried.
    pub retries: u8,
}

/// A signature on its way through the attempts that its policy allows.
#[derive(Debug)]
pub struct Signing {
    digest: Vec<u8>,
    key_slot: u8,
    policy: RetryPolicy,
    attempt: u8,
    phase: Phase,
}

/// A [`Signing`] by the bytes it holds.
pub struct SigningView {
    /// The digest of the message.
    pub digest: Seq<u8>,
    /// The slot of the key that signs.
    pub key_slot: u8,
    /// The bound on attempts at the pair of phases.
    pub policy: RetryPolicy,
    /// The number of the attempt that runs, the first being number 0.
    pub attempt: u8,
    /// The phase whose command runs.
    pub phase: Phase,
}

/// What a step of a signature yields: the signature as it goes on, with the
/// command to run next, or the result that ends it.
#[derive(Debug)]
pub enum SignStep {
    /// Run this command and report how it ended.
    Run(Signing, Run),
    /// The signature is over.
    Finish(Result<Bytes, Error>),
}

/// A [`SignStep`] by the views of its parts.
pub enum SignStepView {
    Run(SigningView, Run),
    Finish(Result<Bytes, Error>),
}

impl View for Signing {
    type V = SigningView;

    closed spec fn view(&self) -> SigningView {
        SigningView {
            digest: self.digest@,
            key_slot: self.key_slot,
            policy: self.policy,
            attempt: self.attempt,
            phase: self.phase,
        }
    }
}

impl View for SignStep {
    type V = SignStepView;

    open spec fn view(&self) -> SignStepView {
        match *self {
            SignStep::Run(signing, run) => SignStepView::Run(signing@, run),
            SignStep::Finish(result) => SignStepView::Finish(result),
        }
    }
}

/// The run of the first phase: one try, and no sleep after it, since the
/// device has to keep what was loaded. The device is sent to sleep before it
/// where the pair begins again.
pub open spec fn load_run(again: bool) -> Run {
    Run { phase: Phase::LoadDigest, sleep_first: again, sleep: false, retries: 1 }
}

/// The run of the second phase: one try, and the device is sent to sleep
/// after it.
pub open spec fn sign_run() -> Run {
    Run { phase: Phase::Sign, sleep_first: false, sleep: true, retries: 1 }
}

impl SigningView {
    /// A signature over the message with the digest `digest`, with the key in
    /// `key_slot`, as it begins.
    pub open spec fn fresh(key_slot: u8, digest: Seq<u8>) -> SigningView {
        SigningView {
            digest,
            key_slot,
            policy: RetryPolicy::signing_spec(),
            attempt: 0,
            phase: Phase::LoadDigest,
        }
    }

    /// The signature begins: with no attempt allowed it times out at once,
    /// else the first phase runs.
    pub open spec fn begin(self) -> SignStepView {
        if self.policy.max_attempts == 0 {
            SignStepView::Finish(Err(Error::Timeout))
        } else {
            SignStepView::Run(self, load_run(false))
        }
    }

    /// A phase failed with `error`. A port that fails ends the signature.
    /// Otherwise the pair begins again with the first phase, after a sleep
    /// pulse; when the policy allows no more, the signature times out.
    pub open spec fn failed(self, error: Error) -> SignStepView {
        if error == Error::PortFailure {
            SignStepView::Finish(Err(Error::PortFailure))
        } else if self.policy.allows_after_spec(self.attempt) {
            SignStepView::Run(
                SigningView { attempt: (self.attempt + 1) as u8, phase: Phase::LoadDigest, ..self },
                load_run(true),
            )
        } else {
            SignStepView::Finish(Err(Error::Timeout))
        }
    }

    /// What the signature does when the command that it asked for ended with
    /// `outcome`.
    pub open spec fn next(self, outcome: Result<Bytes, Error>) -> SignStepView {
        match outcome {
            Ok(payload) => match self.phase {
                Phase::LoadDigest => SignStepView::Run(
                    SigningView { phase: Phase::Sign, ..self },
                    sign_run(),
                ),
                Phase::Sign => SignStepView::Finish(Ok(payload)),
            },
            Err(error) => self.failed(error),
        }
    }
}

impl Signing {
    /// What holds of every signature: the attempt that runs is one that the
    /// policy allows.
    #[verifier::type_invariant]
    spec fn sound(self) -> bool {
        self.attempt < self.policy.max_attempts
    }

    /// Begins a signature over the message with the digest `digest`, with the
    /// key in `key_slot`: the first phase is to run.
    pub(crate) fn start(key_slot: u8, digest: Vec<u8>) -> (step: SignStep)
        ensures
            step@ == SigningView::fresh(key_slot, digest@).begin(),
    {
        let policy = RetryPolicy::signing();
        let signing = Signing {
            digest,
            key_slot,
            policy,
            attempt: 0,
            phase: Phase::LoadDigest,
        };
        SignStep::Run(
            signing,
            Run { phase: Phase::LoadDigest, sleep_first: false, sleep: false, retries: 1 },
        )
    }

    /// The digest that the first phase loads.
    pub fn digest(&self) -> (digest: &Vec<u8>)
        ensures
            digest@ == self@.digest,
    {
        &self.digest
    }

    /// The slot of the key that the second phase signs with.
    pub fn key_slot(&self) -> (slot: u8)
        ensures
            slot == self@.key_slot,
    {
        self.key_slot
    }

    fn failed(self, error: Error) -> (step: SignStep)
        ensures
            step@ == self@.failed(error),
    {
        proof {
            use_type_invariant(&self);
        }
        match error {
            Error::PortFailure => SignStep::Finish(Err(Error::PortFailure)),
            _ => if self.policy.allows_after(self.attempt) {
                SignStep::Run(
                    Signing { attempt: self.attempt + 1, phase: Phase::LoadDigest, ..self },
                    Run { phase: Phase::LoadDigest, sleep_first: true, sleep: false, retries: 1 },
                )
            } else {
                SignStep::Finish(Err(Error::Timeout))
            },
        }
    }

    /// Takes the signature one command further: `outcome` is how the command
    /// that it asked for ended.
    pub fn step(self, outcome: Result<Bytes, Error>) -> (step: SignStep)
        ensures
            step@ == self@.next(outcome),
    {
        proof {
            use_type_invariant(&self);
        }
        match outcome {
            Ok(payload) => match self.phase {
                Phase::LoadDigest => SignStep::Run(
                    Signing { phase: Phase::Sign, ..self },
                    Run { phase: Phase::Sign, sleep_first: false, sleep: true, retries: 1 },
                ),
                Phase::Sign => SignStep::Finish(Ok(payload)),
            },
            Err(error) => self.failed(error),
        }
    }
}

impl SigningView {
    /// What the signature has come to when the commands that it asked for
    /// ended with `outcomes`, one after the other: the step that the last of
    /// them yields, or the result that ended the signature before.
    pub open spec fn after(self, outcomes: Seq<Result<Bytes, Error>>) -> SignStepView
        recommends
            outcomes.len() > 0,
        decreases outcomes.len(),
    {
        if outcomes.len() <= 1 {
            self.next(outcomes[0])
        } else {
            match self.next(outcomes[0]) {
                SignStepView::Run(signing, _) => signing.after(outcomes.drop_first()),
                SignStepView::Finish(result) => SignStepView::Finish(result),
            }
        }
    }

    /// The most commands that the signature still asks for after the one
    /// that runs: two for every attempt that the policy still allows, and the
    /// second phase of the attempt that runs.
    pub open spec fn steps_left(self) -> int {
        2 * (self.policy.max_attempts - self.attempt - 1) + match self.phase {
            Phase::LoadDigest => 1int,
            Phase::Sign => 0int,
        }
    }

    /// Whether the two outcomes from `at` on are a pair whose first phase
    /// succeeded and whose second failed, the port holding.
    pub open spec fn broken_pair(outcomes: Seq<Result<Bytes, Error>>, at: int) -> bool {
        &&& outcomes[at] is Ok
        &&& outcomes[at + 1] matches Err(error) && error != Error::PortFailure
    }
}

/// A step never touches the digest, the key slot or the policy. The number of
/// the attempt never falls, grows by one at most, and stays below the bound of
/// the policy.
pub proof fn lemma_attempts_are_bounded(signing: SigningView, outcome: Result<Bytes, Error>)
    requires
        signing.attempt < signing.policy.max_attempts,
    ensures
        signing.next(outcome) matches SignStepView::Run(moved, _) ==> {
            &&& moved.digest == signing.digest
            &&& moved.key_slot == signing.key_slot
            &&& moved.policy == signing.policy
            &&& signing.attempt <= moved.attempt <= signing.attempt + 1
            &&& moved.attempt < moved.policy.max_attempts
        },
{
}

/// A signature ends, whatever its commands come to: every step that does not
/// end it leaves fewer commands to ask for.
pub proof fn lemma_signature_ends(signing: SigningView, outcome: Result<Bytes, Error>)
    requires
        signing.attempt < signing.policy.max_attempts,
    ensures
        signing.steps_left() >= 0,
        signing.next(outcome) matches SignStepView::Run(moved, _) ==> 0 <= moved.steps_left()
            < signing.steps_left(),
{
}

/// The second phase runs only straight after a first phase that succeeded.
/// Whatever fails, the next command is never the second phase alone: the pair
/// begins again with the first.
pub proof fn lemma_second_phase_follows_first(signing: SigningView, outcome: Result<Bytes, Error>)
    ensures
        (signing.next(outcome) matches SignStepView::Run(_, run) && run.phase == Phase::Sign) <==> (
        signing.phase == Phase::LoadDigest && outcome is Ok),
{
}

/// When the second phase fails after a first that succeeded, and the policy
/// allows another attempt, the device is sent to sleep and the first phase
/// runs again, as the next attempt. A port that fails is the one failure that
/// is not tried again.
pub proof fn lemma_failed_second_phase_restarts_pair(signing: SigningView, error: Error)
    requires
        signing.phase == Phase::Sign,
        error != Error::PortFailure,
        signing.policy.allows_after_spec(signing.attempt),
    ensures
        signing.next(Err(error)) == SignStepView::Run(
            SigningView {
                attempt: (signing.attempt + 1) as u8,
                phase: Phase::LoadDigest,
                ..signing
            },
            load_run(true),
        ),
{
}

/// When a phase of the last attempt fails, the signature times out.
pub proof fn lemma_last_attempt_times_out(signing: SigningView, error: Error)
    requires
        error != Error::PortFailure,
        !signing.policy.allows_after_spec(signing.attempt),
    ensures
        signing.next(Err(error)) == SignStepView::Finish(Err(Error::Timeout)),
{
}

/// Pairs whose second phase fails, as many as the policy allows, end in a
/// timeout: after each but the last the pair begins again with the first
/// phase, and the second phase is never tried alone.
pub proof fn lemma_broken_pairs_time_out(signing: SigningView, outcomes: Seq<Result<Bytes, Error>>)
    requires
        signing.phase == Phase::LoadDigest,
        signing.attempt < signing.policy.max_attempts,
        outcomes.len() == 2 * (signing.policy.max_attempts - signing.attempt),
        forall|k: int|
            0 <= k < signing.policy.max_attempts - signing.attempt ==> SigningView::broken_pair(
                outcomes,
                #[trigger] (2 * k),
            ),
    ensures
        signing.after(outcomes) == SignStepView::Finish(Err(Error::Timeout)),
    decreases signing.policy.max_attempts - signing.attempt,
{
    let rest1 = outcomes.drop_first();
    let rest2 = rest1.drop_first();
    assert(SigningView::broken_pair(outcomes, 2 * 0int));
    assert(rest1[0] == outcomes[1]);
    let second = SigningView { phase: Phase::Sign, ..signing };
    assert(signing.next(outcomes[0]) == SignStepView::Run(second, sign_run()));
    assert(signing.after(outcomes) == second.after(rest1));
    if signing.attempt + 1 < signing.policy.max_attempts {
        let again = SigningView {
            attempt: (signing.attempt + 1) as u8,
            phase: Phase::LoadDigest,
            ..signing
        };
        assert(second.next(outcomes[1]) == SignStepView::Run(again, load_run(true)));
        assert(second.after(rest1) == again.after(rest2));
        assert forall|k: int|
            0 <= k < again.policy.max_attempts - again.attempt implies SigningView::broken_pair(
            rest2,
            #[trigger] (2 * k),
        ) by {
            assert(SigningView::broken_pair(outcomes, 2 * (k + 1)));
            assert(rest2[2 * k] == outcomes[2 * (k + 1)]);
            assert(rest2[2 * k + 1] == outcomes[2 * (k + 1) + 1]);
        }
        lemma_broken_pairs_time_out(again, rest2);
    } else {
        assert(rest1.len() == 1);
    }
}

} // verus!
