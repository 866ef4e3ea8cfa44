//! The supervisor of one script: it runs the script's attempts one after
//! the other, and turns every failure into a restart after a fixed delay.
//!
//! Building the script's execution context, running the script and sleeping
//! are outside. Here is the supervisor's state machine: for each thing that
//! happened outside, the next state and what to do next.

use crate::session::{Session, SessionView};
use vstd::prelude::*;
use vstd::string::*;

verus! {

/// The delay between a failed attempt and the next one, in milliseconds.
pub const BACKOFF_MS: u64 = 1000;

/// Where a supervisor stands.
#[derive(Clone, Copy, Debug, PartialEq, Eq, Structural)]
pub enum Phase {
    /// An attempt is being prepared: the execution context is under construction.
    Starting,
    /// The script body is executing.
    Running,
    /// An attempt has failed: the supervisor waits before the next one.
    Backoff,
    /// The supervisor has ended. Nothing leads out of this state.
    Stopped,
}

/// What happened outside.
#[derive(Clone, Copy, Debug, PartialEq, Eq, Structural)]
pub enum RuntimeEvent {
    /// The supervisor's worker has started.
    Launched,
    /// The execution context was built.
    ContextReady,
    /// The execution context could not be built, for a reason within the
    /// script (its source does not compile).
    ContextRejected,
    /// The execution context could not be built, for a reason outside the
    /// script (the engine itself is unusable).
    ContextBroken,
    /// The script body returned normally.
    Completed,
    /// The script body returned an error.
    Failed,
    /// The script body crashed; the crash was caught.
    Faulted,
    /// The delay after a failed attempt is over.
    BackoffElapsed,
}

/// What to do next.
#[derive(Clone, Copy, Debug, PartialEq, Eq, Structural)]
pub enum Directive {
    /// Build a fresh execution context bound to the session.
    BuildContext,
    /// Execute the script body. The session's bridges have been cancelled.
    RunScript,
    /// Wait this many milliseconds, then report `BackoffElapsed`.
    Sleep(u64),
    /// The supervisor has ended: leave the worker.
    Exit,
    /// The supervisor has ended on a fatal error: report it and leave.
    Escalate,
    /// The event does not belong to the state: nothing is to be done.
    Ignore,
}

/// The state machine: the state after `event` and what to do next. The
/// termination flag is looked at when an attempt would begin.
pub open spec fn transition(phase: Phase, event: RuntimeEvent, terminate: bool) -> (Phase, Directive) {
    match (phase, event) {
        (Phase::Starting, RuntimeEvent::Launched) => if terminate {
            (Phase::Stopped, Directive::Exit)
        } else {
            (Phase::Starting, Directive::BuildContext)
        },
        (Phase::Starting, RuntimeEvent::ContextReady) => (Phase::Running, Directive::RunScript),
        (Phase::Starting, RuntimeEvent::ContextRejected) => (Phase::Backoff, Directive::Sleep(BACKOFF_MS)),
        (Phase::Starting, RuntimeEvent::ContextBroken) => (Phase::Stopped, Directive::Escalate),
        (Phase::Running, RuntimeEvent::Completed) => (Phase::Stopped, Directive::Exit),
        (Phase::Running, RuntimeEvent::Failed) => (Phase::Backoff, Directive::Sleep(BACKOFF_MS)),
        (Phase::Running, RuntimeEvent::Faulted) => (Phase::Backoff, Directive::Sleep(BACKOFF_MS)),
        (Phase::Backoff, RuntimeEvent::BackoffElapsed) => if terminate {
            (Phase::Stopped, Directive::Exit)
        } else {
            (Phase::Starting, Directive::BuildContext)
        },
        (Phase::Stopped, _) => (Phase::Stopped, Directive::Exit),
        _ => (phase, Directive::Ignore),
    }
}

/// Computes the state machine's step.
pub fn next_phase(phase: Phase, event: RuntimeEvent, terminate: bool) -> (step: (Phase, Directive))
    ensures
        step == transition(phase, event, terminate),
{
    match phase {
        Phase::Starting => match event {
            RuntimeEvent::Launched => if terminate {
                (Phase::Stopped, Directive::Exit)
            } else {
                (Phase::Starting, Directive::BuildContext)
            },
            RuntimeEvent::ContextReady => (Phase::Running, Directive::RunScript),
            RuntimeEvent::ContextRejected => (Phase::Backoff, Directive::Sleep(BACKOFF_MS)),
            RuntimeEvent::ContextBroken => (Phase::Stopped, Directive::Escalate),
            _ => (phase, Directive::Ignore),
        },
        Phase::Running => match event {
            RuntimeEvent::Completed => (Phase::Stopped, Directive::Exit),
            RuntimeEvent::Failed => (Phase::Backoff, Directive::Sleep(BACKOFF_MS)),
            RuntimeEvent::Faulted => (Phase::Backoff, Directive::Sleep(BACKOFF_MS)),
            _ => (phase, Directive::Ignore),
        },
        Phase::Backoff => match event {
            RuntimeEvent::BackoffElapsed => if terminate {
                (Phase::Stopped, Directive::Exit)
            } else {
                (Phase::Starting, Directive::BuildContext)
            },
            _ => (phase, Directive::Ignore),
        },
        Phase::Stopped => (Phase::Stopped, Directive::Exit),
    }
}

/// Why a supervisor cannot be made.
#[derive(Clone, Copy, Debug, PartialEq, Eq, Structural)]
pub enum RuntimeError {
    /// The script is the self-test, which no supervisor runs.
    ReservedName,
}

/// The name of the self-test script.
pub open spec fn test_name() -> Seq<char> {
    seq!['t', 'e', 's', 't']
}

/// The place of a script's source: `scripts/`, its name, `.lua`.
pub open spec fn script_path_of(name: Seq<char>) -> Seq<char> {
    seq!['s', 'c', 'r', 'i', 'p', 't', 's', '/'] + name + seq!['.', 'l', 'u', 'a']
}

/// The path from which the source of the script `script_name` is read.
pub fn script_path(script_name: &str) -> (path: String)
    ensures
        path@ == script_path_of(script_name@),
{
    proof {
        reveal_strlit("scripts/");
        reveal_strlit(".lua");
        assert("scripts/"@ =~= seq!['s', 'c', 'r', 'i', 'p', 't', 's', '/']);
        assert(".lua"@ =~= seq!['.', 'l', 'u', 'a']);
    }
    let mut path = String::from_str("scripts/");
    path.append(script_name);
    path.append(".lua");
    path
}

/// A supervisor as plain values.
pub ghost struct RuntimeView {
    pub script: Seq<char>,
    pub script_name: Seq<char>,
    pub session: SessionView,
    pub phase: Phase,
    /// How many times the script body was started.
    pub attempts: nat,
}

/// The supervisor of one script, with the session of that script.
pub struct Runtime {
    script: String,
    script_name: String,
    session: Session,
    phase: Phase,
    attempts: u64,
}

impl View for Runtime {
    type V = RuntimeView;

    closed spec fn view(&self) -> RuntimeView {
        RuntimeView {
            script: self.script@,
            script_name: self.script_name@,
            session: self.session@,
            phase: self.phase,
            attempts: self.attempts as nat,
        }
    }
}

/// The supervisor after `event`: the state machine's step, with the
/// session's bridges cancelled where an attempt begins.
pub open spec fn supervised(before: RuntimeView, event: RuntimeEvent, terminate: bool) -> (RuntimeView, Directive) {
    let (phase, directive) = transition(before.phase, event, terminate);
    if directive == Directive::RunScript {
        (
            RuntimeView {
                phase,
                session: before.session.invalidated(),
                attempts: if before.attempts < u64::MAX {
                    before.attempts + 1
                } else {
                    before.attempts
                },
                ..before
            },
            directive,
        )
    } else {
        (RuntimeView { phase, ..before }, directive)
    }
}

impl Runtime {
    /// The session is in order.
    pub closed spec fn wf(&self) -> bool {
        self.session.wf()
    }

    /// A supervisor for the script `script_name` with the source `script`,
    /// about to prepare its first attempt. The self-test is refused.
    pub fn new(script_name: String, script: String, session: Session) -> (runtime: Result<Runtime, RuntimeError>)
        requires
            session.wf(),
        ensures
            match runtime {
                Ok(r) => {
                    &&& script_name@ != test_name()
                    &&& r.wf()
                    &&& r@ == (RuntimeView {
                        script: script@,
                        script_name: script_name@,
                        session: session@,
                        phase: Phase::Starting,
                        attempts: 0,
                    })
                },
                Err(e) => e == RuntimeError::ReservedName && script_name@ == test_name(),
            },
    {
        proof {
            reveal_strlit("test");
            assert("test"@ =~= test_name());
        }
        let reserved = String::from_str("test");
        if script_name == reserved {
            Err(RuntimeError::ReservedName)
        } else {
            Ok(Runtime { script, script_name, session, phase: Phase::Starting, attempts: 0 })
        }
    }

    /// The script's source.
    pub fn script(&self) -> (script: &String)
        ensures
            script@ == self@.script,
    {
        &self.script
    }

    /// The script's name.
    pub fn script_name(&self) -> (name: &String)
        ensures
            name@ == self@.script_name,
    {
        &self.script_name
    }

    /// Where the supervisor stands.
    pub fn phase(&self) -> (phase: Phase)
        ensures
            phase == self@.phase,
    {
        self.phase
    }

    /// How many times the script body was started.
    pub fn attempts(&self) -> (count: u64)
        ensures
            count == self@.attempts,
    {
        self.attempts
    }

    /// The session of the script.
    pub fn session(&self) -> (session: &Session)
        requires
            self.wf(),
        ensures
            session.wf(),
            session@ == self@.session,
    {
        &self.session
    }

    /// The session of the script, for the subscriptions and reads of the
    /// running attempt.
    pub fn session_mut(&mut self) -> (session: &mut Session)
        requires
            old(self).wf(),
        ensures
            session.wf(),
            session@ == old(self)@.session,
            final(session).wf() ==> final(self).wf(),
            final(self)@ == (RuntimeView { session: final(session)@, ..old(self)@ }),
    {
        &mut self.session
    }

    /// Takes what happened outside and says what to do next. Where the
    /// answer is to run the script, the session's bridges of the attempt
    /// before have been cancelled first.
    pub fn run(&mut self, event: RuntimeEvent, terminate: bool) -> (directive: Directive)
        requires
            old(self).wf(),
        ensures
            final(self).wf(),
            (final(self)@, directive) == supervised(old(self)@, event, terminate),
    {
        let (phase, directive) = next_phase(self.phase, event, terminate);
        self.phase = phase;
        match directive {
            Directive::RunScript => {
                self.session.invalidate_all();
                if self.attempts < u64::MAX {
                    self.attempts = self.attempts + 1;
                }
            },
            _ => {},
        }
        directive
    }
}

/// At most one attempt of a script runs at a time: the script is started
/// only from `Starting`, which the supervisor then leaves for `Running`, and
/// while it is `Running` only the end of the script body moves it on.
pub proof fn lemma_one_attempt_at_a_time(phase: Phase, event: RuntimeEvent, terminate: bool)
    ensures
        transition(phase, event, terminate).1 == Directive::RunScript ==> phase == Phase::Starting
            && transition(phase, event, terminate).0 == Phase::Running,
        phase == Phase::Running && transition(phase, event, terminate).0 != Phase::Running ==> (event
            == RuntimeEvent::Completed || event == RuntimeEvent::Failed || event
            == RuntimeEvent::Faulted),
        phase == Phase::Running ==> transition(phase, event, terminate).1 != Directive::RunScript
            && transition(phase, event, terminate).1 != Directive::BuildContext,
{
}

/// Every failure leads to a restart and to nothing else: an error or a
/// crash of the script body, and a context that the script's source does not
/// allow to build, are followed by the fixed delay; after the delay a new
/// attempt is prepared, unless termination was asked for. No count of
/// failures ends the supervisor.
pub proof fn lemma_failures_restart(terminate: bool)
    ensures
        transition(Phase::Running, RuntimeEvent::Failed, terminate) == (
            Phase::Backoff,
            Directive::Sleep(BACKOFF_MS),
        ),
        transition(Phase::Running, RuntimeEvent::Faulted, terminate) == (
            Phase::Backoff,
            Directive::Sleep(BACKOFF_MS),
        ),
        transition(Phase::Starting, RuntimeEvent::ContextRejected, terminate) == (
            Phase::Backoff,
            Directive::Sleep(BACKOFF_MS),
        ),
        transition(Phase::Backoff, RuntimeEvent::BackoffElapsed, false) == (
            Phase::Starting,
            Directive::BuildContext,
        ),
        transition(Phase::Backoff, RuntimeEvent::BackoffElapsed, true) == (Phase::Stopped, Directive::Exit),
{
}

/// `Stopped` is terminal, and a supervisor stops only when the script body
/// has returned normally, on termination, or on a broken engine.
pub proof fn lemma_stopped_is_terminal(phase: Phase, event: RuntimeEvent, terminate: bool)
    ensures
        phase == Phase::Stopped ==> transition(phase, event, terminate) == (Phase::Stopped, Directive::Exit),
        phase != Phase::Stopped && transition(phase, event, terminate).0 == Phase::Stopped ==> {
            ||| (phase == Phase::Running && event == RuntimeEvent::Completed)
            ||| (terminate && phase == Phase::Starting && event == RuntimeEvent::Launched)
            ||| (terminate && phase == Phase::Backoff && event == RuntimeEvent::BackoffElapsed)
            ||| (phase == Phase::Starting && event == RuntimeEvent::ContextBroken)
        },
{
}

/// Whenever the supervisor says to run the script, the session has no
/// bridge left from an earlier attempt.
pub proof fn lemma_attempt_starts_clean(before: RuntimeView, event: RuntimeEvent, terminate: bool)
    ensures
        supervised(before, event, terminate).1 == Directive::RunScript ==> supervised(
            before,
            event,
            terminate,
        ).0.session.bridges.len() == 0,
{
}

} // verus!
