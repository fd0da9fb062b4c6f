//! The life of a running server: startup hooks, listening, draining, shutdown
//! hooks.
//!
//! The caller performs each action and reports what came of it; the decisions
//! are made here.

use vstd::prelude::*;

verus! {

/// What the server is doing.
#[derive(Clone, Copy, Debug, PartialEq, Eq, Structural)]
pub enum Phase {
    /// Running the startup hook at this position.
    Starting(usize),
    /// Binding the listener.
    Binding,
    /// Waiting for a connection or for the shutdown signal.
    Accepting,
    /// Waiting for the requests in flight.
    Draining,
    /// Running the shutdown hook at this position.
    Stopping(usize),
    /// Everything has run.
    Stopped,
    /// The server never listened, or could not go on.
    Failed,
}

/// What came of an action.
#[derive(Debug)]
pub enum Event {
    /// A hook has run.
    HookDone,
    /// A startup hook refused, and says why.
    HookFailed(String),
    /// The listener is bound.
    Bound,
    /// The listener could not be bound.
    BindFailed(String),
    /// A connection arrived, and is served beside the listener.
    Accepted,
    /// One connection could not be taken: descriptors ran out, or the peer
    /// vanished.
    AcceptFailed,
    /// The shutdown signal came.
    ShutdownRequested,
    /// The requests in flight have been answered.
    Drained,
}

/// What the caller performs next.
#[derive(Debug, PartialEq, Eq)]
pub enum Action {
    RunStartupHook(usize),
    Bind,
    Accept,
    Drain,
    RunShutdownHook(usize),
    Finish,
    /// Gives up with this message.
    Fail(String),
}

/// An action, as a value.
pub enum Step {
    RunStartupHook(usize),
    Bind,
    Accept,
    Drain,
    RunShutdownHook(usize),
    Finish,
    Fail(Seq<char>),
}

impl View for Action {
    type V = Step;

    open spec fn view(&self) -> Step {
        match self {
            Action::RunStartupHook(i) => Step::RunStartupHook(*i),
            Action::Bind => Step::Bind,
            Action::Accept => Step::Accept,
            Action::Drain => Step::Drain,
            Action::RunShutdownHook(i) => Step::RunShutdownHook(*i),
            Action::Finish => Step::Finish,
            Action::Fail(message) => Step::Fail(message@),
        }
    }
}

/// A server with so many hooks, and how far it has come.
#[derive(Debug)]
pub struct Lifecycle {
    pub startup: usize,
    pub shutdown: usize,
    pub phase: Phase,
    /// Why the server gave up; empty where it did not.
    pub fault: String,
}

/// A server's life, as a value.
#[verifier::ext_equal]
pub struct Life {
    pub startup: usize,
    pub shutdown: usize,
    pub phase: Phase,
    pub fault: Seq<char>,
}

impl View for Lifecycle {
    type V = Life;

    open spec fn view(&self) -> Life {
        Life {
            startup: self.startup,
            shutdown: self.shutdown,
            phase: self.phase,
            fault: self.fault@,
        }
    }
}

/// The startup hook at a position, or binding where none is left.
pub open spec fn starting(startup: usize, i: int) -> Phase {
    if i < startup {
        Phase::Starting(i as usize)
    } else {
        Phase::Binding
    }
}

/// The shutdown hook at a position, or the end where none is left.
pub open spec fn stopping(shutdown: usize, i: int) -> Phase {
    if i < shutdown {
        Phase::Stopping(i as usize)
    } else {
        Phase::Stopped
    }
}

impl Life {
    /// The start of a server's life.
    pub open spec fn begun(startup: usize, shutdown: usize) -> Life {
        Life { startup, shutdown, phase: starting(startup, 0), fault: ""@ }
    }

    pub open spec fn at(self, phase: Phase) -> Life {
        Life { phase, ..self }
    }

    pub open spec fn failed(self, fault: Seq<char>) -> Life {
        Life { phase: Phase::Failed, fault, ..self }
    }

    /// The life after an event. One that does not belong to the phase changes
    /// nothing.
    pub open spec fn after(self, event: Event) -> Life {
        match (self.phase, event) {
            (Phase::Starting(i), Event::HookDone) => self.at(starting(self.startup, i + 1)),
            (Phase::Starting(_), Event::HookFailed(why)) => self.failed(
                "startup failed: "@ + why@,
            ),
            (Phase::Binding, Event::Bound) => self.at(Phase::Accepting),
            (Phase::Binding, Event::BindFailed(why)) => self.failed(why@),
            (Phase::Accepting, Event::ShutdownRequested) => self.at(Phase::Draining),
            (Phase::Draining, Event::Drained) => self.at(stopping(self.shutdown, 0)),
            (Phase::Stopping(i), Event::HookDone) => self.at(stopping(self.shutdown, i + 1)),
            _ => self,
        }
    }

    /// What is performed in this phase.
    pub open spec fn pending(self) -> Step {
        match self.phase {
            Phase::Starting(i) => Step::RunStartupHook(i),
            Phase::Binding => Step::Bind,
            Phase::Accepting => Step::Accept,
            Phase::Draining => Step::Drain,
            Phase::Stopping(i) => Step::RunShutdownHook(i),
            Phase::Stopped => Step::Finish,
            Phase::Failed => Step::Fail(self.fault),
        }
    }

    /// The life after a series of events.
    pub open spec fn lived(self, events: Seq<Event>) -> Life
        decreases events.len(),
    {
        if events.len() == 0 {
            self
        } else {
            self.lived(events.drop_last()).after(events.last())
        }
    }
}

impl Lifecycle {
    /// A server that has not begun: its first action is the first startup hook,
    /// or to bind.
    pub fn new(startup: usize, shutdown: usize) -> (out: Self)
        ensures
            out@ == Life::begun(startup, shutdown),
    {
        let phase = if 0 < startup {
            Phase::Starting(0)
        } else {
            Phase::Binding
        };
        Lifecycle { startup, shutdown, phase, fault: "".to_owned() }
    }

    /// What to perform now.
    pub fn action(&self) -> (action: Action)
        ensures
            action@ == self@.pending(),
    {
        match self.phase {
            Phase::Starting(i) => Action::RunStartupHook(i),
            Phase::Binding => Action::Bind,
            Phase::Accepting => Action::Accept,
            Phase::Draining => Action::Drain,
            Phase::Stopping(i) => Action::RunShutdownHook(i),
            Phase::Stopped => Action::Finish,
            Phase::Failed => Action::Fail(self.fault.clone()),
        }
    }

    /// Goes on after an event, and says what to perform then.
    pub fn advance(&mut self, event: Event) -> (action: Action)
        ensures
            final(self)@ == old(self)@.after(event),
            action@ == final(self)@.pending(),
    {
        match (self.phase, event) {
            (Phase::Starting(i), Event::HookDone) => {
                self.phase = if i < self.startup && i + 1 < self.startup {
                    Phase::Starting(i + 1)
                } else {
                    Phase::Binding
                };
            },
            (Phase::Starting(_), Event::HookFailed(why)) => {
                let mut fault = "startup failed: ".to_owned();
                fault.append(why.as_str());
                self.fault = fault;
                self.phase = Phase::Failed;
            },
            (Phase::Binding, Event::Bound) => {
                self.phase = Phase::Accepting;
            },
            (Phase::Binding, Event::BindFailed(why)) => {
                self.fault = why;
                self.phase = Phase::Failed;
            },
            (Phase::Accepting, Event::ShutdownRequested) => {
                self.phase = Phase::Draining;
            },
            (Phase::Draining, Event::Drained) => {
                self.phase = if 0 < self.shutdown {
                    Phase::Stopping(0)
                } else {
                    Phase::Stopped
                };
            },
            (Phase::Stopping(i), Event::HookDone) => {
                self.phase = if i < self.shutdown && i + 1 < self.shutdown {
                    Phase::Stopping(i + 1)
                } else {
                    Phase::Stopped
                };
            },
            _ => {},
        }
        self.action()
    }
}

// ---------------------------------------------------------------------------
// laws
// ---------------------------------------------------------------------------

/// How many of the events report a finished hook.
pub open spec fn hooks_done(events: Seq<Event>) -> nat
    decreases events.len(),
{
    if events.len() == 0 {
        0
    } else {
        hooks_done(events.drop_last()) + if events.last() is HookDone {
            1nat
        } else {
            0nat
        }
    }
}

/// The phases in which the server has listened.
pub open spec fn has_listened(phase: Phase) -> bool {
    match phase {
        Phase::Accepting | Phase::Draining | Phase::Stopping(_) | Phase::Stopped => true,
        _ => false,
    }
}

/// The phases that come after the last request in flight.
pub open spec fn has_drained(phase: Phase) -> bool {
    match phase {
        Phase::Stopping(_) | Phase::Stopped => true,
        _ => false,
    }
}

/// A server that listens has run every startup hook to its end, none refusing.
pub proof fn startup_hooks_run_before_listening(
    startup: usize,
    shutdown: usize,
    events: Seq<Event>,
)
    ensures
        ({
            let life = Life::begun(startup, shutdown).lived(events);
            &&& life.startup == startup && life.shutdown == shutdown
            &&& has_listened(life.phase) ==> hooks_done(events) >= startup
            &&& life.phase is Binding ==> hooks_done(events) >= startup
            &&& life.phase matches Phase::Starting(i) ==> i < startup && hooks_done(events) >= i
        }),
    decreases events.len(),
{
    if events.len() > 0 {
        startup_hooks_run_before_listening(startup, shutdown, events.drop_last());
    }
}

/// A startup hook that refuses ends the server before it has listened, whatever
/// is reported afterwards.
pub proof fn a_refused_startup_never_listens(life: Life, why: String, later: Seq<Event>)
    requires
        life.phase is Starting,
    ensures
        life.after(Event::HookFailed(why)).lived(later).pending() == Step::Fail(
            "startup failed: "@ + why@,
        ),
    decreases later.len(),
{
    if later.len() > 0 {
        a_refused_startup_never_listens(life, why, later.drop_last());
        let before = life.after(Event::HookFailed(why)).lived(later.drop_last());
        assert(before.phase is Failed);
        assert(before.after(later.last()) == before);
    }
}

/// A connection that could not be taken, like one that was, leaves the server
/// accepting.
pub proof fn a_failed_accept_does_not_stop_the_server(life: Life)
    requires
        life.phase is Accepting,
    ensures
        life.after(Event::AcceptFailed) == life,
        life.after(Event::Accepted) == life,
        life.pending() == Step::Accept,
{
}

/// A shutdown hook runs only once the server has been asked to stop and the
/// requests in flight have been answered.
pub proof fn shutdown_hooks_run_after_draining(
    startup: usize,
    shutdown: usize,
    events: Seq<Event>,
)
    ensures
        ({
            let phase = Life::begun(startup, shutdown).lived(events).phase;
            &&& has_drained(phase) ==> events.contains(Event::Drained) && events.contains(
                Event::ShutdownRequested,
            )
            &&& phase is Draining ==> events.contains(Event::ShutdownRequested)
        }),
    decreases events.len(),
{
    if events.len() > 0 {
        let first = events.drop_last();
        shutdown_hooks_run_after_draining(startup, shutdown, first);
        assert(events[events.len() - 1] == events.last());
        if first.contains(Event::ShutdownRequested) {
            let i = choose|i: int| 0 <= i < first.len() && first[i] == Event::ShutdownRequested;
            assert(events[i] == Event::ShutdownRequested);
        }
        if first.contains(Event::Drained) {
            let i = choose|i: int| 0 <= i < first.len() && first[i] == Event::Drained;
            assert(events[i] == Event::Drained);
        }
    }
}

/// Hooks run in the order they were registered, each once: a finished hook is
/// followed by the next one, and the last by what comes after the hooks.
pub proof fn hooks_run_in_order(life: Life, i: usize)
    ensures
        life.phase == Phase::Starting(i) ==> life.after(Event::HookDone).pending() == if i + 1
            < life.startup {
            Step::RunStartupHook((i + 1) as usize)
        } else {
            Step::Bind
        },
        life.phase == Phase::Stopping(i) ==> life.after(Event::HookDone).pending() == if i + 1
            < life.shutdown {
            Step::RunShutdownHook((i + 1) as usize)
        } else {
            Step::Finish
        },
{
}

} // verus!
