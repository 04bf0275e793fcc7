//! The decisions of the event loop, as a state machine.
use vstd::prelude::*;

verus! {

/// How the handling of a fetched event ends, as reported to its source.
#[derive(Clone, Copy, Debug, PartialEq, Eq, Structural)]
pub enum Outcome {
    Succeeded,
    Failed,
    Skipped,
}

/// Where the worker stands in its loop.
#[derive(Clone, Copy, Debug, PartialEq, Eq, Structural)]
pub enum Phase {
    /// Between two events: the activeness flag is read next.
    Boundary,
    /// Waiting for the source's pending event.
    Fetching,
    /// An event is in hand; waiting for the handlers that the resolver gives.
    Resolving,
    /// Waiting for the event's transaction to open.
    Opening { handlers: usize },
    /// Handler `next` of `handlers` runs inside the open transaction.
    Handling { next: usize, handlers: usize },
    /// The first `done` handlers succeeded; `left` events that the last of
    /// them produced are still to be stored in the open transaction.
    Storing { done: usize, handlers: usize, left: usize },
    /// Every handler succeeded: waiting for the transaction to commit.
    Committing,
    /// The activeness flag was found down: the run is over.
    Stopped,
    /// A transaction could not be opened or committed, or an answer did not
    /// fit the question asked: the run cannot go on.
    Halted,
}

/// What the driver of the loop reports back after carrying out an action.
#[derive(Clone, Copy, Debug, PartialEq, Eq, Structural)]
pub enum Observation {
    /// The activeness flag: `true` while the worker is to keep running.
    Activeness(bool),
    /// Whether the source had a pending event.
    Fetched(bool),
    /// How many handlers the resolver gave, or `None` for no handler at all.
    Resolved(Option<usize>),
    /// Whether the transaction opened.
    Opened(bool),
    /// How many events the handler produced, or `None` when it failed.
    Handled(Option<usize>),
    /// Whether the produced event was written.
    Stored(bool),
    /// Whether the transaction committed.
    Committed(bool),
}

/// What the driver of the loop is to do next.
#[derive(Clone, Copy, Debug, PartialEq, Eq, Structural)]
pub enum Action {
    /// Read the activeness flag.
    ReadActiveness,
    /// Ask the source for its pending event.
    Fetch,
    /// Ask the resolver for the event's handlers.
    Resolve,
    /// Open a transaction for the event.
    Begin,
    /// Run the handler at this position in the open transaction.
    RunHandler(usize),
    /// Write the next event that the last handler produced, in the open transaction.
    StoreProduced,
    /// Commit the open transaction.
    Commit,
    /// Report the outcome to the source. On `Failed` an open transaction is
    /// dropped without commit, which discards everything written in it.
    Finalize(Outcome),
    /// End the run.
    Stop,
    /// End the run on an error that the loop cannot recover from.
    Halt,
}

impl Phase {
    /// Positions and counts are consistent.
    pub open spec fn wf(self) -> bool {
        match self {
            Phase::Handling { next, handlers } => next < handlers,
            Phase::Storing { done, handlers, left } => done <= handlers && left > 0,
            _ => true,
        }
    }

    /// An event has been fetched and has not been finalized yet.
    pub open spec fn holds_event(self) -> bool {
        match self {
            Phase::Resolving | Phase::Opening { .. } | Phase::Handling { .. } | Phase::Storing { .. }
            | Phase::Committing => true,
            _ => false,
        }
    }

    /// A transaction is open.
    pub open spec fn in_transaction(self) -> bool {
        match self {
            Phase::Handling { .. } | Phase::Storing { .. } | Phase::Committing => true,
            _ => false,
        }
    }
}

/// After the first `done` handlers succeeded: run the next one, or commit.
pub open spec fn resume(done: usize, handlers: usize) -> (Phase, Action) {
    if done < handlers {
        (Phase::Handling { next: done, handlers }, Action::RunHandler(done))
    } else {
        (Phase::Committing, Action::Commit)
    }
}

/// One step of the worker: from a phase and the answer to its question, the
/// next phase and the next action. `db` tells whether a database is configured.
pub open spec fn transition(db: bool, p: Phase, o: Observation) -> (Phase, Action) {
    let halt = (Phase::Halted, Action::Halt);
    match p {
        Phase::Boundary => match o {
            Observation::Activeness(true) => (Phase::Fetching, Action::Fetch),
            Observation::Activeness(false) => (Phase::Stopped, Action::Stop),
            _ => halt,
        },
        Phase::Fetching => match o {
            Observation::Fetched(true) => (Phase::Resolving, Action::Resolve),
            Observation::Fetched(false) => (Phase::Boundary, Action::ReadActiveness),
            _ => halt,
        },
        Phase::Resolving => match o {
            Observation::Resolved(None) => (Phase::Boundary, Action::Finalize(Outcome::Skipped)),
            Observation::Resolved(Some(n)) => if db {
                (Phase::Opening { handlers: n }, Action::Begin)
            } else {
                (Phase::Boundary, Action::Finalize(Outcome::Succeeded))
            },
            _ => halt,
        },
        Phase::Opening { handlers } => match o {
            Observation::Opened(true) => resume(0, handlers),
            _ => halt,
        },
        Phase::Handling { next, handlers } => match o {
            Observation::Handled(None) => (Phase::Boundary, Action::Finalize(Outcome::Failed)),
            Observation::Handled(Some(k)) => if k == 0 {
                resume((next + 1) as usize, handlers)
            } else {
                (Phase::Storing { done: (next + 1) as usize, handlers, left: k }, Action::StoreProduced)
            },
            _ => halt,
        },
        Phase::Storing { done, handlers, left } => match o {
            Observation::Stored(false) => (Phase::Boundary, Action::Finalize(Outcome::Failed)),
            Observation::Stored(true) => if left > 1 {
                (Phase::Storing { done, handlers, left: (left - 1) as usize }, Action::StoreProduced)
            } else {
                resume(done, handlers)
            },
            _ => halt,
        },
        Phase::Committing => match o {
            Observation::Committed(true) => (Phase::Boundary, Action::Finalize(Outcome::Succeeded)),
            _ => halt,
        },
        Phase::Stopped => (Phase::Stopped, Action::Stop),
        Phase::Halted => (Phase::Halted, Action::Halt),
    }
}

/// The decisions of the event loop. The loop itself, with the event source,
/// the resolver, the handlers and the database, is driven from outside: the
/// driver carries out each action and hands back what it observed.
pub struct Worker {
    phase: Phase,
    db: bool,
}

impl Worker {
    #[verifier::type_invariant]
    spec fn inv(&self) -> bool {
        self.phase.wf()
    }

    /// Where the worker stands.
    pub closed spec fn spec_phase(&self) -> Phase {
        self.phase
    }

    /// Whether a database is configured.
    pub closed spec fn spec_db(&self) -> bool {
        self.db
    }

    /// A worker at its first iteration boundary, with no database.
    pub fn new() -> (r: Worker)
        ensures
            r.spec_phase() == Phase::Boundary,
            !r.spec_db(),
    {
        Worker { phase: Phase::Boundary, db: false }
    }

    /// The same worker with a database configured: resolved handlers then run
    /// in a transaction.
    pub fn with_db(self) -> (r: Worker)
        ensures
            r.spec_phase() == self.spec_phase(),
            r.spec_db(),
    {
        proof {
            use_type_invariant(&self);
        }
        Worker { phase: self.phase, db: true }
    }

    /// Where the worker stands.
    pub fn phase(&self) -> (r: Phase)
        ensures
            r == self.spec_phase(),
            r.wf(),
    {
        proof {
            use_type_invariant(self);
        }
        self.phase
    }

    /// Whether a database is configured.
    pub fn has_db(&self) -> (r: bool)
        ensures
            r == self.spec_db(),
    {
        self.db
    }

    /// What to do from where the worker stands, before any answer: read the
    /// activeness flag at the boundary, end the run once it is over, and
    /// halt anywhere else, since an answer is owed there.
    pub fn start(&self) -> (r: Action)
        ensures
            r == (match self.spec_phase() {
                Phase::Boundary => Action::ReadActiveness,
                Phase::Stopped => Action::Stop,
                _ => Action::Halt,
            }),
    {
        match self.phase {
            Phase::Boundary => Action::ReadActiveness,
            Phase::Stopped => Action::Stop,
            _ => Action::Halt,
        }
    }

    /// Takes in the answer to the last action and decides the next one.
    pub fn step(&mut self, o: Observation) -> (r: Action)
        ensures
            final(self).spec_db() == old(self).spec_db(),
            (final(self).spec_phase(), r) == transition(old(self).spec_db(), old(self).spec_phase(), o),
    {
        proof {
            use_type_invariant(&*self);
        }
        let (phase, action) = next_of(self.db, self.phase, o);
        self.phase = phase;
        action
    }
}

fn resume_exec(done: usize, handlers: usize) -> (r: (Phase, Action))
    ensures
        r == resume(done, handlers),
{
    if done < handlers {
        (Phase::Handling { next: done, handlers }, Action::RunHandler(done))
    } else {
        (Phase::Committing, Action::Commit)
    }
}

fn next_of(db: bool, p: Phase, o: Observation) -> (r: (Phase, Action))
    requires
        p.wf(),
    ensures
        r == transition(db, p, o),
        r.0.wf(),
{
    let halt = (Phase::Halted, Action::Halt);
    match p {
        Phase::Boundary => match o {
            Observation::Activeness(true) => (Phase::Fetching, Action::Fetch),
            Observation::Activeness(false) => (Phase::Stopped, Action::Stop),
            _ => halt,
        },
        Phase::Fetching => match o {
            Observation::Fetched(true) => (Phase::Resolving, Action::Resolve),
            Observation::Fetched(false) => (Phase::Boundary, Action::ReadActiveness),
            _ => halt,
        },
        Phase::Resolving => match o {
            Observation::Resolved(None) => (Phase::Boundary, Action::Finalize(Outcome::Skipped)),
            Observation::Resolved(Some(n)) => if db {
                (Phase::Opening { handlers: n }, Action::Begin)
            } else {
                (Phase::Boundary, Action::Finalize(Outcome::Succeeded))
            },
            _ => halt,
        },
        Phase::Opening { handlers } => match o {
            Observation::Opened(true) => resume_exec(0, handlers),
            _ => halt,
        },
        Phase::Handling { next, handlers } => match o {
            Observation::Handled(None) => (Phase::Boundary, Action::Finalize(Outcome::Failed)),
            Observation::Handled(Some(k)) => if k == 0 {
                resume_exec(next + 1, handlers)
            } else {
                (Phase::Storing { done: next + 1, handlers, left: k }, Action::StoreProduced)
            },
            _ => halt,
        },
        Phase::Storing { done, handlers, left } => match o {
            Observation::Stored(false) => (Phase::Boundary, Action::Finalize(Outcome::Failed)),
            Observation::Stored(true) => if left > 1 {
                (Phase::Storing { done, handlers, left: left - 1 }, Action::StoreProduced)
            } else {
                resume_exec(done, handlers)
            },
            _ => halt,
        },
        Phase::Committing => match o {
            Observation::Committed(true) => (Phase::Boundary, Action::Finalize(Outcome::Succeeded)),
            _ => halt,
        },
        Phase::Stopped => (Phase::Stopped, Action::Stop),
        Phase::Halted => (Phase::Halted, Action::Halt),
    }
}

} // verus!
