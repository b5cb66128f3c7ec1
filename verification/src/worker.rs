//! What one download worker does, as a machine that is driven from outside.
//!
//! A worker never touches the network or the disk itself. It names the next
//! thing to be done as an [`Action`]; whoever drives it does that and reports
//! what happened as an [`Event`].
use crate::unit::Unit;
use crate::unit::UnitView;
use crate::MAX_CHAN_COUNT_TRY;
use vstd::prelude::*;

verus! {

/// Where a worker stands between two events.
#[derive(Debug, Clone, PartialEq, Eq)]
pub enum Phase {
    /// It wants the next unit from the shared queue.
    Polling,
    /// It holds a unit and wants to know whether its file is already there.
    Checking { url: String, file: String },
    /// It holds a unit whose file is missing and wants it transferred.
    Transferring { url: String, file: String },
    /// It has seen the queue empty often enough and is finished.
    Stopped,
}

pub enum PhaseView {
    Polling,
    Checking { url: Seq<char>, file: Seq<char> },
    Transferring { url: Seq<char>, file: Seq<char> },
    Stopped,
}

impl View for Phase {
    type V = PhaseView;

    open spec fn view(&self) -> PhaseView {
        match *self {
            Phase::Polling => PhaseView::Polling,
            Phase::Checking { url, file } => PhaseView::Checking { url: url@, file: file@ },
            Phase::Transferring { url, file } => PhaseView::Transferring { url: url@, file: file@ },
            Phase::Stopped => PhaseView::Stopped,
        }
    }
}

/// What the driver reports back to a worker.
#[derive(Debug, Clone, PartialEq, Eq)]
pub enum Event {
    /// The shared queue was polled once: it was empty, or it gave a unit.
    Polled(Option<Unit>),
    /// The destination file was looked for: `true` if it exists.
    Probed(bool),
    /// One transfer was attempted: `true` if the body was received and stored.
    Fetched(bool),
}

pub enum EventView {
    Polled(Option<UnitView>),
    Probed(bool),
    Fetched(bool),
}

impl View for Event {
    type V = EventView;

    open spec fn view(&self) -> EventView {
        match *self {
            Event::Polled(Some(u)) => EventView::Polled(Some(u@)),
            Event::Polled(None) => EventView::Polled(None),
            Event::Probed(b) => EventView::Probed(b),
            Event::Fetched(b) => EventView::Fetched(b),
        }
    }
}

/// What a worker asks its driver to do next.
#[derive(Debug, Clone, PartialEq, Eq)]
pub enum Action {
    /// Poll the shared queue once.
    Poll,
    /// Look whether `file` exists in the download directory.
    Probe { file: String },
    /// Request `url` once and, if the body arrives, store it as `file`.
    Fetch { url: String, file: String },
    /// Nothing more: the worker is finished.
    Stop,
}

pub enum ActionView {
    Poll,
    Probe { file: Seq<char> },
    Fetch { url: Seq<char>, file: Seq<char> },
    Stop,
}

impl View for Action {
    type V = ActionView;

    open spec fn view(&self) -> ActionView {
        match *self {
            Action::Poll => ActionView::Poll,
            Action::Probe { file } => ActionView::Probe { file: file@ },
            Action::Fetch { url, file } => ActionView::Fetch { url: url@, file: file@ },
            Action::Stop => ActionView::Stop,
        }
    }
}

/// The state of a worker as the contracts see it.
pub struct WorkerView {
    /// Transfer attempts allowed per unit.
    pub tries: nat,
    /// Empty polls counted since the counters were last reset.
    pub empty_polls: nat,
    /// Failed attempts on the unit in hand.
    pub retries: nat,
    pub phase: PhaseView,
}

impl WorkerView {
    /// A worker that has not seen any event yet.
    pub open spec fn fresh(tries: nat) -> WorkerView {
        WorkerView { tries, empty_polls: 0, retries: 0, phase: PhaseView::Polling }
    }

    /// The states that a worker can be in.
    pub open spec fn wf(self) -> bool {
        &&& self.empty_polls <= MAX_CHAN_COUNT_TRY
        &&& (self.phase is Stopped <==> self.empty_polls == MAX_CHAN_COUNT_TRY)
        &&& (self.phase is Transferring ==> self.retries < self.tries)
        &&& (!(self.phase is Transferring) ==> self.retries == 0)
    }

    /// Back to polling with both counters at zero.
    pub open spec fn rested(self) -> WorkerView {
        WorkerView { tries: self.tries, empty_polls: 0, retries: 0, phase: PhaseView::Polling }
    }

    /// The action that the worker waits for in this state.
    pub open spec fn pending(self) -> ActionView {
        match self.phase {
            PhaseView::Polling => ActionView::Poll,
            PhaseView::Checking { url, file } => ActionView::Probe { file },
            PhaseView::Transferring { url, file } => ActionView::Fetch { url, file },
            PhaseView::Stopped => ActionView::Stop,
        }
    }

    /// The state after one event. An event that does not answer the pending
    /// action changes nothing.
    pub open spec fn step(self, event: EventView) -> WorkerView {
        match (self.phase, event) {
            (PhaseView::Polling, EventView::Polled(None)) => {
                let seen = self.empty_polls + 1;
                WorkerView {
                    empty_polls: seen,
                    phase: if seen >= MAX_CHAN_COUNT_TRY {
                        PhaseView::Stopped
                    } else {
                        PhaseView::Polling
                    },
                    ..self
                }
            },
            (PhaseView::Polling, EventView::Polled(Some(unit))) => match unit.url {
                None => self,
                Some(url) => WorkerView {
                    phase: PhaseView::Checking { url, file: unit.file_name() },
                    ..self
                },
            },
            (PhaseView::Checking { url, file }, EventView::Probed(true)) => WorkerView {
                phase: PhaseView::Polling,
                ..self
            },
            (PhaseView::Checking { url, file }, EventView::Probed(false)) => {
                if self.retries < self.tries {
                    WorkerView { phase: PhaseView::Transferring { url, file }, ..self }
                } else {
                    self.rested()
                }
            },
            (PhaseView::Transferring { url, file }, EventView::Fetched(true)) => self.rested(),
            (PhaseView::Transferring { url, file }, EventView::Fetched(false)) => {
                if self.retries + 1 < self.tries {
                    WorkerView { retries: self.retries + 1, ..self }
                } else {
                    self.rested()
                }
            },
            _ => self,
        }
    }
}

/// One download worker.
#[derive(Debug)]
pub struct Worker {
    tries: usize,
    chan_counter: usize,
    retry_counter: usize,
    phase: Phase,
}

impl View for Worker {
    type V = WorkerView;

    closed spec fn view(&self) -> WorkerView {
        WorkerView {
            tries: self.tries as nat,
            empty_polls: self.chan_counter as nat,
            retries: self.retry_counter as nat,
            phase: self.phase@,
        }
    }
}

impl Worker {
    #[verifier::type_invariant]
    spec fn well_formed(self) -> bool {
        self@.wf()
    }

    /// A worker that may attempt each transfer `tries` times.
    pub fn new(tries: usize) -> (w: Worker)
        ensures
            w@ == WorkerView::fresh(tries as nat),
            w@.wf(),
    {
        Worker { tries, chan_counter: 0, retry_counter: 0, phase: Phase::Polling }
    }

    /// The action that the worker waits for.
    pub fn pending(&self) -> (a: Action)
        ensures
            a@ == self@.pending(),
    {
        match &self.phase {
            Phase::Polling => Action::Poll,
            Phase::Checking { url, file } => Action::Probe { file: file.clone() },
            Phase::Transferring { url, file } => Action::Fetch {
                url: url.clone(),
                file: file.clone(),
            },
            Phase::Stopped => Action::Stop,
        }
    }

    /// `true` while the worker waits for a unit from the queue.
    pub fn is_polling(&self) -> (b: bool)
        ensures
            b == (self@.phase is Polling),
    {
        match &self.phase {
            Phase::Polling => true,
            _ => false,
        }
    }

    /// `true` once the worker is finished.
    pub fn is_stopped(&self) -> (b: bool)
        ensures
            b == (self@.phase is Stopped),
    {
        match &self.phase {
            Phase::Stopped => true,
            _ => false,
        }
    }

    /// Takes one event and returns the action to perform next.
    pub fn step(&mut self, event: Event) -> (a: Action)
        ensures
            old(self)@.wf(),
            final(self)@.wf(),
            final(self)@ == old(self)@.step(event@),
            a@ == final(self)@.pending(),
    {
        proof {
            use_type_invariant(&*self);
        }
        let mut was = Worker::new(self.tries);
        std::mem::swap(self, &mut was);
        let Worker { tries, chan_counter, retry_counter, phase } = was;
        let rested = Worker { tries, chan_counter: 0, retry_counter: 0, phase: Phase::Polling };
        let next = match (phase, event) {
            (Phase::Polling, Event::Polled(None)) => {
                let seen = chan_counter + 1;
                if seen >= MAX_CHAN_COUNT_TRY {
                    Worker { tries, chan_counter: seen, retry_counter, phase: Phase::Stopped }
                } else {
                    Worker { tries, chan_counter: seen, retry_counter, phase: Phase::Polling }
                }
            },
            (Phase::Polling, Event::Polled(Some(unit))) => {
                let file = unit.file_name();
                match unit.url {
                    None => Worker { tries, chan_counter, retry_counter, phase: Phase::Polling },
                    Some(url) => Worker {
                        tries,
                        chan_counter,
                        retry_counter,
                        phase: Phase::Checking { url, file },
                    },
                }
            },
            (Phase::Checking { url, file }, Event::Probed(true)) => Worker {
                tries,
                chan_counter,
                retry_counter,
                phase: Phase::Polling,
            },
            (Phase::Checking { url, file }, Event::Probed(false)) => {
                if retry_counter < tries {
                    Worker {
                        tries,
                        chan_counter,
                        retry_counter,
                        phase: Phase::Transferring { url, file },
                    }
                } else {
                    rested
                }
            },
            (Phase::Transferring { url, file }, Event::Fetched(true)) => rested,
            (Phase::Transferring { url, file }, Event::Fetched(false)) => {
                if retry_counter + 1 < tries {
                    Worker {
                        tries,
                        chan_counter,
                        retry_counter: retry_counter + 1,
                        phase: Phase::Transferring { url, file },
                    }
                } else {
                    rested
                }
            },
            (phase, _) => Worker { tries, chan_counter, retry_counter, phase },
        };
        *self = next;
        self.pending()
    }
}

} // verus!
