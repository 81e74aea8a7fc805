//! The process-wide dispatcher slot: absent until the one successful
//! initialization, then ready and read-only for its remaining lifetime.
//!
//! The slot is a value with an explicit state machine. A host program that
//! wants a process-wide singleton holds exactly one such value behind its
//! global synchronization primitive; every transition the slot can make is
//! stated and proved here.

use crate::level::LogError;
use crate::level::LogLevel;
use crate::manager::spec_accepts;
use crate::manager::LoggerManager;
use crate::sink::Record;
use crate::sink::Sink;
use vstd::prelude::*;

verus! {

/// The one-time initialization transition: from the absent state the call
/// installs exactly the given threshold and sinks and succeeds; from a ready
/// state it fails with `AlreadyInitialized` and changes nothing.
pub open spec fn spec_initialize<S>(
    s: Option<(LogLevel, Seq<S>)>,
    level: LogLevel,
    sinks: Seq<S>,
) -> (Option<(LogLevel, Seq<S>)>, Result<(), LogError>) {
    match s {
        None => (Some((level, sinks)), Ok(())),
        Some(cur) => (Some(cur), Err(LogError::AlreadyInitialized)),
    }
}

/// The dispatcher slot.
pub struct Registry<S: Sink> {
    manager: Option<LoggerManager<S>>,
}

impl<S: Sink> Registry<S> {
    /// The observable state: absent, or ready with the installed threshold
    /// and sinks.
    pub closed spec fn state(&self) -> Option<(LogLevel, Seq<S>)> {
        match self.manager {
            None => None,
            Some(m) => Some((m.threshold(), m.spec_sinks())),
        }
    }

    /// Whether the one successful initialization has happened.
    pub open spec fn is_ready(&self) -> bool {
        self.state() is Some
    }

    /// A fresh, observably absent slot.
    pub fn new() -> (r: Self)
        ensures
            !r.is_ready(),
    {
        Registry { manager: None }
    }

    /// One-time initialization: the first call wins and installs exactly the
    /// given threshold and sinks; every later call fails with
    /// `AlreadyInitialized` and leaves the installed state untouched.
    pub fn initialize(&mut self, level: LogLevel, sinks: Vec<S>) -> (r: Result<(), LogError>)
        ensures
            (final(self).state(), r) == spec_initialize(old(self).state(), level, sinks@),
            old(self).is_ready() ==> *final(self) == *old(self),
    {
        if self.manager.is_some() {
            Err(LogError::AlreadyInitialized)
        } else {
            self.manager = Some(LoggerManager::new(level, sinks));
            Ok(())
        }
    }

    /// The dispatcher if initialized, or absent otherwise.
    pub fn current(&self) -> (r: Option<&LoggerManager<S>>)
        ensures
            r is Some <==> self.is_ready(),
            r matches Some(m) ==> self.state() == Some((m.threshold(), m.spec_sinks())),
    {
        match &self.manager {
            Some(m) => Some(m),
            None => None,
        }
    }

    /// Forward one record to the dispatcher, when there is one. Before
    /// initialization this is a silent no-op. Afterwards the record is gated
    /// by the installed threshold: below it nothing changes, at or above it
    /// exactly this record reaches every sink, in registration order, and
    /// the installed threshold and sink count stay as they were.
    pub fn log(&mut self, event: &str, level: LogLevel, message: &str)
        ensures
            !old(self).is_ready() ==> *final(self) == *old(self),
            old(self).is_ready() && !spec_accepts(old(self).state()->Some_0.0, level)
                ==> *final(self) == *old(self),
            old(self).is_ready() && spec_accepts(old(self).state()->Some_0.0, level) ==> {
                &&& final(self).is_ready()
                &&& final(self).state()->Some_0.0 == old(self).state()->Some_0.0
                &&& final(self).state()->Some_0.1.len() == old(self).state()->Some_0.1.len()
                &&& forall|i: int|
                    0 <= i < old(self).state()->Some_0.1.len()
                        ==> final(self).state()->Some_0.1[i].received() == old(
                        self,
                    ).state()->Some_0.1[i].received().push(
                        (Record { event: event@, level: level, message: message@ }),
                    )
            },
    {
        match &mut self.manager {
            Some(m) => m.log(event, level, message),
            None => (),
        }
    }
}

/// One-time initialization law: from the absent state an initialization
/// succeeds and installs exactly the given threshold and sinks, and every
/// initialization attempted from a ready state fails with
/// `AlreadyInitialized` and leaves the state unchanged — so of any sequence
/// of initialization attempts exactly the first succeeds.
pub proof fn lemma_initialize_once<S>(
    level1: LogLevel,
    sinks1: Seq<S>,
    level2: LogLevel,
    sinks2: Seq<S>,
)
    ensures
        spec_initialize(None::<(LogLevel, Seq<S>)>, level1, sinks1) == (
            Some((level1, sinks1)),
            Ok::<(), LogError>(()),
        ),
        forall|s: Option<(LogLevel, Seq<S>)>|
            s is Some ==> #[trigger] spec_initialize(s, level2, sinks2) == (
                s,
                Err::<(), LogError>(LogError::AlreadyInitialized),
            ),
{
}

} // verus!
