//! The runtime dispatcher: a fixed, ordered list of sinks and a minimum
//! severity threshold, both established once at construction and read-only
//! afterwards. Its one operation gates a record by severity and fans it out.

use crate::level::spec_rank;
use crate::level::LogLevel;
use crate::sink::Record;
use crate::sink::Sink;
use vstd::prelude::*;

verus! {

/// Whether a record at `level` passes a severity gate with the given
/// minimum `threshold`: accepted exactly when its rank is at least the
/// threshold's rank.
pub open spec fn spec_accepts(threshold: LogLevel, level: LogLevel) -> bool {
    spec_rank(level) >= spec_rank(threshold)
}

/// The dispatcher value: sinks in registration order and the minimum
/// severity threshold.
pub struct LoggerManager<S: Sink> {
    sinks: Vec<S>,
    level: LogLevel,
}

impl<S: Sink> LoggerManager<S> {
    /// The minimum severity threshold, fixed at construction.
    pub closed spec fn threshold(&self) -> LogLevel {
        self.level
    }

    /// The registered sinks, in registration order, fixed at construction.
    pub closed spec fn spec_sinks(&self) -> Seq<S> {
        self.sinks@
    }

    /// Whether a record at `level` reaches the sinks.
    pub open spec fn accepts(&self, level: LogLevel) -> bool {
        spec_accepts(self.threshold(), level)
    }

    /// A dispatcher over exactly the given threshold and sinks.
    pub fn new(level: LogLevel, sinks: Vec<S>) -> (r: Self)
        ensures
            r.threshold() == level,
            r.spec_sinks() == sinks@,
    {
        LoggerManager { sinks, level }
    }

    /// The minimum severity threshold.
    pub fn level(&self) -> (r: LogLevel)
        ensures
            r == self.threshold(),
    {
        self.level
    }

    /// Read access to the sinks, for inspecting what they consumed.
    pub fn sinks(&self) -> (r: &Vec<S>)
        ensures
            r@ == self.spec_sinks(),
    {
        &self.sinks
    }

    /// Gate and fan out one record: below the threshold it is dropped
    /// silently and nothing changes; at or above it, exactly this record is
    /// delivered to every sink, in registration order.
    pub fn log(&mut self, event: &str, level: LogLevel, message: &str)
        ensures
            final(self).threshold() == old(self).threshold(),
            final(self).spec_sinks().len() == old(self).spec_sinks().len(),
            old(self).accepts(level) ==> forall|i: int|
                0 <= i < old(self).spec_sinks().len() ==> final(self).spec_sinks()[i].received()
                    == old(self).spec_sinks()[i].received().push(
                    (Record { event: event@, level: level, message: message@ }),
                ),
            !old(self).accepts(level) ==> *final(self) == *old(self),
    {
        if level.to_rank() >= self.level.to_rank() {
            let n = self.sinks.len();
            let mut i: usize = 0;
            while i < n
                invariant
                    n == self.sinks@.len(),
                    i <= n,
                    self.level == old(self).level,
                    forall|j: int| 0 <= j < i ==> self.sinks@[j].received()
                        == old(self).sinks@[j].received().push(
                        (Record { event: event@, level: level, message: message@ }),
                    ),
                    forall|j: int| i <= j < n ==> self.sinks@[j] == old(self).sinks@[j],
                decreases n - i,
            {
                self.sinks[i].accept(event, &level, message);
                i += 1;
            }
        }
    }
}

} // verus!
