//! The sink-facing contract: the model of a delivered log record, the sink
//! capability, and an in-memory sink that keeps every record it is handed.

use crate::level::LogLevel;
use vstd::prelude::*;

verus! {

/// The mathematical model of one delivered log record: the tuple of event
/// name, severity level and rendered message for a single invocation.
pub ghost struct Record {
    pub event: Seq<char>,
    pub level: LogLevel,
    pub message: Seq<char>,
}

/// The sink capability: a collaborator that consumes one finished log record
/// per call and answers for its own side effects. Its model is the sequence
/// of records it has consumed, in the order they arrived.
pub trait Sink: Sized {
    /// The records this sink has consumed so far, oldest first.
    spec fn received(&self) -> Seq<Record>;

    /// Consume one record: exactly this record is appended to the model.
    fn accept(&mut self, event: &str, level: &LogLevel, message: &str)
        ensures
            final(self).received() == old(self).received().push(
                (Record { event: event@, level: *level, message: message@ }),
            ),
    ;
}

/// One consumed record held as plain values.
#[derive(Debug, PartialEq, Eq)]
pub struct LogRecord {
    pub event: String,
    pub level: LogLevel,
    pub message: String,
}

impl View for LogRecord {
    type V = Record;

    open spec fn view(&self) -> Record {
        Record { event: self.event@, level: self.level, message: self.message@ }
    }
}

/// A sink that performs no output of its own and simply keeps every record
/// it is handed, for later inspection.
pub struct RecordingSink {
    records: Vec<LogRecord>,
}

impl RecordingSink {
    /// A fresh sink that has consumed nothing.
    pub fn new() -> (r: RecordingSink)
        ensures
            r.received() == Seq::<Record>::empty(),
    {
        let r = RecordingSink { records: Vec::new() };
        proof {
            assert(r.received() =~= Seq::<Record>::empty());
        }
        r
    }

    /// The consumed records as plain values, oldest first.
    pub fn records(&self) -> (r: &Vec<LogRecord>)
        ensures
            r@.len() == self.received().len(),
            forall|i: int| 0 <= i < r@.len() ==> r@[i]@ == self.received()[i],
    {
        &self.records
    }
}

impl Sink for RecordingSink {
    closed spec fn received(&self) -> Seq<Record> {
        self.records@.map_values(|r: LogRecord| r@)
    }

    fn accept(&mut self, event: &str, level: &LogLevel, message: &str) {
        let record = LogRecord {
            event: event.to_owned(),
            level: *level,
            message: message.to_owned(),
        };
        self.records.push(record);
        proof {
            assert(self.received() =~= old(self).received().push(
                (Record { event: event@, level: *level, message: message@ }),
            ));
        }
    }
}

} // verus!
