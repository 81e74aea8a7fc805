//! A reduced variant of the dispatcher whose sinks take only the finished
//! message, with no event name or severity level: every message handed to it
//! is fanned out to every sink unconditionally.

use vstd::prelude::*;

verus! {

/// The message-only sink capability: a collaborator that consumes one
/// finished message per call. Its model is the sequence of messages it has
/// consumed, in the order they arrived.
pub trait MessageSink: Sized {
    /// The messages this sink has consumed so far, oldest first.
    spec fn received(&self) -> Seq<Seq<char>>;

    /// Consume one message: exactly this message is appended to the model.
    fn accept(&mut self, message: &str)
        ensures
            final(self).received() == old(self).received().push(message@),
    ;
}

/// A message-only sink that performs no output of its own and keeps every
/// message it is handed, for later inspection.
pub struct RecordingMessageSink {
    messages: Vec<String>,
}

impl RecordingMessageSink {
    /// A fresh sink that has consumed nothing.
    pub fn new() -> (r: RecordingMessageSink)
        ensures
            r.received() == Seq::<Seq<char>>::empty(),
    {
        let r = RecordingMessageSink { messages: Vec::new() };
        proof {
            assert(r.received() =~= Seq::<Seq<char>>::empty());
        }
        r
    }

    /// The consumed messages as plain values, oldest first.
    pub fn messages(&self) -> (r: &Vec<String>)
        ensures
            r@.len() == self.received().len(),
            forall|i: int| 0 <= i < r@.len() ==> r@[i]@ == self.received()[i],
    {
        &self.messages
    }
}

impl MessageSink for RecordingMessageSink {
    closed spec fn received(&self) -> Seq<Seq<char>> {
        self.messages@.map_values(|m: String| m@)
    }

    fn accept(&mut self, message: &str) {
        self.messages.push(message.to_owned());
        proof {
            assert(self.received() =~= old(self).received().push(message@));
        }
    }
}

/// The message-only dispatcher: a fixed, ordered list of sinks established
/// once at construction, with no severity gate.
pub struct LoggerManager<S: MessageSink> {
    sinks: Vec<S>,
}

impl<S: MessageSink> LoggerManager<S> {
    /// The registered sinks, in registration order, fixed at construction.
    pub closed spec fn spec_sinks(&self) -> Seq<S> {
        self.sinks@
    }

    /// A dispatcher over exactly the given sinks.
    pub fn new(sinks: Vec<S>) -> (r: Self)
        ensures
            r.spec_sinks() == sinks@,
    {
        LoggerManager { sinks }
    }

    /// Read access to the sinks, for inspecting what they consumed.
    pub fn sinks(&self) -> (r: &Vec<S>)
        ensures
            r@ == self.spec_sinks(),
    {
        &self.sinks
    }

    /// Fan one message out: exactly this message reaches every sink, in
    /// registration order.
    pub fn log(&mut self, s: &str)
        ensures
            final(self).spec_sinks().len() == old(self).spec_sinks().len(),
            forall|i: int|
                0 <= i < old(self).spec_sinks().len() ==> final(self).spec_sinks()[i].received()
                    == old(self).spec_sinks()[i].received().push(s@),
    {
        let n = self.sinks.len();
        let mut i: usize = 0;
        while i < n
            invariant
                n == self.sinks@.len(),
                i <= n,
                forall|j: int| 0 <= j < i ==> self.sinks@[j].received() == old(
                    self,
                ).sinks@[j].received().push(s@),
                forall|j: int| i <= j < n ==> self.sinks@[j] == old(self).sinks@[j],
            decreases n - i,
        {
            self.sinks[i].accept(s);
            i += 1;
        }
    }
}

} // verus!
