//! The lifecycle contract exposed uniformly by the capture side and the
//! publisher, so the process can be driven from outside.

use vstd::prelude::*;

use crate::publisher::ConnState;
use crate::publisher::Publisher;

verus! {

/// Start/stop for components driven through a shared reference, such as a
/// publisher loop owned by its thread.
pub trait Runner<'a> {
    fn start(&self);

    fn stop(&self);
}

/// Start/stop for components that mutate themselves, such as a capture
/// stream handle or the publisher's state machine.
pub trait MutableRunner<'a> {
    fn start(&mut self);

    fn stop(&mut self);
}

impl<'a> MutableRunner<'a> for Publisher {
    /// Mark the publisher running; if it was Disconnected, it moves to
    /// Connecting for its first attempt.
    fn start(&mut self)
        ensures
            final(self).running,
            old(self).state == ConnState::Disconnected ==> final(self).state
                == ConnState::Connecting,
            old(self).state != ConnState::Disconnected ==> final(self).state == old(self).state,
            final(self).retry_count == old(self).retry_count,
            final(self).backlog_model() == old(self).backlog_model(),
            final(self).same_config(*old(self)),
    {
        self.running = true;
        if self.state == ConnState::Disconnected {
            self.state = ConnState::Connecting;
        }
    }

    /// Request cooperative shutdown: the loop observes the cleared flag at
    /// its next iteration and exits; nothing else changes.
    fn stop(&mut self)
        ensures
            !final(self).running,
            final(self).state == old(self).state,
            final(self).retry_count == old(self).retry_count,
            final(self).backlog_model() == old(self).backlog_model(),
            final(self).same_config(*old(self)),
    {
        self.running = false;
    }
}

} // verus!
