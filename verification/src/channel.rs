//! Command channel: the conduit between the wireless event context and
//! the actuation worker.
//!
//! The channel is single-producer/single-consumer, order-preserving and
//! unbounded: the event handlers enqueue without ever blocking, and the
//! worker drains the backlog one command at a time. Commands are never
//! merged or deduplicated — two queued `Open` commands mean two full
//! actuation cycles. This module models the conduit as the queue of
//! commands submitted but not yet consumed, plus the closed flag that a
//! terminated consumer leaves behind.

use vstd::prelude::*;

use crate::command::Command;

verus! {

/// Error returned by `send` when the consumer side has terminated.
/// Losing the worker is an operational anomaly worth surfacing, but it
/// never crashes the producer path.
#[derive(Clone, Copy, PartialEq, Eq, Structural, Debug)]
pub struct ChannelClosed;

/// The command conduit: pending commands in submission order, oldest
/// first, and whether the consumer side has terminated.
pub struct CommandChannel {
    pub queue: Vec<Command>,
    pub closed: bool,
}

impl CommandChannel {
    /// An open channel with no pending command.
    pub fn new() -> (c: Self)
        ensures
            c.queue@ == Seq::<Command>::empty(),
            !c.closed,
    {
        CommandChannel { queue: Vec::new(), closed: false }
    }

    /// Submit one command. On an open channel the command joins the back
    /// of the queue and the producer never blocks; on a closed channel
    /// nothing is queued and the producer learns that the consumer is
    /// gone.
    pub fn send(&mut self, command: Command) -> (r: Result<(), ChannelClosed>)
        ensures
            !old(self).closed ==> {
                &&& r is Ok
                &&& final(self).queue@ == old(self).queue@.push(command)
                &&& !final(self).closed
            },
            old(self).closed ==> r is Err && *final(self) == *old(self),
    {
        if self.closed {
            Err(ChannelClosed)
        } else {
            self.queue.push(command);
            Ok(())
        }
    }

    /// Take the oldest pending command, in submission order. `None`
    /// means the queue is drained — the point where the real worker
    /// blocks until the next submission.
    pub fn receive(&mut self) -> (r: Option<Command>)
        ensures
            old(self).queue@.len() == 0 ==> r is None && *final(self) == *old(self),
            old(self).queue@.len() > 0 ==> {
                &&& r == Option::Some(old(self).queue@[0])
                &&& final(self).queue@ == old(self).queue@.drop_first()
            },
            final(self).closed == old(self).closed,
    {
        if self.queue.len() == 0 {
            None
        } else {
            let command = self.queue.remove(0);
            proof {
                assert(self.queue@ =~= old(self).queue@.drop_first());
            }
            Some(command)
        }
    }

    /// Mark the consumer side as terminated: every later `send` fails.
    pub fn close(&mut self)
        ensures
            final(self).closed,
            final(self).queue@ == old(self).queue@,
    {
        self.closed = true;
    }
}

} // verus!
