//! Event wiring: one dispatcher between the wireless surface and the
//! core components.
//!
//! The transport raises connection lifecycle events and raw writes to
//! the command characteristic; the dispatcher runs the access gate on
//! connections, parses written payloads and queues accepted commands on
//! the command channel, and answers with the actions the wiring layer
//! must perform on the transport (kick the client, stop or resume
//! advertising). The dispatcher runs on the event context and never
//! blocks: the multi-second actuation work happens on the worker
//! context, behind the channel.

use vstd::prelude::*;

use crate::channel::CommandChannel;
use crate::command::{open_payload, parse_command, Command};
use crate::gate::{accepts, slot_after, AccessGate, Decision, DeviceIdentity};
use crate::store::stored_view;

verus! {

/// A connection lifecycle event raised by the transport: a controller
/// connected under some identity, or a connection ended with a
/// vendor-stack reason code.
pub enum ConnectionEvent {
    Connected(DeviceIdentity),
    Disconnected(u32),
}

/// Everything the transport can hand to the core: a lifecycle event, or
/// the raw bytes of one write to the command characteristic.
pub enum DeviceEvent {
    Connection(ConnectionEvent),
    CommandWrite(Vec<u8>),
}

/// An action the wiring layer must perform on the transport in answer
/// to an event.
#[derive(Clone, Copy, PartialEq, Eq, Structural, Debug)]
pub enum WireAction {
    /// Terminate the current link with the given vendor reason code.
    Kick(u32),
    /// Pause advertising while an accepted session is active.
    StopAdvertising,
    /// Resume advertising so the owner can connect again.
    StartAdvertising,
}

/// The event-context state of the device: the access gate with its view
/// of the pairing store, the producer end of the command channel, and
/// the opaque vendor reason code used to kick an unauthorized client.
pub struct DeviceCore {
    pub gate: AccessGate,
    pub channel: CommandChannel,
    pub kick_reason: u32,
}

impl DeviceCore {
    /// A core around the given gate, with an open, empty channel.
    pub fn new(gate: AccessGate, kick_reason: u32) -> (core: Self)
        ensures
            core.gate == gate,
            core.channel.queue@ == Seq::<Command>::empty(),
            !core.channel.closed,
            core.kick_reason == kick_reason,
    {
        DeviceCore { gate, channel: CommandChannel::new(), kick_reason }
    }

    /// Dispatch one transport event.
    ///
    /// A connection runs the access gate: an accepted identity pauses
    /// advertising, a rejected one is kicked with the configured reason
    /// code and advertising resumes. A disconnect resumes advertising.
    /// A written payload is parsed; exactly the canonical open payload
    /// queues one `Open` command (never merged with an earlier one),
    /// anything else is ignored. A queued command is lost only when the
    /// worker side of the channel is gone, which no wire action can
    /// mend.
    pub fn handle_event(&mut self, event: DeviceEvent) -> (acts: Vec<WireAction>)
        ensures
            final(self).kick_reason == old(self).kick_reason,
            match event {
                DeviceEvent::Connection(ConnectionEvent::Connected(id)) => {
                    let accepted = accepts(
                        stored_view(old(self).gate.store.slot),
                        old(self).gate.store.read_fails,
                        id@,
                    );
                    &&& acts@ == if accepted {
                        seq![WireAction::StopAdvertising]
                    } else {
                        seq![WireAction::Kick(old(self).kick_reason), WireAction::StartAdvertising]
                    }
                    &&& stored_view(final(self).gate.store.slot) == slot_after(
                        stored_view(old(self).gate.store.slot),
                        old(self).gate.store.read_fails,
                        old(self).gate.store.write_fails,
                        id@,
                    )
                    &&& final(self).gate.store.read_fails == old(self).gate.store.read_fails
                    &&& final(self).gate.store.write_fails == old(self).gate.store.write_fails
                    &&& final(self).channel == old(self).channel
                },
                DeviceEvent::Connection(ConnectionEvent::Disconnected(_)) => {
                    &&& acts@ == seq![WireAction::StartAdvertising]
                    &&& final(self).gate == old(self).gate
                    &&& final(self).channel == old(self).channel
                },
                DeviceEvent::CommandWrite(data) => {
                    &&& acts@ == Seq::<WireAction>::empty()
                    &&& final(self).gate == old(self).gate
                    &&& final(self).channel.closed == old(self).channel.closed
                    &&& final(self).channel.queue@ == if data@ == open_payload() && !old(
                        self,
                    ).channel.closed {
                        old(self).channel.queue@.push(Command::Open)
                    } else {
                        old(self).channel.queue@
                    }
                },
            },
    {
        let mut acts: Vec<WireAction> = Vec::new();
        match &event {
            DeviceEvent::Connection(ConnectionEvent::Connected(id)) => {
                match self.gate.evaluate(id) {
                    Decision::Accept => {
                        acts.push(WireAction::StopAdvertising);
                    },
                    Decision::Reject => {
                        acts.push(WireAction::Kick(self.kick_reason));
                        acts.push(WireAction::StartAdvertising);
                    },
                }
            },
            DeviceEvent::Connection(ConnectionEvent::Disconnected(_)) => {
                acts.push(WireAction::StartAdvertising);
            },
            DeviceEvent::CommandWrite(data) => {
                match parse_command(data.as_slice()) {
                    Some(command) => {
                        // A closed channel means the worker terminated:
                        // an anomaly to surface, not a crash; the event
                        // path goes on.
                        let _ = self.channel.send(command);
                    },
                    None => {},
                }
            },
        }
        proof {
            match event {
                DeviceEvent::Connection(ConnectionEvent::Connected(id)) => {
                    let accepted = accepts(
                        stored_view(old(self).gate.store.slot),
                        old(self).gate.store.read_fails,
                        id@,
                    );
                    if accepted {
                        assert(acts@ =~= seq![WireAction::StopAdvertising]);
                    } else {
                        assert(acts@ =~= seq![
                            WireAction::Kick(old(self).kick_reason),
                            WireAction::StartAdvertising,
                        ]);
                    }
                },
                DeviceEvent::Connection(ConnectionEvent::Disconnected(_)) => {
                    assert(acts@ =~= seq![WireAction::StartAdvertising]);
                },
                DeviceEvent::CommandWrite(_) => {
                    assert(acts@ =~= Seq::<WireAction>::empty());
                },
            }
        }
        acts
    }
}

} // verus!
