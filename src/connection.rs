//! Connection lifecycle: the disconnect flag, the two background tasks and
//! the link, and the decisions of the uplink pump and the downlink
//! dispatcher.
use vstd::prelude::*;
use crate::error::Error;
use crate::packet::PortRegistry;

verus! {

/// The state of a connection.
#[derive(Clone, Copy, Debug, PartialEq, Eq, Structural)]
pub struct Connection {
    /// The disconnect flag; it flips once, from false to true.
    pub disconnected: bool,
    /// The uplink pump's handle has not been taken yet.
    pub uplink_task: bool,
    /// The dispatcher's handle has not been taken yet.
    pub dispatch_task: bool,
    /// The link has been closed.
    pub link_closed: bool,
}

/// What a call of `disconnect` must do.
#[derive(Clone, Copy, Debug, PartialEq, Eq, Structural)]
pub struct DisconnectSteps {
    /// Wait for the uplink pump to end.
    pub join_uplink: bool,
    /// Wait for the dispatcher to end.
    pub join_dispatcher: bool,
    /// Close the link.
    pub close_link: bool,
}

impl Connection {
    /// A fresh connection: both tasks running, the link open.
    pub fn new() -> (r: Connection)
        ensures
            !r.disconnected && r.uplink_task && r.dispatch_task && !r.link_closed,
    {
        Connection { disconnected: false, uplink_task: true, dispatch_task: true, link_closed: false }
    }

    /// Disconnects: sets the flag, takes the task handles that are still
    /// there and closes the link if it is open. Calling it again does
    /// nothing more.
    pub fn disconnect(&mut self) -> (r: DisconnectSteps)
        ensures
            *final(self) == after_disconnect(*old(self)),
            r == disconnect_steps(*old(self)),
    {
        self.disconnected = true;
        let join_uplink = self.uplink_task;
        let join_dispatcher = self.dispatch_task;
        let close_link = !self.link_closed;
        self.uplink_task = false;
        self.dispatch_task = false;
        self.link_closed = true;
        DisconnectSteps { join_uplink, join_dispatcher, close_link }
    }

    /// What every subsystem call checks first: `Disconnected` once the
    /// connection is closed.
    pub fn check(&self) -> (r: Result<(), Error>)
        ensures
            r == check_spec(*self),
    {
        if self.disconnected {
            Err(Error::Disconnected)
        } else {
            Ok(())
        }
    }
}

/// The state after a call of `disconnect` from `c`: flag set, both task
/// handles taken, link closed.
pub open spec fn after_disconnect(c: Connection) -> Connection {
    Connection { disconnected: true, uplink_task: false, dispatch_task: false, link_closed: true }
}

/// What a call of `disconnect` from `c` must do: join the tasks whose
/// handles are still there, close the link if it is open.
pub open spec fn disconnect_steps(c: Connection) -> DisconnectSteps {
    DisconnectSteps {
        join_uplink: c.uplink_task,
        join_dispatcher: c.dispatch_task,
        close_link: !c.link_closed,
    }
}

/// What the check of a subsystem call gives in state `c`.
pub open spec fn check_spec(c: Connection) -> Result<(), Error> {
    if c.disconnected {
        Err(Error::Disconnected)
    } else {
        Ok(())
    }
}

/// After `disconnect`, every subsystem call fails with `Disconnected`, and
/// a second `disconnect` changes nothing, joins no task and does not close
/// the link again: the link is closed exactly once.
pub proof fn lemma_disconnect_final(c: Connection)
    ensures
        check_spec(after_disconnect(c)) == Err::<(), Error>(Error::Disconnected),
        after_disconnect(after_disconnect(c)) == after_disconnect(c),
        disconnect_steps(after_disconnect(c)) == (DisconnectSteps {
            join_uplink: false,
            join_dispatcher: false,
            close_link: false,
        }),
{
}

/// What the downlink dispatcher got from the link in one wait.
#[derive(Clone, Copy, Debug, PartialEq, Eq, Structural)]
pub enum Inbound {
    /// Nothing within the polling timeout.
    Timeout,
    /// A packet on this port.
    Packet(u8),
    /// The link's receive side failed.
    Closed,
}

/// What the downlink dispatcher does next.
#[derive(Clone, Copy, Debug, PartialEq, Eq, Structural)]
pub enum DispatchAction {
    /// Wait again.
    Continue,
    /// Hand the packet to the receiver of this port, then wait again.
    Forward(u8),
    /// Drop the packet, then wait again.
    Drop,
    /// End the task.
    Exit,
}

/// The dispatcher's decision: it ends once the flag is set or the link
/// fails, forwards packets of registered ports and drops the others.
pub fn dispatch_step(disconnected: bool, ports: &PortRegistry, event: Inbound) -> (r: DispatchAction)
    requires
        ports.wf(),
    ensures
        (disconnected || event == Inbound::Closed) ==> r == DispatchAction::Exit,
        !disconnected && event == Inbound::Timeout ==> r == DispatchAction::Continue,
        event matches Inbound::Packet(p) ==> (!disconnected ==> if ports@.contains(p) {
            r == DispatchAction::Forward(p)
        } else {
            r == DispatchAction::Drop
        }),
{
    if disconnected {
        return DispatchAction::Exit;
    }
    match event {
        Inbound::Timeout => DispatchAction::Continue,
        Inbound::Closed => DispatchAction::Exit,
        Inbound::Packet(p) => {
            if ports.routes(p) {
                DispatchAction::Forward(p)
            } else {
                DispatchAction::Drop
            }
        },
    }
}

/// What the uplink pump got from its queue in one wait.
#[derive(Clone, Copy, Debug, PartialEq, Eq, Structural)]
pub enum Outbound {
    /// Nothing within the polling timeout.
    Timeout,
    /// A packet to send.
    Packet,
    /// Every sender is gone.
    Closed,
}

/// What the uplink pump does next.
#[derive(Clone, Copy, Debug, PartialEq, Eq, Structural)]
pub enum PumpAction {
    /// Wait again.
    Continue,
    /// Send the packet on the link, then wait again (a failed send ends the
    /// task).
    Send,
    /// End the task.
    Exit,
}

/// The pump's decision: it ends once the flag is set or the queue closes,
/// and sends every packet otherwise.
pub fn pump_step(disconnected: bool, event: Outbound) -> (r: PumpAction)
    ensures
        (disconnected || event == Outbound::Closed) ==> r == PumpAction::Exit,
        !disconnected && event == Outbound::Timeout ==> r == PumpAction::Continue,
        !disconnected && event == Outbound::Packet ==> r == PumpAction::Send,
{
    if disconnected {
        return PumpAction::Exit;
    }
    match event {
        Outbound::Timeout => PumpAction::Continue,
        Outbound::Packet => PumpAction::Send,
        Outbound::Closed => PumpAction::Exit,
    }
}

} // verus!
