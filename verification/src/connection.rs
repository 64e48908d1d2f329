//! The life of one connection: `Connecting`, then `Open`, then `Closed`.
//!
//! The transport reports events; for each, the handler decides the next
//! state and what is to be done to the registry. A connection puts its
//! channel into the registry when it opens and takes its record out when it
//! closes, once, however many reasons to close arrive.

use crate::client::Outbound;
use crate::registry::{Directory, Registry};
use vstd::prelude::*;

verus! {

/// Where a connection stands.
#[derive(Debug, Clone, Copy, PartialEq, Eq, Structural)]
pub enum ConnectionState {
    /// The handshake is in progress.
    Connecting,
    /// Frames flow; the client's channel is in the registry.
    Open,
    /// The connection is over.
    Closed,
}

/// What the transport reports about a connection.
#[derive(Debug)]
pub enum ConnectionEvent {
    /// The handshake succeeded; frames for the client go to this channel.
    Upgraded(Outbound),
    /// The handshake failed.
    HandshakeFailed,
    /// An inbound frame arrived. Its payload is of no interest here.
    FrameReceived,
    /// The peer ended the inbound stream.
    InboundEof,
    /// Reading from the peer failed.
    InboundError,
    /// The outbound channel was closed.
    OutboundClosed,
    /// Writing a frame to the peer failed.
    OutboundError,
    /// The client was unregistered while connected.
    Unregistered,
}

/// What the handler asks for in answer to an event.
#[derive(Debug, Clone, Copy, PartialEq, Eq, Structural)]
pub enum ConnectionAction {
    /// Put the client's channel into the registry.
    Attach,
    /// Take the client's record out of the registry and release the
    /// connection.
    Detach,
    /// Release the connection; the registry never knew of it.
    Release,
    /// Nothing.
    Ignore,
}

/// Whether an event ends a connection.
pub open spec fn ends(event: ConnectionEvent) -> bool {
    !(event is Upgraded) && !(event is FrameReceived)
}

/// The state after `event`, and the action it calls for.
pub open spec fn spec_step(state: ConnectionState, event: ConnectionEvent) -> (
    ConnectionState,
    ConnectionAction,
) {
    match state {
        ConnectionState::Connecting => {
            if event is Upgraded {
                (ConnectionState::Open, ConnectionAction::Attach)
            } else if ends(event) {
                (ConnectionState::Closed, ConnectionAction::Release)
            } else {
                (ConnectionState::Connecting, ConnectionAction::Ignore)
            }
        },
        ConnectionState::Open => {
            if ends(event) {
                (ConnectionState::Closed, ConnectionAction::Detach)
            } else {
                (ConnectionState::Open, ConnectionAction::Ignore)
            }
        },
        ConnectionState::Closed => (ConnectionState::Closed, ConnectionAction::Ignore),
    }
}

/// The directory after `action` was carried out for the client `id`.
pub open spec fn carried_out(
    directory: Directory,
    id: Seq<char>,
    event: ConnectionEvent,
    action: ConnectionAction,
) -> Directory {
    match action {
        ConnectionAction::Attach => match event {
            ConnectionEvent::Upgraded(channel) => directory.insert(id, Some(channel)),
            _ => directory,
        },
        ConnectionAction::Detach => directory.remove(id),
        ConnectionAction::Release => directory,
        ConnectionAction::Ignore => directory,
    }
}

/// Whether `event` ends a connection.
pub fn is_terminal(event: &ConnectionEvent) -> (terminal: bool)
    ensures
        terminal == ends(*event),
{
    match event {
        ConnectionEvent::Upgraded(_) => false,
        ConnectionEvent::FrameReceived => false,
        _ => true,
    }
}

/// Decides the state after `event` and the action it calls for.
pub fn step(state: ConnectionState, event: &ConnectionEvent) -> (next: (
    ConnectionState,
    ConnectionAction,
))
    ensures
        next == spec_step(state, *event),
{
    let terminal = is_terminal(event);
    match state {
        ConnectionState::Connecting => {
            match event {
                ConnectionEvent::Upgraded(_) => (ConnectionState::Open, ConnectionAction::Attach),
                _ => {
                    if terminal {
                        (ConnectionState::Closed, ConnectionAction::Release)
                    } else {
                        (ConnectionState::Connecting, ConnectionAction::Ignore)
                    }
                },
            }
        },
        ConnectionState::Open => {
            if terminal {
                (ConnectionState::Closed, ConnectionAction::Detach)
            } else {
                (ConnectionState::Open, ConnectionAction::Ignore)
            }
        },
        ConnectionState::Closed => (ConnectionState::Closed, ConnectionAction::Ignore),
    }
}

/// The handler of one connection of the client `id`.
#[derive(Debug)]
pub struct Connection {
    id: String,
    state: ConnectionState,
}

impl Connection {
    /// The client this connection belongs to.
    pub closed spec fn spec_id(&self) -> Seq<char> {
        self.id@
    }

    /// Where the connection stands.
    pub closed spec fn spec_state(&self) -> ConnectionState {
        self.state
    }

    /// A connection for `id` whose handshake has begun.
    pub fn new(id: String) -> (connection: Self)
        ensures
            connection.spec_id() == id@,
            connection.spec_state() == ConnectionState::Connecting,
    {
        Connection { id, state: ConnectionState::Connecting }
    }

    /// The client this connection belongs to.
    pub fn id(&self) -> (id: &String)
        ensures
            id@ == self.spec_id(),
    {
        &self.id
    }

    /// Where the connection stands.
    #[verifier::when_used_as_spec(spec_state)]
    pub fn state(&self) -> (state: ConnectionState)
        ensures
            state == self.spec_state(),
    {
        self.state
    }

    /// Whether the connection is over.
    pub fn is_closed(&self) -> (closed: bool)
        ensures
            closed == (self.spec_state() == ConnectionState::Closed),
    {
        match self.state {
            ConnectionState::Closed => true,
            _ => false,
        }
    }

    /// Takes one event: moves to the next state and does to the registry
    /// what the event calls for. Opening puts the event's channel under the
    /// client's name, over whatever record stood there. The first event
    /// that ends an open connection takes the client's record out; on a
    /// closed connection every event leaves the registry as it is.
    pub fn handle(&mut self, registry: &mut Registry, event: ConnectionEvent) -> (action:
        ConnectionAction)
        ensures
            final(registry).wf(),
            final(self).spec_id() == old(self).spec_id(),
            (final(self).spec_state(), action) == spec_step(old(self).spec_state(), event),
            final(registry)@ == carried_out(old(registry)@, old(self).spec_id(), event, action),
    {
        proof {
            use_type_invariant(&*registry);
        }
        let (next, action) = step(self.state, &event);
        self.state = next;
        match action {
            ConnectionAction::Attach => {
                match event {
                    ConnectionEvent::Upgraded(channel) => {
                        registry.upsert(self.id.clone(), Some(channel));
                    },
                    _ => {},
                }
            },
            ConnectionAction::Detach => {
                let _ = registry.remove(&self.id);
            },
            ConnectionAction::Release => {},
            ConnectionAction::Ignore => {},
        }
        action
    }

    /// Ends the connection, whatever state it is in.
    pub fn close(&mut self, registry: &mut Registry) -> (action: ConnectionAction)
        ensures
            final(registry).wf(),
            final(self).spec_id() == old(self).spec_id(),
            final(self).spec_state() == ConnectionState::Closed,
            action == spec_step(old(self).spec_state(), ConnectionEvent::InboundEof).1,
            final(registry)@ == if old(self).spec_state() == ConnectionState::Open {
                old(registry)@.remove(old(self).spec_id())
            } else {
                old(registry)@
            },
    {
        self.handle(registry, ConnectionEvent::InboundEof)
    }
}

} // verus!
