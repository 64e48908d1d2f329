//! The requests that the transport front-end forwards, and the answer to
//! each. Connections are not requests: see the connection handler.

use crate::dispatch::{count_enqueued, enqueued_in, recipients, Delivery};
use crate::message::OutboundMessage;
use crate::registration::{registered, unregistered, RegistryError};
use crate::registry::{Directory, Registry};
use vstd::prelude::*;

verus! {

/// A request that has the shape the front-end asks for.
#[derive(Debug, Clone)]
pub enum Request {
    /// A liveness probe.
    Health,
    /// Register the identifier.
    Register(String),
    /// Unregister the identifier.
    Unregister(String),
    /// Deliver the message.
    Publish(OutboundMessage),
}

/// The answer to a request.
#[derive(Debug, Clone, Copy, PartialEq, Eq, Structural)]
pub enum Response {
    /// The service is alive.
    Healthy,
    /// The identifier is registered.
    Registered,
    /// The identifier's record was removed.
    Unregistered,
    /// The identifier had no record: a failure that the caller is told of.
    NotFound,
    /// The message was handed over; the number is that of the channels
    /// that took it.
    Published(usize),
}

/// The directory after a request was answered.
pub open spec fn after_request(directory: Directory, request: Request) -> Directory {
    match request {
        Request::Health => directory,
        Request::Register(id) => registered(directory, id@),
        Request::Unregister(id) => unregistered(directory, id@),
        Request::Publish(_) => directory,
    }
}

/// The answer to a publish request whose deliveries went as `deliveries`.
pub fn acknowledge(deliveries: &Vec<Delivery>) -> (response: Response)
    ensures
        response matches Response::Published(count) && count == enqueued_in(deliveries@),
        enqueued_in(deliveries@) <= deliveries@.len(),
{
    Response::Published(count_enqueued(deliveries))
}

/// Answers one request against the registry.
///
/// A probe and a publish leave the registry as it is. Registering always
/// succeeds. Unregistering answers `NotFound` where the identifier had no
/// record. Publishing never fails: it answers with the number of channels
/// that took the message, which is at most the number of its recipients.
pub fn handle_request(registry: &mut Registry, request: Request) -> (response: Response)
    ensures
        final(registry).wf(),
        final(registry)@ == after_request(old(registry)@, request),
        match request {
            Request::Health => response == Response::Healthy,
            Request::Register(_) => response == Response::Registered,
            Request::Unregister(id) => response == if old(registry)@.dom().contains(id@) {
                Response::Unregistered
            } else {
                Response::NotFound
            },
            Request::Publish(message) => response matches Response::Published(count) && count
                <= recipients(old(registry)@, message.target_ids()).len(),
        },
{
    proof {
        use_type_invariant(&*registry);
    }
    match request {
        Request::Health => Response::Healthy,
        Request::Register(id) => {
            registry.register(id);
            Response::Registered
        },
        Request::Unregister(id) => {
            match registry.unregister(&id) {
                Ok(()) => Response::Unregistered,
                Err(RegistryError::NotFound) => Response::NotFound,
            }
        },
        Request::Publish(message) => {
            let deliveries = registry.publish(&message);
            acknowledge(&deliveries)
        },
    }
}

} // verus!
