//! What holds of the relay as a whole, proved from the contracts of its
//! operations.

use crate::client::Outbound;
use crate::connection::{
    carried_out, ends, spec_step, ConnectionAction, ConnectionEvent, ConnectionState,
};
use crate::dispatch::{connected_ids, recipients};
use crate::registration::{registered, unregister_outcome, unregistered, RegistryError};
use crate::registry::{Directory, Registry};
use vstd::prelude::*;

verus! {

/// One step of registration, as the registration service is asked for it.
pub enum RegistrationOp {
    Register(Seq<char>),
    Unregister(Seq<char>),
}

/// The directory after one step of registration.
pub open spec fn applied(directory: Directory, op: RegistrationOp) -> Directory {
    match op {
        RegistrationOp::Register(id) => registered(directory, id),
        RegistrationOp::Unregister(id) => unregistered(directory, id),
    }
}

/// The directory after a run of registration steps, first to last.
pub open spec fn replayed(directory: Directory, ops: Seq<RegistrationOp>) -> Directory
    decreases ops.len(),
{
    if ops.len() == 0 {
        directory
    } else {
        applied(replayed(directory, ops.drop_last()), ops.last())
    }
}

/// A well-formed registry holds each identifier at one place only, and an
/// identifier is in its directory exactly when it has a record.
pub proof fn law_one_record_per_identifier(registry: Registry, id: Seq<char>)
    requires
        registry.wf(),
    ensures
        forall|i: int, j: int|
            0 <= i < registry.names().len() && 0 <= j < registry.names().len()
                && registry.names()[i] == id && registry.names()[j] == id ==> i == j,
        registry@.dom().contains(id) <==> registry.names().contains(id),
{
}

/// Once an identifier is unregistered it is gone: looking it up fails, and
/// unregistering it again answers `NotFound` and changes nothing.
pub proof fn law_unregistered_is_not_found(directory: Directory, id: Seq<char>)
    ensures
        !unregistered(directory, id).dom().contains(id),
        unregister_outcome(unregistered(directory, id), id) == Err::<(), RegistryError>(
            RegistryError::NotFound,
        ),
        unregistered(unregistered(directory, id), id) == unregistered(directory, id),
{
    assert(unregistered(unregistered(directory, id), id) =~= unregistered(directory, id));
}

/// After any run of registrations and unregistrations, whoever was
/// unregistered last is not found, and whoever was registered last is.
pub proof fn law_last_step_decides(directory: Directory, ops: Seq<RegistrationOp>)
    requires
        ops.len() > 0,
    ensures
        match ops.last() {
            RegistrationOp::Register(id) => replayed(directory, ops).dom().contains(id),
            RegistrationOp::Unregister(id) => !replayed(directory, ops).dom().contains(id)
                && unregister_outcome(replayed(directory, ops), id) == Err::<(), RegistryError>(
                RegistryError::NotFound,
            ),
        },
{
}

/// Registration steps never touch the channel of a connected client other
/// than to remove it on request.
pub proof fn law_registration_keeps_connections(
    directory: Directory,
    op: RegistrationOp,
    id: Seq<char>,
)
    requires
        directory.dom().contains(id),
        directory[id] is Some,
        op != RegistrationOp::Unregister(id),
    ensures
        applied(directory, op).dom().contains(id),
        applied(directory, op)[id] == directory[id],
{
}

/// Registering and then connecting leaves the identifier with the live
/// channel and nothing more: the same directory as connecting alone.
pub proof fn law_connect_overwrites_registration(
    directory: Directory,
    id: Seq<char>,
    channel: Outbound,
)
    ensures
        spec_step(ConnectionState::Connecting, ConnectionEvent::Upgraded(channel)) == (
            ConnectionState::Open,
            ConnectionAction::Attach,
        ),
        carried_out(
            registered(directory, id),
            id,
            ConnectionEvent::Upgraded(channel),
            ConnectionAction::Attach,
        ) == directory.insert(id, Some(channel)),
        directory.insert(id, Some(channel))[id] == Some(channel),
        directory.insert(id, Some(channel)).dom() == directory.dom().insert(id),
{
    assert(registered(directory, id).insert(id, Some(channel)) =~= directory.insert(
        id,
        Some(channel),
    ));
}

/// A broadcast is for every connected client and for no one else.
pub proof fn law_broadcast_reaches_all_connected(directory: Directory, targets: Seq<Seq<char>>)
    requires
        targets.len() == 0,
    ensures
        recipients(directory, targets) == connected_ids(directory),
{
    assert(recipients(directory, targets) =~= connected_ids(directory));
}

/// A message with targets is for those of them that are connected: a
/// target that is unknown, or registered without a connection, gets
/// nothing, and so does everyone that is not a target.
pub proof fn law_targets_limit_recipients(
    directory: Directory,
    targets: Seq<Seq<char>>,
    id: Seq<char>,
)
    requires
        targets.len() > 0,
    ensures
        recipients(directory, targets).contains(id) <==> targets.contains(id)
            && connected_ids(directory).contains(id),
        !directory.dom().contains(id) ==> !recipients(directory, targets).contains(id),
        directory.dom().contains(id) && directory[id] is None ==> !recipients(
            directory,
            targets,
        ).contains(id),
        recipients(directory, targets).subset_of(connected_ids(directory)),
{
}

/// A client that disconnected is no recipient of any later message, and
/// the others are recipients as before.
pub proof fn law_disconnected_is_not_reached(
    directory: Directory,
    id: Seq<char>,
    event: ConnectionEvent,
    targets: Seq<Seq<char>>,
)
    requires
        ends(event),
    ensures
        spec_step(ConnectionState::Open, event) == (
            ConnectionState::Closed,
            ConnectionAction::Detach,
        ),
        !carried_out(directory, id, event, ConnectionAction::Detach).dom().contains(id),
        recipients(carried_out(directory, id, event, ConnectionAction::Detach), targets)
            == recipients(directory, targets).remove(id),
{
    let after = carried_out(directory, id, event, ConnectionAction::Detach);
    assert(recipients(after, targets) =~= recipients(directory, targets).remove(id));
}

/// The actions that a run of events calls for, from `state` on.
pub open spec fn actions_of(state: ConnectionState, events: Seq<ConnectionEvent>) -> Seq<
    ConnectionAction,
>
    decreases events.len(),
{
    if events.len() == 0 {
        Seq::empty()
    } else {
        let (next, action) = spec_step(state, events.first());
        seq![action] + actions_of(next, events.drop_first())
    }
}

/// The state that a run of events ends in, from `state` on.
pub open spec fn state_after(state: ConnectionState, events: Seq<ConnectionEvent>) -> ConnectionState
    decreases events.len(),
{
    if events.len() == 0 {
        state
    } else {
        state_after(spec_step(state, events.first()).0, events.drop_first())
    }
}

/// How often `action` occurs in `actions`.
pub open spec fn occurrences(actions: Seq<ConnectionAction>, action: ConnectionAction) -> nat
    decreases actions.len(),
{
    if actions.len() == 0 {
        0
    } else {
        let rest = occurrences(actions.drop_first(), action);
        if actions.first() == action {
            rest + 1
        } else {
            rest
        }
    }
}

/// A closed connection stays closed and asks for nothing more.
pub proof fn law_closed_is_final(events: Seq<ConnectionEvent>)
    ensures
        state_after(ConnectionState::Closed, events) == ConnectionState::Closed,
        occurrences(actions_of(ConnectionState::Closed, events), ConnectionAction::Detach) == 0,
        occurrences(actions_of(ConnectionState::Closed, events), ConnectionAction::Attach) == 0,
    decreases events.len(),
{
    if events.len() > 0 {
        law_closed_is_final(events.drop_first());
        let actions = actions_of(ConnectionState::Closed, events);
        assert(actions.drop_first() =~= actions_of(ConnectionState::Closed, events.drop_first()));
    }
}

/// Whatever events arrive, and in whatever order, a connection's record is
/// taken out of the registry at most once, and exactly once where an open
/// connection has come to its end.
pub proof fn law_detach_once(state: ConnectionState, events: Seq<ConnectionEvent>)
    ensures
        occurrences(actions_of(state, events), ConnectionAction::Detach) <= 1,
        state == ConnectionState::Open && state_after(state, events) == ConnectionState::Closed
            ==> occurrences(actions_of(state, events), ConnectionAction::Detach) == 1,
        occurrences(actions_of(state, events), ConnectionAction::Detach) == 1 ==> state_after(
            state,
            events,
        ) == ConnectionState::Closed,
    decreases events.len(),
{
    if events.len() > 0 {
        let (next, action) = spec_step(state, events.first());
        let actions = actions_of(state, events);
        assert(actions.drop_first() =~= actions_of(next, events.drop_first()));
        assert(actions.first() == action);
        if next == ConnectionState::Closed {
            law_closed_is_final(events.drop_first());
        } else {
            law_detach_once(next, events.drop_first());
            if state == ConnectionState::Connecting && next == ConnectionState::Open {
                assert(action == ConnectionAction::Attach);
            }
        }
    }
}

} // verus!
