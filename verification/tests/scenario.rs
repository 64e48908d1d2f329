use pubsub_relay::connection::{Connection, ConnectionAction, ConnectionEvent};
use pubsub_relay::message::OutboundMessage;
use pubsub_relay::registration::RegistryError;
use pubsub_relay::registry::Registry;
use pubsub_relay::service::{handle_request, Request, Response};
use tokio::sync::mpsc::unbounded_channel;

fn alice() -> String {
    String::from("alice")
}

#[test]
fn alice_registers_connects_and_hears_a_broadcast() {
    let mut registry = Registry::new();
    registry.register(alice());
    assert!(registry.contains(&alice()));
    assert!(!registry.is_connected(&alice()));

    let (tx, mut rx) = unbounded_channel();
    registry.upsert(alice(), Some(tx));
    assert_eq!(registry.len(), 1);
    assert!(registry.is_connected(&alice()));

    let deliveries = registry.publish(&OutboundMessage::broadcast(String::from("hi")));
    assert_eq!(deliveries.len(), 1);
    assert_eq!(deliveries[0].recipient, "alice");
    assert!(deliveries[0].enqueued);

    let frame = rx.try_recv().unwrap().unwrap();
    assert_eq!(frame.to_str(), Ok("hi"));
    assert!(rx.try_recv().is_err());

    // The peer goes away; the record stands until someone removes it.
    drop(rx);
    assert_eq!(registry.unregister(&alice()), Ok(()));
    assert!(!registry.contains(&alice()));
    assert_eq!(registry.unregister(&alice()), Err(RegistryError::NotFound));
}

#[test]
fn alice_through_the_front_end() {
    let mut registry = Registry::new();
    assert_eq!(handle_request(&mut registry, Request::Register(alice())), Response::Registered);

    let (tx, mut rx) = unbounded_channel();
    let mut connection = Connection::new(alice());
    assert_eq!(
        connection.handle(&mut registry, ConnectionEvent::Upgraded(tx)),
        ConnectionAction::Attach
    );
    assert_eq!(registry.len(), 1);

    let publish = Request::Publish(OutboundMessage::broadcast(String::from("hi")));
    assert_eq!(handle_request(&mut registry, publish), Response::Published(1));
    assert_eq!(rx.try_recv().unwrap().unwrap().to_str(), Ok("hi"));
    assert!(rx.try_recv().is_err());

    drop(rx);
    assert_eq!(handle_request(&mut registry, Request::Unregister(alice())), Response::Unregistered);
    assert_eq!(handle_request(&mut registry, Request::Unregister(alice())), Response::NotFound);

    // The connection learns of it and ends; nothing is left to remove.
    assert_eq!(
        connection.handle(&mut registry, ConnectionEvent::Unregistered),
        ConnectionAction::Detach
    );
    assert!(registry.is_empty());
}

#[test]
fn unregister_after_teardown_is_not_found() {
    let mut registry = Registry::new();
    registry.register(alice());
    let (tx, _rx) = unbounded_channel();
    let mut connection = Connection::new(alice());
    connection.handle(&mut registry, ConnectionEvent::Upgraded(tx));
    connection.handle(&mut registry, ConnectionEvent::InboundEof);
    assert!(registry.is_empty());
    assert_eq!(registry.unregister(&alice()), Err(RegistryError::NotFound));
}

#[test]
fn unregistering_a_connected_client_closes_its_channel() {
    let mut registry = Registry::new();
    let (tx, mut rx) = unbounded_channel();
    registry.upsert(alice(), Some(tx));
    registry.publish(&OutboundMessage::broadcast(String::from("last")));
    assert_eq!(registry.unregister(&alice()), Ok(()));
    assert_eq!(rx.try_recv().unwrap().unwrap().to_str(), Ok("last"));
    // With the record gone no sender is left: the queue reports its end.
    assert_eq!(
        rx.try_recv().err(),
        Some(tokio::sync::mpsc::error::TryRecvError::Disconnected)
    );
}
