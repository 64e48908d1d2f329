use pubsub_relay::registration::RegistryError;
use pubsub_relay::registry::Registry;
use tokio::sync::mpsc::unbounded_channel;

fn id(text: &str) -> String {
    String::from(text)
}

fn has_duplicates(registry: &Registry) -> bool {
    let records = registry.snapshot();
    for i in 0..records.len() {
        for j in (i + 1)..records.len() {
            if records[i].username == records[j].username {
                return true;
            }
        }
    }
    false
}

#[test]
fn register_creates_a_record_without_a_channel() {
    let mut registry = Registry::new();
    registry.register(id("alice"));
    assert_eq!(registry.len(), 1);
    assert!(registry.contains(&id("alice")));
    assert!(!registry.is_connected(&id("alice")));
}

#[test]
fn register_twice_is_the_same_as_once() {
    let mut registry = Registry::new();
    registry.register(id("alice"));
    registry.register(id("alice"));
    assert_eq!(registry.len(), 1);
    assert!(!registry.is_connected(&id("alice")));
}

#[test]
fn register_leaves_a_connected_client_connected() {
    let mut registry = Registry::new();
    let (tx, _rx) = unbounded_channel();
    registry.upsert(id("alice"), Some(tx.clone()));
    registry.register(id("alice"));
    assert_eq!(registry.len(), 1);
    let held = registry.get(&id("alice")).unwrap().sender.clone().unwrap();
    assert!(held.same_channel(&tx));
}

#[test]
fn unregister_removes_a_pending_client() {
    let mut registry = Registry::new();
    registry.register(id("alice"));
    assert_eq!(registry.unregister(&id("alice")), Ok(()));
    assert!(registry.is_empty());
}

#[test]
fn unregister_removes_a_connected_client() {
    let mut registry = Registry::new();
    let (tx, _rx) = unbounded_channel();
    registry.upsert(id("alice"), Some(tx));
    assert_eq!(registry.unregister(&id("alice")), Ok(()));
    assert!(!registry.contains(&id("alice")));
}

#[test]
fn unregister_of_an_unknown_identifier_is_not_found() {
    let mut registry = Registry::new();
    registry.register(id("bob"));
    assert_eq!(registry.unregister(&id("alice")), Err(RegistryError::NotFound));
    assert_eq!(registry.len(), 1);
    assert!(registry.contains(&id("bob")));
}

#[test]
fn lookup_after_unregister_fails() {
    let mut registry = Registry::new();
    registry.register(id("alice"));
    registry.register(id("bob"));
    assert_eq!(registry.unregister(&id("alice")), Ok(()));
    assert!(registry.get(&id("alice")).is_none());
    assert!(!registry.contains(&id("alice")));
    assert_eq!(registry.unregister(&id("alice")), Err(RegistryError::NotFound));
    assert!(registry.contains(&id("bob")));
}

#[test]
fn no_run_of_registrations_leaves_a_duplicate() {
    let ids = ["a", "b", "c"];
    // Every run of four steps over three identifiers: each step either
    // registers or unregisters one of them.
    let choices = ids.len() * 2;
    let mut run = 0usize;
    while run < choices.pow(4) {
        let mut registry = Registry::new();
        let mut expected: Vec<bool> = vec![false; ids.len()];
        let mut code = run;
        for _ in 0..4 {
            let step = code % choices;
            code /= choices;
            let which = step / 2;
            if step % 2 == 0 {
                registry.register(id(ids[which]));
                expected[which] = true;
            } else {
                let outcome = registry.unregister(&id(ids[which]));
                if expected[which] {
                    assert_eq!(outcome, Ok(()));
                } else {
                    assert_eq!(outcome, Err(RegistryError::NotFound));
                }
                expected[which] = false;
                assert!(!registry.contains(&id(ids[which])));
            }
            assert!(!has_duplicates(&registry));
            for k in 0..ids.len() {
                assert_eq!(registry.contains(&id(ids[k])), expected[k]);
            }
            assert_eq!(registry.len(), expected.iter().filter(|held| **held).count());
        }
        run += 1;
    }
}

#[test]
fn register_again_after_unregister_starts_afresh() {
    let mut registry = Registry::new();
    let (tx, _rx) = unbounded_channel();
    registry.upsert(id("alice"), Some(tx));
    assert_eq!(registry.unregister(&id("alice")), Ok(()));
    registry.register(id("alice"));
    assert!(registry.contains(&id("alice")));
    assert!(!registry.is_connected(&id("alice")));
}
