use pubsub_relay::registry::Registry;
use tokio::sync::mpsc::unbounded_channel;

fn name(text: &str) -> String {
    String::from(text)
}

fn names_in(registry: &Registry) -> Vec<String> {
    let mut names: Vec<String> = Vec::new();
    for client in registry.snapshot().iter() {
        names.push(client.username.clone());
    }
    names.sort();
    names
}

#[test]
fn new_registry_is_empty() {
    let registry = Registry::new();
    assert_eq!(registry.len(), 0);
    assert!(registry.is_empty());
    assert!(registry.snapshot().is_empty());
    assert!(!registry.contains(&name("alice")));
    assert!(registry.get(&name("alice")).is_none());
}

#[test]
fn upsert_inserts_a_new_record() {
    let mut registry = Registry::new();
    registry.upsert(name("alice"), None);
    assert_eq!(registry.len(), 1);
    assert!(!registry.is_empty());
    assert!(registry.contains(&name("alice")));
    let client = registry.get(&name("alice")).unwrap();
    assert_eq!(client.username, "alice");
    assert!(client.sender.is_none());
    assert!(!client.is_connected());
}

#[test]
fn upsert_replaces_the_record_of_the_same_name() {
    let mut registry = Registry::new();
    let (first, _first_rx) = unbounded_channel();
    let (second, _second_rx) = unbounded_channel();
    registry.upsert(name("alice"), Some(first.clone()));
    registry.upsert(name("bob"), None);
    registry.upsert(name("alice"), Some(second.clone()));
    assert_eq!(registry.len(), 2);
    assert_eq!(names_in(&registry), vec![name("alice"), name("bob")]);
    let held = registry.get(&name("alice")).unwrap().sender.clone().unwrap();
    assert!(held.same_channel(&second));
    assert!(!held.same_channel(&first));
}

#[test]
fn upsert_can_take_the_channel_away() {
    let mut registry = Registry::new();
    let (tx, _rx) = unbounded_channel();
    registry.upsert(name("alice"), Some(tx));
    assert!(registry.is_connected(&name("alice")));
    registry.upsert(name("alice"), None);
    assert!(registry.contains(&name("alice")));
    assert!(!registry.is_connected(&name("alice")));
    assert_eq!(registry.len(), 1);
}

#[test]
fn remove_hands_back_the_record() {
    let mut registry = Registry::new();
    let (tx, _rx) = unbounded_channel();
    registry.upsert(name("alice"), Some(tx.clone()));
    registry.upsert(name("bob"), None);
    let removed = registry.remove(&name("alice")).unwrap();
    assert_eq!(removed.username, "alice");
    assert!(removed.sender.unwrap().same_channel(&tx));
    assert_eq!(registry.len(), 1);
    assert!(!registry.contains(&name("alice")));
    assert!(registry.contains(&name("bob")));
}

#[test]
fn remove_of_an_absent_identifier_changes_nothing() {
    let mut registry = Registry::new();
    registry.upsert(name("bob"), None);
    assert!(registry.remove(&name("alice")).is_none());
    assert!(registry.remove(&name("alice")).is_none());
    assert_eq!(names_in(&registry), vec![name("bob")]);
}

#[test]
fn remove_keeps_the_other_records_and_their_channels() {
    let mut registry = Registry::new();
    let (a, _a_rx) = unbounded_channel();
    let (c, _c_rx) = unbounded_channel();
    registry.upsert(name("a"), Some(a.clone()));
    registry.upsert(name("b"), None);
    registry.upsert(name("c"), Some(c.clone()));
    assert!(registry.remove(&name("b")).is_some());
    assert_eq!(names_in(&registry), vec![name("a"), name("c")]);
    assert!(registry.get(&name("a")).unwrap().sender.clone().unwrap().same_channel(&a));
    assert!(registry.get(&name("c")).unwrap().sender.clone().unwrap().same_channel(&c));
    assert!(registry.remove(&name("a")).is_some());
    assert_eq!(names_in(&registry), vec![name("c")]);
    assert!(registry.remove(&name("c")).is_some());
    assert!(registry.is_empty());
}

#[test]
fn identifiers_are_compared_letter_for_letter() {
    let mut registry = Registry::new();
    registry.upsert(name("alice"), None);
    registry.upsert(name("Alice"), None);
    registry.upsert(name("alice "), None);
    registry.upsert(name(""), None);
    assert_eq!(registry.len(), 4);
    assert!(registry.contains(&name("")));
    assert!(!registry.contains(&name("alic")));
}

#[test]
fn snapshot_lists_every_record_once() {
    let mut registry = Registry::new();
    let (tx, _rx) = unbounded_channel();
    registry.upsert(name("carol"), None);
    registry.upsert(name("alice"), Some(tx));
    registry.upsert(name("bob"), None);
    registry.upsert(name("carol"), None);
    let snapshot = registry.snapshot();
    assert_eq!(snapshot.len(), 3);
    let connected: Vec<&str> = snapshot
        .iter()
        .filter(|client| client.is_connected())
        .map(|client| client.username.as_str())
        .collect();
    assert_eq!(connected, vec!["alice"]);
    assert_eq!(names_in(&registry), vec![name("alice"), name("bob"), name("carol")]);
}
