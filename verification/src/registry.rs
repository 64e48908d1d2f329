//! The client registry: at most one record per identifier.
//!
//! The registry is a list of records whose names are pairwise distinct. Its
//! view is the mapping from each identifier to the channel of its record.

use crate::client::{Client, Outbound};
use vstd::prelude::*;

verus! {

/// What a registry stands for: each registered identifier with its channel,
/// `None` while the client is registered but not connected.
pub type Directory = Map<Seq<char>, Option<Outbound>>;

/// The names of a list of records, in order.
pub open spec fn names_of(entries: Seq<Client>) -> Seq<Seq<char>> {
    entries.map_values(|client: Client| client.username@)
}

/// The mapping that a list of records with distinct names stands for.
pub open spec fn directory_of(entries: Seq<Client>) -> Directory {
    Map::new(
        |id: Seq<char>| names_of(entries).contains(id),
        |id: Seq<char>| entries[names_of(entries).index_of(id)].sender,
    )
}

/// Each record of a list with distinct names is found under its own name.
pub proof fn lemma_directory_entry(entries: Seq<Client>, i: int)
    requires
        names_of(entries).no_duplicates(),
        0 <= i < entries.len(),
    ensures
        names_of(entries).contains(entries[i].username@),
        names_of(entries).index_of(entries[i].username@) == i,
        directory_of(entries).dom().contains(entries[i].username@),
        directory_of(entries)[entries[i].username@] == entries[i].sender,
{
    let names = names_of(entries);
    assert(names[i] == entries[i].username@);
    let j = names.index_of(entries[i].username@);
    assert(0 <= j < names.len() && names[j] == names[i]);
}

/// Adding a record under a new name adds one mapping.
proof fn lemma_directory_push(entries: Seq<Client>, client: Client)
    requires
        names_of(entries).no_duplicates(),
        !names_of(entries).contains(client.username@),
    ensures
        names_of(entries.push(client)).no_duplicates(),
        directory_of(entries.push(client)) == directory_of(entries).insert(
            client.username@,
            client.sender,
        ),
{
    let grown = entries.push(client);
    let names = names_of(entries);
    let grown_names = names_of(grown);
    assert(grown_names == names.push(client.username@));
    assert forall|i: int, j: int|
        0 <= i < grown_names.len() && 0 <= j < grown_names.len() && i != j implies grown_names[i]
        != grown_names[j] by {
        if i < names.len() {
            assert(names[i] == grown_names[i]);
        }
        if j < names.len() {
            assert(names[j] == grown_names[j]);
        }
    }
    let before = directory_of(entries);
    let after = directory_of(grown);
    let expected = before.insert(client.username@, client.sender);
    assert forall|id: Seq<char>| after.dom().contains(id) <==> expected.dom().contains(id) by {
        if names.contains(id) {
            let k = names.index_of(id);
            assert(grown_names[k] == id);
        }
        if grown_names.contains(id) && id != client.username@ {
            let k = grown_names.index_of(id);
            assert(names[k] == id);
        }
        assert(grown_names[entries.len() as int] == client.username@);
    }
    assert forall|id: Seq<char>| after.dom().contains(id) implies after[id] == expected[id] by {
        let k = grown_names.index_of(id);
        lemma_directory_entry(grown, k);
        if k < entries.len() {
            lemma_directory_entry(entries, k);
        }
    }
    assert(after =~= expected);
}

/// Replacing a record by one of the same name replaces its mapping.
proof fn lemma_directory_update(entries: Seq<Client>, i: int, client: Client)
    requires
        names_of(entries).no_duplicates(),
        0 <= i < entries.len(),
        entries[i].username@ == client.username@,
    ensures
        names_of(entries.update(i, client)) == names_of(entries),
        directory_of(entries.update(i, client)) == directory_of(entries).insert(
            client.username@,
            client.sender,
        ),
{
    let changed = entries.update(i, client);
    let names = names_of(entries);
    assert(names_of(changed) =~= names);
    let before = directory_of(entries);
    let after = directory_of(changed);
    let expected = before.insert(client.username@, client.sender);
    lemma_directory_entry(entries, i);
    assert forall|id: Seq<char>| after.dom().contains(id) implies after[id] == expected[id] by {
        let k = names.index_of(id);
        lemma_directory_entry(changed, k);
        lemma_directory_entry(entries, k);
    }
    assert(after =~= expected);
}

/// Taking a record out takes its mapping out and leaves the others.
proof fn lemma_directory_remove(entries: Seq<Client>, i: int)
    requires
        names_of(entries).no_duplicates(),
        0 <= i < entries.len(),
    ensures
        names_of(entries.remove(i)).no_duplicates(),
        directory_of(entries.remove(i)) == directory_of(entries).remove(entries[i].username@),
{
    let rest = entries.remove(i);
    let names = names_of(entries);
    let rest_names = names_of(rest);
    let gone = entries[i].username@;
    assert(rest_names =~= names.remove(i));
    assert forall|a: int, b: int|
        0 <= a < rest_names.len() && 0 <= b < rest_names.len() && a != b implies rest_names[a]
        != rest_names[b] by {
        let a0 = if a < i { a } else { a + 1 };
        let b0 = if b < i { b } else { b + 1 };
        assert(rest_names[a] == names[a0]);
        assert(rest_names[b] == names[b0]);
    }
    let before = directory_of(entries);
    let after = directory_of(rest);
    let expected = before.remove(gone);
    lemma_directory_entry(entries, i);
    assert forall|id: Seq<char>| after.dom().contains(id) <==> expected.dom().contains(id) by {
        if rest_names.contains(id) {
            let k = rest_names.index_of(id);
            let k0 = if k < i { k } else { k + 1 };
            assert(names[k0] == id);
        }
        if names.contains(id) && id != gone {
            let k = names.index_of(id);
            let k1 = if k < i { k } else { k - 1 };
            assert(rest_names[k1] == id);
        }
    }
    assert forall|id: Seq<char>| after.dom().contains(id) implies after[id] == expected[id] by {
        let k = rest_names.index_of(id);
        let k0 = if k < i { k } else { k + 1 };
        lemma_directory_entry(rest, k);
        lemma_directory_entry(entries, k0);
    }
    assert(after =~= expected);
}

/// A list with distinct names stands for as many mappings as it has records.
proof fn lemma_directory_len(entries: Seq<Client>)
    requires
        names_of(entries).no_duplicates(),
    ensures
        directory_of(entries).dom().finite(),
        directory_of(entries).dom().len() == entries.len(),
{
    let names = names_of(entries);
    assert(directory_of(entries).dom() =~= names.to_set());
    vstd::seq_lib::seq_to_set_is_finite(names);
    names.unique_seq_to_set();
}

/// The set of named clients with, for each, its outbound channel if it has
/// a live connection.
#[derive(Debug)]
pub struct Registry {
    entries: Vec<Client>,
}

impl View for Registry {
    type V = Directory;

    open spec fn view(&self) -> Directory {
        directory_of(self.records())
    }
}

impl Registry {
    /// The records in the order in which the registry holds them.
    pub closed spec fn records(&self) -> Seq<Client> {
        self.entries@
    }

    /// The names of the records, in the same order.
    pub open spec fn names(&self) -> Seq<Seq<char>> {
        names_of(self.records())
    }

    /// No identifier has more than one record. This holds of every
    /// registry at all times.
    #[verifier::type_invariant]
    pub open spec fn wf(&self) -> bool {
        self.names().no_duplicates()
    }

    /// Whether `id` has a record with a live channel.
    pub open spec fn connected(&self, id: Seq<char>) -> bool {
        self@.dom().contains(id) && self@[id] is Some
    }

    /// An empty registry.
    pub fn new() -> (registry: Self)
        ensures
            registry.wf(),
            registry@ == Directory::empty(),
            registry.records() == Seq::<Client>::empty(),
    {
        let registry = Registry { entries: Vec::new() };
        assert(registry@ =~= Directory::empty());
        registry
    }

    /// Where the record of `id` stands, if it has one.
    fn position(&self, id: &String) -> (found: Option<usize>)
        ensures
            match found {
                Some(i) => i < self.records().len() && self.records()[i as int].username@ == id@,
                None => !self.names().contains(id@),
            },
    {
        let mut i: usize = 0;
        while i < self.entries.len()
            invariant
                i <= self.entries.len(),
                forall|k: int| 0 <= k < i ==> self.entries@[k].username@ != id@,
            decreases self.entries.len() - i,
        {
            if self.entries[i].username == *id {
                return Some(i);
            }
            i += 1;
        }
        assert(!self.names().contains(id@)) by {
            if self.names().contains(id@) {
                let k = self.names().index_of(id@);
                assert(self.entries@[k].username@ == id@);
            }
        }
        None
    }

    /// Inserts the record of `id`, or replaces the one it has.
    pub fn upsert(&mut self, id: String, sender: Option<Outbound>)
        ensures
            final(self).wf(),
            final(self)@ == old(self)@.insert(id@, sender),
    {
        proof {
            use_type_invariant(&*self);
        }
        let found = self.position(&id);
        let client = Client { username: id, sender };
        let mut entries: Vec<Client> = Vec::new();
        std::mem::swap(&mut entries, &mut self.entries);
        match found {
            Some(i) => {
                proof {
                    lemma_directory_update(entries@, i as int, client);
                }
                entries.set(i, client);
            },
            None => {
                proof {
                    lemma_directory_push(entries@, client);
                }
                entries.push(client);
            },
        }
        self.entries = entries;
    }

    /// Deletes the record of `id` and hands it back; does nothing where
    /// `id` has none.
    pub fn remove(&mut self, id: &String) -> (removed: Option<Client>)
        ensures
            final(self).wf(),
            final(self)@ == old(self)@.remove(id@),
            match removed {
                Some(client) => old(self)@.dom().contains(id@) && client.username@ == id@
                    && client.sender == old(self)@[id@],
                None => !old(self)@.dom().contains(id@),
            },
    {
        proof {
            use_type_invariant(&*self);
        }
        match self.position(id) {
            Some(i) => {
                proof {
                    lemma_directory_remove(self.entries@, i as int);
                    lemma_directory_entry(self.entries@, i as int);
                }
                let mut entries: Vec<Client> = Vec::new();
                std::mem::swap(&mut entries, &mut self.entries);
                let client = entries.remove(i);
                self.entries = entries;
                Some(client)
            },
            None => {
                assert(self@.remove(id@) =~= self@);
                None
            },
        }
    }

    /// The record of `id`, if it has one.
    pub fn get(&self, id: &String) -> (found: Option<&Client>)
        ensures
            match found {
                Some(client) => self@.dom().contains(id@) && client.username@ == id@
                    && client.sender == self@[id@],
                None => !self@.dom().contains(id@),
            },
    {
        proof {
            use_type_invariant(self);
        }
        match self.position(id) {
            Some(i) => {
                proof {
                    lemma_directory_entry(self.entries@, i as int);
                }
                Some(&self.entries[i])
            },
            None => None,
        }
    }

    /// Whether `id` has a record.
    pub fn contains(&self, id: &String) -> (held: bool)
        ensures
            held == self@.dom().contains(id@),
    {
        self.get(id).is_some()
    }

    /// Whether `id` has a record with a live channel.
    pub fn is_connected(&self, id: &String) -> (live: bool)
        ensures
            live == self.connected(id@),
    {
        match self.get(id) {
            Some(client) => client.is_connected(),
            None => false,
        }
    }

    /// The number of records.
    pub fn len(&self) -> (count: usize)
        ensures
            count == self@.dom().len(),
            count == self.records().len(),
    {
        proof {
            use_type_invariant(self);
            lemma_directory_len(self.entries@);
        }
        self.entries.len()
    }

    /// Whether the registry holds no record.
    pub fn is_empty(&self) -> (empty: bool)
        ensures
            empty == (self@.dom().len() == 0),
            empty == (self@ == Directory::empty()),
    {
        proof {
            use_type_invariant(self);
            lemma_directory_len(self.entries@);
            if self.entries@.len() == 0 {
                assert(self@ =~= Directory::empty());
            }
        }
        self.entries.len() == 0
    }

    /// All records as they stand, each identifier once.
    pub fn snapshot(&self) -> (records: &Vec<Client>)
        ensures
            records@ == self.records(),
            names_of(records@).no_duplicates(),
            directory_of(records@) == self@,
    {
        proof {
            use_type_invariant(self);
        }
        &self.entries
    }
}

} // verus!
