//! A message handed to the relay for delivery, and whom it is addressed to.

use vstd::prelude::*;

verus! {

/// The identifiers in a list of names, as plain sequences of characters.
pub open spec fn ids_of(names: Seq<String>) -> Seq<Seq<char>> {
    names.map_values(|name: String| name@)
}

/// Whether a message with the target list `targets` is meant for `id`:
/// an empty list addresses everyone, any other list those it names.
pub open spec fn addressed(targets: Seq<Seq<char>>, id: Seq<char>) -> bool {
    targets.len() == 0 || targets.contains(id)
}

/// A payload with an optional list of the identifiers it is for.
///
/// With no list, or an empty one, the message is a broadcast.
#[derive(Debug, Clone)]
pub struct OutboundMessage {
    pub payload: String,
    pub targets: Option<Vec<String>>,
}

impl OutboundMessage {
    /// The identifiers listed as targets; empty where no list is given.
    pub open spec fn target_ids(&self) -> Seq<Seq<char>> {
        match self.targets {
            Some(list) => ids_of(list@),
            None => Seq::empty(),
        }
    }

    pub open spec fn spec_is_broadcast(&self) -> bool {
        self.target_ids().len() == 0
    }

    pub open spec fn spec_addresses(&self, id: Seq<char>) -> bool {
        addressed(self.target_ids(), id)
    }

    /// A message for every connected client.
    pub fn broadcast(payload: String) -> (message: Self)
        ensures
            message.payload == payload,
            message.targets is None,
            message.spec_is_broadcast(),
    {
        OutboundMessage { payload, targets: None }
    }

    /// A message for the listed identifiers; an empty list makes a broadcast.
    pub fn to(payload: String, targets: Vec<String>) -> (message: Self)
        ensures
            message.payload == payload,
            message.targets == Some(targets),
            message.target_ids() == ids_of(targets@),
    {
        OutboundMessage { payload, targets: Some(targets) }
    }

    /// Whether the message goes to all connected clients.
    #[verifier::when_used_as_spec(spec_is_broadcast)]
    pub fn is_broadcast(&self) -> (all: bool)
        ensures
            all == self.spec_is_broadcast(),
    {
        match &self.targets {
            Some(list) => list.len() == 0,
            None => true,
        }
    }

    /// Whether the message is meant for `id`.
    pub fn addresses(&self, id: &String) -> (meant: bool)
        ensures
            meant == self.spec_addresses(id@),
    {
        match &self.targets {
            None => true,
            Some(list) => {
                if list.len() == 0 {
                    return true;
                }
                let mut i: usize = 0;
                while i < list.len()
                    invariant
                        i <= list.len(),
                        self.target_ids() == ids_of(list@),
                        forall|k: int| 0 <= k < i ==> list@[k]@ != id@,
                    decreases list.len() - i,
                {
                    if list[i] == *id {
                        assert(ids_of(list@)[i as int] == id@);
                        return true;
                    }
                    i += 1;
                }
                assert(!ids_of(list@).contains(id@)) by {
                    if ids_of(list@).contains(id@) {
                        let k = choose|k: int| 0 <= k < ids_of(list@).len() && ids_of(list@)[k] == id@;
                        assert(list@[k]@ == id@);
                    }
                }
                false
            },
        }
    }
}

} // verus!
