//! Registration: adding and removing a named client, whether or not a
//! connection for it is open.

use crate::registry::{Directory, Registry};
use vstd::prelude::*;

verus! {

/// Why a request on the registry was turned down.
#[derive(Debug, Clone, Copy, PartialEq, Eq, Structural)]
pub enum RegistryError {
    /// The identifier has no record.
    NotFound,
}

/// The directory after `id` is registered: a connected client keeps its
/// channel, anyone else gets a record without one.
pub open spec fn registered(directory: Directory, id: Seq<char>) -> Directory {
    if directory.dom().contains(id) && directory[id] is Some {
        directory
    } else {
        directory.insert(id, None)
    }
}

/// The directory after `id` is unregistered.
pub open spec fn unregistered(directory: Directory, id: Seq<char>) -> Directory {
    directory.remove(id)
}

/// What unregistering `id` answers: success where it had a record.
pub open spec fn unregister_outcome(directory: Directory, id: Seq<char>) -> Result<
    (),
    RegistryError,
> {
    if directory.dom().contains(id) {
        Ok(())
    } else {
        Err(RegistryError::NotFound)
    }
}

impl Registry {
    /// Registers `id`. A client that is connected stays as it is; otherwise
    /// `id` gets a record that waits for its connection. Always succeeds.
    pub fn register(&mut self, id: String)
        ensures
            final(self).wf(),
            final(self)@ == registered(old(self)@, id@),
    {
        proof {
            use_type_invariant(&*self);
        }
        if !self.is_connected(&id) {
            self.upsert(id, None);
        }
    }

    /// Removes the record of `id`, connected or not. Fails with
    /// `NotFound`, and changes nothing, where `id` has no record.
    pub fn unregister(&mut self, id: &String) -> (outcome: Result<(), RegistryError>)
        ensures
            final(self).wf(),
            final(self)@ == unregistered(old(self)@, id@),
            outcome == unregister_outcome(old(self)@, id@),
            outcome is Err ==> final(self)@ == old(self)@,
    {
        match self.remove(id) {
            Some(_) => Ok(()),
            None => {
                assert(self@.remove(id@) =~= self@);
                Err(RegistryError::NotFound)
            },
        }
    }
}

} // verus!
