//! The update signal: a flag kept across resets through which the running
//! application asks the bootloader for an update or a restore.

use vstd::prelude::*;

verus! {

#[derive(Copy, Clone, Debug, PartialEq, Eq, Structural)]
pub enum UpdateSignal {
    Stable,
    UpdateRequested,
    RestoreRequested,
}

/// Storage of the update signal that survives a reset.
pub trait UpdateSignalStore {
    spec fn stored(&self) -> UpdateSignal;

    fn read(&self) -> (r: UpdateSignal)
        ensures
            r == self.stored(),
    ;

    fn write(&mut self, signal: UpdateSignal)
        ensures
            final(self).stored() == signal,
    ;
}

} // verus!
