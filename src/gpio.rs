//! Digital output pins.

use vstd::prelude::*;

verus! {

/// A digital output pin; `changes()` is the history of levels it was set to
/// (`true` for high).
pub trait OutputPin {
    spec fn changes(&self) -> Seq<bool>;

    fn set_low(&mut self)
        ensures
            final(self).changes() == old(self).changes().push(false),
    ;

    fn set_high(&mut self)
        ensures
            final(self).changes() == old(self).changes().push(true),
    ;
}

} // verus!
