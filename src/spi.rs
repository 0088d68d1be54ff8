//! Full duplex serial peripheral interface, as the external flash driver
//! needs it.

use nb::Error as WouldBlockOr;
use vstd::prelude::*;

verus! {

/// A full duplex SPI bus: every transmitted word clocks one word in.
/// `sent()` is the history of transmissions (`None` clocks a dummy word),
/// `received()` the history of the words read back, and `faults()` the
/// number of transfers the bus reported as failed.
pub trait FullDuplex<Word> {
    type Error;

    spec fn sent(&self) -> Seq<Option<Word>>;

    spec fn received(&self) -> Seq<Word>;

    spec fn faults(&self) -> nat;

    fn transmit(&mut self, word: Option<Word>) -> (r: Result<(), WouldBlockOr<Self::Error>>)
        ensures
            r is Ok ==> final(self).sent() == old(self).sent().push(word),
            r is Err ==> final(self).sent() == old(self).sent(),
            final(self).received() == old(self).received(),
            r matches Err(WouldBlockOr::Other(_)) ==> final(self).faults() == old(self).faults() + 1,
            !(r matches Err(WouldBlockOr::Other(_))) ==> final(self).faults() == old(self).faults(),
    ;

    fn receive(&mut self) -> (r: Result<Word, WouldBlockOr<Self::Error>>)
        ensures
            r matches Ok(w) ==> final(self).received() == old(self).received().push(w),
            r is Err ==> final(self).received() == old(self).received(),
            final(self).sent() == old(self).sent(),
            r matches Err(WouldBlockOr::Other(_)) ==> final(self).faults() == old(self).faults() + 1,
            !(r matches Err(WouldBlockOr::Other(_))) ==> final(self).faults() == old(self).faults(),
    ;
}

} // verus!
