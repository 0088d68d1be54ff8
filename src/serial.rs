//! Byte oriented output of the diagnostic channel.

use vstd::prelude::*;

verus! {

/// A text sink; `written()` is everything written to it so far.
pub trait Write {
    spec fn written(&self) -> Seq<char>;

    fn write_str(&mut self, text: &str)
        ensures
            final(self).written() == old(self).written() + text@,
    ;
}

} // verus!
