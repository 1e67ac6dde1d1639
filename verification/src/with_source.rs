use vstd::prelude::*;

verus! {

use std::rc::Rc;

/// Implemented by every value that hangs on to the complete source buffer of
/// the tree it came from.  The buffer is shared by reference counting, never
/// copied.
pub trait WithSource {
    /// The complete source text, as the contract-level view of the buffer.
    spec fn complete_source(&self) -> Seq<char>;

    /// Hands out a shared handle to the complete source buffer.
    fn get_complete_source(&self) -> (r: Rc<String>)
        ensures
            r@ == self.complete_source(),
    ;
}

} // verus!
