//! Opaque byte strings: signatures, keys, proofs and encrypted payloads.

use vstd::prelude::*;

verus! {

/// A byte string whose content the library does not interpret.
#[derive(Clone, Debug)]
pub struct Bytes(pub Vec<u8>);

impl View for Bytes {
    type V = Seq<u8>;

    open spec fn view(&self) -> Seq<u8> {
        self.0@
    }
}

impl Bytes {
    /// Whether the string holds no byte.
    pub fn is_empty(&self) -> (r: bool)
        ensures
            r == (self@.len() == 0),
    {
        self.0.len() == 0
    }
}

} // verus!
