use vstd::prelude::*;

verus! {

#[verifier::external_type_specification]
#[verifier::external_body]
pub struct ExIoError(std::io::Error);

/// Setting the size of a file, for types other than `std::fs::File` too.
pub trait FileSetLen {
    /// Sets the size of this file, as `ftruncate()` does.
    fn set_len(&self, len: u64) -> Result<(), std::io::Error>;
}

} // verus!
