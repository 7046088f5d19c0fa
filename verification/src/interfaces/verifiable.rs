use vstd::prelude::*;

verus! {

/// Something that can check its own authenticity.
pub trait Verifiable {
    type Error;

    fn verify(&self) -> Result<(), Self::Error>;
}

} // verus!
