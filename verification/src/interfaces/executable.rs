use vstd::prelude::*;

use crate::interfaces::account::IAccount;

verus! {

/// Something that moves value from one account to another.
pub trait Executable {
    type Error;

    fn execute<A: IAccount>(&self, sender_acc: &mut A, recipient_acc: &mut A) -> Result<(), Self::Error>;
}

} // verus!
