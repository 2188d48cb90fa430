//! What the rest of the kernel grants.

use crate::error::{Error, Result};
use vstd::prelude::*;

verus! {

/// What the rest of the kernel will still grant: `left` requests for memory or registration go
/// through, and the one after them is refused with `refusal`.
pub struct Grants {
    pub left: u64,
    pub refusal: Error,
}

impl Grants {
    /// Makes one request.
    pub fn take(&mut self) -> (r: Result<()>)
        ensures
            final(self).refusal == old(self).refusal,
            old(self).left > 0 ==> r == Ok::<(), Error>(()) && final(self).left == old(self).left
                - 1,
            old(self).left == 0 ==> r == Err::<(), Error>(old(self).refusal) && final(self).left
                == 0,
    {
        if self.left == 0 {
            return Err(self.refusal);
        }
        self.left = self.left - 1;
        Ok(())
    }
}

} // verus!
