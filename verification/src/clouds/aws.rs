//! The AWS back end.

use crate::server::error::Error;
use crate::traits::Cloud;
use vstd::prelude::*;

verus! {

/// The AWS back end. It needs no preparation.
#[derive(Clone, Copy, Debug, PartialEq, Eq, Structural)]
pub struct AWS {}

impl Cloud for AWS {
    fn name(&self) -> (r: String)
        ensures
            r@ == seq!['A', 'W', 'S'],
    {
        proof {
            reveal_strlit("AWS");
        }
        let name = "AWS";
        assert(name@ =~= seq!['A', 'W', 'S']);
        name.to_owned()
    }

    fn create(&self) -> (r: Result<(), Error>)
        ensures
            r is Ok,
    {
        Ok(())
    }
}

} // verus!
