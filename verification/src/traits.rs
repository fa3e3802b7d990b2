//! What every cloud back end can be asked.

use crate::server::error::Error;
use vstd::prelude::*;

verus! {

/// A cloud back end by its own type.
pub trait Cloud {
    /// The name of the back end as it is shown.
    fn name(&self) -> String;

    /// Prepares the back end for use.
    fn create(&self) -> Result<(), Error>;
}

} // verus!
