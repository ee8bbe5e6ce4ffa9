//! Entry point of the use cases shared by the desktop shell and a future command line.
use vstd::prelude::*;
use crate::domain::{ownterm_identity, ProductIdentity};

verus! {

#[derive(Debug)]
pub struct OwnTermApplication;

impl OwnTermApplication {
    /// The product identity, as the domain defines it.
    pub fn product_identity() -> (r: ProductIdentity)
        ensures
            r.spec_name() == "OwnTerm",
            r.spec_version() == "0.1.0",
    {
        ownterm_identity()
    }
}

} // verus!
