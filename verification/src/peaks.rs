//! Entry point of the peak-finding facade.
//!
//! The search itself runs in an external peak picker over floating-point
//! samples and is wired up by the program embedding this crate; the
//! library contributes the series handling around it.

use vstd::prelude::*;

verus! {

/// Marker type for the peak-finding facade.
#[allow(non_camel_case_types)]
pub struct Peak_Finder {}

impl Peak_Finder {
    /// A fresh peak finder; the search carries no state.
    pub fn new() -> (r: Self)
        ensures
            r == (Peak_Finder {  }),
    {
        Peak_Finder {  }
    }
}

} // verus!
