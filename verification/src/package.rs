//! Package-level metadata values.

use vstd::prelude::*;

verus! {

/// Maturity level a package advertises. The service reports the empty
/// string for a package whose maturity was never set; that value is
/// `Unset` here.
#[derive(Clone, Debug, PartialEq, Eq, Structural)]
pub enum PackageMaturity {
    Official,
    Stable,
    Development,
    Experimental,
    Unset,
}

} // verus!
