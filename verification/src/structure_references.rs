//! How runtime instances refer to parts of the decoded module.

use vstd::prelude::*;

verus! {

/// The reference types through which instances reach the module they were
/// made from. An embedder picks borrowed or shared-ownership references;
/// either kind is cheap to clone.
pub trait StructureReference {
    /// The table of function types of a module.
    type FuncTypesRef: Clone;

    /// A single function type.
    type FuncTypeRef: Clone;

    /// The body of a function defined in a module.
    type FuncRef: Clone;

    /// The name of an export.
    type NameRef: Clone;
}

} // verus!
