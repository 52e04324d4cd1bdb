//! Capability markers for the reference-counted object handle.
//!
//! A capability is a named set of operations an object may support, identified
//! at runtime by a 128-bit interface identifier.  Each marker type below tags
//! an object handle, at compile time, with the capability it was obtained for;
//! the identifier itself is what the runtime query carries across the
//! boundary.

use vstd::prelude::*;

verus! {

/// Interface identifier of the base reference-counting capability.
pub const IID_IUNKNOWN: u128 = 0x00000000_0000_0000_C000_000000000046;

/// Interface identifier of the factory capability.
pub const IID_ICLASSFACTORY: u128 = 0x00000001_0000_0000_C000_000000000046;

/// Interface identifier of the dynamic-dispatch capability.
pub const IID_IDISPATCH: u128 = 0x00020400_0000_0000_C000_000000000046;

/// Interface identifier of the type-description capability.
pub const IID_ITYPEINFO: u128 = 0x00020401_0000_0000_C000_000000000046;

/// A capability marker: a compile-time tag naming one runtime-queryable
/// interface by its identifier.
pub trait ComInterface {
    /// The capability's interface identifier.
    spec fn spec_iid() -> u128;

    /// The capability's interface identifier.
    fn iid() -> (r: u128)
        ensures
            r == Self::spec_iid(),
    ;
}

/// Marker for the base reference-counting capability.
pub struct IUnknown;

impl ComInterface for IUnknown {
    open spec fn spec_iid() -> u128 {
        IID_IUNKNOWN
    }

    fn iid() -> (r: u128) {
        IID_IUNKNOWN
    }
}

/// Marker for the dynamic-dispatch capability.
pub struct IDispatch;

impl ComInterface for IDispatch {
    open spec fn spec_iid() -> u128 {
        IID_IDISPATCH
    }

    fn iid() -> (r: u128) {
        IID_IDISPATCH
    }
}

/// Marker for the factory capability.
pub struct IClassFactory;

impl ComInterface for IClassFactory {
    open spec fn spec_iid() -> u128 {
        IID_ICLASSFACTORY
    }

    fn iid() -> (r: u128) {
        IID_ICLASSFACTORY
    }
}

/// Marker for the type-description capability.
pub struct ITypeInfo;

impl ComInterface for ITypeInfo {
    open spec fn spec_iid() -> u128 {
        IID_ITYPEINFO
    }

    fn iid() -> (r: u128) {
        IID_ITYPEINFO
    }
}

} // verus!
