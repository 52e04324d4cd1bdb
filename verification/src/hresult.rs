//! Status codes, dispatch flags and locale constants of the automation layer.
//!
//! A status code is a signed 32-bit value; non-negative codes mean success.
//! The failure codes are given here as their decimal two's-complement values,
//! each with its conventional hexadecimal form in the doc comment.

use vstd::prelude::*;

verus! {

/// Success.
pub const S_OK: i32 = 0;

/// Unspecified failure (0x80004005).
pub const E_FAIL: i32 = -2147467259;

/// The requested capability is not supported (0x80004002).
pub const E_NOINTERFACE: i32 = -2147467262;

/// An invalid pointer was produced or supplied (0x80004003).
pub const E_POINTER: i32 = -2147467261;

/// The allocator is exhausted (0x8007000E).
pub const E_OUTOFMEMORY: i32 = -2147024882;

/// A name could not be resolved to a member id (0x80020006).
pub const DISP_E_UNKNOWNNAME: i32 = -2147352570;

/// No member carries the requested id and invocation kind (0x80020003).
pub const DISP_E_MEMBERNOTFOUND: i32 = -2147352573;

/// The requested description index is out of range (0x8002000B).
pub const DISP_E_BADINDEX: i32 = -2147352565;

/// No class is registered under the class identifier (0x80040154).
pub const REGDB_E_CLASSNOTREG: i32 = -2147221164;

/// The class does not support aggregation (0x80040110).
pub const CLASS_E_NOAGGREGATION: i32 = -2147221232;

/// Invocation kind: method call.
pub const DISPATCH_METHOD: u16 = 1;

/// Invocation kind: property read.
pub const DISPATCH_PROPERTYGET: u16 = 2;

/// Invocation kind: property write.
pub const DISPATCH_PROPERTYPUT: u16 = 4;

/// The user's default locale.
pub const LOCALE_USER_DEFAULT: u32 = 1024;

/// Execution-context bitmask asking for any available context (0x17).  The
/// activation model accepts any bitmask and passes it through unchanged.
pub const CLSCTX_ALL: u32 = 23;

/// A status code means success exactly when it is non-negative.
pub open spec fn spec_succeeded(hr: i32) -> bool {
    hr >= 0
}

/// Tests a status code for success.
#[allow(non_snake_case)]
#[verifier::when_used_as_spec(spec_succeeded)]
pub fn SUCCEEDED(hr: i32) -> (r: bool)
    ensures
        r == spec_succeeded(hr),
{
    hr >= 0
}

} // verus!
