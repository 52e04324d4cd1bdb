//! A verified safety layer for a late-bound automation object model: length-prefixed
//! string handles with their own allocator, reference-counted polymorphic object
//! handles with capability queries, a tagged-union value bridge, and a dynamic
//! dispatch protocol (name resolution and invocation), all specified and proved
//! against an explicit model of the foreign side.

pub mod auto_bstr;
pub mod auto_com_interface;
pub mod bstr;
pub mod com_env;
pub mod com_interface;
pub mod hresult;
pub mod smart_iclassfactory;
pub mod smart_idispatch;
pub mod smart_variant;
pub mod utf16;
