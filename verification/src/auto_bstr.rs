//! An owning wrapper for string handles with conversion from and to `String`.
//!
//! An [`AutoBSTR`] holds at most one string handle and carries the obligation
//! to free it exactly once.  Converting a string in allocates a fresh handle;
//! converting out decodes the handle's UTF-16 contents and frees it in the
//! same step, so no path through this type leaks a buffer.  The raw handle can
//! be extracted, which transfers the free-obligation to the caller, and a raw
//! handle can be adopted, which accepts it.

use vstd::prelude::*;

verus! {

use crate::bstr::BstrHeap;
use crate::bstr::SysAllocError;
use crate::bstr::SysAllocStringLen;
use crate::bstr::SysFreeString;
use crate::bstr::Utf16Src;
use crate::bstr::alloc_post;
use crate::utf16::decode16;
use crate::utf16::encode16;
use crate::utf16::string_to_utf16;
use crate::utf16::utf16_to_string_lossy;

/// Owns one string handle of a [`BstrHeap`]; the null handle stands for "no
/// string".
pub struct AutoBSTR {
    /// The owned handle, or 0 for none.
    pub handle: usize,
}

/// An `AutoBSTR` is valid for a heap when the handle it owns is either null or
/// live there.
pub open spec fn auto_bstr_valid(b: AutoBSTR, heap: BstrHeap) -> bool {
    b.handle == 0 || heap.is_live(b.handle)
}

impl AutoBSTR {
    /// Frees the owned handle now; a held null handle makes this a no-op.
    pub fn free(self, heap: &mut BstrHeap)
        requires
            old(heap).wf(),
            auto_bstr_valid(self, *old(heap)),
        ensures
            final(heap).wf(),
            final(heap).capacity() == old(heap).capacity(),
            final(heap).used() == old(heap).used(),
            self.handle == 0 ==> *final(heap) == *old(heap),
            self.handle != 0 ==> !final(heap).is_live(self.handle) && final(heap).live_handles()
                + 1 == old(heap).live_handles() && forall|h2: usize|
                h2 != self.handle ==> (final(heap).is_live(h2) == old(heap).is_live(h2)) && (old(heap).is_live(h2) ==> final(heap).contents(h2) == old(heap).contents(h2)),
    {
        SysFreeString(heap, self.handle);
    }

    /// Adopts a raw handle together with the obligation to free it.
    pub fn from_handle(h: usize) -> (r: AutoBSTR)
        ensures
            r.handle == h,
    {
        AutoBSTR { handle: h }
    }

    /// Gives the raw handle up to the caller, obligation included: the wrapper
    /// is consumed and frees nothing.
    pub fn into_handle(self) -> (r: usize)
        ensures
            r == self.handle,
    {
        self.handle
    }

    /// Encodes a string to UTF-16 and allocates a fresh handle holding every
    /// code unit, embedded terminators included.
    pub fn try_from_str(heap: &mut BstrHeap, s: &str) -> (r: Result<AutoBSTR, SysAllocError>)
        requires
            old(heap).wf(),
        ensures
            final(heap).wf(),
            final(heap).capacity() == old(heap).capacity(),
            ({
                let units = encode16(s@);
                &&& units.len() > 0xFFFF_FFFF ==> r == Err::<AutoBSTR, SysAllocError>(
                    SysAllocError::SourceStringTooLongError,
                ) && *final(heap) == *old(heap)
                &&& units.len() <= 0xFFFF_FFFF && !old(heap).can_alloc(units.len()) ==> r == Err::<
                    AutoBSTR,
                    SysAllocError,
                >(SysAllocError::BStrAllocationError) && *final(heap) == *old(heap)
                &&& units.len() <= 0xFFFF_FFFF && old(heap).can_alloc(units.len()) ==> (r matches Ok(b)
                    && alloc_post(
                    *old(heap),
                    *final(heap),
                    Ok::<usize, SysAllocError>(b.handle),
                    units,
                ))
            }),
    {
        let units = string_to_utf16(s);
        let src = Utf16Src::of_units(units);
        match SysAllocStringLen(heap, &src) {
            Ok(h) => Ok(AutoBSTR { handle: h }),
            Err(e) => Err(e),
        }
    }

    /// Encodes an owned string; see [`AutoBSTR::try_from_str`].
    pub fn try_from_string(heap: &mut BstrHeap, s: &String) -> (r: Result<AutoBSTR, SysAllocError>)
        requires
            old(heap).wf(),
        ensures
            final(heap).wf(),
            final(heap).capacity() == old(heap).capacity(),
            ({
                let units = encode16(s@);
                &&& units.len() > 0xFFFF_FFFF ==> r == Err::<AutoBSTR, SysAllocError>(
                    SysAllocError::SourceStringTooLongError,
                ) && *final(heap) == *old(heap)
                &&& units.len() <= 0xFFFF_FFFF && !old(heap).can_alloc(units.len()) ==> r == Err::<
                    AutoBSTR,
                    SysAllocError,
                >(SysAllocError::BStrAllocationError) && *final(heap) == *old(heap)
                &&& units.len() <= 0xFFFF_FFFF && old(heap).can_alloc(units.len()) ==> (r matches Ok(b)
                    && alloc_post(
                    *old(heap),
                    *final(heap),
                    Ok::<usize, SysAllocError>(b.handle),
                    units,
                ))
            }),
    {
        AutoBSTR::try_from_str(heap, s.as_str())
    }

    /// Decodes the owned handle's units to a string, lossily for unpaired
    /// surrogates, and frees the handle; a held null handle decodes to the
    /// empty string.
    pub fn into_string(self, heap: &mut BstrHeap) -> (r: String)
        requires
            old(heap).wf(),
            auto_bstr_valid(self, *old(heap)),
        ensures
            final(heap).wf(),
            final(heap).capacity() == old(heap).capacity(),
            final(heap).used() == old(heap).used(),
            self.handle == 0 ==> r@ == Seq::<char>::empty() && *final(heap) == *old(heap),
            self.handle != 0 ==> r@ == decode16(old(heap).contents(self.handle)) && !final(heap).is_live(self.handle) && final(heap).live_handles() + 1 == old(heap).live_handles()
                && forall|h2: usize|
                h2 != self.handle ==> (final(heap).is_live(h2) == old(heap).is_live(h2)) && (old(heap).is_live(h2) ==> final(heap).contents(h2) == old(heap).contents(h2)),
    {
        if self.handle == 0 {
            String::new()
        } else {
            let units = heap.units_of(self.handle);
            let text = utf16_to_string_lossy(&units);
            SysFreeString(heap, self.handle);
            text
        }
    }
}

impl Default for AutoBSTR {
    /// The wrapper holding no string.
    fn default() -> (r: AutoBSTR)
        ensures
            r.handle == 0,
    {
        AutoBSTR { handle: 0 }
    }
}

} // verus!
