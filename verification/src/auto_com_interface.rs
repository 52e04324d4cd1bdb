//! The reference-counted owning wrapper around a foreign object pointer.
//!
//! An [`AutoCOMInterface`] holds one non-null pointer into the foreign object
//! table, statically tagged with the capability it was obtained for, and
//! stands for exactly one held reference count.  Wrapping adopts a count the
//! pointer already carries; cloning takes a fresh count; releasing gives the
//! held count back; unwrapping hands the pointer — count included — to the
//! caller and the wrapper frees nothing.  Equality of handles is pointer
//! identity.

use vstd::prelude::*;

verus! {

use core::marker::PhantomData;

use crate::com_env::ComEnv;
use crate::com_interface::ComInterface;
use crate::hresult::E_POINTER;
use crate::hresult::SUCCEEDED;

/// An owning, capability-tagged wrapper of one non-null foreign object
/// pointer, representing one held reference count.
pub struct AutoCOMInterface<T: ComInterface> {
    /// The wrapped pointer; never null.
    ptr: usize,
    /// The capability tag.
    marker: PhantomData<T>,
}

impl<T: ComInterface> AutoCOMInterface<T> {
    /// The wrapped pointer.
    pub closed spec fn spec_ptr(self) -> usize {
        self.ptr
    }

    /// The handle points at a live object of the environment.
    pub open spec fn valid(self, env: ComEnv) -> bool {
        &&& self.spec_ptr() != 0
        &&& env.is_object(self.spec_ptr())
        &&& env.ref_count(self.spec_ptr()) > 0
    }

    /// The wrapped pointer, for handing to foreign calls that only read it.
    pub fn as_iunknown_ptr(&self) -> (r: usize)
        ensures
            r == self.spec_ptr(),
    {
        self.ptr
    }

    /// Wraps a pointer, adopting the one reference count it already carries;
    /// the null pointer is refused and nothing is adopted.
    pub fn try_from(x: usize) -> (r: Result<AutoCOMInterface<T>, &'static str>)
        ensures
            x != 0 ==> (r matches Ok(h) && h.spec_ptr() == x),
            x == 0 ==> r is Err,
    {
        if x != 0 {
            Ok(AutoCOMInterface { ptr: x, marker: PhantomData })
        } else {
            Err("Can't wrap uninitialized COM interface pointer in AutoCOMInterface!")
        }
    }

    /// Gives the pointer up to the caller together with the held count: the
    /// wrapper is consumed and no decrement follows.
    pub fn unwrap(self) -> (r: usize)
        ensures
            r == self.spec_ptr(),
    {
        self.ptr
    }

    /// Increments the object's count directly and returns the new count.
    pub fn add_ref(&self, env: &mut ComEnv) -> (r: u32)
        requires
            old(env).wf(),
            self.valid(*old(env)),
            old(env).ref_count(self.spec_ptr()) < 0xFFFF_FFFFu32,
        ensures
            final(env).wf(),
            r == old(env).ref_count(self.spec_ptr()) + 1,
            final(env).ref_count(self.spec_ptr()) == r,
            old(env).same_objects_except(*final(env), self.spec_ptr()),
            final(env).heap == old(env).heap,
            old(env).same_classes(*final(env)),
            final(env).locks() == old(env).locks(),
            final(env).calls() == old(env).calls(),
    {
        env.add_ref(self.ptr)
    }

    /// Decrements the object's count directly and returns the new count.  The
    /// wrapper stays behind; this is the raw counting operation, and dropping
    /// the last count destroys the object.
    pub fn release(&self, env: &mut ComEnv) -> (r: u32)
        requires
            old(env).wf(),
            self.valid(*old(env)),
        ensures
            final(env).wf(),
            r == old(env).ref_count(self.spec_ptr()) - 1,
            final(env).ref_count(self.spec_ptr()) == r,
            old(env).same_objects_except(*final(env), self.spec_ptr()),
            final(env).heap == old(env).heap,
            old(env).same_classes(*final(env)),
            final(env).locks() == old(env).locks(),
            final(env).calls() == old(env).calls(),
    {
        env.release(self.ptr)
    }

    /// A second owner of the same object: takes one fresh count and shares
    /// the pointer.
    pub fn clone(&self, env: &mut ComEnv) -> (r: AutoCOMInterface<T>)
        requires
            old(env).wf(),
            self.valid(*old(env)),
            old(env).ref_count(self.spec_ptr()) < 0xFFFF_FFFFu32,
        ensures
            final(env).wf(),
            r.spec_ptr() == self.spec_ptr(),
            final(env).ref_count(self.spec_ptr()) == old(env).ref_count(self.spec_ptr()) + 1,
            old(env).same_objects_except(*final(env), self.spec_ptr()),
            final(env).heap == old(env).heap,
            old(env).same_classes(*final(env)),
            final(env).locks() == old(env).locks(),
            final(env).calls() == old(env).calls(),
    {
        env.add_ref(self.ptr);
        AutoCOMInterface { ptr: self.ptr, marker: PhantomData }
    }

    /// Asks the object for another capability.  Support yields a handle of
    /// the new capability carrying its own fresh count; a success that hands
    /// back a null pointer is answered with the pointer-validity code, kept
    /// apart from the foreign no-such-interface code.
    pub fn query_interface<U: ComInterface>(&self, env: &mut ComEnv) -> (r: Result<
        AutoCOMInterface<U>,
        i32,
    >)
        requires
            old(env).wf(),
            self.valid(*old(env)),
            old(env).ref_count(self.spec_ptr()) < 0xFFFF_FFFFu32,
        ensures
            final(env).wf(),
            ({
                let s = old(env).script_of(self.spec_ptr());
                if s.qi_null@.contains(U::spec_iid()) {
                    r == Err::<AutoCOMInterface<U>, i32>(E_POINTER) && *final(env) == *old(env)
                } else if s.iids@.contains(U::spec_iid()) {
                    &&& r matches Ok(h) && h.spec_ptr() == self.spec_ptr()
                    &&& final(env).ref_count(self.spec_ptr()) == old(env).ref_count(
                        self.spec_ptr(),
                    ) + 1
                    &&& old(env).same_objects_except(*final(env), self.spec_ptr())
                    &&& final(env).heap == old(env).heap
                    &&& old(env).same_classes(*final(env))
                    &&& final(env).locks() == old(env).locks()
                    &&& final(env).calls() == old(env).calls()
                } else {
                    r == Err::<AutoCOMInterface<U>, i32>(crate::hresult::E_NOINTERFACE) && *final(env) == *old(env)
                }
            }),
    {
        let (hr, pvoid) = env.query_interface_prim(self.ptr, U::iid());
        if SUCCEEDED(hr) {
            match AutoCOMInterface::<U>::try_from(pvoid) {
                Ok(h) => Ok(h),
                Err(_) => Err(E_POINTER),
            }
        } else {
            Err(hr)
        }
    }

    /// Obtains the class object of a registered class for this capability,
    /// carrying one fresh count; success is the activation's own success
    /// predicate over its status code.
    pub fn get_class_object(env: &mut ComEnv, rclsid: u128, cls_context: u32) -> (r: Result<
        AutoCOMInterface<T>,
        i32,
    >)
        requires
            old(env).wf(),
        ensures
            final(env).wf(),
            if !old(env).class_registered(rclsid) {
                r == Err::<AutoCOMInterface<T>, i32>(crate::hresult::REGDB_E_CLASSNOTREG) && *final(env) == *old(env)
            } else if T::spec_iid() != crate::com_interface::IID_IUNKNOWN && T::spec_iid()
                != crate::com_interface::IID_ICLASSFACTORY {
                r == Err::<AutoCOMInterface<T>, i32>(crate::hresult::E_NOINTERFACE) && *final(env)
                    == *old(env)
            } else {
                &&& r matches Ok(h) && h.spec_ptr() == old(env).num_objects() + 1
                &&& r->Ok_0.valid(*final(env))
                &&& final(env).ref_count(r->Ok_0.spec_ptr()) == 1
                &&& final(env).script_of(r->Ok_0.spec_ptr()).factory_clsid == Some(rclsid)
                &&& final(env).num_objects() == old(env).num_objects() + 1
                &&& forall|q: usize|
                    old(env).is_object(q) ==> final(env).ref_count(q) == old(env).ref_count(q)
                        && final(env).script_of(q) == old(env).script_of(q)
                &&& final(env).heap == old(env).heap
                &&& old(env).same_classes(*final(env))
                &&& final(env).locks() == old(env).locks()
                &&& final(env).calls() == old(env).calls()
            },
    {
        match env.get_class_object_prim(rclsid, cls_context, T::iid()) {
            Ok(p) => {
                match AutoCOMInterface::<T>::try_from(p) {
                    Ok(h) => Ok(h),
                    Err(_) => {
                        proof {
                            assert(false);
                        }
                        Err(E_POINTER)
                    },
                }
            },
            Err(code) => Err(code),
        }
    }

    /// Creates one instance of a registered class for this capability,
    /// carrying one fresh count; success is the activation's own success
    /// predicate over its status code, and a non-null aggregation outer is
    /// refused.
    pub fn create_instance(
        env: &mut ComEnv,
        rclsid: u128,
        unk_outer: usize,
        cls_context: u32,
    ) -> (r: Result<AutoCOMInterface<T>, i32>)
        requires
            old(env).wf(),
        ensures
            final(env).wf(),
            if !old(env).class_registered(rclsid) {
                r == Err::<AutoCOMInterface<T>, i32>(crate::hresult::REGDB_E_CLASSNOTREG) && *final(env) == *old(env)
            } else if unk_outer != 0 {
                r == Err::<AutoCOMInterface<T>, i32>(crate::hresult::CLASS_E_NOAGGREGATION)
                    && *final(env) == *old(env)
            } else if !old(env).class_script(rclsid).iids@.contains(T::spec_iid()) {
                r == Err::<AutoCOMInterface<T>, i32>(crate::hresult::E_NOINTERFACE) && *final(env)
                    == *old(env)
            } else {
                &&& r matches Ok(h) && h.spec_ptr() == old(env).num_objects() + 1
                &&& r->Ok_0.valid(*final(env))
                &&& final(env).ref_count(r->Ok_0.spec_ptr()) == 1
                &&& crate::com_env::script_equiv(
                    final(env).script_of(r->Ok_0.spec_ptr()),
                    old(env).class_script(rclsid),
                )
                &&& final(env).num_objects() == old(env).num_objects() + 1
                &&& forall|q: usize|
                    old(env).is_object(q) ==> final(env).ref_count(q) == old(env).ref_count(q)
                        && final(env).script_of(q) == old(env).script_of(q)
                &&& final(env).heap == old(env).heap
                &&& old(env).same_classes(*final(env))
                &&& final(env).locks() == old(env).locks()
                &&& final(env).calls() == old(env).calls()
            },
    {
        match env.create_instance_prim(rclsid, unk_outer, cls_context, T::iid()) {
            Ok(p) => {
                match AutoCOMInterface::<T>::try_from(p) {
                    Ok(h) => Ok(h),
                    Err(_) => {
                        proof {
                            assert(false);
                        }
                        Err(E_POINTER)
                    },
                }
            },
            Err(code) => Err(code),
        }
    }
}

impl<T: ComInterface> PartialEq for AutoCOMInterface<T> {
    /// Handles are equal exactly when their pointers are: identity, not any
    /// domain notion of object equality.
    fn eq(&self, other: &AutoCOMInterface<T>) -> (r: bool) {
        self.ptr == other.ptr
    }
}

impl<T: ComInterface> vstd::std_specs::cmp::PartialEqSpecImpl for AutoCOMInterface<T> {
    open spec fn obeys_eq_spec() -> bool {
        true
    }

    open spec fn eq_spec(&self, other: &AutoCOMInterface<T>) -> bool {
        self.spec_ptr() == other.spec_ptr()
    }
}

} // verus!
